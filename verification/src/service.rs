//! The shortener service: the three public operations (create, resolve,
//! delete) over a short-link store. It validates input before any store
//! interaction, retries create a bounded number of times on a duplicate
//! key, and treats an absent key as `NotFound`, never as a backend failure.

use vstd::prelude::*;

use crate::keygen::{all_url_safe, generate, DEFAULT_KEY_LENGTH};
use crate::model::{model_create, model_delete, model_increment};
use crate::store::{MemStore, StoreError};
use crate::validate::{is_valid_url, spec_is_valid_url};

verus! {

/// A request to shorten a URL: the target, and an optional key length
/// (the default applies when it is absent).
pub struct ShortenReq {
    pub url: String,
    pub length: Option<usize>,
}

/// A request to delete a short link by its key.
pub struct DeleteReq {
    pub key: String,
}

/// How an operation failed, as surfaced to the caller.
#[derive(Clone, Copy, PartialEq, Eq, Structural, Debug)]
pub enum ServiceError {
    /// Caller-supplied input fails a precondition: an invalid URL, a
    /// zero-length key request, an empty delete key.
    ValidationError,
    /// The requested key does not exist; a normal outcome, not a failure
    /// of the store.
    NotFound,
    /// The backend failed, or create ran out of retry attempts.
    PersistenceError,
}

/// A successful create: the new short key and the target it points to.
#[derive(Clone, Debug)]
pub struct CreateSuccess {
    pub short_key: String,
    pub target_url: String,
}

/// How many keys create tries before giving up on duplicate keys.
pub const MAX_CREATE_ATTEMPTS: usize = 5;

/// A create request is rejected before any store interaction exactly when
/// the URL is not a valid target or the caller asks for a zero-length key.
pub open spec fn spec_create_rejected(url: Seq<char>, length: Option<usize>) -> bool {
    !spec_is_valid_url(url) || length == Some(0usize)
}

/// The key length a create request asks for: the explicit value, or the
/// default when none is given.
pub open spec fn spec_effective_length(length: Option<usize>) -> usize {
    match length {
        Some(n) => n,
        None => DEFAULT_KEY_LENGTH,
    }
}

/// Checks a create request before any store interaction and resolves the
/// key length; rejected requests fail with `ValidationError`.
pub fn validate_request(url: &String, length: Option<usize>) -> (r: Result<usize, ServiceError>)
    ensures
        r is Ok <==> !spec_create_rejected(url@, length),
        r matches Ok(n) ==> n == spec_effective_length(length) && n > 0,
        r is Err ==> r == Err::<usize, ServiceError>(ServiceError::ValidationError),
{
    if !is_valid_url(url.as_str()) {
        return Err(ServiceError::ValidationError);
    }
    match length {
        Some(n) => {
            if n == 0 {
                Err(ServiceError::ValidationError)
            } else {
                Ok(n)
            }
        },
        None => Ok(DEFAULT_KEY_LENGTH),
    }
}

/// What create does after one store attempt.
#[derive(Clone, Copy, PartialEq, Eq, Structural, Debug)]
pub enum CreateStep {
    /// The record was stored; answer the caller.
    Done,
    /// The key was taken; try again with a fresh key.
    Retry,
    /// Stop: a backend failure, or the attempt bound is spent.
    GiveUp,
}

/// The retry policy of create, as a pure decision over the outcome of one
/// store attempt and the number of attempts made so far (this one
/// included): a duplicate key is retried while attempts remain; a backend
/// failure is never retried.
pub fn create_retry_step(outcome: &Result<(), StoreError>, attempts_used: usize) -> (r: CreateStep)
    ensures
        outcome is Ok ==> r == CreateStep::Done,
        outcome == Err::<(), StoreError>(StoreError::DuplicateKey) ==> r == (
        if attempts_used < MAX_CREATE_ATTEMPTS {
            CreateStep::Retry
        } else {
            CreateStep::GiveUp
        }),
        outcome == Err::<(), StoreError>(StoreError::Backend) ==> r == CreateStep::GiveUp,
{
    match outcome {
        Ok(()) => CreateStep::Done,
        Err(StoreError::DuplicateKey) => {
            if attempts_used < MAX_CREATE_ATTEMPTS {
                CreateStep::Retry
            } else {
                CreateStep::GiveUp
            }
        },
        Err(StoreError::Backend) => CreateStep::GiveUp,
    }
}

/// Creates a short link for `req.url`: validates the URL and the requested
/// length, generates a random key of the effective length, and stores the
/// mapping, retrying with a fresh key on a duplicate up to the attempt
/// bound. The keys are random, so success cannot be promised; whatever
/// happens, a rejected request or a failure leaves the store unchanged,
/// and success binds a previously unbound key to exactly the given URL.
pub fn create(store: &mut MemStore, req: ShortenReq) -> (r: Result<CreateSuccess, ServiceError>)
    requires
        old(store).wf(),
    ensures
        final(store).wf(),
        r == Err::<CreateSuccess, ServiceError>(ServiceError::ValidationError)
            <==> spec_create_rejected(req.url@, req.length),
        r matches Ok(cs) ==> cs.target_url@ == req.url@
            && cs.short_key@.len() == spec_effective_length(req.length)
            && all_url_safe(cs.short_key@)
            && !old(store)@.contains_key(cs.short_key@)
            && final(store)@ == model_create(old(store)@, cs.short_key@, req.url@),
        r is Err ==> final(store)@ == old(store)@,
        r != Err::<CreateSuccess, ServiceError>(ServiceError::NotFound),
{
    let length = match validate_request(&req.url, req.length) {
        Ok(n) => n,
        Err(e) => {
            return Err(e);
        },
    };
    let mut attempts: usize = 0;
    while attempts < MAX_CREATE_ATTEMPTS
        invariant
            store.wf(),
            store@ == old(store)@,
            !spec_create_rejected(req.url@, req.length),
            length == spec_effective_length(req.length),
            length > 0,
        decreases MAX_CREATE_ATTEMPTS - attempts,
    {
        let key = match generate(length) {
            Ok(k) => k,
            Err(_) => {
                return Err(ServiceError::PersistenceError);
            },
        };
        match store.create(key.clone(), req.url.clone()) {
            Ok(()) => {
                return Ok(CreateSuccess { short_key: key, target_url: req.url });
            },
            Err(StoreError::DuplicateKey) => {
                attempts = attempts + 1;
            },
            Err(StoreError::Backend) => {
                return Err(ServiceError::PersistenceError);
            },
        }
    }
    Err(ServiceError::PersistenceError)
}

/// Resolves a short key: returns the target URL it is bound to and adds
/// one hit to its counter, or fails with `NotFound` when the key is not
/// bound, leaving the store unchanged. Against this in-memory store the
/// hit lands atomically with the resolve; against a remote backend the
/// increment runs detached from the response path, and this contract
/// states its eventual effect.
pub fn resolve(store: &mut MemStore, key: &String) -> (r: Result<String, ServiceError>)
    requires
        old(store).wf(),
    ensures
        final(store).wf(),
        r is Ok <==> old(store)@.contains_key(key@),
        r matches Ok(target) ==> target@ == old(store)@[key@].target && final(store)@
            == model_increment(old(store)@, key@),
        r is Err ==> r == Err::<String, ServiceError>(ServiceError::NotFound) && final(store)@
            == old(store)@,
    {
    match store.find_by_key(key) {
        Some(link) => {
            store.increment_hits(key);
            Ok(link.target_url)
        },
        None => Err(ServiceError::NotFound),
    }
}

/// Deletes a short link. An empty key is rejected with `ValidationError`;
/// deleting a key that is not bound fails with `NotFound`; both leave the
/// store unchanged. Otherwise the binding is removed.
pub fn delete(store: &mut MemStore, req: DeleteReq) -> (r: Result<(), ServiceError>)
    requires
        old(store).wf(),
    ensures
        final(store).wf(),
        req.key@.len() == 0 ==> r == Err::<(), ServiceError>(ServiceError::ValidationError),
        req.key@.len() > 0 ==> (r is Ok <==> old(store)@.contains_key(req.key@)),
        r is Ok ==> final(store)@ == model_delete(old(store)@, req.key@),
        r is Err ==> final(store)@ == old(store)@,
        req.key@.len() > 0 && !old(store)@.contains_key(req.key@) ==> r == Err::<(),
            ServiceError,
        >(ServiceError::NotFound),
    {
    let key = req.key;
    if key.as_str().is_empty() {
        return Err(ServiceError::ValidationError);
    }
    let rows = store.delete_by_key(&key);
    if rows == 0 {
        proof {
            assert(model_delete(old(store)@, key@) =~= old(store)@);
        }
        Err(ServiceError::NotFound)
    } else {
        Ok(())
    }
}

} // verus!
