//! Core of a URL-shortening service: short-key generation, target-URL
//! validation, a key-value store of short links with atomic hit counting,
//! and the service operations (create, resolve, delete) over that store.

pub mod config;
pub mod keygen;
pub mod model;
pub mod service;
pub mod store;
pub mod validate;
