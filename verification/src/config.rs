//! Assembly of the application's configuration from the values its
//! environment supplies: a required database connection string and an
//! optional listen port, which must be a decimal 16-bit number when given.
//! Reading the environment itself is the caller's business; this module
//! only decides what the supplied values mean.

use vstd::prelude::*;

verus! {

/// The settings the application runs with.
#[derive(Clone, Debug, PartialEq, Eq)]
pub struct Configuration {
    pub database_url: String,
    pub port: u16,
}

/// Why configuration could not be assembled.
#[derive(Clone, Copy, PartialEq, Eq, Structural, Debug)]
pub enum ConfigError {
    /// No database connection string was supplied.
    MissingDatabaseUrl,
    /// The supplied port value is not a decimal 16-bit number.
    InvalidPort,
}

/// The listen port used when none is supplied.
pub const DEFAULT_PORT: u16 = 3000;

/// A decimal digit, as a byte.
pub open spec fn is_ascii_digit(b: u8) -> bool {
    48 <= b <= 57
}

/// Every byte of the sequence is a decimal digit.
pub open spec fn all_ascii_digits(s: Seq<u8>) -> bool {
    forall|i: int| 0 <= i < s.len() ==> is_ascii_digit(#[trigger] s[i])
}

/// The number a digit string stands for, most significant digit first.
pub open spec fn digits_value(s: Seq<u8>) -> int
    decreases s.len(),
{
    if s.len() == 0 {
        0
    } else {
        digits_value(s.drop_last()) * 10 + (s.last() - 48)
    }
}

/// What parsing an unsigned 16-bit decimal number accepts: an optional
/// leading `+` (byte 43), then one or more decimal digits, whose value
/// fits in 16 bits.
pub open spec fn spec_parse_u16(s: Seq<u8>) -> Option<u16> {
    let body = if s.len() > 0 && s[0] == 43u8 {
        s.subrange(1, s.len() as int)
    } else {
        s
    };
    if body.len() > 0 && all_ascii_digits(body) && digits_value(body) <= 65535 {
        Some(digits_value(body) as u16)
    } else {
        None
    }
}

/// Parses a decimal unsigned 16-bit number from the bytes of a supplied
/// value: an optional leading `+`, then one or more digits; anything else,
/// or a value above 65535, is rejected.
pub fn parse_u16(s: &Vec<u8>) -> (r: Option<u16>)
    ensures
        r == spec_parse_u16(s@),
{
    let ghost body: Seq<u8> = if s@.len() > 0 && s@[0] == 43u8 {
        s@.subrange(1, s@.len() as int)
    } else {
        s@
    };
    let start: usize = if s.len() > 0 && s[0] == 43u8 {
        1
    } else {
        0
    };
    proof {
        assert(body =~= s@.subrange(start as int, s@.len() as int));
    }
    if s.len() == start {
        return None;
    }
    let mut i: usize = start;
    let mut acc: u32 = 0;
    let mut overflow: bool = false;
    while i < s.len()
        invariant
            start <= i <= s@.len(),
            start < s@.len(),
            start == (if s@.len() > 0 && s@[0] == 43u8 { 1usize } else { 0usize }),
            body == s@.subrange(start as int, s@.len() as int),
            forall|j: int| start <= j < i ==> is_ascii_digit(#[trigger] s@[j]),
            !overflow ==> acc == digits_value(s@.subrange(start as int, i as int)) && acc
                <= 65535,
            overflow ==> digits_value(s@.subrange(start as int, i as int)) > 65535,
        decreases s@.len() - i,
    {
        let b = s[i];
        if b < 48 || b > 57 {
            proof {
                assert(body[i as int - start as int] == s@[i as int]);
                assert(!is_ascii_digit(body[i as int - start as int]));
            }
            return None;
        }
        proof {
            assert(s@.subrange(start as int, i + 1 as int).drop_last() =~= s@.subrange(
                start as int,
                i as int,
            ));
            assert(s@.subrange(start as int, i + 1 as int).last() == s@[i as int]);
        }
        let d: u32 = (b - 48) as u32;
        if !overflow {
            let next: u32 = acc * 10 + d;
            if next > 65535 {
                overflow = true;
            } else {
                acc = next;
            }
        }
        i = i + 1;
    }
    proof {
        assert(body =~= s@.subrange(start as int, i as int));
    }
    if overflow {
        None
    } else {
        Some(acc as u16)
    }
}

/// Assembles the configuration from what the environment supplied: the
/// connection string is required; the port is optional, defaults when
/// absent, and must be a decimal 16-bit number (given as the bytes of the
/// supplied value) when present.
pub fn build_configuration(database_url: Option<String>, port: Option<Vec<u8>>) -> (r: Result<
    Configuration,
    ConfigError,
>)
    ensures
        database_url is None ==> r == Err::<Configuration, ConfigError>(
            ConfigError::MissingDatabaseUrl,
        ),
        database_url matches Some(d) ==> match port {
            None => r matches Ok(c) && c.database_url@ == d@ && c.port == DEFAULT_PORT,
            Some(p) => match spec_parse_u16(p@) {
                Some(n) => r matches Ok(c) && c.database_url@ == d@ && c.port == n,
                None => r == Err::<Configuration, ConfigError>(ConfigError::InvalidPort),
            },
        },
{
    let db = match database_url {
        Some(d) => d,
        None => {
            return Err(ConfigError::MissingDatabaseUrl);
        },
    };
    let port_num: u16 = match port {
        Some(p) => match parse_u16(&p) {
            Some(n) => n,
            None => {
                return Err(ConfigError::InvalidPort);
            },
        },
        None => DEFAULT_PORT,
    };
    Ok(Configuration { database_url: db, port: port_num })
}

} // verus!
