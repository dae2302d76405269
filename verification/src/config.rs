//! Application configuration: assembled once at startup from the values the
//! environment supplies, then read-only. A malformed value is a
//! configuration error, never a silent default.
use vstd::prelude::*;

use crate::jsontext::all_digits;
use crate::jsontext::digits_val;
use crate::jsontext::is_digit;
use crate::jsontext::lemma_digits_val_append;
use vstd::string::StringSliceAdditionalSpecFns;
use vstd::utf8::encode_utf8;

verus! {

/// What the service needs to run: where the database is, which port to
/// listen on, and the process-wide secret the token codec signs with.
#[derive(Debug)]
pub struct Config {
    pub database_url: String,
    pub port: u16,
    pub hmac_secret: String,
}

/// The port texts accepted: an optional plus sign, then decimal digits,
/// valued at most 65535 — exactly what the standard `u16` parse takes.
pub open spec fn spec_parse_port(s: Seq<u8>) -> Option<u16> {
    let digits = if s.len() >= 1 && s[0] == 43 {
        s.skip(1)
    } else {
        s
    };
    if digits.len() == 0 || !all_digits(digits) {
        None
    } else if digits_val(digits, 0) > 65535 {
        None
    } else {
        Some(digits_val(digits, 0) as u16)
    }
}

/// Reading the rest of an all-digit string from a non-negative value never
/// lowers it.
proof fn lemma_digits_val_suffix(digits: Seq<u8>, k: int, acc: int)
    requires
        all_digits(digits),
        0 <= k <= digits.len(),
        acc >= 0,
        digits_val(digits.take(k), 0) == acc,
    ensures
        digits_val(digits, 0) >= acc,
    decreases digits.len() - k,
{
    if k == digits.len() {
        assert(digits.take(k) =~= digits);
    } else {
        assert(digits.take(k + 1).drop_last() =~= digits.take(k));
        assert(digits.take(k + 1) =~= digits.take(k) + seq![digits[k]]);
        lemma_digits_val_append(digits.take(k), digits[k], 0);
        assert(is_digit(digits[k]));
        lemma_digits_val_suffix(digits, k + 1, acc * 10 + (digits[k] - 48));
    }
}

/// Reads a port number from its text.
pub fn parse_port(s: &str) -> (r: Option<u16>)
    ensures
        r == spec_parse_port(s.spec_bytes()),
{
    let b = s.as_bytes();
    let start: usize = if b.len() >= 1 && b[0] == 43 {
        1
    } else {
        0
    };
    let ghost digits = if s.spec_bytes().len() >= 1 && s.spec_bytes()[0] == 43 {
        s.spec_bytes().skip(1)
    } else {
        s.spec_bytes()
    };
    proof {
        assert(digits =~= b@.skip(start as int));
    }
    if b.len() == start {
        return None;
    }
    let mut acc: u32 = 0;
    let mut i = start;
    proof {
        assert(digits.take(0) =~= Seq::<u8>::empty());
    }
    while i < b.len()
        invariant
            b@ == s.spec_bytes(),
            b@.len() <= usize::MAX,
            start <= 1,
            start <= i <= b@.len(),
            digits == (if b@.len() >= 1 && b@[0] == 43 {
                b@.skip(1)
            } else {
                b@
            }),
            digits == b@.skip(start as int),
            acc <= 65535,
            acc == digits_val(digits.take(i - start), 0),
            all_digits(digits.take(i - start)),
        decreases b@.len() - i,
    {
        let d = b[i];
        proof {
            assert(digits[i - start] == b@[i as int]);
            assert(digits.take(i + 1 - start) =~= digits.take(i - start) + seq![b@[i as int]]);
        }
        if !(48 <= d && d <= 57) {
            proof {
                assert(!is_digit(digits[i - start]));
            }
            return None;
        }
        proof {
            lemma_digits_val_append(digits.take(i - start), d, 0);
        }
        acc = acc * 10 + ((d - 48) as u32);
        if acc > 65535 {
            proof {
                if all_digits(digits) {
                    lemma_digits_val_suffix(digits, i + 1 - start, acc as int);
                }
            }
            return None;
        }
        proof {
            assert(all_digits(digits.take(i + 1 - start)));
        }
        i = i + 1;
    }
    proof {
        assert(digits.take(i - start) =~= digits);
    }
    Some(acc as u16)
}

/// Builds the configuration from the environment's raw values: the database
/// URL and the secret are required; the port defaults to 3000 when absent,
/// and a port text that does not parse is an error.
pub fn load(database_url: Option<String>, port: Option<String>, hmac_secret: Option<String>) -> (r:
    Result<Config, &'static str>)
    ensures
        r is Ok <==> (database_url is Some && hmac_secret is Some && (port is None
            || spec_parse_port(encode_utf8(port->Some_0@)) is Some)),
        r matches Ok(c) ==> {
            &&& c.database_url@ == database_url->Some_0@
            &&& c.hmac_secret@ == hmac_secret->Some_0@
            &&& c.port == match port {
                Some(p) => spec_parse_port(encode_utf8(p@))->Some_0,
                None => 3000u16,
            }
        },
        r matches Err(m) ==> m@ == "Failed to parse environment variables"@,
{
    let port_value: u16 = match &port {
        Some(p) => match parse_port(p.as_str()) {
            Some(v) => v,
            None => {
                return Err("Failed to parse environment variables");
            },
        },
        None => 3000,
    };
    match (database_url, hmac_secret) {
        (Some(db), Some(secret)) => Ok(
            Config { database_url: db, port: port_value, hmac_secret: secret },
        ),
        _ => Err("Failed to parse environment variables"),
    }
}

} // verus!
