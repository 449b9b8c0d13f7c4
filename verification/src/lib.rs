//! One-time password core: a from-scratch digest engine, a keyed
//! authentication tag built on it, and counter- and time-based numeric codes.
use vstd::prelude::*;

pub mod crypt;
pub mod heap;
pub mod totp;

verus! {

/// One-time code for `key` at the injected clock reading `now_seconds`,
/// with the default 30-second step.
pub fn gen_totp(key: &[u8], now_seconds: u64) -> (code: u32)
    requires
        8 * key@.len() <= u64::MAX,
        key@.len() + 72 <= usize::MAX,
    ensures
        code == totp::totp_spec(key@, 30, now_seconds),
        code < 1_000_000,
{
    totp::totp(key, 30, now_seconds)
}

} // verus!
