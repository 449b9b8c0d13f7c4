//! The keyed authentication tag built on the digest engine, the
//! counter-truncation code, and the time-step driver. The current time is an
//! injected parameter: the caller reads the clock and passes the seconds in.
use crate::crypt::{be32, be64_bytes, digest, sha1, Block};
use vstd::prelude::*;
use vstd::slice::slice_to_vec;

verus! {

// ----------------------------------------------------------------------
// Mathematical model
// ----------------------------------------------------------------------

/// `n` zero bytes.
pub open spec fn zero_bytes(n: nat) -> Seq<u8> {
    Seq::new(n, |i: int| 0u8)
}

/// The key brought to exactly 64 bytes: hashed first when longer than 64,
/// and zero-padded to length 64 either way.
pub open spec fn norm_key(key: Seq<u8>) -> Seq<u8>
    recommends
        8 * key.len() <= u64::MAX,
{
    if key.len() > 64 {
        sha1(key) + zero_bytes(44)
    } else {
        key + zero_bytes((64 - key.len()) as nat)
    }
}

/// Every byte of `k` combined with the pad byte `p` by exclusive or.
pub open spec fn xor_all(k: Seq<u8>, p: u8) -> Seq<u8> {
    Seq::new(k.len(), |i: int| k[i] ^ p)
}

/// The 20-byte tag for a key and a message: two applications of the padded
/// digest, the inner over the 0x36-padded key, the outer over the
/// 0x5C-padded key.
pub open spec fn hmac_spec(key: Seq<u8>, msg: Seq<u8>) -> Seq<u8>
    recommends
        8 * key.len() <= u64::MAX,
        8 * (64 + msg.len()) <= u64::MAX,
{
    sha1(xor_all(norm_key(key), 0x5C) + sha1(xor_all(norm_key(key), 0x36) + msg))
}

/// The dynamic-truncation offset: the low four bits of the tag's last byte.
pub open spec fn dt_offset(tag: Seq<u8>) -> int
    recommends
        tag.len() == 20,
{
    (tag[19] & 0x0F) as int
}

/// The 31-bit window read big-endian at the truncation offset.
pub open spec fn dt_window(tag: Seq<u8>) -> u32
    recommends
        tag.len() == 20,
{
    be32(tag[dt_offset(tag)], tag[dt_offset(tag) + 1], tag[dt_offset(tag) + 2], tag[dt_offset(tag)
        + 3]) & 0x7FFF_FFFF
}

/// The six-digit code of a key and counter: the truncation window reduced
/// modulo 1,000,000.
pub open spec fn hotp_spec(key: Seq<u8>, counter: Seq<u8>) -> u32
    recommends
        8 * key.len() <= u64::MAX,
        8 * (64 + counter.len()) <= u64::MAX,
{
    dt_window(hmac_spec(key, counter)) % 1_000_000
}

/// The six-digit code of a key at a point in time: the counter is the number
/// of whole steps since the epoch, laid out as eight big-endian bytes.
pub open spec fn totp_spec(key: Seq<u8>, step_seconds: u64, now_seconds: u64) -> u32
    recommends
        step_seconds >= 1,
        8 * key.len() <= u64::MAX,
{
    hotp_spec(key, be64_bytes(now_seconds / step_seconds))
}

// ----------------------------------------------------------------------
// Executable code
// ----------------------------------------------------------------------

/// The 20-byte authentication tag of `counter` under `key`.
pub fn hmac(key: &[u8], counter: &[u8]) -> (tag: Vec<u8>)
    requires
        8 * key@.len() <= u64::MAX,
        key@.len() + 72 <= usize::MAX,
        8 * (64 + counter@.len()) <= u64::MAX,
        counter@.len() + 136 <= usize::MAX,
    ensures
        tag@ == hmac_spec(key@, counter@),
        tag@.len() == 20,
{
    let ghost base: Seq<u8> = if key@.len() > 64 {
        sha1(key@)
    } else {
        key@
    };
    let mut key_bytes: Vec<u8> = if key.len() > 64 {
        digest(Block::from_bytes(slice_to_vec(key)))
    } else {
        slice_to_vec(key)
    };
    proof {
        assert(key_bytes@ =~= base + zero_bytes((key_bytes@.len() - base.len()) as nat));
    }
    while key_bytes.len() < 64
        invariant
            base.len() <= key_bytes@.len() <= 64,
            key_bytes@ == base + zero_bytes((key_bytes@.len() - base.len()) as nat),
        decreases 64 - key_bytes@.len(),
    {
        key_bytes.push(0x00);
        proof {
            assert(key_bytes@ =~= base + zero_bytes((key_bytes@.len() - base.len()) as nat));
        }
    }
    proof {
        assert(key_bytes@ == norm_key(key@));
    }
    let mut inner_input: Vec<u8> = Vec::new();
    let mut i: usize = 0;
    while i < 64
        invariant
            i <= 64,
            key_bytes@.len() == 64,
            key_bytes@ == norm_key(key@),
            inner_input@.len() == i,
            forall|j: int| 0 <= j < i ==> inner_input@[j] == (norm_key(key@)[j] ^ 0x36),
        decreases 64 - i,
    {
        inner_input.push(key_bytes[i] ^ 0x36);
        i = i + 1;
    }
    inner_input.extend_from_slice(counter);
    proof {
        assert(inner_input@ =~= xor_all(norm_key(key@), 0x36) + counter@);
    }
    let inner: Vec<u8> = digest(Block::from_bytes(inner_input));
    let mut outer_input: Vec<u8> = Vec::new();
    let mut o: usize = 0;
    while o < 64
        invariant
            o <= 64,
            key_bytes@.len() == 64,
            key_bytes@ == norm_key(key@),
            outer_input@.len() == o,
            forall|j: int| 0 <= j < o ==> outer_input@[j] == (norm_key(key@)[j] ^ 0x5C),
        decreases 64 - o,
    {
        outer_input.push(key_bytes[o] ^ 0x5C);
        o = o + 1;
    }
    outer_input.extend_from_slice(inner.as_slice());
    proof {
        assert(outer_input@ =~= xor_all(norm_key(key@), 0x5C) + sha1(
            xor_all(norm_key(key@), 0x36) + counter@,
        ));
    }
    digest(Block::from_bytes(outer_input))
}

/// The six-digit counter-based code: the tag's truncation window reduced
/// modulo 1,000,000 — a modulo, not a bitwise mask.
pub fn hotp(key: &[u8], counter: &[u8]) -> (code: u32)
    requires
        8 * key@.len() <= u64::MAX,
        key@.len() + 72 <= usize::MAX,
        8 * (64 + counter@.len()) <= u64::MAX,
        counter@.len() + 136 <= usize::MAX,
    ensures
        code == hotp_spec(key@, counter@),
        code == dt_window(hmac_spec(key@, counter@)) % 1_000_000,
        code < 1_000_000,
{
    let tag: Vec<u8> = hmac(key, counter);
    let last: u8 = tag[19];
    proof {
        assert(last & 0x0F < 16) by (bit_vector);
    }
    let offset: usize = (last & 0x0F) as usize;
    let w0: u32 = (tag[offset] as u32) * 0x100_0000 + (tag[offset + 1] as u32) * 0x1_0000 + (tag[
        offset + 2] as u32) * 0x100 + (tag[offset + 3] as u32);
    let window: u32 = w0 & 0x7FFF_FFFF;
    window % 1_000_000
}

/// The six-digit time-based code for `key`, from the injected clock reading
/// `now_seconds` and the step length `step_seconds`.
pub fn totp(key: &[u8], step_seconds: u64, now_seconds: u64) -> (code: u32)
    requires
        step_seconds >= 1,
        8 * key@.len() <= u64::MAX,
        key@.len() + 72 <= usize::MAX,
    ensures
        code == totp_spec(key@, step_seconds, now_seconds),
        code < 1_000_000,
{
    let t: u64 = now_seconds / step_seconds;
    let mut counter: Vec<u8> = Vec::new();
    counter.push((t / 0x100_0000_0000_0000) as u8);
    counter.push(((t / 0x1_0000_0000_0000) % 0x100) as u8);
    counter.push(((t / 0x100_0000_0000) % 0x100) as u8);
    counter.push(((t / 0x1_0000_0000) % 0x100) as u8);
    counter.push(((t / 0x100_0000) % 0x100) as u8);
    counter.push(((t / 0x1_0000) % 0x100) as u8);
    counter.push(((t / 0x100) % 0x100) as u8);
    counter.push((t % 0x100) as u8);
    proof {
        assert(counter@ =~= be64_bytes(t));
    }
    hotp(key, counter.as_slice())
}

// ----------------------------------------------------------------------
// Laws
// ----------------------------------------------------------------------

/// Law: the tag is a function of key and message alone, so two calls on
/// equal inputs agree.
pub proof fn lemma_hmac_deterministic(k1: Seq<u8>, m1: Seq<u8>, k2: Seq<u8>, m2: Seq<u8>)
    requires
        k1 == k2,
        m1 == m2,
    ensures
        hmac_spec(k1, m1) == hmac_spec(k2, m2),
{
}

/// Law: the counter code is a function of key and counter alone, so two
/// calls on equal inputs agree.
pub proof fn lemma_hotp_deterministic(k1: Seq<u8>, c1: Seq<u8>, k2: Seq<u8>, c2: Seq<u8>)
    requires
        k1 == k2,
        c1 == c2,
    ensures
        hotp_spec(k1, c1) == hotp_spec(k2, c2),
{
}

/// Law: the code truncates by reduction modulo 1,000,000 of the 31-bit
/// window, never by a bitwise mask.
pub proof fn lemma_hotp_is_modulo(key: Seq<u8>, counter: Seq<u8>)
    ensures
        hotp_spec(key, counter) == dt_window(hmac_spec(key, counter)) % 1_000_000,
        hotp_spec(key, counter) < 1_000_000,
{
}

/// Law: with the clock fixed at `now_seconds` and the step length fixed, the
/// time-based code equals the counter-based code of the derived counter.
pub proof fn lemma_totp_matches_hotp(
    key: Seq<u8>,
    step_seconds: u64,
    now_seconds: u64,
    counter: Seq<u8>,
)
    requires
        step_seconds >= 1,
        counter == be64_bytes(now_seconds / step_seconds),
    ensures
        totp_spec(key, step_seconds, now_seconds) == hotp_spec(key, counter),
{
}

} // verus!
