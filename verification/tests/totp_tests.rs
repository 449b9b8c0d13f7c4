use otp::gen_totp;
use otp::totp::{hmac, hotp, totp};

#[test]
fn test_hmac() {
    let key = [0x0b_u8; 20];
    let digest = hmac(key.as_slice(), b"Hi There");
    assert_eq!(
        digest,
        [
            0xb6, 0x17, 0x31, 0x86, 0x55, 0x05, 0x72, 0x64, 0xe2, 0x8b, 0xc0, 0xb6, 0xfb, 0x37,
            0x8c, 0x8e, 0xf1, 0x46, 0xbe, 0x00
        ]
    );
}

#[test]
fn test_hmac2() {
    let key = b"Jefe";
    let digest = hmac(key.as_slice(), b"what do ya want for nothing?");
    assert_eq!(
        digest,
        [
            0xef, 0xfc, 0xdf, 0x6a, 0xe5, 0xeb, 0x2f, 0xa2, 0xd2, 0x74, 0x16, 0xd5, 0xf1, 0x84,
            0xdf, 0x9c, 0x25, 0x9a, 0x7c, 0x79
        ]
    );
}

#[test]
fn test_hmac_long_key_is_hashed_first() {
    let long_key = vec![0xaa_u8; 80];
    let digest = hmac(long_key.as_slice(), b"Test Using Larger Than Block-Size Key - Hash Key First");
    assert_eq!(
        digest,
        [
            0xaa, 0x4a, 0xe5, 0xe1, 0x52, 0x72, 0xd0, 0x0e, 0x95, 0x70, 0x56, 0x37, 0xce, 0x8a,
            0x3b, 0x55, 0xed, 0x40, 0x21, 0x12
        ]
    );
}

#[test]
fn test_mac_deterministic() {
    let first = hmac(b"key bytes", b"message bytes");
    let second = hmac(b"key bytes", b"message bytes");
    assert_eq!(first, second);
}

#[test]
fn test_hotp_uses_modulo_of_window() {
    let key = b"12345678901234567890";
    let counter = [0_u8, 0, 0, 0, 0, 0, 0, 7];
    let tag = hmac(key.as_slice(), counter.as_slice());
    let offset = (tag[19] & 0x0F) as usize;
    let window = u32::from_be_bytes([tag[offset], tag[offset + 1], tag[offset + 2], tag[offset + 3]])
        & 0x7FFF_FFFF;
    assert_eq!(hotp(key.as_slice(), counter.as_slice()), window % 1_000_000);
}

#[test]
fn test_hotp_known_counters() {
    let key = b"12345678901234567890";
    assert_eq!(hotp(key.as_slice(), &[0, 0, 0, 0, 0, 0, 0, 0]), 755224);
    assert_eq!(hotp(key.as_slice(), &[0, 0, 0, 0, 0, 0, 0, 1]), 287082);
    assert_eq!(hotp(key.as_slice(), &[0, 0, 0, 0, 0, 0, 0, 2]), 359152);
}

#[test]
fn test_hotp_deterministic() {
    let key = b"a key";
    let counter = [0_u8, 0, 0, 0, 0, 0, 0, 42];
    assert_eq!(
        hotp(key.as_slice(), counter.as_slice()),
        hotp(key.as_slice(), counter.as_slice())
    );
}

#[test]
fn test_totp_fixed_clock_matches_hotp() {
    let key = b"12345678901234567890";
    // 59 seconds after the epoch with a 30-second step: the counter is 1.
    let counter = [0_u8, 0, 0, 0, 0, 0, 0, 1];
    assert_eq!(totp(key.as_slice(), 30, 59), hotp(key.as_slice(), counter.as_slice()));
    assert_eq!(gen_totp(key.as_slice(), 59), hotp(key.as_slice(), counter.as_slice()));
}

#[test]
fn test_totp_step_length_drives_counter() {
    let key = b"another key";
    // 120 seconds with a 60-second step: the counter is 2.
    let counter = [0_u8, 0, 0, 0, 0, 0, 0, 2];
    assert_eq!(totp(key.as_slice(), 60, 120), hotp(key.as_slice(), counter.as_slice()));
    // One second before the next step boundary the counter is still 2.
    assert_eq!(totp(key.as_slice(), 60, 179), hotp(key.as_slice(), counter.as_slice()));
}
