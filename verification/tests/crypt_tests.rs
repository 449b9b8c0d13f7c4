use otp::crypt::digest;
use otp::crypt::Block;

#[test]
fn test_padding_block() {
    let message = "abcde";
    let blocks = Block::new(message);
    assert_eq!(blocks.len(), 1);

    let block = &blocks[0];
    assert_eq!(format!("{:08X}", block.word(0)), "61626364");
    assert_eq!(format!("{:08X}", block.word(1)), "65800000");
    assert_eq!(format!("{:08X}", block.word(2)), "00000000");
    assert_eq!(format!("{:08X}", block.word(3)), "00000000");
    assert_eq!(format!("{:08X}", block.word(4)), "00000000");
    assert_eq!(format!("{:08X}", block.word(5)), "00000000");
    assert_eq!(format!("{:08X}", block.word(6)), "00000000");
    assert_eq!(format!("{:08X}", block.word(7)), "00000000");
    assert_eq!(format!("{:08X}", block.word(8)), "00000000");
    assert_eq!(format!("{:08X}", block.word(9)), "00000000");
    assert_eq!(format!("{:08X}", block.word(10)), "00000000");
    assert_eq!(format!("{:08X}", block.word(11)), "00000000");
    assert_eq!(format!("{:08X}", block.word(12)), "00000000");
    assert_eq!(format!("{:08X}", block.word(13)), "00000000");
    assert_eq!(format!("{:08X}", block.word(14)), "00000000");
    assert_eq!(format!("{:08X}", block.word(15)), "00000028");
}

#[test]
fn test_sha1() {
    let message = "apple";
    let blocks = Block::new(message);
    let digest = digest(blocks);
    let mut expect = String::new();
    for byte in digest.iter() {
        expect.push_str(&format!("{:02X}", byte));
    }
    assert_eq!(expect, "d0be2dc421be4fcd0172e5afceea3970e2f3d940".to_uppercase());
}

#[test]
fn test_sha1_2() {
    let message = "hello world";
    let blocks = Block::new(message);
    let digest = digest(blocks);
    let mut expect = String::new();
    for byte in digest.iter() {
        expect.push_str(&format!("{:02X}", byte));
    }
    assert_eq!(expect, "2aae6c35c94fcfb415dbe95f408b9ce91ee846ed".to_uppercase());
}

#[test]
fn test_sha1_3() {
    let message = "This is not a test, this is j-alert. Everyone please run away immediately.";
    let blocks = Block::new(message);
    let digest = digest(blocks);
    let mut expect = String::new();
    for byte in digest.iter() {
        expect.push_str(&format!("{:02X}", byte));
    }
    assert_eq!(expect, "700f7f82c981a500cda830d64f5e1743278a9f91".to_uppercase());
}

#[test]
fn test_sha1_empty_message() {
    let blocks = Block::new("");
    assert_eq!(blocks.len(), 1);
    let digest = digest(blocks);
    let mut expect = String::new();
    for byte in digest.iter() {
        expect.push_str(&format!("{:02X}", byte));
    }
    assert_eq!(expect, "da39a3ee5e6b4b0d3255bfef95601890afd80709".to_uppercase());
}

#[test]
fn test_sha1_abc() {
    let blocks = Block::new("abc");
    let digest = digest(blocks);
    let mut expect = String::new();
    for byte in digest.iter() {
        expect.push_str(&format!("{:02X}", byte));
    }
    assert_eq!(expect, "a9993e364706816aba3e25717850c26c9cd0d89d".to_uppercase());
}

#[test]
fn test_digest_is_twenty_bytes() {
    assert_eq!(digest(Block::new("")).len(), 20);
    assert_eq!(digest(Block::new("abcde")).len(), 20);
    assert_eq!(digest(Block::from_bytes(vec![0xFF_u8; 200])).len(), 20);
}

#[test]
fn test_boundary_55_bytes_one_block() {
    let blocks = Block::from_bytes(vec![0x61_u8; 55]);
    assert_eq!(blocks.len(), 1);
}

#[test]
fn test_boundary_56_bytes_two_blocks() {
    let blocks = Block::from_bytes(vec![0x61_u8; 56]);
    assert_eq!(blocks.len(), 2);
}

#[test]
fn test_multiple_of_64_still_padded() {
    let blocks = Block::from_bytes(vec![0x61_u8; 64]);
    assert_eq!(blocks.len(), 2);
    let blocks_empty_tail = Block::from_bytes(vec![0x61_u8; 128]);
    assert_eq!(blocks_empty_tail.len(), 3);
}

#[test]
fn test_hash_deterministic() {
    let first = digest(Block::new("same input"));
    let second = digest(Block::new("same input"));
    assert_eq!(first, second);
}
