use sps2::hash::{from_hex, hash_existing_prefix, next_read_len, to_hex, IncrementalHash};

const EMPTY: &str = "af1349b9f5f9a1a6a0404dea36dcc9499bcb25c9adc112b7cc9a93cae41f3262";
const ABC: &str = "6437b3ac38465133ffb63b75273a8db548c558465d79db03fd359c6cd5bd9d85";

#[test]
fn known_digests() {
    assert_eq!(sps2::hash::Hash::from_data(b"").to_hex(), EMPTY);
    assert_eq!(sps2::hash::Hash::from_data(b"abc").to_hex(), ABC);
    assert_eq!(sps2::hash::Hash::from_data(b"abc").as_bytes().len(), 32);
}

#[test]
fn hex_is_lowercase_and_round_trips() {
    assert_eq!(to_hex(&[0x00, 0x0f, 0xa0, 0xff]), "000fa0ff");
    assert_eq!(from_hex("000fa0ff"), Some(vec![0x00, 0x0f, 0xa0, 0xff]));
    assert_eq!(from_hex("000FA0Ff"), Some(vec![0x00, 0x0f, 0xa0, 0xff]));
    assert_eq!(from_hex(""), Some(vec![]));
    assert_eq!(from_hex("abc"), None);
    assert_eq!(from_hex("zz"), None);
    assert_eq!(from_hex("0g"), None);
    let h = sps2::hash::Hash::from_data(b"round trip");
    let again = sps2::hash::Hash::from_hex(&h.to_hex()).unwrap();
    assert!(again.same(&h));
    assert!(h.clone().same(&h));
}

#[test]
fn hash_from_hex_wants_64_digits() {
    assert!(sps2::hash::Hash::from_hex(EMPTY).is_some());
    assert!(sps2::hash::Hash::from_hex(&EMPTY.to_uppercase()).unwrap().same(&sps2::hash::Hash::from_data(b"")));
    assert!(sps2::hash::Hash::from_hex(&EMPTY[..62]).is_none());
    assert!(sps2::hash::Hash::from_hex("").is_none());
    assert!(sps2::hash::Hash::from_hex(&format!("{EMPTY}00")).is_none());
    assert!(sps2::hash::Hash::from_bytes(vec![0; 31]).is_none());
    assert!(sps2::hash::Hash::from_bytes(vec![7; 32]).is_some());
}

#[test]
fn different_content_gives_different_hash() {
    assert!(!sps2::hash::Hash::from_data(b"a").same(&sps2::hash::Hash::from_data(b"b")));
    assert!(sps2::hash::Hash::from_data(b"a").same(&sps2::hash::Hash::from_data(b"a")));
}

#[test]
fn pieces_hash_like_the_whole() {
    let mut h = IncrementalHash::new();
    assert_eq!(h.finalize().to_hex(), EMPTY);
    h.update(b"a");
    h.update(b"");
    h.update(b"bc");
    assert_eq!(h.finalize().to_hex(), ABC);
    assert_eq!(h.finalize().to_hex(), ABC);
}

#[test]
fn prefix_hashing_in_chunks() {
    let data: Vec<u8> = (0..=255u8).cycle().take(1000).collect();
    for chunk in [1usize, 7, 64, 999, 1000, 5000] {
        for bytes in [0u64, 1, 63, 64, 500, 1000, 2000] {
            let upto = std::cmp::min(bytes as usize, data.len());
            let h = hash_existing_prefix(&data, bytes, chunk);
            assert!(h.finalize().same(&sps2::hash::Hash::from_data(&data[..upto])), "{chunk} {bytes}");
        }
    }
    assert_eq!(hash_existing_prefix(&data, 10, 0).finalize().to_hex(), EMPTY);
}

#[test]
fn read_lengths() {
    assert_eq!(next_read_len(8192, 100), 100);
    assert_eq!(next_read_len(8192, 8192), 8192);
    assert_eq!(next_read_len(8192, 1 << 40), 8192);
    assert_eq!(next_read_len(0, 5), 0);
    assert_eq!(next_read_len(5, 0), 0);
}
