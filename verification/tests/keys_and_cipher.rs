use universe::cipher::xor;
use universe::keys::{dispatch_keys, Key};

#[test]
fn xor_repeats_the_key() {
    let mut data = vec![0x00u8, 0xff, 0x0f, 0xf0, 0xaa];
    xor(&mut data, &[0x01, 0x02]);
    assert_eq!(data, vec![0x01, 0xfd, 0x0e, 0xf2, 0xab]);
}

#[test]
fn xor_twice_gives_the_data_back() {
    let plain: Vec<u8> = (0..=255u8).collect();
    let key = [0x13u8, 0x37, 0xc0, 0xde, 0x42];
    let mut data = plain.clone();
    xor(&mut data, &key);
    assert_ne!(data, plain);
    xor(&mut data, &key);
    assert_eq!(data, plain);
}

#[test]
fn xor_of_empty_data_with_empty_key() {
    let mut data: Vec<u8> = vec![];
    xor(&mut data, &[]);
    assert!(data.is_empty());
}

#[test]
fn key_from_bytes_xors_with_those_bytes() {
    let key = Key::from(&[0x45, 0x67]);
    let mut data = [0x45u8, 0x67, 0x00, 0x00];
    key.xor(&mut data);
    assert_eq!(data, [0, 0, 0x45, 0x67]);
}

#[test]
fn key_from_seed_is_4096_bytes_and_deterministic() {
    let a = Key::new(1234);
    let b = Key::new(1234);
    let c = Key::new(1235);
    let mut da = vec![0u8; 4096];
    let mut db = vec![0u8; 4096];
    let mut dc = vec![0u8; 4096];
    a.xor(&mut da);
    b.xor(&mut db);
    c.xor(&mut dc);
    assert_eq!(da, db);
    assert_ne!(da, dc);
    // The key repeats after 4096 bytes.
    let mut longer = vec![0u8; 4097];
    a.xor(&mut longer);
    assert_eq!(longer[4096], longer[0]);
}

#[test]
fn key_from_seed_matches_the_generator() {
    // The key bytes are the big-endian outputs of a generator seeded with the
    // first output of one seeded with the seed, after skipping one output.
    let mut g = universe::mt::MT19937_64::default();
    g.seed(77);
    let s = g.next_ulong();
    g.seed(s);
    let _ = g.next_ulong();
    let first = g.next_ulong();
    let key = Key::new(77);
    let mut data = vec![0u8; 8];
    key.xor(&mut data);
    assert_eq!(data, first.to_be_bytes().to_vec());
}

#[test]
fn compare_checks_prefix_and_wrapped_suffix() {
    let key = Key::from(&[1, 2, 3, 4]);
    // data of length 6: suffix indices (6 - 2) % 4 = 0 and (6 - 1) % 4 = 1.
    assert!(key.compare(([1, 2], [1, 2]), &[0; 6]));
    assert!(!key.compare(([1, 2], [3, 4]), &[0; 6]));
    // data of length 4: suffix indices 2 and 3.
    assert!(key.compare(([1, 2], [3, 4]), &[0; 4]));
    assert!(!key.compare(([1, 3], [3, 4]), &[0; 4]));
}

#[test]
fn dispatch_keys_reads_ids_and_hex() {
    let text = b"1: 0a0B\n513: ff\r\n";
    let keys = dispatch_keys(text).unwrap();
    assert_eq!(keys.len(), 2);
    let k1 = keys.get(&1).unwrap();
    assert_eq!(k1[0], 0x0a);
    assert_eq!(k1[1], 0x0b);
    assert!(k1[2..].iter().all(|b| *b == 0));
    let k2 = keys.get(&513).unwrap();
    assert_eq!(k2[0], 0xff);
    assert!(k2[1..].iter().all(|b| *b == 0));
}

#[test]
fn dispatch_keys_sign_odd_length_and_duplicates() {
    // A leading '+' is accepted by the integer parsers; an odd last digit is ignored;
    // a later line replaces an earlier one.
    let keys = dispatch_keys(b"+7: +a12f\n7: 01").unwrap();
    assert_eq!(keys.len(), 1);
    assert_eq!(keys.get(&7).unwrap()[0], 0x01);
    let keys = dispatch_keys(b"+7: +a12f").unwrap();
    let k = keys.get(&7).unwrap();
    assert_eq!(&k[0..3], &[0x0a, 0x12, 0x00]);
    let keys = dispatch_keys(b"3: a").unwrap();
    assert!(keys.get(&3).unwrap().iter().all(|b| *b == 0));
    let keys = dispatch_keys(b"").unwrap();
    assert!(keys.is_empty());
}

#[test]
fn dispatch_keys_refuses_malformed_lines() {
    assert!(dispatch_keys(b"1 0a0b").is_none());
    assert!(dispatch_keys(b"1: 0a: 0b").is_none());
    assert!(dispatch_keys(b"1: ").is_none());
    assert!(dispatch_keys(b"1: zz").is_none());
    assert!(dispatch_keys(b"-1: 00").is_none());
    assert!(dispatch_keys(b"65536: 00").is_none());
    assert!(dispatch_keys(b"1: 00\n\n2: 00").is_none());
    let too_long = format!("1: {}", "00".repeat(4097));
    assert!(dispatch_keys(too_long.as_bytes()).is_none());
    let just_fits = format!("1: {}", "01".repeat(4096));
    assert!(dispatch_keys(just_fits.as_bytes()).unwrap().get(&1).unwrap().iter().all(|b| *b == 1));
}
