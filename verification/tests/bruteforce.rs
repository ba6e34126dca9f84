use universe::bruteforce::{Bruteforce, SeedOverflow};
use universe::keys::Key;
use universe::random::Random;

fn framed(len: usize) -> Vec<u8> {
    let mut d = vec![0x11u8; len];
    d[0] = 0x45;
    d[1] = 0x67;
    d[len - 2] = 0x89;
    d[len - 1] = 0xAB;
    d
}

/// Test data encrypted with the key that the client seed drawn first from
/// `Random::seeded(time)` combined with `server_seed` derives.
fn encrypted_for(time: i64, server_seed: u64, len: usize) -> (Vec<u8>, u64) {
    let client_seed = Random::seeded(time as i32).next_safe_uint64();
    let key_seed = client_seed ^ server_seed;
    let mut data = framed(len);
    Key::new(key_seed).xor(&mut data);
    (data, key_seed)
}

#[test]
fn new_without_file_has_no_seeds() {
    let b = Bruteforce::new(None).unwrap();
    assert!(b.save().is_empty());
}

#[test]
fn new_reads_seeds_and_save_writes_them() {
    let b = Bruteforce::new(Some(b"12\n-9223372036854775808\r\n+7\n9223372036854775807")).unwrap();
    assert_eq!(b.save(), b"12\n-9223372036854775808\n7\n9223372036854775807".to_vec());
}

#[test]
fn new_refuses_bad_lines() {
    assert!(Bruteforce::new(Some(b"12\nabc")).is_none());
    assert!(Bruteforce::new(Some(b"\n")).is_none());
    assert!(Bruteforce::new(Some(b"9223372036854775808")).is_none());
    assert!(Bruteforce::new(Some(b"-")).is_none());
    assert!(Bruteforce::new(Some(b"")).unwrap().save().is_empty());
}

#[test]
fn saved_seeds_load_back() {
    let b = Bruteforce::new(Some(b"1\n-1\n0\n123456789")).unwrap();
    let text = b.save();
    let c = Bruteforce::new(Some(&text)).unwrap();
    assert_eq!(c.save(), text);
}

#[test]
fn guess_finds_the_key_seed() {
    let server_seed = 0xdead_beef_u64;
    let (data, key_seed) = encrypted_for(1_700_000_000, server_seed, 32);
    let b = Bruteforce::new(None).unwrap();
    assert_eq!(b.guess(1_700_000_000, server_seed, 1, &data), Some(key_seed));
    assert_eq!(b.guess(1_700_000_000, server_seed, 0, &data), None);
}

#[test]
fn run_tries_stored_seeds_without_storing() {
    let server_seed = 99;
    let (data, key_seed) = encrypted_for(5555, server_seed, 20);
    let mut b = Bruteforce::new(Some(b"5555")).unwrap();
    assert_eq!(b.run(0, server_seed, &data), Ok(Some(key_seed)));
    assert_eq!(b.save(), b"5555".to_vec());
}

#[test]
fn run_stores_the_time_that_works() {
    let server_seed = 7;
    let (data, key_seed) = encrypted_for(777, server_seed, 20);
    let mut b = Bruteforce::new(None).unwrap();
    assert_eq!(b.run(777, server_seed, &data), Ok(Some(key_seed)));
    assert_eq!(b.save(), b"777".to_vec());
}

#[test]
fn run_reports_a_time_that_overflows() {
    let mut b = Bruteforce::new(None).unwrap();
    let data = vec![0u8; 8];
    assert_eq!(b.run(i64::MAX as u64, 1, &data), Err(SeedOverflow::TimeOutOfRange));
    assert!(b.save().is_empty());
}

#[test]
fn a_found_time_is_remembered() {
    let server_seed = 4242;
    let (data, key_seed) = encrypted_for(31337, server_seed, 24);
    let mut b = Bruteforce::new(None).unwrap();
    assert_eq!(b.run(31337, server_seed, &data), Ok(Some(key_seed)));
    // A send time far from the one that worked: the stored seed still finds the key.
    assert_eq!(b.run(1_000_000, server_seed, &data), Ok(Some(key_seed)));
    assert_eq!(b.save(), b"31337".to_vec());
}
