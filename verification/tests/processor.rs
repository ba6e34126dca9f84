use base64::engine::{general_purpose::STANDARD, Engine};
use rsa::pkcs1::{EncodeRsaPrivateKey, LineEnding};
use rsa::{Pkcs1v15Encrypt, RsaPrivateKey, RsaPublicKey};
use std::collections::HashMap;
use universe::bruteforce::Bruteforce;
use universe::accounts::{login_password, AccountLogin};
use universe::crypto::{decrypt_password, RsaKey};
use universe::processor::{is_valid, DecryptError, PacketProcessor, TokenError, Writer};

fn new_key() -> (RsaPrivateKey, String) {
    let mut rng = rand::thread_rng();
    let key = RsaPrivateKey::new(&mut rng, 512).unwrap();
    let pem = key.to_pkcs1_pem(LineEnding::LF).unwrap().to_string();
    (key, pem)
}

/// A packet with command id `id`, header `header` and body `body`, framed by the magic.
fn packet(id: u16, header: &[u8], body: &[u8]) -> Vec<u8> {
    let mut p = vec![0x45, 0x67];
    p.extend_from_slice(&id.to_be_bytes());
    p.extend_from_slice(&(header.len() as u16).to_be_bytes());
    p.extend_from_slice(&(body.len() as u32).to_be_bytes());
    p.extend_from_slice(header);
    p.extend_from_slice(body);
    p.extend_from_slice(&[0x89, 0xAB]);
    p
}

fn xor_with(data: &mut [u8], key: &[u8]) {
    for i in 0..data.len() {
        data[i] ^= key[i % key.len()];
    }
}

fn processor_with(table: HashMap<u16, [u8; 4096]>) -> PacketProcessor {
    let (_, pem) = new_key();
    let rsa = RsaKey::from_pkcs1_pem(&pem).unwrap();
    PacketProcessor::new(rsa, table, Bruteforce::new(None).unwrap())
}

#[test]
fn is_valid_checks_the_magic() {
    assert!(is_valid(&[0x45, 0x67]));
    assert!(!is_valid(&[0x45, 0x66]));
    assert!(is_valid(&[0x45, 0x67, 0x89, 0xAB]));
    assert!(is_valid(&[0x45, 0x67, 0x00, 0x89, 0xAB]));
    assert!(!is_valid(&[0x45, 0x67, 0x89, 0xAC]));
    assert!(!is_valid(&[0x45, 0x67, 0x00]));
}

#[test]
fn writer_accepts_everything() {
    let mut w = Writer;
    assert_eq!(w.write(&[1, 2, 3]), 3);
    w.flush();
}

#[test]
fn dispatch_key_decrypts_packets() {
    let mut key = [0u8; 4096];
    for (i, b) in key.iter_mut().enumerate() {
        *b = (i * 7 + 3) as u8;
    }
    let index = u16::from_be_bytes([key[0], key[1]]);
    let mut table = HashMap::new();
    table.insert(index, key);
    let mut p = processor_with(table);

    let plain = packet(1234, &[1, 2, 3], &[9, 8, 7, 6]);
    let mut enc = plain.clone();
    xor_with(&mut enc, &key);
    let pk = p.decrypt_packet(enc, true).unwrap().unwrap();
    assert_eq!(pk.id, 1234);
    assert_eq!(pk.header, vec![1, 2, 3]);
    assert_eq!(pk.data, vec![9, 8, 7, 6]);
    assert!(pk.is_client);

    // The dispatch key stays in use.
    let plain = packet(77, &[], &[5]);
    let mut enc = plain.clone();
    xor_with(&mut enc, &key);
    let pk = p.decrypt_packet(enc, false).unwrap().unwrap();
    assert_eq!(pk.id, 77);
    assert!(pk.header.is_empty());
    assert_eq!(pk.data, vec![5]);
    assert!(!pk.is_client);
}

#[test]
fn unknown_dispatch_index_drops_the_packet() {
    let mut p = processor_with(HashMap::new());
    assert!(matches!(p.decrypt_packet(vec![1, 2, 3, 4], true), Ok(None)));
}

#[test]
fn short_packet_is_truncated() {
    // With an all-zero key the index is the magic XORed with itself.
    let key = [0u8; 4096];
    let mut table = HashMap::new();
    table.insert(0, key);
    let mut p = processor_with(table);
    // Framed, but the header length (0xffff) runs past the end.
    let data = vec![0x45, 0x67, 0, 1, 0xff, 0xff, 0, 0, 0, 0, 0, 0, 0x89, 0xAB];
    assert_eq!(p.decrypt_packet(data, true).err(), Some(DecryptError::Truncated));
}

#[test]
fn failed_dispatch_test_without_token_drops() {
    // With an all-zero key the index is the magic XORed with itself.
    let key = [0u8; 4096];
    let mut table = HashMap::new();
    table.insert(0, key);
    let mut p = processor_with(table);
    let plain = packet(1, &[], &[]);
    assert!(p.decrypt_packet(plain, true).unwrap().is_some());
    // Not framed under the dispatch key, and no token response to brute-force with.
    assert!(matches!(p.decrypt_packet(vec![0, 0, 0, 0], true), Ok(None)));
}

#[test]
fn token_response_errors() {
    let (private, pem) = new_key();
    let rsa = RsaKey::from_pkcs1_pem(&pem).unwrap();
    let mut p = PacketProcessor::new(rsa, HashMap::new(), Bruteforce::new(None).unwrap());
    assert_eq!(p.set_token_rsp(1, "not base64!".to_string()), Err(TokenError::InvalidBase64));
    assert_eq!(
        p.set_token_rsp(1, STANDARD.encode([1u8, 2, 3, 4, 5, 6, 7, 8, 9])),
        Err(TokenError::DecryptionFailed)
    );
    let public = RsaPublicKey::from(&private);
    let ciphertext = public.encrypt(&mut rand::thread_rng(), Pkcs1v15Encrypt, b"seed").unwrap();
    assert_eq!(p.set_token_rsp(1, STANDARD.encode(&ciphertext)), Ok(()));
}

#[test]
fn session_key_is_brute_forced_from_the_token() {
    let (private, pem) = new_key();
    let rsa = RsaKey::from_pkcs1_pem(&pem).unwrap();
    let dispatch = [0u8; 4096];
    let mut table = HashMap::new();
    table.insert(0, dispatch);
    let mut p = PacketProcessor::new(rsa, table, Bruteforce::new(None).unwrap());

    // Start with the dispatch key.
    assert!(p.decrypt_packet(packet(1, &[], &[]), true).unwrap().is_some());

    // The token seed is read from the first eight bytes of the decoded token.
    let public = RsaPublicKey::from(&private);
    let ciphertext = public.encrypt(&mut rand::thread_rng(), Pkcs1v15Encrypt, b"x").unwrap();
    let server_seed = u64::from_be_bytes(ciphertext[0..8].try_into().unwrap());
    let sent_time: u64 = 1_234_567;
    p.set_token_rsp(sent_time, STANDARD.encode(&ciphertext)).unwrap();

    let client_seed = universe::random::Random::seeded(sent_time as i32).next_safe_uint64();
    let session = universe::keys::Key::new(client_seed ^ server_seed);
    let plain = packet(4321, &[0xaa], &[0xbb, 0xcc]);
    let mut enc = plain.clone();
    session.xor(&mut enc);
    let pk = p.decrypt_packet(enc, false).unwrap().unwrap();
    assert_eq!(pk.id, 4321);
    assert_eq!(pk.header, vec![0xaa]);
    assert_eq!(pk.data, vec![0xbb, 0xcc]);
    assert_eq!(p.bruteforce.save(), b"1234567".to_vec());

    // The session key stays in use; data it does not frame drops it.
    let mut enc = packet(5, &[], &[]);
    session.xor(&mut enc);
    assert_eq!(p.decrypt_packet(enc, true).unwrap().unwrap().id, 5);
    assert!(matches!(p.decrypt_packet(vec![0, 0, 0, 0], true), Ok(None)));
    // Back to the dispatch table.
    assert_eq!(p.decrypt_packet(packet(6, &[], &[]), true).unwrap().unwrap().id, 6);
}

#[test]
fn decrypt_password_round_trip() {
    let (private, pem) = new_key();
    let rsa = RsaKey::from_pkcs1_pem(&pem).unwrap();
    let public = RsaPublicKey::from(&private);
    let ciphertext = public.encrypt(&mut rand::thread_rng(), Pkcs1v15Encrypt, "hunter2 ü".as_bytes()).unwrap();
    assert_eq!(decrypt_password(STANDARD.encode(&ciphertext), &rsa), Some("hunter2 ü".to_string()));
    assert_eq!(decrypt_password("%%%".to_string(), &rsa), None);
    let bad = public.encrypt(&mut rand::thread_rng(), Pkcs1v15Encrypt, &[0xff, 0xfe]).unwrap();
    assert_eq!(decrypt_password(STANDARD.encode(&bad), &rsa), None);
}

#[test]
fn rsa_key_refuses_other_text() {
    assert!(RsaKey::from_pkcs1_pem("not a key").is_none());
}


#[test]
fn login_password_decrypts_only_when_asked() {
    let (private, pem) = new_key();
    let rsa = RsaKey::from_pkcs1_pem(&pem).unwrap();
    let plain = AccountLogin { account: "a".to_string(), password: "secret".to_string(), is_crypto: false };
    assert_eq!(login_password(&plain, &rsa), Some("secret".to_string()));
    let public = RsaPublicKey::from(&private);
    let ciphertext = public.encrypt(&mut rand::thread_rng(), Pkcs1v15Encrypt, b"secret").unwrap();
    let crypto = AccountLogin { account: "a".to_string(), password: STANDARD.encode(&ciphertext), is_crypto: true };
    assert_eq!(login_password(&crypto, &rsa), Some("secret".to_string()));
    let broken = AccountLogin { account: "a".to_string(), password: "%%".to_string(), is_crypto: true };
    assert_eq!(login_password(&broken, &rsa), None);
}
