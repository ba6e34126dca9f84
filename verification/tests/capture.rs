use universe::capture::{read_datagram, Datagram};

fn frame(port: u16, payload: &[u8], ethernet: bool) -> Vec<u8> {
    let mut f = vec![];
    if ethernet {
        f.extend_from_slice(&[0xee; 14]);
    }
    let mut ip = vec![0u8; 28];
    ip[20..22].copy_from_slice(&port.to_be_bytes());
    f.extend_from_slice(&ip);
    f.extend_from_slice(payload);
    f
}

#[test]
fn connect_handshake() {
    let mut hs = vec![0u8; 20];
    hs[0..4].copy_from_slice(&0x145u32.to_be_bytes());
    hs[4..8].copy_from_slice(&17u32.to_be_bytes());
    hs[8..12].copy_from_slice(&0xdeadbeefu32.to_be_bytes());
    match read_datagram(&frame(50000, &hs, true), true) {
        Some(Datagram::Connect { conv, token, is_client }) => {
            assert_eq!(conv, 17);
            assert_eq!(token, 0xdeadbeef);
            assert!(is_client);
        },
        other => panic!("unexpected {:?}", other),
    }
}

#[test]
fn disconnect_and_unknown_handshakes() {
    let mut hs = vec![0u8; 20];
    hs[0..4].copy_from_slice(&0x194u32.to_be_bytes());
    assert!(matches!(read_datagram(&frame(22101, &hs, false), false), Some(Datagram::Disconnect { is_client: false })));
    hs[3] = 0x99;
    assert!(matches!(read_datagram(&frame(22102, &hs, false), false), Some(Datagram::Unknown { magic: 0x199, is_client: false })));
}

#[test]
fn payload_from_server() {
    match read_datagram(&frame(22102, &[1, 2, 3], true), true) {
        Some(Datagram::Payload { data, is_client }) => {
            assert_eq!(data, vec![1, 2, 3]);
            assert!(!is_client);
        },
        other => panic!("unexpected {:?}", other),
    }
}

#[test]
fn short_frames_are_refused() {
    assert!(read_datagram(&[0u8; 27], false).is_none());
    assert!(read_datagram(&[0u8; 41], true).is_none());
    assert!(read_datagram(&[0u8; 10], true).is_none());
    assert!(matches!(read_datagram(&[0u8; 28], false), Some(Datagram::Payload { .. })));
}
