//! Reading a captured frame: the game's UDP payload, its direction, and the KCP
//! handshake commands.
use vstd::prelude::*;

verus! {

/// The handshake command that opens a KCP conversation.
pub const CONNECT_CMD: u32 = 0x00000145;

/// The handshake command that closes a KCP conversation.
pub const DISCONNECT_CMD: u32 = 0x00000194;

/// What a captured datagram holds.
#[derive(Debug)]
pub enum Datagram {
    /// A connect handshake, with the conversation id and the token.
    Connect { conv: u32, token: u32, is_client: bool },
    /// A disconnect handshake.
    Disconnect { is_client: bool },
    /// A handshake-sized datagram with an unknown command.
    Unknown { magic: u32, is_client: bool },
    /// KCP data.
    Payload { data: Vec<u8>, is_client: bool },
}

/// The big-endian `u32` of `b[i..i + 4]`.
pub open spec fn be_u32_at(b: Seq<u8>, i: int) -> u32 {
    (b[i] as u32 * 0x1000000 + b[i + 1] as u32 * 0x10000 + b[i + 2] as u32 * 0x100 + b[i
        + 3] as u32) as u32
}

fn read_be_u32(b: &[u8], i: usize) -> (r: u32)
    requires
        i + 4 <= b@.len(),
    ensures
        r == be_u32_at(b@, i as int),
{
    (b[i] as u32) * 0x1000000 + (b[i + 1] as u32) * 0x10000 + (b[i + 2] as u32) * 0x100 + (b[i
        + 3] as u32)
}

/// The IPv4 packet inside a captured frame: the frame without its 14-byte Ethernet
/// header if the link is Ethernet.
pub open spec fn ip_packet(frame: Seq<u8>, is_ethernet: bool) -> Seq<u8> {
    if is_ethernet {
        frame.skip(14)
    } else {
        frame
    }
}

/// A frame long enough for its headers: 14 bytes of Ethernet header where there is
/// one, then at least 28 bytes of IPv4 and UDP headers.
pub open spec fn frame_fits(frame: Seq<u8>, is_ethernet: bool) -> bool {
    (is_ethernet ==> frame.len() >= 14) && ip_packet(frame, is_ethernet).len() >= 28
}

/// The UDP payload of a captured frame.
pub open spec fn frame_payload(frame: Seq<u8>, is_ethernet: bool) -> Seq<u8> {
    ip_packet(frame, is_ethernet).skip(28)
}

/// Four bytes read big-endian, as `u32::from_be_bytes` reads them, with every bit
/// of each byte.
pub proof fn lemma_be_u32_reads_all_bytes(b: Seq<u8>, i: int)
    requires
        0 <= i && i + 4 <= b.len(),
    ensures
        be_u32_at(b, i) == b[i] as int * 0x1000000 + b[i + 1] as int * 0x10000 + b[i + 2] as int
            * 0x100 + b[i + 3] as int,
{
}

/// A frame comes from the server exactly when its UDP source port, bytes 20 and 21
/// of the IPv4 packet read big-endian, is 22101 or 22102.
pub proof fn lemma_direction_from_the_port(frame: Seq<u8>, is_ethernet: bool)
    requires
        frame_fits(frame, is_ethernet),
    ensures
        ({
            let ip = ip_packet(frame, is_ethernet);
            let port = ip[20] as int * 256 + ip[21] as int;
            !frame_is_client(frame, is_ethernet) <==> (port == 22101 || port == 22102)
        }),
{
}

/// Whether a captured frame comes from the client: the server only ever sends from
/// ports 22101 and 22102, read from bytes 20 and 21 of the IPv4 packet.
pub open spec fn frame_is_client(frame: Seq<u8>, is_ethernet: bool) -> bool {
    let ip = ip_packet(frame, is_ethernet);
    let port = (ip[20] as u16 * 256 + ip[21] as u16) as u16;
    port != 22101 && port != 22102
}

/// Reads a captured frame.
/// frame: The captured frame.
/// is_ethernet: Was the packet received via Ethernet?
/// The port is read from bytes 20 and 21 of the IPv4 packet, and the payload starts
/// after 28 bytes. The server only ever sends from ports 22101 and 22102. A payload
/// of exactly 20 bytes is a handshake. `None` where the frame is shorter than its headers.
pub fn read_datagram(frame: &[u8], is_ethernet: bool) -> (r: Option<Datagram>)
    ensures
        !frame_fits(frame@, is_ethernet) ==> r is None,
        frame_fits(frame@, is_ethernet) ==> ({
            let is_client = frame_is_client(frame@, is_ethernet);
            let data = frame_payload(frame@, is_ethernet);
            if data.len() == 20 {
                let magic = be_u32_at(data, 0);
                if magic == CONNECT_CMD {
                    r == Some(
                        Datagram::Connect {
                            conv: be_u32_at(data, 4),
                            token: be_u32_at(data, 8),
                            is_client,
                        },
                    )
                } else if magic == DISCONNECT_CMD {
                    r == Some(Datagram::Disconnect { is_client })
                } else {
                    r == Some(Datagram::Unknown { magic, is_client })
                }
            } else {
                r matches Some(Datagram::Payload { data: d, is_client: c }) && d@ == data && c
                    == is_client
            }
        }),
{
    // Remove Ethernet header.
    let start: usize = if is_ethernet {
        14
    } else {
        0
    };
    if frame.len() < start || frame.len() - start < 28 {
        return None;
    }
    let ghost ip = ip_packet(frame@, is_ethernet);
    assert(ip =~= frame@.skip(start as int));
    // Determine the port from the packet.
    let port = (frame[start + 20] as u16) * 256 + (frame[start + 21] as u16);
    // Remove IPv4 header.
    let data = vstd::slice::slice_subrange(frame, start + 28, frame.len());
    assert(data@ =~= ip.skip(28));

    // Explaination: the server will send packets on one of these ports, never the client.
    let is_client = port != 22101 && port != 22102;

    // Check if the packet is a KCP handshake.
    if data.len() == 20 {
        let magic = read_be_u32(data, 0);
        if magic == CONNECT_CMD {
            let conv = read_be_u32(data, 4);
            let token = read_be_u32(data, 8);
            Some(Datagram::Connect { conv, token, is_client })
        } else if magic == DISCONNECT_CMD {
            Some(Datagram::Disconnect { is_client })
        } else {
            Some(Datagram::Unknown { magic, is_client })
        }
    } else {
        Some(Datagram::Payload { data: vstd::slice::slice_to_vec(data), is_client })
    }
}

} // verus!
