//! Configuration of the packet capture tool, and the form in which a captured
//! packet is forwarded to websocket clients.
use crate::processor::Packet;
use vstd::prelude::*;

verus! {

pub struct Sniffer {
    pub bind_port: u16,
}

impl Sniffer {
    /// The port that a configuration without one binds to.
    pub fn default_port() -> (port: u16)
        ensures
            port == 8080,
    {
        8080
    }
}

impl Default for Sniffer {
    fn default() -> (r: Self)
        ensures
            r.bind_port == 0,
    {
        Sniffer { bind_port: 0 }
    }
}

pub struct Deobfuscation {
    pub obfuscated_defs: String,
    pub output_dir: String,
    pub packet_dumps: String,
}

impl Default for Deobfuscation {
    fn default() -> (r: Self)
        ensures
            r.obfuscated_defs@ == Seq::<char>::empty(),
            r.output_dir@ == Seq::<char>::empty(),
            r.packet_dumps@ == Seq::<char>::empty(),
    {
        Deobfuscation {
            obfuscated_defs: String::new(),
            output_dir: String::new(),
            packet_dumps: String::new(),
        }
    }
}

pub struct Options {
    pub device: u16,
    pub sniffer: Sniffer,
    pub deobfuscation: Deobfuscation,
}

impl Default for Options {
    fn default() -> (r: Self)
        ensures
            r.device == 0,
            r.sniffer.bind_port == 0,
            r.deobfuscation.obfuscated_defs@ == Seq::<char>::empty(),
            r.deobfuscation.output_dir@ == Seq::<char>::empty(),
            r.deobfuscation.packet_dumps@ == Seq::<char>::empty(),
    {
        Options { device: 0, sniffer: Sniffer::default(), deobfuscation: Deobfuscation::default() }
    }
}

pub struct EncodedPacket {
    pub time: u64,
    pub source: String,  // can be: client, server
    pub packet_id: u16,
    pub packet_name: String,
    pub length: usize,
    pub data: String,  // JSON-encoded protobuf data
}

impl EncodedPacket {
    /// Encodes a captured packet. The send time, the packet name and the decoded
    /// data are not known yet: they are 0, "unknown" and "{}".
    pub fn from(packet: Packet) -> (r: EncodedPacket)
        ensures
            r.time == 0,
            r.source@ == (if packet.is_client {
                "client"@
            } else {
                "server"@
            }),
            r.packet_id == packet.id,
            r.packet_name@ == "unknown"@,
            r.length == packet.data@.len(),
            r.data@ == "{}"@,
    {
        // sent_time is from the packet's header
        let sent_time: u64 = 0;
        // packet_name needs to be looked up from the id
        let packet_name = "unknown".to_owned();
        // parsed_data is the result of protobuf decoding and json encoding
        let parsed_data = "{}".to_owned();

        EncodedPacket {
            time: sent_time,
            source: if packet.is_client {
                "client"
            } else {
                "server"
            }.to_owned(),
            packet_id: packet.id,
            packet_name: packet_name,
            length: packet.data.len(),
            data: parsed_data,
        }
    }
}

pub struct PacketMessage {
    pub packet_id: u32,
    pub data: EncodedPacket,
}

impl PacketMessage {
    /// The message that forwards `packet` to websocket clients.
    pub fn from_packet(packet: Packet) -> (r: PacketMessage)
        ensures
            r.packet_id == packet.id as u32,
            r.data.time == 0,
            r.data.source@ == (if packet.is_client {
                "client"@
            } else {
                "server"@
            }),
            r.data.packet_id == packet.id,
            r.data.packet_name@ == "unknown"@,
            r.data.length == packet.data@.len(),
            r.data.data@ == "{}"@,
    {
        let id = packet.id as u32;
        PacketMessage { packet_id: id, data: EncodedPacket::from(packet) }
    }
}

} // verus!
