//! Decrypting captured game packets and splitting them into their fields.
use crate::bruteforce::{
    guess_from, guess_result, known_prefix, known_suffix, lemma_guess_from_fits, run_outcome,
    seed_fits, Bruteforce,
};
use crate::random::seeded_random;
use crate::cipher::{lemma_xor_involution, xor_stream};
use crate::crypto::{decode_base64, pkcs1v15_decrypt, base64_standard_decode, rsa_decrypt, RsaKey};
use crate::keys::{key_fits, key_stream, table_view, Key};
use std::collections::HashMap;
use std::io::Write;
use vstd::prelude::*;
use vstd::utf8::encode_utf8;

verus! {

broadcast use vstd::std_specs::hash::group_hash_axioms;

/// A packet is framed by the magic bytes `0x45 0x67` ... `0x89 0xAB`; data of at
/// most two bytes is checked against the leading magic only.
pub open spec fn valid_frame(d: Seq<u8>) -> bool {
    if d.len() <= 2 {
        d[0] == 0x45 && d[1] == 0x67
    } else {
        d[0] == 0x45 && d[1] == 0x67 && d[d.len() - 2] == 0x89 && d[d.len() - 1] == 0xAB
    }
}

/// Validates the packet data.
/// +---------+---------+-------------------+-------------+------------------+------------------+---------+
/// |  Magic  |  CmdId  | PacketHead Length | Data Length | PacketHead bytes |    Data bytes    |  Magic  |
/// +---------+---------+-------------------+-------------+------------------+------------------+---------+
/// | 2 bytes | 2 bytes | 2 bytes           | 4 bytes     | size = 3rd field | size = 4th field | 2 bytes |
/// +---------+---------+-------------------+-------------+------------------+------------------+---------+
/// data: The packet data.
pub fn is_valid(data: &[u8]) -> (r: bool)
    requires
        data@.len() >= 2,
    ensures
        r == valid_frame(data@),
{
    if data.len() <= 2 {
        data[0] == 0x45 && data[1] == 0x67
    } else {
        data[0] == 0x45 && data[1] == 0x67 && data[data.len() - 2] == 0x89 && data[data.len() - 1]
            == 0xAB
    }
}

/// The big-endian `u16` of two bytes.
pub open spec fn be_u16(a: u8, b: u8) -> u16 {
    (a as u16 * 256 + b as u16) as u16
}

/// The command id, the header and the body of the decrypted packet `d`, or `None`
/// where `d` is too short for the header length it gives.
pub open spec fn packet_fields(d: Seq<u8>) -> Option<(u16, Seq<u8>, Seq<u8>)> {
    if d.len() < 6 {
        None
    } else {
        let h = be_u16(d[4], d[5]) as int;
        if 12 + h > d.len() {
            None
        } else {
            Some((be_u16(d[2], d[3]), d.subrange(10, 10 + h), d.subrange(10 + h, d.len() - 2)))
        }
    }
}

#[derive(Debug, Clone)]
pub struct Packet {
    pub id: u16,
    pub header: Vec<u8>,
    pub data: Vec<u8>,
    pub is_client: bool,
}

pub enum PacketKey {
    Dispatch(Key),
    Session(Key),
}

/// The key in use, by kind.
pub enum KeyState {
    Dispatch(Seq<u8>),
    Session(Seq<u8>),
}

impl View for PacketKey {
    type V = KeyState;

    open spec fn view(&self) -> KeyState {
        match self {
            PacketKey::Dispatch(k) => KeyState::Dispatch(k@),
            PacketKey::Session(k) => KeyState::Session(k@),
        }
    }
}

/// The abstract state of a packet processor.
pub struct ProcessorState {
    pub key: Option<KeyState>,
    pub token: Option<(u64, u64)>,
    pub seeds: Seq<i64>,
    pub table: Map<u16, Seq<u8>>,
    pub pem: Seq<char>,
}

/// The key state after the session key that `seed` derives is tried on `p`, the
/// seeds being `seeds` by then, and the decrypted data if the key fits.
pub open spec fn try_session_key(key: Option<KeyState>, seeds: Seq<i64>, seed: u64, p: Seq<u8>) -> (
    Option<KeyState>,
    Seq<i64>,
    Option<Seq<u8>>,
    bool,
) {
    let d = xor_stream(p, key_stream(seed));
    if valid_frame(d) {
        (Some(KeyState::Session(key_stream(seed))), seeds, Some(d), false)
    } else {
        (key, seeds, None, false)
    }
}

/// The first stage of decryption: the new key state, the new seeds, the decrypted
/// data if any, and whether the seed search overflowed.
pub open spec fn decrypt_stage(st: ProcessorState, p: Seq<u8>) -> (
    Option<KeyState>,
    Seq<i64>,
    Option<Seq<u8>>,
    bool,
) {
    match st.key {
        None => {
            let index = be_u16(p[0] ^ 0x45u8, p[1] ^ 0x67u8);
            if st.table.contains_key(index) {
                (
                    Some(KeyState::Dispatch(st.table[index])),
                    st.seeds,
                    Some(xor_stream(p, st.table[index])),
                    false,
                )
            } else {
                (st.key, st.seeds, None, false)
            }
        },
        Some(KeyState::Dispatch(k)) => {
            if valid_frame(xor_stream(p.take(2), k)) {
                (st.key, st.seeds, Some(xor_stream(p, k)), false)
            } else {
                match st.token {
                    None => (st.key, st.seeds, None, false),
                    Some((sent_time, seed)) => {
                        let (seeds, res) = run_outcome(st.seeds, sent_time, seed, p);
                        match res {
                            None => (st.key, seeds, None, true),
                            Some(None) => (st.key, seeds, None, false),
                            Some(Some(s)) => try_session_key(st.key, seeds, s, p),
                        }
                    },
                }
            }
        },
        Some(KeyState::Session(k)) => {
            let d = xor_stream(p, k);
            if !valid_frame(d) {
                (None, st.seeds, None, false)
            } else {
                (st.key, st.seeds, Some(d), false)
            }
        },
    }
}

/// What decrypting the raw packet `p` does: `r` is the result and `next` the state
/// of a processor that was in state `st`.
pub open spec fn decrypted(
    st: ProcessorState,
    p: Seq<u8>,
    from_client: bool,
    r: Result<Option<Packet>, DecryptError>,
    next: ProcessorState,
) -> bool {
    let (key, seeds, data, overflow) = decrypt_stage(st, p);
    &&& next == (ProcessorState { key, seeds, ..st })
    &&& if overflow {
        r == Err::<Option<Packet>, DecryptError>(DecryptError::SeedOverflow)
    } else {
        match data {
            None => r matches Ok(None),
            Some(d) => if !valid_frame(d) {
                r matches Ok(None)
            } else {
                match packet_fields(d) {
                    None => r == Err::<Option<Packet>, DecryptError>(DecryptError::Truncated),
                    Some((id, header, body)) => r matches Ok(Some(pk)) && pk.id == id
                        && pk.header@ == header && pk.data@ == body && pk.is_client == from_client,
                }
            },
        }
    }
}

/// Why a packet could not be decrypted where the processor cannot go on.
#[derive(Debug, PartialEq, Eq, Structural)]
pub enum DecryptError {
    /// A time tried as a key seed did not fit in an `i64`.
    SeedOverflow,
    /// The decrypted packet is shorter than its header length requires.
    Truncated,
}

/// Why a token response could not be read.
#[derive(Debug, PartialEq, Eq, Structural)]
pub enum TokenError {
    /// The key text is not Base64.
    InvalidBase64,
    /// The decoded key does not decrypt with the RSA key.
    DecryptionFailed,
    /// The decoded key is shorter than eight bytes.
    TooShort,
}

/// The big-endian `u64` of the first eight bytes of `b`.
pub open spec fn be_u64(b: Seq<u8>) -> u64 {
    ((b[0] as u64) << 56u64) | ((b[1] as u64) << 48u64) | ((b[2] as u64) << 40u64) | ((
    b[3] as u64) << 32u64) | ((b[4] as u64) << 24u64) | ((b[5] as u64) << 16u64) | ((
    b[6] as u64) << 8u64) | (b[7] as u64)
}

#[verifier::external_type_specification]
#[verifier::external_body]
pub struct ExIoError(std::io::Error);

pub struct PacketProcessor {
    decryption_key: Option<PacketKey>,
    // Used in brute-forcing the decryption key.
    rsa_key: RsaKey,
    token_rsp: Option<(u64, u64)>,
    pub bruteforce: Bruteforce,
    dispatch_keys: HashMap<u16, [u8; 4096]>,
}

impl View for PacketProcessor {
    type V = ProcessorState;

    closed spec fn view(&self) -> ProcessorState {
        ProcessorState {
            key: match self.decryption_key {
                None => None,
                Some(k) => Some(k@),
            },
            token: self.token_rsp,
            seeds: self.bruteforce@,
            table: table_view(self.dispatch_keys@),
            pem: self.rsa_key.pem(),
        }
    }
}

/// Every key in the table, and the key in use, is 4096 bytes long.
pub open spec fn keys_wf(st: ProcessorState) -> bool {
    &&& forall|i: u16| #[trigger] st.table.contains_key(i) ==> st.table[i].len() == 4096
    &&& match st.key {
        Some(KeyState::Dispatch(k)) => k.len() == 4096,
        Some(KeyState::Session(k)) => k.len() == 4096,
        None => true,
    }
}

impl PacketProcessor {
    /// Creates a new instance of the `PacketProcessor`, with the RSA key for token
    /// responses, the dispatch key table and the brute-forcer.
    pub fn new(rsa_key: RsaKey, dispatch_keys: HashMap<u16, [u8; 4096]>, bruteforce: Bruteforce) -> (res: Self)
        ensures
            res@ == (ProcessorState {
                key: None,
                token: None,
                seeds: bruteforce@,
                table: table_view(dispatch_keys@),
                pem: rsa_key.pem(),
            }),
            keys_wf(res@),
    {
        PacketProcessor {
            decryption_key: None,
            rsa_key,
            token_rsp: None,
            bruteforce,
            dispatch_keys,
        }
    }

    /// Decrypts the packet data.
    /// packet: The raw packet data.
    /// from_client: Is the packet from the client?
    pub fn decrypt_packet(&mut self, packet: Vec<u8>, from_client: bool) -> (r: Result<
        Option<Packet>,
        DecryptError,
    >)
        requires
            packet@.len() >= 2,
            keys_wf(old(self)@),
        ensures
            keys_wf(final(self)@),
            decrypted(old(self)@, packet@, from_client, r, final(self)@),
    {
        let mut packet = packet;
        let ghost p = packet@;
        // Attempt to decrypt the data.
        let data: Option<Vec<u8>> = match &self.decryption_key {
            None => {
                // Determine which miHoYo dispatch key to use.
                let index = ((packet[0] ^ 0x45) as u16) * 256 + ((packet[1] ^ 0x67) as u16);
                match self.dispatch_keys.get(&index) {
                    Some(bytes) => {
                        let key = Key::from(bytes);
                        key.xor(packet.as_mut_slice());
                        self.decryption_key = Some(PacketKey::Dispatch(key));
                        Some(packet)
                    },
                    None => {
                        return Ok(None);
                    },
                }
            },
            Some(PacketKey::Dispatch(key)) => {
                // Test dispatch key. (miHoYo might be nice!)
                let mut test = [packet[0], packet[1]];
                key.xor(&mut test);
                assert(test@ == xor_stream(p.take(2), key@)) by {
                    assert(p.take(2) =~= seq![p[0], p[1]]);
                }
                if is_valid(&test) {
                    // Continue using the working key.
                    key.xor(packet.as_mut_slice());
                    Some(packet)
                } else {
                    // Prepare for brute-forcing the session key.
                    let (sent_time, seed) = match &self.token_rsp {
                        Some((sent_time, seed)) => (*sent_time, *seed),
                        None => {
                            return Ok(None);
                        },
                    };

                    // Attempt to brute-force the session key.
                    match self.bruteforce.run(sent_time, seed, packet.as_slice()) {
                        Err(_) => {
                            return Err(DecryptError::SeedOverflow);
                        },
                        Ok(None) => {
                            return Ok(None);
                        },
                        Ok(Some(seed)) => {
                            let key = Key::new(seed);
                            key.xor(packet.as_mut_slice());

                            if is_valid(packet.as_slice()) {
                                self.decryption_key = Some(PacketKey::Session(key));
                                Some(packet)
                            } else {
                                return Ok(None);
                            }
                        },
                    }
                }
            },
            Some(PacketKey::Session(key)) => {
                key.xor(packet.as_mut_slice());
                if !is_valid(packet.as_slice()) {
                    self.decryption_key = None;
                    return Ok(None);
                } else {
                    Some(packet)
                }
            },
        };

        // Re-check for a valid packet.
        let data = match data {
            Some(data) => data,
            None => return Ok(None),
        };
        if !is_valid(data.as_slice()) {
            return Ok(None);
        }

        // Parse the packet.
        if data.len() < 6 {
            return Err(DecryptError::Truncated);
        }
        let id = (data[2] as u16) * 256 + (data[3] as u16);
        let header_size = ((data[4] as u16) * 256 + (data[5] as u16)) as usize;
        if 12 + header_size > data.len() {
            return Err(DecryptError::Truncated);
        }

        let header = vstd::slice::slice_to_vec(vstd::slice::slice_subrange(data.as_slice(), 10, 10 + header_size));
        let body = vstd::slice::slice_to_vec(vstd::slice::slice_subrange(data.as_slice(), 10 + header_size, data.len() - 2));

        Ok(Some(Packet { id, header, data: body, is_client: from_client }))
    }

    /// Processes the given packet.
    /// This only does something in the instance of 'GetPlayerTokenRsp'.
    pub fn update(&mut self, packet: Packet)
        ensures
            final(self)@ == old(self)@,
    {
    }

    /// Updates the internal token response data.
    /// sent_time: The time the packet was sent. (this comes from the packet header)
    /// rsa_key: The RSA-string key. (serverRandKey)
    /// The token seed is read from the first eight bytes of the Base64-decoded key
    /// as it stands (not from the plaintext); the RSA key must decrypt that key, but
    /// what it decrypts to is not used.
    pub fn set_token_rsp(&mut self, sent_time: u64, rsa_key: String) -> (r: Result<(), TokenError>)
        ensures
            ({
                let decoded = base64_standard_decode(encode_utf8(rsa_key@));
                match decoded {
                    None => r == Err::<(), TokenError>(TokenError::InvalidBase64) && final(self)@ == old(self)@,
                    Some(c) => if pkcs1v15_decrypt(old(self)@.pem, c) is None {
                        r == Err::<(), TokenError>(TokenError::DecryptionFailed) && final(self)@ == old(self)@
                    } else if c.len() < 8 {
                        r == Err::<(), TokenError>(TokenError::TooShort) && final(self)@ == old(self)@
                    } else {
                        r == Ok::<(), TokenError>(())
                            && final(self)@ == (ProcessorState { token: Some((sent_time, be_u64(c))), ..old(self)@ })
                    },
                }
            }),
    {
        let content = match decode_base64(rsa_key.as_str()) {
            Some(c) => c,
            None => return Err(TokenError::InvalidBase64),
        };
        if rsa_decrypt(&self.rsa_key, content.as_slice()).is_none() {
            return Err(TokenError::DecryptionFailed);
        }
        if content.len() < 8 {
            return Err(TokenError::TooShort);
        }
        let seed = ((content[0] as u64) << 56) | ((content[1] as u64) << 48) | ((content[2] as u64) << 40) | ((content[3] as u64) << 32) | ((content[4] as u64) << 24) | ((content[5] as u64) << 16) | ((content[6] as u64) << 8) | (content[7] as u64);
        self.token_rsp = Some((sent_time, seed));
        Ok(())
    }
}

/// A framed packet encrypted with a dispatch key decrypts back to itself when no key
/// is in use yet and the table holds that key under the index of its first two
/// bytes; that key is then in use.
pub proof fn lemma_dispatch_key_decrypts(st: ProcessorState, plain: Seq<u8>, k: Seq<u8>)
    requires
        st.key is None,
        k.len() == 4096,
        plain.len() >= 2,
        valid_frame(plain),
        st.table.contains_key(be_u16(k[0], k[1])),
        st.table[be_u16(k[0], k[1])] == k,
    ensures
        decrypt_stage(st, xor_stream(plain, k)) == (
            Some(KeyState::Dispatch(k)),
            st.seeds,
            Some(plain),
            false,
        ),
{
    let c = xor_stream(plain, k);
    lemma_xor_involution(plain, k);
    assert(0int % 4096 == 0 && 1int % 4096 == 1);
    let (p0, p1, k0, k1) = (plain[0], plain[1], k[0], k[1]);
    assert((p0 ^ k0) ^ 0x45u8 == k0 && (p1 ^ k1) ^ 0x67u8 == k1) by (bit_vector)
        requires
            p0 == 0x45u8,
            p1 == 0x67u8,
    ;
    assert(c[0] ^ 0x45u8 == k0 && c[1] ^ 0x67u8 == k1);
}

/// Two bytes read big-endian, as `u16::from_be_bytes` reads them: the first is the
/// high byte, with all eight of its bits. Every `u16` is read from exactly one pair.
pub proof fn lemma_be_u16_reads_both_bytes(a: u8, b: u8, id: u16)
    ensures
        be_u16(a, b) == a as int * 256 + b as int,
        be_u16((id / 256) as u8, (id % 256) as u8) == id,
        be_u16(a, b) == id ==> a == id / 256 && b == id % 256,
{
}

/// Whatever its id, a dispatch key stored under the id its first two bytes read
/// big-endian decrypts a framed packet encrypted with it, when no key is in use yet;
/// that key is then in use. The packet's command id and header length are read
/// big-endian in the same way.
pub proof fn lemma_every_dispatch_id_decrypts(
    st: ProcessorState,
    plain: Seq<u8>,
    k: Seq<u8>,
    id: u16,
)
    requires
        st.key is None,
        k.len() == 4096,
        k[0] as int * 256 + k[1] as int == id,
        plain.len() >= 2,
        valid_frame(plain),
        st.table.contains_key(id),
        st.table[id] == k,
    ensures
        decrypt_stage(st, xor_stream(plain, k)) == (
            Some(KeyState::Dispatch(k)),
            st.seeds,
            Some(plain),
            false,
        ),
        packet_fields(plain) matches Some(f) ==> f.0 as int == plain[2] as int * 256
            + plain[3] as int && f.1.len() == plain[4] as int * 256 + plain[5] as int,
{
    lemma_be_u16_reads_both_bytes(k[0], k[1], id);
    lemma_dispatch_key_decrypts(st, plain, k);
    if plain.len() >= 6 {
        lemma_be_u16_reads_both_bytes(plain[2], plain[3], id);
        lemma_be_u16_reads_both_bytes(plain[4], plain[5], id);
    }
}

/// A framed packet encrypted with the key in use, dispatch or session, decrypts back
/// to itself, and the key stays in use.
pub proof fn lemma_key_in_use_decrypts(st: ProcessorState, plain: Seq<u8>, k: Seq<u8>)
    requires
        st.key == Some(KeyState::Dispatch(k)) || st.key == Some(KeyState::Session(k)),
        k.len() == 4096,
        plain.len() >= 2,
        valid_frame(plain),
    ensures
        decrypt_stage(st, xor_stream(plain, k)) == (st.key, st.seeds, Some(plain), false),
{
    let c = xor_stream(plain, k);
    lemma_xor_involution(plain, k);
    assert(0int % 4096 == 0 && 1int % 4096 == 1);
    let t = xor_stream(c.take(2), k);
    assert(t[0] == plain[0] && t[1] == plain[1]) by {
        let (p0, p1, k0, k1) = (plain[0], plain[1], k[0], k[1]);
        assert((p0 ^ k0) ^ k0 == p0 && (p1 ^ k1) ^ k1 == p1) by (bit_vector);
    }
    assert(valid_frame(t));
}

/// Data that the session key does not decrypt into a framed packet ends the session:
/// no key is in use afterwards and nothing is decrypted.
pub proof fn lemma_unframed_data_drops_the_session_key(st: ProcessorState, p: Seq<u8>, k: Seq<u8>)
    requires
        st.key == Some(KeyState::Session(k)),
        !valid_frame(xor_stream(p, k)),
    ensures
        decrypt_stage(st, p) == (None::<KeyState>, st.seeds, None::<Seq<u8>>, false),
{
}

/// A key passes `Key::compare` against data of at least four bytes exactly when the
/// data that it decrypts is framed by the packet magic.
pub proof fn lemma_compare_iff_framed(key: Seq<u8>, test: Seq<u8>)
    requires
        test.len() >= 4,
        key.len() >= 2,
    ensures
        key_fits(key, known_prefix(test), known_suffix(test), test.len() as int) <==> valid_frame(
            xor_stream(test, key),
        ),
{
    let n = test.len() as int;
    let d = xor_stream(test, key);
    let kl = key.len() as int;
    assert(0int % kl == 0 && 1int % kl == 1) by (nonlinear_arith)
        requires
            kl >= 2,
    ;
    assert forall|t: u8, k: u8, m: u8| #![auto] (k == t ^ m) <==> ((t ^ k) == m) by {
        assert((k == t ^ m) <==> ((t ^ k) == m)) by (bit_vector);
    }
    assert(d[0] == test[0] ^ key[0]);
    assert(d[1] == test[1] ^ key[1]);
    assert(d[n - 2] == test[n - 2] ^ key[(n - 2) % key.len() as int]);
    assert(d[n - 1] == test[n - 1] ^ key[(n - 1) % key.len() as int]);
}

/// The session key seed that a guess finds decrypts the test data of at least four
/// bytes into a packet framed by the magic bytes.
pub proof fn lemma_guessed_key_frames(seed: i64, server_seed: u64, depth: int, test: Seq<u8>)
    requires
        test.len() >= 4,
    ensures
        guess_result(seed, server_seed, depth, test) matches Some(s) ==> valid_frame(
            xor_stream(test, key_stream(s)),
        ),
{
    lemma_guess_from_fits(seeded_random(seed as i32), server_seed, depth, test);
    if let Some(s) = guess_result(seed, server_seed, depth, test) {
        crate::keys::lemma_key_stream_len(s);
        lemma_compare_iff_framed(key_stream(s), test);
    }
}

pub struct Writer;

impl Write for Writer {
    fn write(&mut self, buf: &[u8]) -> std::io::Result<usize> {
        Ok(Writer::write(self, buf))
    }

    fn flush(&mut self) -> std::io::Result<()> {
        Writer::flush(self);
        Ok(())
    }
}

impl Writer {
    /// Accepts every byte: the KCP output of a capture goes nowhere.
    pub fn write(&mut self, buf: &[u8]) -> (r: usize)
        ensures
            r == buf@.len(),
    {
        buf.len()
    }

    pub fn flush(&mut self) {
    }
}

} // verus!
