//! XOR keys: the session key derived from a seed, and the dispatch key table.
use crate::cipher::{xor_stream, xor as xor_bytes};
use crate::mt::{lemma_mt_outputs_len, mt_next, mt_outputs, seeded_state, MtState, MT19937_64};
use crate::text::{find_line, line_at, line_end, lemma_line_end_bounds, parse_unsigned, read_unsigned};
use bytes::BufMut;
use std::collections::HashMap;
use vstd::prelude::*;

verus! {

broadcast use vstd::std_specs::hash::group_hash_axioms;

/// The eight bytes of `n`, most significant first.
pub open spec fn u64_be(n: u64) -> Seq<u8> {
    seq![
        (n >> 56u64) as u8,
        (n >> 48u64) as u8,
        (n >> 40u64) as u8,
        (n >> 32u64) as u8,
        (n >> 24u64) as u8,
        (n >> 16u64) as u8,
        (n >> 8u64) as u8,
        n as u8,
    ]
}

/// The words of `ws`, each written as its eight big-endian bytes, in order.
pub open spec fn be_concat(ws: Seq<u64>) -> Seq<u8>
    decreases ws.len(),
{
    if ws.len() == 0 {
        seq![]
    } else {
        be_concat(ws.drop_last()) + u64_be(ws.last())
    }
}

pub proof fn lemma_be_concat_len(ws: Seq<u64>)
    ensures
        be_concat(ws).len() == 8 * ws.len(),
    decreases ws.len(),
{
    if ws.len() > 0 {
        lemma_be_concat_len(ws.drop_last());
    }
}

/// The generator state from which a key's words are drawn: the generator is seeded
/// with `seed`, its first output becomes the new seed, and one output is skipped.
pub open spec fn key_start_state(seed: u64) -> MtState {
    let first = mt_next(seeded_state(seed)).1;
    mt_next(seeded_state(first)).0
}

/// The 512 words of the key that `seed` derives.
pub open spec fn key_words(seed: u64) -> Seq<u64> {
    mt_outputs(key_start_state(seed), 512).1
}

/// The 4096 bytes of the key that `seed` derives.
pub open spec fn key_stream(seed: u64) -> Seq<u8> {
    be_concat(key_words(seed))
}

/// Every derived key is 4096 bytes long.
pub proof fn lemma_key_stream_len(seed: u64)
    ensures
        key_stream(seed).len() == 4096,
{
    lemma_mt_outputs_len(key_start_state(seed), 512);
    lemma_be_concat_len(key_words(seed));
}

/// `bytes::BufMut::put_u64` on a `Vec<u8>`. Its source writes `n.to_be_bytes()`
/// with `put_slice`, which for a `Vec<u8>` is `extend_from_slice`: the eight
/// big-endian bytes of `n` are appended.
#[verifier::external_body]
fn put_u64(buf: &mut Vec<u8>, n: u64)
    ensures
        final(buf)@ == old(buf)@ + u64_be(n),
{
    buf.put_u64(n)
}

pub struct Key {
    bytes: Vec<u8>,
}

impl View for Key {
    type V = Seq<u8>;

    closed spec fn view(&self) -> Seq<u8> {
        self.bytes@
    }
}

/// What `Key::compare` checks: the key's first two bytes equal the known prefix and
/// the key bytes that line up with the last two of `data_len` bytes equal the known suffix.
pub open spec fn key_fits(key: Seq<u8>, prefix: Seq<u8>, suffix: Seq<u8>, data_len: int) -> bool {
    &&& key[0] == prefix[0]
    &&& key[1] == prefix[1]
    &&& key[(data_len - 2) % key.len() as int] == suffix[0]
    &&& key[(data_len - 1) % key.len() as int] == suffix[1]
}

/// Draws 512 words from `generator` and writes them out as 4096 big-endian bytes.
fn key_bytes_from(generator: &mut MT19937_64) -> (bytes: Vec<u8>)
    ensures
        bytes@ == be_concat(mt_outputs(old(generator)@, 512).1),
        final(generator)@ == mt_outputs(old(generator)@, 512).0,
{
    let ghost start = generator@;
    let ghost mut words: Seq<u64> = seq![];
    let mut bytes: Vec<u8> = Vec::new();
    let mut i: usize = 0;
    while i < 512
        invariant
            i <= 512,
            generator@ == mt_outputs(start, i as nat).0,
            words == mt_outputs(start, i as nat).1,
            bytes@ == be_concat(words),
        decreases 512 - i,
    {
        let x = generator.next_ulong();
        put_u64(&mut bytes, x);
        proof {
            let prev = words;
            words = words.push(x);
            assert(words.drop_last() =~= prev);
        }
        i = i + 1;
    }
    bytes
}

impl Key {
    /// Creates a new instance of the `Key`.
    pub fn new(seed: u64) -> (key: Self)
        ensures
            key@ == key_stream(seed),
            key@.len() == 4096,
    {
        let mut generator = MT19937_64::default();
        generator.seed(seed);
        let next_seed = generator.next_ulong();
        generator.seed(next_seed);

        let _ = generator.next_ulong();  // Skip the first number.

        // Generate the key.
        proof {
            lemma_mt_outputs_len(key_start_state(seed), 512);
            lemma_be_concat_len(key_words(seed));
        }
        let bytes = key_bytes_from(&mut generator);
        Key { bytes }
    }

    /// Creates a new instance of the `Key`.
    /// Uses an existing key.
    pub fn from(key: &[u8]) -> (res: Self)
        ensures
            res@ == key@,
    {
        Key { bytes: vstd::slice::slice_to_vec(key) }
    }

    /// Performs an XOR cipher on the data.
    /// data: The data to encrypt/decrypt.
    pub fn xor(&self, data: &mut [u8])
        requires
            old(data)@.len() == 0 || self@.len() > 0,
        ensures
            final(data)@ == xor_stream(old(data)@, self@),
    {
        xor_bytes(data, self.bytes.as_slice());
    }

    /// Compares this key to the pre-computed values.
    /// known: The known prefix and suffix of the key.
    /// data: The test data to compare against.
    pub fn compare(&self, known: ([u8; 2], [u8; 2]), data: &[u8]) -> (r: bool)
        requires
            data@.len() >= 2,
            self@.len() >= 2,
        ensures
            r == key_fits(self@, known.0@, known.1@, data@.len() as int),
    {
        let (prefix, suffix) = known;

        let data_len = data.len();
        let key_len = self.bytes.len();

        let prefix_valid = self.bytes[0] == prefix[0] && self.bytes[1] == prefix[1];
        let suffix_valid = self.bytes[(data_len - 2) % key_len] == suffix[0] && self.bytes[(
        data_len - 1) % key_len] == suffix[1];

        prefix_valid && suffix_valid
    }
}

/// `line[p..p + 2]` is the separator `": "`.
pub open spec fn sep_at(line: Seq<u8>, p: int) -> bool {
    0 <= p && p + 1 < line.len() && line[p] == 58 && line[p + 1] == 32
}

/// The first separator at or after `i`.
pub open spec fn first_sep_from(line: Seq<u8>, i: int) -> Option<int>
    decreases line.len() - i,
{
    if i < 0 || i + 1 >= line.len() {
        None
    } else if sep_at(line, i) {
        Some(i)
    } else {
        first_sep_from(line, i + 1)
    }
}

/// A hexadecimal digit's value.
pub open spec fn hex_value(c: u8) -> Option<u8> {
    if 48 <= c <= 57 {
        Some((c - 48) as u8)
    } else if 97 <= c <= 102 {
        Some((c - 87) as u8)
    } else if 65 <= c <= 70 {
        Some((c - 55) as u8)
    } else {
        None
    }
}

/// Two characters read as `u8::from_str_radix(_, 16)` reads them: two hexadecimal
/// digits, or `+` and one digit.
pub open spec fn hex_pair(a: u8, b: u8) -> Option<u8> {
    if a == 43 {
        hex_value(b)
    } else {
        match (hex_value(a), hex_value(b)) {
            (Some(x), Some(y)) => Some((16 * x + y) as u8),
            _ => None,
        }
    }
}

/// The byte that the `j`th character pair of `k` encodes.
pub open spec fn pair_at(k: Seq<u8>, j: int) -> Option<u8> {
    hex_pair(k[2 * j], k[2 * j + 1])
}

/// The 4096-byte key that the hexadecimal text `k` writes: one byte per character
/// pair (a last odd character is ignored), zeros after them. `None` where the text
/// is empty, holds more than 4096 pairs, or a pair is not hexadecimal.
pub open spec fn key_bytes_of(k: Seq<u8>) -> Option<Seq<u8>> {
    let pairs = k.len() / 2;
    if k.len() == 0 || pairs > 4096 {
        None
    } else if forall|j: int| 0 <= j < pairs ==> #[trigger] pair_at(k, j) is Some {
        Some(
            Seq::new(
                4096,
                |i: int|
                    if i < pairs {
                        pair_at(k, i)->Some_0
                    } else {
                        0u8
                    },
            ),
        )
    } else {
        None
    }
}

/// A hexadecimal digit: `0-9`, `a-f` or `A-F`.
pub open spec fn is_hex_digit(c: u8) -> bool {
    (48 <= c <= 57) || (97 <= c <= 102) || (65 <= c <= 70)
}

/// Hexadecimal digits read as radix 16 does: `0-9` are 0 to 9, `a-f` and `A-F` are
/// 10 to 15, and nothing else is a digit.
pub proof fn lemma_hex_digit_values()
    ensures
        forall|d: u8| d < 10 ==> #[trigger] hex_value((48 + d) as u8) == Some(d),
        forall|d: u8| d < 6 ==> #[trigger] hex_value((97 + d) as u8) == Some((10 + d) as u8),
        forall|d: u8| d < 6 ==> #[trigger] hex_value((65 + d) as u8) == Some((10 + d) as u8),
        forall|c: u8| !is_hex_digit(c) ==> #[trigger] hex_value(c) is None,
{
}

/// Every hexadecimal key text of at most 4096 digit pairs is read: each pair of
/// digits gives the byte `16 * high + low`, the bytes after the pairs are zero, and
/// a last odd digit is ignored.
pub proof fn lemma_hex_text_reads(k: Seq<u8>)
    requires
        0 < k.len() <= 8193,
        forall|i: int| 0 <= i < k.len() ==> is_hex_digit(#[trigger] k[i]),
    ensures
        key_bytes_of(k) matches Some(b) && b.len() == 4096 && (forall|j: int|
            0 <= j < k.len() / 2 ==> #[trigger] b[j] == 16 * (hex_value(k[2 * j])->0)
                + hex_value(k[2 * j + 1])->0) && (forall|j: int|
            k.len() / 2 <= j < 4096 ==> #[trigger] b[j] == 0),
{
    let pairs = k.len() / 2;
    assert forall|j: int| 0 <= j < pairs implies #[trigger] pair_at(k, j) is Some by {
        assert(0 <= 2 * j && 2 * j + 1 < k.len()) by (nonlinear_arith)
            requires
                0 <= j < pairs,
                pairs == k.len() / 2,
        ;
        assert(is_hex_digit(k[2 * j]));
        assert(is_hex_digit(k[2 * j + 1]));
    }
    let b = key_bytes_of(k)->0;
    assert forall|j: int| 0 <= j < pairs implies #[trigger] b[j] == 16 * (hex_value(
        k[2 * j],
    )->0) + hex_value(k[2 * j + 1])->0 by {
        assert(0 <= 2 * j && 2 * j + 1 < k.len()) by (nonlinear_arith)
            requires
                0 <= j < pairs,
                pairs == k.len() / 2,
        ;
        assert(is_hex_digit(k[2 * j]));
        assert(is_hex_digit(k[2 * j + 1]));
        assert(pair_at(k, j) is Some);
    }
}

/// A line of the dispatch key file, `<id>: <hex key>`: the text holds the separator
/// exactly once, the id is a `u16` and the key is hexadecimal.
pub open spec fn key_line(line: Seq<u8>) -> Option<(u16, Seq<u8>)> {
    match first_sep_from(line, 0) {
        None => None,
        Some(p) => if first_sep_from(line, p + 2) is Some {
            None
        } else {
            match (parse_unsigned(line.take(p), 65535), key_bytes_of(line.skip(p + 2))) {
                (Some(id), Some(k)) => Some((id as u16, k)),
                _ => None,
            }
        },
    }
}

/// The key table from the lines of `s` that start at `pos` on, added to `acc`;
/// a later line with the same id replaces an earlier one. `None` if a line is malformed.
pub open spec fn parse_keys_from(s: Seq<u8>, pos: int, acc: Map<u16, Seq<u8>>) -> Option<
    Map<u16, Seq<u8>>,
>
    decreases s.len() - pos,
{
    if pos < 0 || pos >= s.len() {
        Some(acc)
    } else {
        match key_line(line_at(s, pos)) {
            None => None,
            Some((id, k)) => {
                let e = line_end(s, pos);
                if e < pos || e >= s.len() {
                    Some(acc.insert(id, k))
                } else {
                    parse_keys_from(s, e + 1, acc.insert(id, k))
                }
            },
        }
    }
}

/// The dispatch key table that the key file `s` holds.
pub open spec fn dispatch_table(s: Seq<u8>) -> Option<Map<u16, Seq<u8>>> {
    parse_keys_from(s, 0, Map::empty())
}

/// The contents of a key table, each key taken as a sequence.
pub open spec fn table_view(m: Map<u16, [u8; 4096]>) -> Map<u16, Seq<u8>> {
    m.map_values(|a: [u8; 4096]| a@)
}

fn find_sep(s: &[u8], start: usize, end: usize, from: usize) -> (r: Option<usize>)
    requires
        start <= from,
        start <= end <= s@.len(),
    ensures
        match first_sep_from(s@.subrange(start as int, end as int), from - start) {
            None => r is None,
            Some(p) => r matches Some(q) && q == p + start,
        },
        r matches Some(q) ==> from <= q && q + 1 < end,
{
    let ghost line = s@.subrange(start as int, end as int);
    let mut i = from;
    while i < end && end - i > 1
        invariant
            start <= from <= i,
            start <= end <= s@.len(),
            line == s@.subrange(start as int, end as int),
            first_sep_from(line, i - start) == first_sep_from(line, from - start),
        decreases end - i,
    {
        if s[i] == 58 && s[i + 1] == 32 {
            assert(sep_at(line, i - start));
            assert(first_sep_from(line, i - start) == Some(i - start));
            return Some(i);
        }
        assert(!sep_at(line, i - start));
        i = i + 1;
    }
    None
}

fn hex_value_of(c: u8) -> (r: Option<u8>)
    ensures
        r == hex_value(c),
{
    if 48 <= c && c <= 57 {
        Some(c - 48)
    } else if 97 <= c && c <= 102 {
        Some(c - 87)
    } else if 65 <= c && c <= 70 {
        Some(c - 55)
    } else {
        None
    }
}

fn hex_pair_of(a: u8, b: u8) -> (r: Option<u8>)
    ensures
        r == hex_pair(a, b),
{
    if a == 43 {
        hex_value_of(b)
    } else {
        match (hex_value_of(a), hex_value_of(b)) {
            (Some(x), Some(y)) => Some(16 * x + y),
            _ => None,
        }
    }
}

/// Reads one line `s[start..end]` of the key file.
fn read_key_line(s: &[u8], start: usize, end: usize) -> (r: Option<(u16, [u8; 4096])>)
    requires
        start <= end <= s@.len(),
    ensures
        match key_line(s@.subrange(start as int, end as int)) {
            None => r is None,
            Some((id, k)) => r matches Some(x) && x.0 == id && x.1@ == k,
        },
{
    let ghost line = s@.subrange(start as int, end as int);
    let p = match find_sep(s, start, end, start) {
        None => return None,
        Some(p) => p,
    };
    assert(first_sep_from(line, 0) == Some(p - start));
    match find_sep(s, start, end, p + 2) {
        Some(_) => {
            assert(first_sep_from(line, p - start + 2) is Some);
            return None;
        },
        None => {},
    }
    assert(first_sep_from(line, p - start + 2) is None);
    assert(line.take(p - start) =~= s@.subrange(start as int, p as int));
    let id = match read_unsigned(s, start, p, 65535) {
        None => return None,
        Some(v) => v as u16,
    };
    let ks = p + 2;
    let ghost k = line.skip(p - start + 2);
    assert(k =~= s@.subrange(ks as int, end as int));
    let klen = end - ks;
    if klen == 0 {
        return None;
    }
    let pairs = klen / 2;
    if pairs > 4096 {
        return None;
    }
    let mut arr = [0u8; 4096];
    let mut j: usize = 0;
    while j < pairs
        invariant
            j <= pairs,
            pairs == klen / 2,
            ks + klen == end,
            end <= s@.len(),
            pairs <= 4096,
            k == s@.subrange(ks as int, end as int),
            start <= p,
            line == s@.subrange(start as int, end as int),
            k == line.skip(p - start + 2),
            first_sep_from(line, 0) == Some(p - start),
            first_sep_from(line, p - start + 2) is None,
            parse_unsigned(line.take(p - start), 65535) is Some,
            forall|i: int| 0 <= i < j ==> #[trigger] pair_at(k, i) is Some,
            forall|i: int| 0 <= i < j ==> arr@[i] == pair_at(k, i)->Some_0,
            forall|i: int| j <= i < 4096 ==> arr@[i] == 0,
        decreases pairs - j,
    {
        let r = hex_pair_of(s[ks + 2 * j], s[ks + 2 * j + 1]);
        assert(k[2 * j] == s@[ks + 2 * j] && k[2 * j + 1] == s@[ks + 2 * j + 1]);
        match r {
            None => {
                assert(pair_at(k, j as int) is None);
                assert(key_bytes_of(k) is None);
                return None;
            },
            Some(b) => {
                arr[j] = b;
            },
        }
        j = j + 1;
    }
    assert(key_bytes_of(k) == Some(arr@));
    assert(parse_unsigned(line.take(p - start), 65535) == Some(id as nat));
    assert(key_line(line) == Some((id, arr@)));
    Some((id, arr))
}

/// Loads miHoYo's dispatch keys from the text of the key file.
/// Returns: A map of <first two bytes> -> <4096-byte XOR key>, or `None` if a line
/// is malformed: a key file that cannot be read is reported to the caller, in place
/// of a panic.
pub fn dispatch_keys(text: &[u8]) -> (r: Option<HashMap<u16, [u8; 4096]>>)
    ensures
        match dispatch_table(text@) {
            None => r is None,
            Some(m) => r matches Some(t) && table_view(t@) == m,
        },
{
    let mut keys: HashMap<u16, [u8; 4096]> = HashMap::new();
    let mut pos: usize = 0;
    assert(table_view(keys@) =~= Map::empty());
    while pos < text.len()
        invariant
            pos <= text@.len(),
            parse_keys_from(text@, pos as int, table_view(keys@)) == dispatch_table(text@),
        decreases text@.len() - pos,
    {
        let (cend, lend) = find_line(text, pos);
        match read_key_line(text, pos, cend) {
            None => return None,
            Some((id, arr)) => {
                let ghost before = table_view(keys@);
                keys.insert(id, arr);
                assert(table_view(keys@) =~= before.insert(id, arr@));
                if lend < text.len() {
                    assert(parse_keys_from(text@, pos as int, before) == parse_keys_from(
                        text@,
                        lend + 1,
                        table_view(keys@),
                    ));
                } else {
                    assert(parse_keys_from(text@, pos as int, before) == Some(table_view(keys@)));
                }
            },
        }
        if lend >= text.len() {
            pos = text.len();
        } else {
            pos = lend + 1;
        }
    }
    Some(keys)
}

} // verus!
