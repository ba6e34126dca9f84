//! Line splitting and decimal numbers in byte text, as `str::lines`,
//! `str::parse` and `to_string` treat them.
use vstd::prelude::*;
use vstd::utf8::{
    decode_utf8, encode_utf8, encode_utf8_decode_utf8, encode_utf8_valid_utf8, is_ascii_chars,
    is_ascii_chars_encode_utf8, valid_utf8,
};

verus! {

/// The index of the first newline at or after `i`, or the length of `s` if there is none.
pub open spec fn line_end(s: Seq<u8>, i: int) -> int
    decreases s.len() - i,
{
    if i >= s.len() {
        s.len() as int
    } else if s[i] == 10 {
        i
    } else {
        line_end(s, i + 1)
    }
}

/// The line that starts at `i`: up to the next newline, without that newline and
/// without one carriage return right before it. A last line with no newline keeps
/// any carriage return it ends with.
pub open spec fn line_at(s: Seq<u8>, i: int) -> Seq<u8> {
    let e = line_end(s, i);
    if e < s.len() && e > i && s[e - 1] == 13 {
        s.subrange(i, e - 1)
    } else {
        s.subrange(i, e)
    }
}

pub proof fn lemma_line_end_bounds(s: Seq<u8>, i: int)
    requires
        0 <= i <= s.len(),
    ensures
        i <= line_end(s, i) <= s.len(),
        line_end(s, i) < s.len() ==> s[line_end(s, i)] == 10,
    decreases s.len() - i,
{
    if i < s.len() && s[i] != 10 {
        lemma_line_end_bounds(s, i + 1);
    }
}

/// Skipping bytes that are not newlines does not move the end of the line.
pub proof fn lemma_line_end_skip(s: Seq<u8>, i: int, j: int)
    requires
        0 <= i <= j <= s.len(),
        forall|k: int| i <= k < j ==> s[k] != 10,
    ensures
        line_end(s, i) == line_end(s, j),
    decreases j - i,
{
    if i < j {
        lemma_line_end_skip(s, i + 1, j);
    }
}

/// Finds the line that starts at `start`: returns the end of its content and the
/// end of the line (the newline's index, or the length of `s`).
pub fn find_line(s: &[u8], start: usize) -> (r: (usize, usize))
    requires
        start <= s@.len(),
    ensures
        r.1 == line_end(s@, start as int),
        start <= r.0 <= r.1 <= s@.len(),
        line_at(s@, start as int) == s@.subrange(start as int, r.0 as int),
{
    let mut i = start;
    while i < s.len() && s[i] != 10
        invariant
            start <= i <= s@.len(),
            line_end(s@, i as int) == line_end(s@, start as int),
        decreases s@.len() - i,
    {
        i = i + 1;
    }
    proof {
        lemma_line_end_bounds(s@, start as int);
    }
    if i < s.len() && i > start && s[i - 1] == 13 {
        (i - 1, i)
    } else {
        (i, i)
    }
}

pub open spec fn is_digit(c: u8) -> bool {
    48 <= c <= 57
}

pub open spec fn all_digits(d: Seq<u8>) -> bool {
    forall|i: int| 0 <= i < d.len() ==> is_digit(#[trigger] d[i])
}

/// The number that a string of decimal digits denotes.
pub open spec fn digits_value(d: Seq<u8>) -> nat
    decreases d.len(),
{
    if d.len() == 0 {
        0
    } else {
        digits_value(d.drop_last()) * 10 + (d.last() - 48) as nat
    }
}

/// An unsigned integer as `str::parse` reads it: an optional `+`, then at least one
/// decimal digit, with a value of at most `max`.
pub open spec fn parse_unsigned(t: Seq<u8>, max: nat) -> Option<nat> {
    let d = if t.len() > 0 && t[0] == 43 {
        t.drop_first()
    } else {
        t
    };
    if d.len() > 0 && all_digits(d) && digits_value(d) <= max {
        Some(digits_value(d))
    } else {
        None
    }
}

/// An `i64` as `str::parse` reads it: an optional `+` or `-`, then at least one
/// decimal digit, with a value in range.
pub open spec fn parse_i64_text(t: Seq<u8>) -> Option<i64> {
    if t.len() > 0 && t[0] == 45 {
        let d = t.drop_first();
        if d.len() > 0 && all_digits(d) && digits_value(d) <= 0x8000_0000_0000_0000 {
            Some((-digits_value(d)) as i64)
        } else {
            None
        }
    } else {
        match parse_unsigned(t, 0x7fff_ffff_ffff_ffff) {
            Some(v) => Some(v as i64),
            None => None,
        }
    }
}

/// The decimal digits of `n`, without leading zeros.
pub open spec fn nat_digits(n: nat) -> Seq<u8>
    decreases n,
{
    if n < 10 {
        seq![(48 + n) as u8]
    } else {
        nat_digits(n / 10).push((48 + n % 10) as u8)
    }
}

/// An `i64` as `to_string` writes it.
pub open spec fn i64_text(v: i64) -> Seq<u8> {
    if v < 0 {
        seq![45u8] + nat_digits((-v) as nat)
    } else {
        nat_digits(v as nat)
    }
}

/// Reads the decimal digits `s[start..end]`. Returns `None` if that range is empty or
/// holds a byte that is not a digit, else the value, capped at `max + 1`.
pub fn read_digits(s: &[u8], start: usize, end: usize, max: u64) -> (r: Option<u64>)
    requires
        start <= end <= s@.len(),
        max <= 0x8000_0000_0000_0000,
    ensures
        ({
            let d = s@.subrange(start as int, end as int);
            match r {
                None => d.len() == 0 || !all_digits(d),
                Some(v) => d.len() > 0 && all_digits(d) && v as int == (if digits_value(d) <= max {
                    digits_value(d) as int
                } else {
                    max + 1
                }),
            }
        }),
{
    if start == end {
        return None;
    }
    let cap: u128 = max as u128 + 1;
    let mut acc: u128 = 0;
    let mut i = start;
    while i < end
        invariant
            start <= i <= end <= s@.len(),
            cap == max + 1,
            max <= 0x8000_0000_0000_0000,
            all_digits(s@.subrange(start as int, i as int)),
            acc == (if digits_value(s@.subrange(start as int, i as int)) < cap {
                digits_value(s@.subrange(start as int, i as int))
            } else {
                cap as nat
            }),
        decreases end - i,
    {
        let c = s[i];
        if c < 48 || c > 57 {
            assert(!is_digit(s@.subrange(start as int, end as int)[i - start]));
            return None;
        }
        let ghost prev = s@.subrange(start as int, i as int);
        let ghost next = s@.subrange(start as int, i + 1);
        assert(next.drop_last() =~= prev);
        let v = acc * 10 + (c - 48) as u128;
        acc = if v < cap {
            v
        } else {
            cap
        };
        i = i + 1;
    }
    Some(acc as u64)
}

/// Reads an unsigned integer `s[start..end]` as `parse_unsigned` describes.
pub fn read_unsigned(s: &[u8], start: usize, end: usize, max: u64) -> (r: Option<u64>)
    requires
        start <= end <= s@.len(),
        max <= 0x8000_0000_0000_0000,
    ensures
        match parse_unsigned(s@.subrange(start as int, end as int), max as nat) {
            Some(v) => r == Some(v as u64),
            None => r is None,
        },
{
    let t = Ghost(s@.subrange(start as int, end as int));
    let mut from = start;
    if start < end && s[start] == 43 {
        from = start + 1;
        assert(t@.drop_first() =~= s@.subrange(from as int, end as int));
    } else {
        assert(t@ =~= s@.subrange(from as int, end as int));
    }
    match read_digits(s, from, end, max) {
        Some(v) => {
            if v <= max {
                Some(v)
            } else {
                None
            }
        },
        None => None,
    }
}

/// Reads an `i64` from `s[start..end]` as `parse_i64_text` describes.
pub fn read_i64(s: &[u8], start: usize, end: usize) -> (r: Option<i64>)
    requires
        start <= end <= s@.len(),
    ensures
        r == parse_i64_text(s@.subrange(start as int, end as int)),
{
    let t = Ghost(s@.subrange(start as int, end as int));
    if start < end && s[start] == 45 {
        assert(t@.drop_first() =~= s@.subrange(start + 1, end as int));
        match read_digits(s, start + 1, end, 0x8000_0000_0000_0000) {
            Some(v) => {
                if v <= 0x8000_0000_0000_0000 {
                    if v == 0x8000_0000_0000_0000 {
                        Some(i64::MIN)
                    } else {
                        Some(-(v as i64))
                    }
                } else {
                    None
                }
            },
            None => None,
        }
    } else {
        match read_unsigned(s, start, end, 0x7fff_ffff_ffff_ffff) {
            Some(v) => Some(v as i64),
            None => None,
        }
    }
}

/// Appends the decimal digits of `n`.
pub fn push_digits(out: &mut Vec<u8>, n: u64)
    ensures
        final(out)@ == old(out)@ + nat_digits(n as nat),
    decreases n,
{
    if n >= 10 {
        push_digits(out, n / 10);
    }
    out.push((48 + n % 10) as u8);
    proof {
        if n >= 10 {
            assert(old(out)@ + nat_digits(n as nat) =~= old(out)@ + nat_digits((n / 10) as nat)
                + seq![(48 + n % 10) as u8]);
        } else {
            assert(old(out)@ + nat_digits(n as nat) =~= old(out)@ + seq![(48 + n % 10) as u8]);
        }
    }
}

/// Appends `v` as `to_string` writes it.
pub fn push_i64(out: &mut Vec<u8>, v: i64)
    ensures
        final(out)@ == old(out)@ + i64_text(v),
{
    if v < 0 {
        out.push(45);
        let m: u64 = if v == i64::MIN {
            0x8000_0000_0000_0000
        } else {
            (-v) as u64
        };
        push_digits(out, m);
        assert(final(out)@ =~= old(out)@ + i64_text(v));
    } else {
        push_digits(out, v as u64);
    }
}

/// A number's text is its decimal numeral: a positive number with `len` digits lies
/// in `10^(len - 1)..10^len` (no leading zero, base ten), and zero is the one digit `0`.
pub proof fn lemma_nat_digits_are_decimal(n: nat)
    ensures
        n == 0 ==> nat_digits(n) == seq![48u8],
        n > 0 ==> vstd::arithmetic::power::pow(10, (nat_digits(n).len() - 1) as nat) <= n,
        n < vstd::arithmetic::power::pow(10, nat_digits(n).len()),
    decreases n,
{
    reveal(vstd::arithmetic::power::pow);
    if n >= 10 {
        lemma_nat_digits_are_decimal(n / 10);
        let len = nat_digits(n / 10).len();
        assert(nat_digits(n).len() == len + 1);
        let p = vstd::arithmetic::power::pow(10, (len - 1) as nat);
        let q = vstd::arithmetic::power::pow(10, len);
        assert(q == 10 * p) by {
            assert(len >= 1);
            reveal(vstd::arithmetic::power::pow);
        }
        assert(vstd::arithmetic::power::pow(10, (len + 1) as nat) == 10 * q);
        assert(p <= n / 10 < q);
        assert(q <= n < 10 * q) by (nonlinear_arith)
            requires
                p <= n / 10 < q,
                q == 10 * p,
                n >= 10,
        ;
    } else {
        assert(vstd::arithmetic::power::pow(10, 0) == 1);
        assert(vstd::arithmetic::power::pow(10, 1) == 10);
    }
}

pub proof fn lemma_nat_digits(n: nat)
    ensures
        nat_digits(n).len() > 0,
        all_digits(nat_digits(n)),
        digits_value(nat_digits(n)) == n,
        is_digit(nat_digits(n).last()),
        nat_digits(n)[0] != 43 && nat_digits(n)[0] != 45,
    decreases n,
{
    if n >= 10 {
        lemma_nat_digits(n / 10);
        let d = nat_digits(n / 10);
        let e = d.push((48 + n % 10) as u8);
        assert(e.drop_last() =~= d);
        assert(e[0] == d[0]);
        assert(n == (n / 10) * 10 + n % 10) by (nonlinear_arith);
        assert(digits_value(e) == digits_value(d) * 10 + n % 10);
        assert(digits_value(d) == n / 10);
        assert(digits_value(e) == n);
        assert(nat_digits(n) == e);
        assert forall|i: int| 0 <= i < e.len() implies is_digit(#[trigger] e[i]) by {
            if i < d.len() {
                assert(e[i] == d[i]);
            }
        }
    } else {
        let e = seq![(48 + n) as u8];
        assert(e.drop_last() =~= Seq::<u8>::empty());
        assert(e.last() == 48 + n);
        assert(digits_value(Seq::<u8>::empty()) == 0);
        assert(digits_value(e) == n);
        assert(nat_digits(n) == e);
    }
}

/// Reading back what `i64_text` writes gives the number.
pub proof fn lemma_i64_text_round_trip(v: i64)
    ensures
        parse_i64_text(i64_text(v)) == Some(v),
        i64_text(v).len() > 0,
        forall|i: int| 0 <= i < i64_text(v).len() ==> #[trigger] i64_text(v)[i] != 10,
        is_digit(i64_text(v).last()),
{
    if v < 0 {
        let m = (-v) as nat;
        lemma_nat_digits(m);
        let t = i64_text(v);
        assert(t.drop_first() =~= nat_digits(m));
        assert forall|i: int| 0 <= i < t.len() implies #[trigger] t[i] != 10 by {
            if i > 0 {
                assert(t[i] == nat_digits(m)[i - 1]);
            }
        }
    } else {
        lemma_nat_digits(v as nat);
    }
}

/// The characters of ASCII bytes.
pub open spec fn ascii_chars(b: Seq<u8>) -> Seq<char> {
    Seq::new(b.len(), |i: int| b[i] as char)
}

/// `String::from_utf8`: succeeds exactly when the bytes are valid UTF-8, and the
/// string holds the characters they encode.
#[verifier::external_body]
pub(crate) fn string_from_utf8(bytes: Vec<u8>) -> (r: Option<String>)
    ensures
        match r {
            None => !valid_utf8(bytes@),
            Some(s) => valid_utf8(bytes@) && s@ == decode_utf8(bytes@),
        },
{
    String::from_utf8(bytes).ok()
}

pub proof fn lemma_ascii_utf8(b: Seq<u8>)
    requires
        forall|i: int| 0 <= i < b.len() ==> b[i] < 128,
    ensures
        valid_utf8(b),
        decode_utf8(b) == ascii_chars(b),
        encode_utf8(ascii_chars(b)) == b,
{
    let chars = ascii_chars(b);
    assert(is_ascii_chars(chars));
    is_ascii_chars_encode_utf8(chars);
    assert(encode_utf8(chars) =~= b);
    encode_utf8_valid_utf8(chars);
    encode_utf8_decode_utf8(chars);
}

/// The string of the ASCII bytes `bytes`.
pub fn ascii_string(bytes: Vec<u8>) -> (r: String)
    requires
        forall|i: int| 0 <= i < bytes@.len() ==> bytes@[i] < 128,
    ensures
        r@ == ascii_chars(bytes@),
{
    proof {
        lemma_ascii_utf8(bytes@);
    }
    match string_from_utf8(bytes) {
        Some(s) => s,
        None => String::new(),
    }
}

/// Whether two strings are equal, compared by their bytes.
pub fn str_eq(a: &str, b: &str) -> (r: bool)
    ensures
        r == (a@ == b@),
{
    let x = a.as_bytes();
    let y = b.as_bytes();
    proof {
        encode_utf8_decode_utf8(a@);
        encode_utf8_decode_utf8(b@);
    }
    if x.len() != y.len() {
        return false;
    }
    let mut i: usize = 0;
    while i < x.len()
        invariant
            i <= x@.len(),
            x@.len() == y@.len(),
            x@ == encode_utf8(a@),
            y@ == encode_utf8(b@),
            forall|j: int| 0 <= j < i ==> x@[j] == y@[j],
        decreases x@.len() - i,
    {
        if x[i] != y[i] {
            assert(x@[i as int] != y@[i as int]);
            assert(x@ != y@);
            return false;
        }
        i = i + 1;
    }
    assert(x@ =~= y@);
    true
}

} // verus!
