//! Brute-forcing the session key seed from the time a token was sent.
use crate::keys::{key_fits, key_stream, Key};
use crate::random::{sample_next, scaled_sample, seeded_random, Random, RandomState};
use crate::text::{
    find_line, i64_text, lemma_i64_text_round_trip, lemma_line_end_bounds, lemma_line_end_skip,
    line_at, line_end, parse_i64_text, push_i64, read_i64,
};
use vstd::prelude::*;

verus! {

/// The key bytes that the first two bytes of `test` require: a decrypted packet
/// starts with the magic `0x45 0x67`.
pub open spec fn known_prefix(test: Seq<u8>) -> Seq<u8> {
    seq![test[0] ^ 0x45u8, test[1] ^ 0x67u8]
}

/// The key bytes that the last two bytes of `test` require: a decrypted packet
/// ends with the magic `0x89 0xAB`.
pub open spec fn known_suffix(test: Seq<u8>) -> Seq<u8> {
    seq![test[test.len() - 2] ^ 0x89u8, test[test.len() - 1] ^ 0xABu8]
}

/// The key that `seed` derives passes `Key::compare` against `test`.
pub open spec fn seed_fits(seed: u64, test: Seq<u8>) -> bool {
    key_fits(key_stream(seed), known_prefix(test), known_suffix(test), test.len() as int)
}

/// The first of the next `n` draws of the generator in state `st` that, combined
/// with `server_seed`, gives a fitting key seed.
pub open spec fn guess_from(st: RandomState, server_seed: u64, n: int, test: Seq<u8>) -> Option<
    u64,
>
    decreases n,
{
    if n <= 0 {
        None
    } else {
        let (st2, s) = sample_next(st);
        let seed = scaled_sample(s) ^ server_seed;
        if seed_fits(seed, test) {
            Some(seed)
        } else {
            guess_from(st2, server_seed, n - 1, test)
        }
    }
}

/// A seed that the search returns gives a key that fits the test data.
pub proof fn lemma_guess_from_fits(st: RandomState, server_seed: u64, n: int, test: Seq<u8>)
    ensures
        guess_from(st, server_seed, n, test) matches Some(s) ==> seed_fits(s, test),
    decreases n,
{
    if n > 0 {
        let (st2, _) = sample_next(st);
        lemma_guess_from_fits(st2, server_seed, n - 1, test);
    }
}

/// What `Bruteforce::guess` finds.
pub open spec fn guess_result(seed: i64, server_seed: u64, depth: int, test: Seq<u8>) -> Option<
    u64,
> {
    guess_from(seeded_random(seed as i32), server_seed, depth, test)
}

/// The key seed that the first of the stored seeds that yields one yields.
pub open spec fn first_known_seed(seeds: Seq<i64>, server_seed: u64, test: Seq<u8>) -> Option<u64>
    decreases seeds.len(),
{
    if seeds.len() == 0 {
        None
    } else {
        match guess_result(seeds[0], server_seed, 1000, test) {
            Some(k) => Some(k),
            None => first_known_seed(seeds.drop_first(), server_seed, test),
        }
    }
}

/// The `i`th time offset tried: 0, 0, 1, -1, 2, -2, ...
pub open spec fn search_offset(i: int) -> int {
    if i % 2 == 0 {
        i / 2
    } else {
        -((i - 1) / 2)
    }
}

/// How a search over send times ends.
pub enum SeedSearch {
    /// The time used as a seed, and the key seed it yields.
    Found(i64, u64),
    /// No time yields a key seed.
    Exhausted,
    /// A time to try does not fit in an `i64`.
    Overflow,
}

/// The search over the times around `sent_time`, from the `i`th offset on.
pub open spec fn search_from(sent_time: u64, server_seed: u64, test: Seq<u8>, i: int) -> SeedSearch
    decreases 3000 - i,
{
    if i >= 3000 {
        SeedSearch::Exhausted
    } else {
        let t = (sent_time as i64) as int + search_offset(i);
        if t < i64::MIN || t > i64::MAX {
            SeedSearch::Overflow
        } else {
            match guess_result(t as i64, server_seed, 1000, test) {
                Some(k) => SeedSearch::Found(t as i64, k),
                None => search_from(sent_time, server_seed, test, i + 1),
            }
        }
    }
}

/// The seeds after `Bruteforce::run`, and what it returns: `None` where a time
/// to try overflows, else the key seed found, if any.
pub open spec fn run_outcome(seeds: Seq<i64>, sent_time: u64, server_seed: u64, test: Seq<u8>) -> (
    Seq<i64>,
    Option<Option<u64>>,
) {
    match first_known_seed(seeds, server_seed, test) {
        Some(k) => (seeds, Some(Some(k))),
        None => match search_from(sent_time, server_seed, test, 0) {
            SeedSearch::Found(t, k) => (seeds.push(t), Some(Some(k))),
            SeedSearch::Exhausted => (seeds, Some(None)),
            SeedSearch::Overflow => (seeds, None),
        },
    }
}

/// The stored seeds with one more at the end yield what the stored seeds yield, or
/// else what the new one yields.
proof fn lemma_first_known_seed_push(seeds: Seq<i64>, t: i64, server_seed: u64, test: Seq<u8>)
    ensures
        first_known_seed(seeds.push(t), server_seed, test) == match first_known_seed(
            seeds,
            server_seed,
            test,
        ) {
            Some(k) => Some(k),
            None => guess_result(t, server_seed, 1000, test),
        },
    decreases seeds.len(),
{
    let ys = seeds.push(t);
    if seeds.len() == 0 {
        assert(ys.drop_first() =~= Seq::<i64>::empty());
    } else {
        assert(ys.drop_first() =~= seeds.drop_first().push(t));
        lemma_first_known_seed_push(seeds.drop_first(), t, server_seed, test);
    }
}

/// Once a run finds a key seed, another run on the same test data and server seed
/// finds the same key seed among the stored seeds, whatever the send time, and
/// stores nothing more: a time that worked is remembered.
pub proof fn lemma_found_seed_is_remembered(
    seeds: Seq<i64>,
    sent_time: u64,
    later_time: u64,
    server_seed: u64,
    test: Seq<u8>,
)
    requires
        run_outcome(seeds, sent_time, server_seed, test).1 is Some,
        run_outcome(seeds, sent_time, server_seed, test).1->0 is Some,
    ensures
        ({
            let (stored, found) = run_outcome(seeds, sent_time, server_seed, test);
            run_outcome(stored, later_time, server_seed, test) == (stored, found)
        }),
{
    if first_known_seed(seeds, server_seed, test) is None {
        if let SeedSearch::Found(t, k) = search_from(sent_time, server_seed, test, 0) {
            lemma_search_finds(sent_time, server_seed, test, 0);
            lemma_first_known_seed_push(seeds, t, server_seed, test);
        }
    }
}

/// A time that the search over send times stops at yields the key seed reported.
proof fn lemma_search_finds(sent_time: u64, server_seed: u64, test: Seq<u8>, i: int)
    ensures
        search_from(sent_time, server_seed, test, i) matches SeedSearch::Found(t, k) ==> guess_result(
            t,
            server_seed,
            1000,
            test,
        ) == Some(k),
    decreases 3000 - i,
{
    if i < 3000 {
        lemma_search_finds(sent_time, server_seed, test, i + 1);
    }
}

/// The search tries every offset from -1499 to 1499 within its 3000 attempts: times
/// on both sides of the send time.
pub proof fn lemma_offsets_cover_both_sides(k: int)
    requires
        -1499 <= k <= 1499,
    ensures
        exists|i: int| 0 <= i < 3000 && #[trigger] search_offset(i) == k,
{
    let i = if k >= 0 {
        2 * k
    } else {
        1 - 2 * k
    };
    assert(search_offset(i) == k);
}

/// A search over send times that runs out tried every time from `i` on, none
/// overflowing and none yielding a key seed.
proof fn lemma_exhausted_search(sent_time: u64, server_seed: u64, test: Seq<u8>, i: int, j: int)
    requires
        0 <= i <= j < 3000,
        search_from(sent_time, server_seed, test, i) == SeedSearch::Exhausted,
    ensures
        i64::MIN <= (sent_time as i64) as int + search_offset(j) <= i64::MAX,
        guess_result(
            ((sent_time as i64) as int + search_offset(j)) as i64,
            server_seed,
            1000,
            test,
        ) is None,
    decreases j - i,
{
    if i < j {
        lemma_exhausted_search(sent_time, server_seed, test, i + 1, j);
    }
}

/// A run that finds no key seed (and overflows no time) has tried every time within
/// 1499 ms of the send time, before and after it: none of them yields a key seed.
/// So a client that seeded its generator with such a time is always found.
pub proof fn lemma_run_tries_nearby_times(
    seeds: Seq<i64>,
    sent_time: u64,
    server_seed: u64,
    test: Seq<u8>,
    t: int,
)
    requires
        run_outcome(seeds, sent_time, server_seed, test).1 == Some(None::<u64>),
        (sent_time as i64) as int - 1499 <= t <= (sent_time as i64) as int + 1499,
    ensures
        i64::MIN <= t <= i64::MAX,
        guess_result(t as i64, server_seed, 1000, test) is None,
{
    let k = t - (sent_time as i64) as int;
    lemma_offsets_cover_both_sides(k);
    let i = choose|i: int| 0 <= i < 3000 && #[trigger] search_offset(i) == k;
    lemma_exhausted_search(sent_time, server_seed, test, 0, i);
}

/// A time to try as a seed overflowed `i64`.
#[derive(Debug, PartialEq, Eq, Structural)]
pub enum SeedOverflow {
    TimeOutOfRange,
}

/// The seeds that the lines of `s` from `pos` on hold, after `acc`.
pub open spec fn parse_seeds_from(s: Seq<u8>, pos: int, acc: Seq<i64>) -> Option<Seq<i64>>
    decreases s.len() - pos,
{
    if pos < 0 || pos >= s.len() {
        Some(acc)
    } else {
        match parse_i64_text(line_at(s, pos)) {
            None => None,
            Some(v) => {
                let e = line_end(s, pos);
                if e < pos || e >= s.len() {
                    Some(acc.push(v))
                } else {
                    parse_seeds_from(s, e + 1, acc.push(v))
                }
            },
        }
    }
}

/// The seeds that the seed file `s` holds, one per line; `None` if a line is not an `i64`.
pub open spec fn parse_seeds(s: Seq<u8>) -> Option<Seq<i64>> {
    parse_seeds_from(s, 0, seq![])
}

/// The seed file that holds `xs`: the numbers joined by newlines.
pub open spec fn seeds_text(xs: Seq<i64>) -> Seq<u8>
    decreases xs.len(),
{
    if xs.len() == 0 {
        seq![]
    } else if xs.len() == 1 {
        i64_text(xs[0])
    } else {
        i64_text(xs[0]) + seq![10u8] + seeds_text(xs.drop_first())
    }
}

pub proof fn lemma_seeds_text_push(xs: Seq<i64>, x: i64)
    requires
        xs.len() > 0,
    ensures
        seeds_text(xs.push(x)) == seeds_text(xs) + seq![10u8] + i64_text(x),
    decreases xs.len(),
{
    let ys = xs.push(x);
    if xs.len() == 1 {
        assert(ys.drop_first() =~= seq![x]);
        assert(seeds_text(seq![x]) == i64_text(x));
        assert(ys[0] == xs[0]);
        assert(seeds_text(ys) =~= seeds_text(xs) + seq![10u8] + i64_text(x));
    } else {
        lemma_seeds_text_push(xs.drop_first(), x);
        assert(ys.drop_first() =~= xs.drop_first().push(x));
        assert(seeds_text(ys) =~= seeds_text(xs) + seq![10u8] + i64_text(x));
    }
}

proof fn lemma_parse_seeds_after(p: Seq<u8>, xs: Seq<i64>, acc: Seq<i64>)
    ensures
        parse_seeds_from(p + seeds_text(xs), p.len() as int, acc) == Some(acc + xs),
    decreases xs.len(),
{
    let t = p + seeds_text(xs);
    let pos = p.len() as int;
    if xs.len() == 0 {
        assert(acc + xs =~= acc);
    } else {
        let x = xs[0];
        let d = i64_text(x);
        lemma_i64_text_round_trip(x);
        assert forall|k: int| pos <= k < pos + d.len() implies t[k] != 10 by {
            assert(t[k] == d[k - pos]);
        }
        lemma_line_end_skip(t, pos, pos + d.len());
        if xs.len() == 1 {
            assert(t =~= p + d);
            assert(line_end(t, pos) == t.len());
            assert(line_at(t, pos) =~= d);
            assert(acc.push(x) =~= acc + xs);
        } else {
            let r = seeds_text(xs.drop_first());
            let e = pos + d.len();
            assert(t =~= p + d + seq![10u8] + r);
            assert(t[e] == 10);
            assert(line_end(t, pos) == e);
            assert(t[e - 1] == d.last());
            assert(line_at(t, pos) =~= d);
            let p2 = p + d + seq![10u8];
            assert(t =~= p2 + r);
            lemma_parse_seeds_after(p2, xs.drop_first(), acc.push(x));
            assert(acc.push(x) + xs.drop_first() =~= acc + xs);
        }
    }
}

/// Seeds written by `Bruteforce::save` are read back unchanged by `Bruteforce::new`.
pub proof fn lemma_seeds_round_trip(xs: Seq<i64>)
    ensures
        parse_seeds(seeds_text(xs)) == Some(xs),
{
    lemma_parse_seeds_after(seq![], xs, seq![]);
    assert(Seq::<u8>::empty() + seeds_text(xs) =~= seeds_text(xs));
    assert(Seq::<i64>::empty() + xs =~= xs);
}

pub struct Bruteforce {
    seeds: Vec<i64>,
}

impl View for Bruteforce {
    type V = Seq<i64>;

    closed spec fn view(&self) -> Seq<i64> {
        self.seeds@
    }
}

impl Bruteforce {
    /// Creates a new instance of the `Bruteforce`, with the previous seeds that the
    /// seed file `saved` holds (none if there is no file). `None` if a line of the
    /// file is not an `i64`: a seed file that cannot be read is reported to the
    /// caller, in place of a panic.
    pub fn new(saved: Option<&[u8]>) -> (r: Option<Self>)
        ensures
            match saved {
                None => r matches Some(b) && b@ == Seq::<i64>::empty(),
                Some(t) => match parse_seeds(t@) {
                    None => r is None,
                    Some(xs) => r matches Some(b) && b@ == xs,
                },
            },
    {
        let mut seeds: Vec<i64> = Vec::new();
        let text = match saved {
            None => return Some(Bruteforce { seeds }),
            Some(t) => t,
        };
        let mut pos: usize = 0;
        while pos < text.len()
            invariant
                pos <= text@.len(),
                saved == Some(text),
                parse_seeds_from(text@, pos as int, seeds@) == parse_seeds(text@),
            decreases text@.len() - pos,
        {
            let (cend, lend) = find_line(text, pos);
            match read_i64(text, pos, cend) {
                None => {
                    assert(parse_seeds_from(text@, pos as int, seeds@) is None);
                    return None;
                },
                Some(v) => {
                    let ghost before = seeds@;
                    seeds.push(v);
                    if lend < text.len() {
                        assert(parse_seeds_from(text@, pos as int, before) == parse_seeds_from(
                            text@,
                            lend + 1,
                            seeds@,
                        ));
                    } else {
                        assert(parse_seeds_from(text@, pos as int, before) == Some(seeds@));
                    }
                },
            }
            if lend >= text.len() {
                pos = text.len();
            } else {
                pos = lend + 1;
            }
        }
        Some(Bruteforce { seeds })
    }

    /// The text of the seed file that holds the current seeds, one per line.
    pub fn save(&self) -> (content: Vec<u8>)
        ensures
            content@ == seeds_text(self@),
    {
        let mut content: Vec<u8> = Vec::new();
        let n = self.seeds.len();
        if n == 0 {
            return content;
        }
        push_i64(&mut content, self.seeds[0]);
        assert(self.seeds@.take(1) =~= seq![self.seeds@[0]]);
        let mut i: usize = 1;
        while i < n
            invariant
                1 <= i <= n,
                n == self.seeds@.len(),
                content@ == seeds_text(self.seeds@.take(i as int)),
            decreases n - i,
        {
            content.push(10);
            push_i64(&mut content, self.seeds[i]);
            proof {
                lemma_seeds_text_push(self.seeds@.take(i as int), self.seeds@[i as int]);
                assert(self.seeds@.take(i + 1) =~= self.seeds@.take(i as int).push(
                    self.seeds@[i as int],
                ));
            }
            i = i + 1;
        }
        assert(self.seeds@.take(n as int) =~= self.seeds@);
        content
    }

    /// Checks if the seed is valid.
    /// seed: The seed to check.
    /// server_seed: The server-provided seed. Used in the seed calculation.
    /// depth: The amount of times to try checking the seed.
    /// test: The test data to check against.
    pub fn guess(&self, seed: i64, server_seed: u64, depth: i32, test: &[u8]) -> (r: Option<u64>)
        requires
            test@.len() >= 2,
        ensures
            r == guess_result(seed, server_seed, depth as int, test@),
    {
        // Calculate the known prefix and suffix of the key.
        let prefix = [test[0] ^ 0x45, test[1] ^ 0x67];
        let suffix = [test[test.len() - 2] ^ 0x89, test[test.len() - 1] ^ 0xAB];
        assert(prefix@ =~= known_prefix(test@));
        assert(suffix@ =~= known_suffix(test@));

        // Attempt to generate the key.
        let mut generator = Random::seeded(seed as i32);
        let mut i: i32 = 0;
        while i < depth
            invariant
                0 <= i,
                i <= depth || depth < 0,
                generator.wf(),
                test@.len() >= 2,
                prefix@ == known_prefix(test@),
                suffix@ == known_suffix(test@),
                guess_from(generator@, server_seed, depth - i, test@) == guess_result(
                    seed,
                    server_seed,
                    depth as int,
                    test@,
                ),
            decreases depth - i,
        {
            let client_seed = generator.next_safe_uint64();

            let seed = client_seed ^ server_seed;
            let key = Key::new(seed);

            if key.compare((prefix, suffix), test) {
                return Some(seed);
            }
            i = i + 1;
        }

        None
    }

    /// Run the bruteforce loop.
    /// sent_time: The time the packet was sent.
    /// server_seed: The server-provided seed.
    /// test: The test data to check against.
    /// The stored seeds are tried first; then the times around `sent_time`, and a
    /// time that yields the key seed is stored.
    pub fn run(&mut self, sent_time: u64, server_seed: u64, test: &[u8]) -> (r: Result<
        Option<u64>,
        SeedOverflow,
    >)
        requires
            test@.len() >= 2,
        ensures
            ({
                let (seeds, res) = run_outcome(old(self)@, sent_time, server_seed, test@);
                &&& final(self)@ == seeds
                &&& match res {
                    Some(v) => r == Ok::<Option<u64>, SeedOverflow>(v),
                    None => r is Err,
                }
            }),
    {
        // Try old seeds.
        let n = self.seeds.len();
        assert(self.seeds@.skip(0) =~= self.seeds@);
        let mut k: usize = 0;
        while k < n
            invariant
                k <= n,
                n == self.seeds@.len(),
                self.seeds@ == old(self).seeds@,
                test@.len() >= 2,
                first_known_seed(self.seeds@.skip(k as int), server_seed, test@)
                    == first_known_seed(self.seeds@, server_seed, test@),
            decreases n - k,
        {
            assert(self.seeds@.skip(k as int)[0] == self.seeds@[k as int]);
            assert(self.seeds@.skip(k as int).drop_first() =~= self.seeds@.skip(k + 1));
            if let Some(seed) = self.guess(self.seeds[k], server_seed, 1000, test) {
                return Ok(Some(seed));
            }
            k = k + 1;
        }
        assert(self.seeds@.skip(n as int) =~= Seq::<i64>::empty());
        assert(self.seeds@.skip(0) =~= self.seeds@);

        // Generate new seeds.
        let mut i: i64 = 0;
        while i < 3000
            invariant
                0 <= i <= 3000,
                self.seeds@ == old(self).seeds@,
                first_known_seed(old(self)@, server_seed, test@) is None,
                test@.len() >= 2,
                search_from(sent_time, server_seed, test@, i as int) == search_from(
                    sent_time,
                    server_seed,
                    test@,
                    0,
                ),
            decreases 3000 - i,
        {
            let offset = if i % 2 == 0 {
                i / 2
            } else {
                -((i - 1) / 2)
            };
            let time = match (sent_time as i64).checked_add(offset) {
                Some(t) => t,
                None => return Err(SeedOverflow::TimeOutOfRange),
            };

            if let Some(key) = self.guess(time, server_seed, 1000, test) {
                self.seeds.push(time);
                return Ok(Some(key));
            }
            i = i + 1;
        }

        Ok(None)
    }
}

} // verus!
