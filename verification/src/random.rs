//! The subtractive generator of .NET's `System.Random`, as the game client
//! uses it to draw its key seed.
use std::time::{Duration, Instant};
use vstd::prelude::*;

verus! {

/// The abstract state of the generator.
pub struct RandomState {
    pub inext: i32,
    pub inextp: i32,
    pub seeds: Seq<i32>,
}

/// The working values of the first seeding pass.
pub struct InitState {
    pub arr: Seq<i32>,
    pub mj: i32,
    pub mk: i32,
}

/// The amount subtracted from the base seed: `|seed|`, with `i32::MIN` mapped to `i32::MAX`.
pub open spec fn seed_magnitude(seed: i32) -> i32 {
    if seed == i32::MIN {
        i32::MAX
    } else if seed < 0 {
        (-seed) as i32
    } else {
        seed
    }
}

/// One step `i` of the first seeding pass.
pub open spec fn init_step(s: InitState, i: int) -> InitState {
    let d = s.mj - s.mk;
    InitState {
        arr: s.arr.update(21 * i % 55, s.mk),
        mj: s.mk,
        mk: (if d < 0 {
            d + i32::MAX
        } else {
            d
        }) as i32,
    }
}

/// The first seeding pass after steps `1..=n`.
pub open spec fn init_upto(seed: i32, n: nat) -> InitState
    decreases n,
{
    if n == 0 {
        let mj = (161803398 - seed_magnitude(seed)) as i32;
        InitState { arr: Seq::new(56, |i: int| 0i32).update(55, mj), mj, mk: 1 }
    } else {
        init_step(init_upto(seed, (n - 1) as nat), n as int)
    }
}

/// One step `i` of a mixing round.
pub open spec fn mix_step(arr: Seq<i32>, i: int) -> Seq<i32> {
    let v = arr[i].wrapping_sub(arr[1 + (i + 30) % 55]);
    arr.update(
        i,
        if v < 0 {
            (v + i32::MAX) as i32
        } else {
            v
        },
    )
}

/// A mixing round after its steps `1..=n`.
pub open spec fn mix_upto(arr: Seq<i32>, n: nat) -> Seq<i32>
    decreases n,
{
    if n == 0 {
        arr
    } else {
        mix_step(mix_upto(arr, (n - 1) as nat), n as int)
    }
}

/// The table after `r` full mixing rounds.
pub open spec fn mix_rounds(arr: Seq<i32>, r: nat) -> Seq<i32>
    decreases r,
{
    if r == 0 {
        arr
    } else {
        mix_upto(mix_rounds(arr, (r - 1) as nat), 55)
    }
}

/// The state of a generator seeded with `seed`.
pub open spec fn seeded_random(seed: i32) -> RandomState {
    RandomState { inext: 0, inextp: 21, seeds: mix_rounds(init_upto(seed, 54).arr, 4) }
}

/// The state after one sample, and that sample: the difference of the table entries
/// at the two advanced indices, brought into `0..2^31 - 1`, which is also stored
/// back at the first index.
pub open spec fn sample_next(st: RandomState) -> (RandomState, i32) {
    let a: i32 = if st.inext + 1 >= 56 {
        1
    } else {
        (st.inext + 1) as i32
    };
    let b: i32 = if st.inextp + 1 >= 56 {
        1
    } else {
        (st.inextp + 1) as i32
    };
    let d = st.seeds[a as int].wrapping_sub(st.seeds[b as int]);
    let r1: i32 = if d == i32::MAX {
        (d - 1) as i32
    } else {
        d
    };
    let r2: i32 = if r1 < 0 {
        (r1 + i32::MAX) as i32
    } else {
        r1
    };
    (RandomState { inext: a, inextp: b, seeds: st.seeds.update(a as int, r2) }, r2)
}

/// The number of significant bits of `s`, searched downwards from bit `b`.
pub open spec fn bit_length_below(s: u32, b: u32) -> u32
    decreases b,
{
    if b > 0 && (s >> ((b - 1) as u32)) == 0 {
        bit_length_below(s, (b - 1) as u32)
    } else {
        b
    }
}

/// `n` rounded to nearest, ties to even, at bit `sh` and above.
pub open spec fn round_at(n: u128, sh: u32) -> u128 {
    if sh == 0 {
        n
    } else {
        let q = n >> sh;
        let rem = n & ((1u128 << sh) - 1) as u128;
        let half = 1u128 << ((sh - 1) as u32);
        let q2 = if rem > half || (rem == half && q & 1 == 1) {
            (q + 1) as u128
        } else {
            q
        };
        q2 << sh
    }
}

/// The value `(sample / (2^31 - 1)) * 2^64` as IEEE double precision computes it,
/// then converted to `u64` by truncation (saturating at both ends).
/// The double nearest `1 / (2^31 - 1)` is `(2^52 + 2^21) * 2^-83`, so the exact
/// product is `sample * (2^52 + 2^21) * 2^-83`; it is rounded to 53 significant
/// bits, and `u64::MAX as f64` is `2^64`.
pub open spec fn scaled_sample(sample: i32) -> u64 {
    if sample <= 0 {
        0
    } else {
        let n = (sample as u128 * 0x10000000200000u128) as u128;
        let b = bit_length_below(sample as u32, 31);
        let r = round_at(n, (b - 1) as u32);
        let v = r >> 19u32;
        if v > u64::MAX as u128 {
            u64::MAX
        } else {
            v as u64
        }
    }
}

/// Every entry of the table lies in `0..2^31 - 1`.
pub open spec fn table_in_range(seeds: Seq<i32>) -> bool {
    &&& seeds.len() == 56
    &&& forall|i: int| 0 <= i < 56 ==> 0 <= #[trigger] seeds[i] < i32::MAX
}

/// The generator's state after `k` draws from `st`.
pub open spec fn after_draws(st: RandomState, k: nat) -> RandomState
    decreases k,
{
    if k == 0 {
        st
    } else {
        sample_next(after_draws(st, (k - 1) as nat)).0
    }
}

proof fn lemma_init_in_range(seed: i32, n: nat)
    requires
        seed_magnitude(seed) <= 161803398,
    ensures
        table_in_range(init_upto(seed, n).arr),
        0 <= init_upto(seed, n).mj < i32::MAX,
        0 <= init_upto(seed, n).mk < i32::MAX,
    decreases n,
{
    if n > 0 {
        lemma_init_in_range(seed, (n - 1) as nat);
        let s = init_upto(seed, (n - 1) as nat);
        let k = 21 * (n as int) % 55;
        assert(0 <= k < 55);
        let t = init_step(s, n as int);
        assert forall|i: int| 0 <= i < 56 implies 0 <= #[trigger] t.arr[i] < i32::MAX by {
            if i != k {
                assert(t.arr[i] == s.arr[i]);
            }
        }
    } else {
        let s = init_upto(seed, 0);
        assert forall|i: int| 0 <= i < 56 implies 0 <= #[trigger] s.arr[i] < i32::MAX by {}
    }
}

proof fn lemma_mix_step_in_range(arr: Seq<i32>, i: int)
    requires
        table_in_range(arr),
        1 <= i < 56,
    ensures
        table_in_range(mix_step(arr, i)),
{
    let j = 1 + (i + 30) % 55;
    assert(1 <= j < 56);
    let t = mix_step(arr, i);
    assert forall|m: int| 0 <= m < 56 implies 0 <= #[trigger] t[m] < i32::MAX by {
        if m != i {
            assert(t[m] == arr[m]);
        }
    }
}

proof fn lemma_mix_upto_in_range(arr: Seq<i32>, n: nat)
    requires
        table_in_range(arr),
        n <= 55,
    ensures
        table_in_range(mix_upto(arr, n)),
    decreases n,
{
    if n > 0 {
        lemma_mix_upto_in_range(arr, (n - 1) as nat);
        lemma_mix_step_in_range(mix_upto(arr, (n - 1) as nat), n as int);
    }
}

proof fn lemma_mix_rounds_in_range(arr: Seq<i32>, r: nat)
    requires
        table_in_range(arr),
    ensures
        table_in_range(mix_rounds(arr, r)),
    decreases r,
{
    if r > 0 {
        lemma_mix_rounds_in_range(arr, (r - 1) as nat);
        lemma_mix_upto_in_range(mix_rounds(arr, (r - 1) as nat), 55);
    }
}

proof fn lemma_after_draws_in_range(st: RandomState, k: nat)
    requires
        table_in_range(st.seeds),
        0 <= st.inext <= 55,
        0 <= st.inextp <= 55,
    ensures
        table_in_range(after_draws(st, k).seeds),
        0 <= after_draws(st, k).inext <= 55,
        0 <= after_draws(st, k).inextp <= 55,
        0 <= sample_next(after_draws(st, k)).1 < i32::MAX,
    decreases k,
{
    if k > 0 {
        lemma_after_draws_in_range(st, (k - 1) as nat);
        let prev = after_draws(st, (k - 1) as nat);
        let (next, r) = sample_next(prev);
        assert forall|i: int| 0 <= i < 56 implies 0 <= #[trigger] next.seeds[i] < i32::MAX by {
            if i != next.inext as int {
                assert(next.seeds[i] == prev.seeds[i]);
            }
        }
    }
}

/// The seeding starts from `161803398 - |seed|` at the table's last index (with
/// `|i32::MIN|` taken as `i32::MAX`), as it stands: for a seed of magnitude above
/// 161803398 that start is negative, and it is not brought into range first. Every
/// other entry starts at zero.
pub proof fn lemma_seeding_starts_from_the_seed(seed: i32)
    ensures
        seed >= 0 ==> init_upto(seed, 0).arr[55] == 161803398 - seed,
        i32::MIN < seed < 0 ==> init_upto(seed, 0).arr[55] == 161803398 + seed,
        seed == i32::MIN ==> init_upto(seed, 0).arr[55] == 161803398 - i32::MAX,
        init_upto(seed, 0).arr.len() == 56,
        forall|i: int| 0 <= i < 55 ==> #[trigger] init_upto(seed, 0).arr[i] == 0,
        init_upto(seed, 0).mj == init_upto(seed, 0).arr[55],
        init_upto(seed, 0).mk == 1,
{
}

/// The seeding's first mixing round leaves every table entry in `0..2^31 - 1`.
/// The seeding starts from a table whose last entry is `161803398 - |seed|`, which
/// is negative for larger seeds; the first round is where that entry is mixed in.
pub open spec fn first_round_in_range(seed: i32) -> bool {
    table_in_range(mix_rounds(init_upto(seed, 54).arr, 1))
}

proof fn lemma_later_rounds_in_range(arr: Seq<i32>, r: nat)
    requires
        r >= 1,
        table_in_range(mix_rounds(arr, 1)),
    ensures
        table_in_range(mix_rounds(arr, r)),
    decreases r,
{
    if r > 1 {
        lemma_later_rounds_in_range(arr, (r - 1) as nat);
        lemma_mix_upto_in_range(mix_rounds(arr, (r - 1) as nat), 55);
    }
}

/// Seeds of magnitude at most 161803398 keep the first mixing round in range: the
/// whole seeding then stays in `0..2^31 - 1`.
pub proof fn lemma_small_seeds_stay_in_range(seed: i32)
    requires
        seed_magnitude(seed) <= 161803398,
    ensures
        first_round_in_range(seed),
{
    lemma_init_in_range(seed, 54);
    lemma_mix_rounds_in_range(init_upto(seed, 54).arr, 1);
}

/// Every draw of a generator whose seeding's first mixing round stays in range (every
/// seed of magnitude at most 161803398 does, by `lemma_small_seeds_stay_in_range`)
/// lies in `0..2^31 - 1`, however many draws came before.
pub proof fn lemma_draws_in_range(seed: i32, k: nat)
    requires
        first_round_in_range(seed),
    ensures
        0 <= sample_next(after_draws(seeded_random(seed), k)).1 < i32::MAX,
{
    lemma_later_rounds_in_range(init_upto(seed, 54).arr, 4);
    lemma_after_draws_in_range(seeded_random(seed), k);
}

/// The state after `n` draws of `next_safe_uint64`, and the values drawn.
pub open spec fn safe_uint64_draws(st: RandomState, n: nat) -> (RandomState, Seq<u64>)
    decreases n,
{
    if n == 0 {
        (st, seq![])
    } else {
        let (st1, outs) = safe_uint64_draws(st, (n - 1) as nat);
        let (st2, s) = sample_next(st1);
        (st2, outs.push(scaled_sample(s)))
    }
}

#[verifier::external_type_specification]
#[verifier::external_body]
pub struct ExInstant(Instant);

/// `std::time::Instant::now`: the current reading of a monotonic clock. Nothing is
/// known of it.
#[verifier::external_body]
fn instant_now() -> Instant {
    Instant::now()
}

/// `Instant::elapsed`: the time since the instant; it depends on the clock.
#[verifier::external_body]
fn instant_elapsed(instant: &Instant) -> Duration {
    instant.elapsed()
}

/// `Duration::as_millis`: the whole milliseconds of the duration. Durations are
/// opaque here, so nothing is stated of the value.
#[verifier::external_body]
fn duration_as_millis(duration: &Duration) -> u128 {
    duration.as_millis()
}

pub struct Random {
    m_big: i32,
    m_seed: i32,
    inext: i32,
    inextp: i32,
    seed_array: [i32; 56],
}

impl View for Random {
    type V = RandomState;

    closed spec fn view(&self) -> RandomState {
        RandomState { inext: self.inext, inextp: self.inextp, seeds: self.seed_array@ }
    }
}

impl Random {
    /// The generator's constants are in place and its indices address the table.
    pub closed spec fn wf(&self) -> bool {
        &&& self.m_big == i32::MAX
        &&& self.m_seed == 161803398
        &&& 0 <= self.inext <= 55
        &&& 0 <= self.inextp <= 55
    }

    /// Creates a new instance of the `Random`.
    /// This uses a default seed.
    pub fn default() -> (res: Random)
        ensures
            res.wf(),
            res@ == (RandomState { inext: 0, inextp: 0, seeds: Seq::new(56, |i: int| 0i32) }),
    {
        let res = Random {
            m_big: i32::MAX,
            m_seed: 161803398,
            inext: 0,
            inextp: 0,
            seed_array: [0; 56],
        };
        assert(res@.seeds =~= Seq::new(56, |i: int| 0i32));
        res
    }

    /// Creates a new instance of the `Random`, seeded from the clock: the seed is the
    /// number of milliseconds that a fresh `Instant` reports as elapsed, truncated to `i32`.
    pub fn new() -> (rand: Random)
        ensures
            rand.wf(),
            exists|seed: i32| rand@ == seeded_random(seed),
    {
        let now = instant_now();
        let elapsed = instant_elapsed(&now);
        let millis = duration_as_millis(&elapsed);
        let rand = Random::seeded(millis as i32);
        assert(rand@ == seeded_random(millis as i32));
        rand
    }

    /// Creates a new instance of the `Random`.
    /// seed: The seed to use for the generator.
    pub fn seeded(seed: i32) -> (rand: Random)
        ensures
            rand.wf(),
            rand@ == seeded_random(seed),
    {
        let mut rand = Random::default();

        let subtraction = if seed == i32::MIN {
            i32::MAX
        } else if seed < 0 {
            -seed
        } else {
            seed
        };
        let mut mj = rand.m_seed - subtraction;
        rand.seed_array[55] = mj;

        let mut mk: i32 = 1;
        let mut i: usize = 1;
        proof {
            assert(rand.seed_array@ =~= init_upto(seed, 0).arr);
        }
        while i < 55
            invariant
                1 <= i <= 55,
                rand.wf(),
                rand.inext == 0 && rand.inextp == 0,
                rand.seed_array@ == init_upto(seed, (i - 1) as nat).arr,
                mj == init_upto(seed, (i - 1) as nat).mj,
                mk == init_upto(seed, (i - 1) as nat).mk,
                mj >= -1985680249,
                0 <= mk < i32::MAX,
                mj < 0 ==> mk == 1,
                mj < i32::MAX,
            decreases 55 - i,
        {
            let ii = 21 * i % 55;
            rand.seed_array[ii] = mk;
            let d = mj - mk;
            mk = if d < 0 {
                d + rand.m_big
            } else {
                d
            };
            mj = rand.seed_array[ii];
            i = i + 1;
        }

        let ghost base = rand.seed_array@;
        let mut r: usize = 1;
        while r < 5
            invariant
                1 <= r <= 5,
                rand.wf(),
                rand.inext == 0 && rand.inextp == 0,
                base.len() == 56,
                rand.seed_array@ == mix_rounds(base, (r - 1) as nat),
            decreases 5 - r,
        {
            let ghost start = rand.seed_array@;
            let mut i: usize = 1;
            while i < 56
                invariant
                    1 <= i <= 56,
                    rand.wf(),
                    rand.inext == 0 && rand.inextp == 0,
                    start.len() == 56,
                    start == mix_rounds(base, (r - 1) as nat),
                    rand.seed_array@ == mix_upto(start, (i - 1) as nat),
                decreases 56 - i,
            {
                let v = rand.seed_array[i].wrapping_sub(rand.seed_array[1 + (i + 30) % 55]);
                rand.seed_array[i] = v;
                if rand.seed_array[i] < 0 {
                    rand.seed_array[i] = rand.seed_array[i] + rand.m_big;
                }
                i = i + 1;
            }
            r = r + 1;
        }

        rand.inext = 0;
        rand.inextp = 21;

        rand
    }

    /// Draws the next raw sample from the table, and stores it back in the table.
    pub fn internal_sample(&mut self) -> (ret_val: i32)
        requires
            old(self).wf(),
        ensures
            final(self).wf(),
            (final(self)@, ret_val) == sample_next(old(self)@),
    {
        let mut loc_inext = self.inext + 1;
        if loc_inext >= 56 {
            loc_inext = 1;
        }
        let mut loc_inextp = self.inextp + 1;
        if loc_inextp >= 56 {
            loc_inextp = 1;
        }

        let mut ret_val = self.seed_array[loc_inext as usize].wrapping_sub(
            self.seed_array[loc_inextp as usize],
        );
        if ret_val == self.m_big {
            ret_val = ret_val - 1;
        }
        if ret_val < 0 {
            ret_val = ret_val + self.m_big;
        }

        self.seed_array[loc_inext as usize] = ret_val;
        self.inext = loc_inext;
        self.inextp = loc_inextp;

        ret_val
    }

    /// Draws the next 64-bit value: the next sample divided by `2^31 - 1` and scaled
    /// to the `u64` range, in double precision.
    pub fn next_safe_uint64(&mut self) -> (r: u64)
        requires
            old(self).wf(),
        ensures
            final(self).wf(),
            ({
                let (st, s) = sample_next(old(self)@);
                final(self)@ == st && r == scaled_sample(s)
            }),
    {
        let sample = self.internal_sample();
        scale_sample(sample)
    }
}

/// Computes `scaled_sample` with integer arithmetic.
pub fn scale_sample(sample: i32) -> (r: u64)
    ensures
        r == scaled_sample(sample),
{
    if sample <= 0 {
        return 0;
    }
    let s = sample as u32;
    let n: u128 = (sample as u128) * 0x10000000200000u128;
    let mut b: u32 = 31;
    while b > 0 && (s >> (b - 1)) == 0
        invariant
            b <= 31,
            s > 0,
            bit_length_below(s, b) == bit_length_below(s, 31),
            b >= 1,
        decreases b,
    {
        assert(s >> 0u32 == s) by (bit_vector);
        b = b - 1;
    }
    let sh = b - 1;
    let rounded = if sh == 0 {
        n
    } else {
        let q = n >> sh;
        assert(sh <= 30 ==> (1u128 << sh) >= 1) by (bit_vector);
        let rem = n & ((1u128 << sh) - 1);
        let half = 1u128 << (sh - 1);
        assert(q <= n) by (bit_vector)
            requires
                q == n >> sh,
        ;
        let q2 = if rem > half || (rem == half && q & 1 == 1) {
            q + 1
        } else {
            q
        };
        q2 << sh
    };
    let v = rounded >> 19;
    if v > u64::MAX as u128 {
        u64::MAX
    } else {
        v as u64
    }
}

} // verus!
