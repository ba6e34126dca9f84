//! The 64-bit Mersenne Twister (MT19937-64) that derives session keys.
use vstd::prelude::*;

verus! {

/// The abstract state of the generator: its 312 words and the read index.
pub struct MtState {
    pub mt: Seq<u64>,
    pub mti: u32,
}

/// One step of the seeding recurrence: the word at index `i` from the word before it.
pub open spec fn seed_step(prev: u64, i: u64) -> u64 {
    (6364136223846793005u64.wrapping_mul(prev ^ (prev >> 62u64))).wrapping_add(i)
}

/// The first `n` words of the table that `seed` initialises.
pub open spec fn seeded_prefix(seed: u64, n: nat) -> Seq<u64>
    decreases n,
{
    if n == 0 {
        seq![]
    } else if n == 1 {
        seq![seed]
    } else {
        let p = seeded_prefix(seed, (n - 1) as nat);
        p.push(seed_step(p.last(), (n - 1) as u64))
    }
}

/// The whole table that `seed` initialises.
#[verifier::opaque]
pub open spec fn seeded_table(seed: u64) -> Seq<u64> {
    seeded_prefix(seed, 312)
}

proof fn lemma_prefix_starts_with_seed(seed: u64, n: nat)
    requires
        n >= 1,
    ensures
        seeded_prefix(seed, n).len() == n,
        seeded_prefix(seed, n)[0] == seed,
    decreases n,
{
    if n > 1 {
        lemma_prefix_starts_with_seed(seed, (n - 1) as nat);
    }
}

/// Seeding keeps the whole 64-bit seed as the table's first word, so distinct seeds
/// give distinct tables.
pub proof fn lemma_seeding_keeps_the_seed(a: u64, b: u64)
    ensures
        seeded_table(a).len() == 312,
        seeded_table(a)[0] == a,
        seeded_table(a) == seeded_table(b) ==> a == b,
{
    reveal(seeded_table);
    lemma_prefix_starts_with_seed(a, 312);
    lemma_prefix_starts_with_seed(b, 312);
}

/// The new value of word `k` when the table `s` is regenerated in place.
pub open spec fn twisted_word(s: Seq<u64>, k: int) -> u64 {
    let y = (s[k] & 0xffffffff80000000u64) | (s[(k + 1) % 312] & 0x7fffffffu64);
    let other = if k < 156 {
        s[k + 156]
    } else {
        s[k - 156]
    };
    other ^ (y >> 1u64) ^ (if y & 1u64 == 0 {
        0u64
    } else {
        0xb5026f5aa96619e9u64
    })
}

/// The table after its first `k` words were regenerated, in order.
pub open spec fn twist_upto(s: Seq<u64>, k: nat) -> Seq<u64>
    decreases k,
{
    if k == 0 {
        s
    } else {
        let t = twist_upto(s, (k - 1) as nat);
        t.update(k - 1, twisted_word(t, k - 1))
    }
}

/// The table after all 312 words were regenerated.
pub open spec fn twist(s: Seq<u64>) -> Seq<u64> {
    twist_upto(s, 312)
}

/// The output transformation applied to a table word.
pub open spec fn temper(x0: u64) -> u64 {
    let x1 = x0 ^ ((x0 >> 29u64) & 0x5555555555555555u64);
    let x2 = x1 ^ ((x1 << 17u64) & 0x71d67fffeda60000u64);
    let x3 = x2 ^ ((x2 << 37u64) & 0xfff7eee000000000u64);
    x3 ^ (x3 >> 43u64)
}

/// The state after one output, and that output.
#[verifier::opaque]
pub open spec fn mt_next(st: MtState) -> (MtState, u64) {
    let base = if st.mti == 313 {
        seeded_table(5489)
    } else {
        st.mt
    };
    let table = if st.mti >= 312 {
        twist(base)
    } else {
        st.mt
    };
    let i: u32 = if st.mti >= 312 {
        0
    } else {
        st.mti
    };
    (MtState { mt: table, mti: (i + 1) as u32 }, temper(table[i as int]))
}

/// The state after `n` outputs, and those outputs in order.
pub open spec fn mt_outputs(st: MtState, n: nat) -> (MtState, Seq<u64>)
    decreases n,
{
    if n == 0 {
        (st, seq![])
    } else {
        let (st1, outs) = mt_outputs(st, (n - 1) as nat);
        let (st2, x) = mt_next(st1);
        (st2, outs.push(x))
    }
}

pub proof fn lemma_mt_outputs_len(st: MtState, n: nat)
    ensures
        mt_outputs(st, n).1.len() == n,
    decreases n,
{
    if n > 0 {
        lemma_mt_outputs_len(st, (n - 1) as nat);
    }
}

/// The state of a generator freshly seeded with `seed`.
pub open spec fn seeded_state(seed: u64) -> MtState {
    MtState { mt: seeded_table(seed), mti: 312 }
}

#[allow(non_camel_case_types)]
pub struct MT19937_64 {
    mt: [u64; 312],
    mti: u32,
}

impl View for MT19937_64 {
    type V = MtState;

    closed spec fn view(&self) -> MtState {
        MtState { mt: self.mt@, mti: self.mti }
    }
}

impl MT19937_64 {
    /// A generator whose table is all zeros and used up: its first output regenerates
    /// that table as it is, without seeding it.
    pub fn default() -> (res: MT19937_64)
        ensures
            res@.mt == Seq::new(312, |i: int| 0u64),
            res@.mti == 312,
    {
        let res = MT19937_64 { mt: [0; 312], mti: 0x138 };
        assert(res@.mt =~= Seq::new(312, |i: int| 0u64));
        res
    }

    /// Reinitialises the table from `seed`.
    pub fn seed(&mut self, seed: u64)
        ensures
            final(self)@ == seeded_state(seed),
    {
        reveal(seeded_table);
        assert(seed & 0xffffffffffffffffu64 == seed) by (bit_vector);
        self.mt[0] = seed & 0xffffffffffffffff;
        let mut i: usize = 1;
        while i < 312
            invariant
                1 <= i <= 312,
                self.mt@.len() == 312,
                self.mt@.subrange(0, i as int) == seeded_prefix(seed, i as nat),
            decreases 312 - i,
        {
            let prev = self.mt[i - 1];
            let value = prev ^ (prev >> 62);
            let next = 6364136223846793005u64.wrapping_mul(value).wrapping_add(i as u64);
            assert(next & 0xffffffffffffffffu64 == next) by (bit_vector);
            proof {
                let p = seeded_prefix(seed, i as nat);
                assert(p.last() == self.mt@[i - 1]) by {
                    assert(self.mt@.subrange(0, i as int)[i - 1] == self.mt@[i - 1]);
                }
            }
            self.mt[i] = next & 0xffffffffffffffff;
            assert(self.mt@.subrange(0, i + 1) =~= seeded_prefix(seed, i as nat).push(next));
            i = i + 1;
        }
        assert(self.mt@.subrange(0, 312) =~= self.mt@);
        self.mti = 312;
    }

    /// Returns the next 64-bit output, regenerating the table when it is used up.
    pub fn next_ulong(&mut self) -> (x: u64)
        ensures
            (final(self)@, x) == mt_next(old(self)@),
    {
        reveal(mt_next);
        if self.mti >= 312 {
            if self.mti == 313 {
                self.seed(5489)
            }
            let ghost base = self.mt@;
            let mut k: usize = 0;
            while k < 311
                invariant
                    k <= 311,
                    base.len() == 312,
                    self.mt@.len() == 312,
                    self.mt@ == twist_upto(base, k as nat),
                decreases 311 - k,
            {
                let y = (self.mt[k] & 0xffffffff80000000) | (self.mt[k + 1] & 0x7fffffff);
                let other = if k < 156 {
                    self.mt[k + 156]
                } else {
                    self.mt[k - 156]
                };
                let v = other ^ (y >> 1) ^ (if (y & 1) == 0 {
                    0
                } else {
                    0xb5026f5aa96619e9
                });
                assert(v == twisted_word(self.mt@, k as int));
                self.mt[k] = v;
                k = k + 1;
            }
            let yy = (self.mt[311] & 0xffffffff80000000) | (self.mt[0] & 0x7fffffff);
            let v = self.mt[155] ^ (yy >> 1) ^ (if yy & 1 == 0 {
                0
            } else {
                0xb5026f5aa96619e9
            });
            assert(v == twisted_word(self.mt@, 311));
            self.mt[311] = v;
            self.mti = 0;
        }
        let mut x = self.mt[self.mti as usize];
        self.mti = self.mti + 1;
        x = x ^ ((x >> 29) & 0x5555555555555555);
        x = x ^ ((x << 17) & 0x71d67fffeda60000);
        x = x ^ ((x << 37) & 0xfff7eee000000000);
        x = x ^ (x >> 43);
        x
    }
}

} // verus!
