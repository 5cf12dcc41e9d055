//! Turning a logit vector into the next token id: the random source of
//! sampling and the greedy choice.

use vstd::prelude::*;

verus! {

/// One step of the xorshift64 generator (shifts 13, 7, 17).
pub open spec fn xorshift(x: u64) -> u64 {
    let a = x ^ (x << 13u64);
    let b = a ^ (a >> 7u64);
    b ^ (b << 17u64)
}

/// The state a zero seed is replaced by, so that the state is never all-zero.
pub const ZERO_SEED_STATE: u64 = 0x9E37_79B9_7F4A_7C15;

/// The state `Rng::new(seed)` starts from.
pub open spec fn seeded_state(seed: u64) -> u64 {
    if seed == 0 {
        ZERO_SEED_STATE
    } else {
        seed
    }
}

/// Only the zero seed is remapped: every other seed is the generator's
/// starting state itself, so distinct nonzero seeds start distinct streams,
/// and the zero seed starts from a state no nonzero seed other than that
/// state shares.
pub proof fn lemma_seeds_start_streams(a: u64, b: u64)
    ensures
        a != 0 ==> seeded_state(a) == a,
        a == 0 ==> seeded_state(a) == ZERO_SEED_STATE,
        seeded_state(a) != 0,
        a != 0 && b != 0 && a != b ==> seeded_state(a) != seeded_state(b),
        a != 0 && seeded_state(a) == seeded_state(b) ==> b == a || (b == 0 && a == ZERO_SEED_STATE),
{
}

/// A step of xorshift never reaches the all-zero state from any other state,
/// so a generator started away from zero stays away from it for ever.
pub proof fn lemma_xorshift_nonzero(x: u64)
    requires
        x != 0,
    ensures
        xorshift(x) != 0,
{
    let a = x ^ (x << 13u64);
    let b = a ^ (a >> 7u64);
    assert(a != 0) by (bit_vector)
        requires
            x != 0,
            a == x ^ (x << 13u64),
    ;
    assert(b != 0) by (bit_vector)
        requires
            a != 0,
            b == a ^ (a >> 7u64),
    ;
    assert(b ^ (b << 17u64) != 0) by (bit_vector)
        requires
            b != 0,
    ;
}

/// A tiny xorshift random number generator: enough for sampling, and
/// dependency-free. Its state is never zero.
pub struct Rng(u64);

impl View for Rng {
    type V = u64;

    closed spec fn view(&self) -> u64 {
        self.0
    }
}

impl Rng {
    #[verifier::type_invariant]
    closed spec fn never_zero(self) -> bool {
        self.0 != 0
    }

    /// Seed the generator (0 is remapped so the state is never all-zero).
    pub fn new(seed: u64) -> (r: Self)
        ensures
            r@ == seeded_state(seed),
            r@ != 0,
            seed != 0 ==> r@ == seed,
            seed == 0 ==> r@ == ZERO_SEED_STATE,
    {
        Rng(if seed == 0 { ZERO_SEED_STATE } else { seed })
    }

    /// Advance the state by one xorshift step and return the new state.
    pub fn next_u64(&mut self) -> (r: u64)
        ensures
            r == xorshift(old(self)@),
            final(self)@ == r,
            r != 0,
    {
        proof {
            use_type_invariant(&*self);
            lemma_xorshift_nonzero(self.0);
        }
        let mut x = self.0;
        x = x ^ (x << 13u64);
        x = x ^ (x >> 7u64);
        x = x ^ (x << 17u64);
        self.0 = x;
        x
    }
}

impl Rng {
    /// Advance the state and return its top 24 bits: a uniform draw from
    /// `0..2^24`, which is exactly representable as an `f32` numerator over
    /// `2^24`.
    pub fn next_u24(&mut self) -> (r: u32)
        ensures
            r == xorshift(old(self)@) >> 40u64,
            r < 0x100_0000,
            final(self)@ == xorshift(old(self)@),
    {
        let x = self.next_u64();
        assert(x >> 40u64 < 0x100_0000) by (bit_vector);
        (x >> 40u64) as u32
    }
}

/// `r` is the first index whose key is present and greatest among the present
/// keys, or 0 when no key is present.
pub open spec fn is_first_max(keys: Seq<Option<i32>>, r: int) -> bool {
    if forall|j: int| 0 <= j < keys.len() ==> #[trigger] keys[j] is None {
        r == 0
    } else {
        &&& 0 <= r < keys.len()
        &&& keys[r] is Some
        &&& forall|j: int| 0 <= j < keys.len() && #[trigger] keys[j] is Some ==> keys[j]->0 <= keys[r]->0
        &&& forall|j: int| 0 <= j < r && #[trigger] keys[j] is Some ==> keys[j]->0 < keys[r]->0
    }
}

/// The order key of the `f32` logit with bit pattern `bits`: `None` for NaN
/// and for negative infinity, which never compare greater than negative
/// infinity; otherwise the magnitude bits, negated for a negative sign, so
/// that keys compare as the logits do and both zeros share the key 0.
pub open spec fn spec_logit_key(bits: u32) -> Option<i32> {
    let mag = bits as int % 0x8000_0000;
    let negative = bits >= 0x8000_0000;
    if mag > 0x7f80_0000 {
        None
    } else if negative && mag == 0x7f80_0000 {
        None
    } else if negative {
        Some((-mag) as i32)
    } else {
        Some(mag as i32)
    }
}

/// The order key `argmax` compares for the `f32` logit with bit pattern
/// `bits`.
pub fn logit_key(bits: u32) -> (r: Option<i32>)
    ensures
        r == spec_logit_key(bits),
{
    let mag = bits % 0x8000_0000;
    let negative = bits >= 0x8000_0000;
    if mag > 0x7f80_0000 {
        None
    } else if negative && mag == 0x7f80_0000 {
        None
    } else if negative {
        Some(-(mag as i32))
    } else {
        Some(mag as i32)
    }
}

/// Both zeros share a key, and among the other values that can win a
/// positive one always outranks a negative one.
pub proof fn lemma_logit_key_signs(neg: u32, pos: u32)
    requires
        neg >= 0x8000_0000,
        pos < 0x8000_0000,
        spec_logit_key(neg) is Some,
        spec_logit_key(pos) is Some,
    ensures
        spec_logit_key(neg)->0 <= spec_logit_key(pos)->0,
        spec_logit_key(neg)->0 == spec_logit_key(pos)->0 <==> (neg == 0x8000_0000 && pos == 0),
{
}

/// Keys follow the order of IEEE-754 values that can win: among
/// non-negative patterns a larger pattern is a larger value, and among
/// negative ones a larger pattern is a smaller value.
pub proof fn lemma_logit_key_monotone(a: u32, b: u32)
    requires
        spec_logit_key(a) is Some,
        spec_logit_key(b) is Some,
    ensures
        a < 0x8000_0000 && b < 0x8000_0000 ==> (spec_logit_key(a)->0 <= spec_logit_key(b)->0 <==> a <= b),
        a >= 0x8000_0000 && b >= 0x8000_0000 ==> (spec_logit_key(a)->0 <= spec_logit_key(b)->0 <==> a >= b),
{
}

/// Index of the maximum logit, given each logit's order key.
///
/// A key stands for its logit by order: `Some(k)` for a logit that can win,
/// with keys ordered as the logits are, and `None` for one that never
/// compares greater than negative infinity (NaN, or negative infinity
/// itself). Ties go to the first index; when no logit can win the answer is 0.
/// The index is returned as a token id, so past `u32::MAX` only its low 32
/// bits are kept.
pub fn argmax(keys: &[Option<i32>]) -> (r: u32)
    ensures
        exists|i: int| is_first_max(keys@, i) && r == i as u32,
        keys@.len() <= u32::MAX + 1 ==> is_first_max(keys@, r as int),
{
    let mut best: usize = 0;
    let mut best_key: Option<i32> = None;
    let n = keys.len();
    for i in 0..n
        invariant
            n == keys@.len(),
            best_key is None ==> best == 0 && forall|j: int| 0 <= j < i ==> #[trigger] keys@[j] is None,
            best_key is Some ==> {
                &&& best < i
                &&& keys@[best as int] == best_key
                &&& forall|j: int| 0 <= j < i && #[trigger] keys@[j] is Some ==> keys@[j]->0 <= best_key->0
                &&& forall|j: int| 0 <= j < best && #[trigger] keys@[j] is Some ==> keys@[j]->0 < best_key->0
            },
    {
        match keys[i] {
            Some(v) => {
                let better = match best_key {
                    None => true,
                    Some(b) => v > b,
                };
                if better {
                    best = i;
                    best_key = Some(v);
                }
            },
            None => {},
        }
    }
    assert(is_first_max(keys@, best as int));
    best as u32
}

} // verus!
