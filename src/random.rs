use vstd::prelude::*;

verus! {

/// One step of the stream's linear congruential state update.
pub open spec fn pcg_step(state: u32) -> u32 {
    ((state as int * 747796405 + 2891336453) % 0x1_0000_0000) as u32
}

/// Permutation applied to a state to produce the output word.
pub open spec fn pcg_output(state: u32) -> u32 {
    let word = (state >> ((state >> 28u32) + 4u32)) ^ state;
    let word = ((word as int * 277803737) % 0x1_0000_0000) as u32;
    (word >> 22u32) ^ word
}

/// A pseudorandom stream with one 32-bit word of state.
pub struct Pcg {
    pub state: u32,
}

impl Pcg {
    /// A stream at the fixed starting state.
    pub fn new() -> (r: Pcg)
        ensures
            r.state == 0,
    {
        Pcg { state: 0 }
    }
}

/// Draws the next 32-bit word from the stream and advances it.
pub fn rand_pcg(rng: &mut Pcg) -> (r: u32)
    ensures
        r == pcg_output(old(rng).state),
        final(rng).state == pcg_step(old(rng).state),
{
    let state = rng.state;
    let scaled = state.wrapping_mul(747796405);
    rng.state = scaled.wrapping_add(2891336453);
    proof {
        lemma_step_wraps(state);
    }
    let top: u32 = state >> 28u32;
    assert(top <= 15) by (bit_vector)
        requires
            top == state >> 28u32,
    ;
    let word = (state >> (top + 4)) ^ state;
    let word = word.wrapping_mul(277803737);
    (word >> 22u32) ^ word
}

proof fn lemma_step_wraps(state: u32)
    ensures
        vstd::wrapping::u32_specs::wrapping_add(
            vstd::wrapping::u32_specs::wrapping_mul(state, 747796405),
            2891336453,
        ) == pcg_step(state),
{
    let m = 0x1_0000_0000int;
    let prod = state as int * 747796405;
    vstd::arithmetic::div_mod::lemma_add_mod_noop(prod, 2891336453, m);
    vstd::arithmetic::div_mod::lemma_small_mod(2891336453nat, m as nat);
    let low = prod % m;
    assert(0 <= low < m);
    if low + 2891336453 >= m {
        vstd::arithmetic::div_mod::lemma_fundamental_div_mod_converse(
            low + 2891336453,
            m,
            1,
            low + 2891336453 - m,
        );
    } else {
        vstd::arithmetic::div_mod::lemma_small_mod((low + 2891336453) as nat, m as nat);
    }
}

/// A value drawn from one word of the stream.
pub trait Random: Sized {
    /// The value that a draw of `word` yields.
    spec fn from_word(word: u32) -> Self;

    fn random(rng: &mut Pcg) -> (r: Self)
        ensures
            r == Self::from_word(pcg_output(old(rng).state)),
            final(rng).state == pcg_step(old(rng).state),
    ;
}

/// A value drawn from one word of the stream and scaled into `[min, max)`.
pub trait RandomInRange: Sized {
    /// Whether `[min, max)` is a range that a draw can be scaled into.
    spec fn valid_range(min: Self, max: Self) -> bool;

    /// The value in the range that a draw of `word` yields.
    spec fn scale_word(min: Self, max: Self, word: u32) -> Self;

    fn random_in_range(rng: &mut Pcg, min: Self, max: Self) -> (r: Self)
        requires
            Self::valid_range(min, max),
        ensures
            r == Self::scale_word(min, max, pcg_output(old(rng).state)),
            final(rng).state == pcg_step(old(rng).state),
    ;
}

/// The width of a `u32` range scaled by a draw, as a fraction of `2^32`.
pub open spec fn scaled_offset(width: int, word: u32) -> int {
    (width * word) / 0x1_0000_0000
}

impl Random for u32 {
    open spec fn from_word(word: u32) -> u32 {
        word
    }

    fn random(rng: &mut Pcg) -> (r: u32) {
        rand_pcg(rng)
    }
}

impl RandomInRange for u32 {
    open spec fn valid_range(min: u32, max: u32) -> bool {
        min <= max
    }

    open spec fn scale_word(min: u32, max: u32, word: u32) -> u32 {
        (min + scaled_offset(max - min, word)) as u32
    }

    fn random_in_range(rng: &mut Pcg, min: u32, max: u32) -> (r: u32) {
        let word = rand_pcg(rng);
        let width = (max - min) as u64;
        proof {
            lemma_scaled_offset_bounds(width as int, word);
            vstd::arithmetic::mul::lemma_mul_upper_bound(
                width as int,
                0xFFFF_FFFF,
                word as int,
                0xFFFF_FFFF,
            );
        }
        let product: u64 = width * word as u64;
        assert(product >> 32u64 == product / 0x1_0000_0000) by (bit_vector);
        let offset = (product >> 32u64) as u32;
        min + offset
    }
}

/// A draw scaled into `[min, max)` lies in it, and an empty range yields `min`.
pub proof fn lemma_scaled_offset_bounds(width: int, word: u32)
    requires
        width >= 0,
    ensures
        0 <= scaled_offset(width, word) <= width,
        width > 0 ==> scaled_offset(width, word) < width,
        width == 0 ==> scaled_offset(width, word) == 0,
{
    let m = 0x1_0000_0000int;
    vstd::arithmetic::mul::lemma_mul_nonnegative(width, word as int);
    vstd::arithmetic::mul::lemma_mul_inequality(word as int, m - 1, width);
    vstd::arithmetic::div_mod::lemma_div_pos_is_pos(width * word, m);
    if width > 0 {
        vstd::arithmetic::div_mod::lemma_div_by_multiple_is_strongly_ordered(
            width * word,
            width * m,
            width,
            m,
        );
        vstd::arithmetic::div_mod::lemma_div_multiples_vanish(width, m);
    }
}

} // verus!
