//! The xoshiro256++ stream that seeds matrix sampling, and the sampling of one
//! candidate matrix from it.
use vstd::prelude::*;
use crate::error::PowError;
use crate::matrix::{Matrix, CELLS};
use crate::uint256::{le_word, read_u64_le};

verus! {

/// The generator's four state words.
pub type XoState = (u64, u64, u64, u64);

/// `x` rotated left by `k` bits.
pub open spec fn rotl_spec(x: u64, k: u64) -> u64
    recommends
        0 < k < 64,
{
    (x << k) | (x >> (64 - k) as u64)
}

/// The word the generator outputs in state `s`.
pub open spec fn xo_output(s: XoState) -> u64 {
    rotl_spec(s.0.wrapping_add(s.3), 23).wrapping_add(s.0)
}

/// The state that follows `s`.
pub open spec fn xo_step(s: XoState) -> XoState {
    let t = s.1 << 17u64;
    let s2 = s.2 ^ s.0;
    let s3 = s.3 ^ s.1;
    let s1 = s.1 ^ s2;
    let s0 = s.0 ^ s3;
    (s0, s1, s2 ^ t, rotl_spec(s3, 45))
}

/// The state after `n` steps from `s`.
pub open spec fn xo_iterate(s: XoState, n: nat) -> XoState
    decreases n,
{
    if n == 0 {
        s
    } else {
        xo_step(xo_iterate(s, (n - 1) as nat))
    }
}

/// The `n`-th word (from 0) that the generator outputs from state `s`.
pub open spec fn xo_draw(s: XoState, n: nat) -> u64 {
    xo_output(xo_iterate(s, n))
}

/// Nibble `k` of `w`, counting from the least significant.
pub open spec fn nibble(w: u64, k: int) -> u16 {
    ((w >> (4 * k) as u64) & 0xF) as u16
}

/// The candidate matrix sampled from state `s`: 256 draws, each spread over
/// sixteen consecutive cells of a row, least significant nibble first.
pub open spec fn candidate_cells(s: XoState) -> Seq<u16> {
    Seq::new(CELLS as nat, |c: int| nibble(xo_draw(s, (c / 16) as nat), c % 16))
}

/// The `k`-th candidate (from 0) sampled from the stream seeded by `hash`.
pub open spec fn nth_candidate(hash: Seq<u8>, k: nat) -> Seq<u16> {
    candidate_cells(xo_iterate(seed_of(hash), 256 * k))
}

/// Stepping `a` times and then `b` times is stepping `a + b` times.
pub proof fn lemma_xo_iterate_add(s: XoState, a: nat, b: nat)
    ensures
        xo_iterate(xo_iterate(s, a), b) == xo_iterate(s, a + b),
    decreases b,
{
    if b > 0 {
        lemma_xo_iterate_add(s, a, (b - 1) as nat);
    }
}

/// A generator seeded by `hash` that has sampled `k` candidates samples the
/// `k`-th candidate next, and is then ready for the one after.
pub proof fn lemma_candidates_in_order(hash: Seq<u8>, k: nat)
    ensures
        candidate_cells(xo_iterate(seed_of(hash), 256 * k)) == nth_candidate(hash, k),
        xo_iterate(xo_iterate(seed_of(hash), 256 * k), 256) == xo_iterate(
            seed_of(hash),
            256 * (k + 1),
        ),
{
    lemma_xo_iterate_add(seed_of(hash), 256 * k, 256);
    assert(256 * k + 256 == 256 * (k + 1)) by (nonlinear_arith);
}

/// The seed words of a 32-byte pre-image hash: its four little-endian words.
pub open spec fn seed_of(hash: Seq<u8>) -> XoState {
    (le_word(hash, 0), le_word(hash, 1), le_word(hash, 2), le_word(hash, 3))
}

/// `x` rotated left by `k` bits.
pub fn rotl(x: u64, k: u64) -> (r: u64)
    requires
        0 < k < 64,
    ensures
        r == rotl_spec(x, k),
{
    (x << k) | (x >> (64 - k))
}

/// The xoshiro256++ generator.
pub struct Xoshiro256PlusPlus {
    s0: u64,
    s1: u64,
    s2: u64,
    s3: u64,
}

impl View for Xoshiro256PlusPlus {
    type V = XoState;

    closed spec fn view(&self) -> XoState {
        (self.s0, self.s1, self.s2, self.s3)
    }
}

impl Xoshiro256PlusPlus {
    pub fn new(s0: u64, s1: u64, s2: u64, s3: u64) -> (r: Self)
        ensures
            r@ == (s0, s1, s2, s3),
    {
        Xoshiro256PlusPlus { s0, s1, s2, s3 }
    }

    /// The generator seeded from the four little-endian words of a pre-image hash.
    pub fn from_hash(hash: &Vec<u8>) -> (r: Self)
        requires
            hash@.len() == 32,
        ensures
            r@ == seed_of(hash@),
    {
        let s0 = read_u64_le(hash, 0);
        let s1 = read_u64_le(hash, 8);
        let s2 = read_u64_le(hash, 16);
        let s3 = read_u64_le(hash, 24);
        Self::new(s0, s1, s2, s3)
    }

    /// The generator for a pre-image hash given as bytes, which must be 32 long.
    pub fn for_pre_pow_hash(pre_pow_hash: &[u8]) -> (r: Result<Self, PowError>)
        ensures
            pre_pow_hash@.len() != 32 <==> r == Err::<Self, PowError>(PowError::InvalidLength),
            pre_pow_hash@.len() == 32 ==> r is Ok,
            r is Ok ==> r->Ok_0@ == seed_of(pre_pow_hash@),
    {
        if pre_pow_hash.len() != 32 {
            return Err(PowError::InvalidLength);
        }
        let hash = vstd::slice::slice_to_vec(pre_pow_hash);
        Ok(Self::from_hash(&hash))
    }

    /// Outputs the next word and advances the state.
    pub fn next(&mut self) -> (r: u64)
        ensures
            r == xo_output(old(self)@),
            final(self)@ == xo_step(old(self)@),
    {
        let result = rotl(self.s0.wrapping_add(self.s3), 23).wrapping_add(self.s0);
        let t = self.s1 << 17u64;
        self.s2 = self.s2 ^ self.s0;
        self.s3 = self.s3 ^ self.s1;
        self.s1 = self.s1 ^ self.s2;
        self.s0 = self.s0 ^ self.s3;
        self.s2 = self.s2 ^ t;
        self.s3 = rotl(self.s3, 45);
        result
    }

    /// Samples one candidate matrix: four draws per row, each split into sixteen
    /// nibbles laid out left to right, least significant first.
    pub fn next_candidate(&mut self) -> (r: Matrix)
        ensures
            r.wf(),
            r@ == candidate_cells(old(self)@),
            final(self)@ == xo_iterate(old(self)@, 256),
    {
        let ghost start = self@;
        let mut cells: Vec<u16> = Vec::new();
        let mut d: usize = 0;
        while d < 256
            invariant
                d <= 256,
                self@ == xo_iterate(start, d as nat),
                cells@.len() == 16 * d,
                forall|c: int| 0 <= c < 16 * d ==> cells@[c] == candidate_cells(start)[c],
            decreases 256 - d,
        {
            let val = self.next();
            let mut k: usize = 0;
            while k < 16
                invariant
                    d < 256,
                    k <= 16,
                    val == xo_draw(start, d as nat),
                    cells@.len() == 16 * d + k,
                    forall|c: int| 0 <= c < 16 * d + k ==> cells@[c] == candidate_cells(start)[c],
                decreases 16 - k,
            {
                proof {
                    let c = 16 * d + k;
                    assert(c / 16 == d && c % 16 == k as int) by (nonlinear_arith)
                        requires
                            c == 16 * d + k,
                            k < 16,
                    ;
                }
                cells.push(((val >> ((4 * k) as u64)) & 0xF) as u16);
                k = k + 1;
            }
            d = d + 1;
        }
        let m = Matrix { cells };
        assert(m@ =~= candidate_cells(start));
        m
    }
}

} // verus!
