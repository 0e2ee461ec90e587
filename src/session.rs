//! The mining session and the nonce search against it.
use vstd::prelude::*;
use crate::error::PowError;
use crate::matrix::{bytes_to_cells, cells_to_bytes, lemma_matrix_bytes_round_trip, Matrix};
use crate::pow::{calculate_pow_internal, pow_digest};
use crate::xoshiro::nth_candidate;
use crate::uint256::{
    compare_u256, hash_to_u256_le, le_value, le_words, lemma_words_value, radix, wide_value,
};

verus! {

/// Multiplier of the nonce generator of random mode.
pub const LCG_MUL: u64 = 6364136223846793005;

/// Increment of the nonce generator of random mode.
pub const LCG_INC: u64 = 1442695040888963407;

/// What a mining call reads: the pre-image hash, the timestamp, the target as
/// four little-endian words, and the matrix.
pub struct MiningSession {
    pub pre_pow_hash: Vec<u8>,
    pub timestamp: u64,
    pub target: [u64; 4],
    pub matrix: Matrix,
}

impl MiningSession {
    pub open spec fn wf(&self) -> bool {
        &&& self.pre_pow_hash@.len() == 32
        &&& self.matrix.wf()
    }
}

/// The digest of `nonce` under session `s`.
pub open spec fn digest_at(s: MiningSession, nonce: u64) -> Seq<u8> {
    pow_digest(s.pre_pow_hash@, s.timestamp, nonce, s.matrix@)
}

/// A nonce qualifies when its digest, read as a 256-bit little-endian integer,
/// is strictly below the target.
pub open spec fn qualifies(s: MiningSession, nonce: u64) -> bool {
    le_value(digest_at(s, nonce)) < wide_value(s.target@)
}

/// The first nonce of `ns` that qualifies, with its digest.
pub open spec fn batch_outcome(s: MiningSession, ns: Seq<u64>) -> Option<(u64, Seq<u8>)>
    decreases ns.len(),
{
    if ns.len() == 0 {
        None
    } else if qualifies(s, ns[0]) {
        Some((ns[0], digest_at(s, ns[0])))
    } else {
        batch_outcome(s, ns.drop_first())
    }
}

/// How many nonces of `ns` are evaluated: up to and including the first that
/// qualifies, or all of them.
pub open spec fn attempts(s: MiningSession, ns: Seq<u64>) -> nat
    decreases ns.len(),
{
    if ns.len() == 0 {
        0
    } else if qualifies(s, ns[0]) {
        1
    } else {
        1 + attempts(s, ns.drop_first())
    }
}

/// One step of the nonce generator of random mode.
pub open spec fn lcg_step(x: u64) -> u64 {
    x.wrapping_mul(LCG_MUL).wrapping_add(LCG_INC)
}

/// The nonce generator's state after `n` steps from `x`.
pub open spec fn lcg_iterate(x: u64, n: nat) -> u64
    decreases n,
{
    if n == 0 {
        x
    } else {
        lcg_step(lcg_iterate(x, (n - 1) as nat))
    }
}

/// The `i`-th nonce (from 0) of a ranged call.
pub open spec fn nonce_at(start: u64, i: nat, random: bool) -> u64 {
    if random {
        lcg_iterate(start, i + 1)
    } else {
        start.wrapping_add(i as u64)
    }
}

/// The nonces a ranged call evaluates, in order.
pub open spec fn range_nonces(start: u64, count: nat, random: bool) -> Seq<u64> {
    Seq::new(count, |i: int| nonce_at(start, i as nat, random))
}

proof fn lemma_outcome_step(s: MiningSession, ns: Seq<u64>, i: int)
    requires
        0 <= i < ns.len(),
    ensures
        ns.subrange(i, ns.len() as int)[0] == ns[i],
        ns.subrange(i, ns.len() as int).drop_first() =~= ns.subrange(i + 1, ns.len() as int),
{
}

/// A batch finds the first nonce of the list whose digest, as `compute_pow`
/// gives it for the session's fields and serialized matrix, is below the
/// target; it finds none exactly when no nonce of the list qualifies.
pub proof fn lemma_batch_first_qualifying(s: MiningSession, ns: Seq<u64>)
    ensures
        batch_outcome(s, ns) is None <==> forall|i: int| 0 <= i < ns.len() ==> !qualifies(s, ns[i]),
        batch_outcome(s, ns) is Some ==> exists|i: int|
            0 <= i < ns.len() && ns[i] == batch_outcome(s, ns)->Some_0.0 && batch_outcome(
                s,
                ns,
            )->Some_0.1 == pow_digest(
                s.pre_pow_hash@,
                s.timestamp,
                ns[i],
                bytes_to_cells(cells_to_bytes(s.matrix@)),
            ) && qualifies(s, ns[i]) && forall|j: int| 0 <= j < i ==> !qualifies(s, ns[j]),
    decreases ns.len(),
{
    lemma_matrix_bytes_round_trip(s.matrix@);
    if ns.len() > 0 {
        let rest = ns.drop_first();
        lemma_batch_first_qualifying(s, rest);
        if !qualifies(s, ns[0]) {
            assert forall|i: int| 0 <= i < ns.len() && i > 0 implies ns[i] == rest[i - 1] by {}
            if batch_outcome(s, rest) is Some {
                let i = choose|i: int|
                    0 <= i < rest.len() && rest[i] == batch_outcome(s, rest)->Some_0.0
                        && batch_outcome(s, rest)->Some_0.1 == pow_digest(
                        s.pre_pow_hash@,
                        s.timestamp,
                        rest[i],
                        bytes_to_cells(cells_to_bytes(s.matrix@)),
                    ) && qualifies(s, rest[i]) && forall|j: int|
                        0 <= j < i ==> !qualifies(s, rest[j]);
                assert(ns[i + 1] == rest[i]);
                assert forall|j: int| 0 <= j < i + 1 implies !qualifies(s, ns[j]) by {
                    if j > 0 {
                        assert(ns[j] == rest[j - 1]);
                    }
                }
            } else {
                assert forall|i: int| 0 <= i < ns.len() implies !qualifies(s, ns[i]) by {
                    if i > 0 {
                        assert(ns[i] == rest[i - 1]);
                    }
                }
            }
        } else {
            assert(ns[0] == batch_outcome(s, ns)->Some_0.0);
        }
    }
}

/// A sequential ranged call from nonce 0 over `count` nonces evaluates the
/// nonces `0, 1, ..., count - 1`: it finds what a batch over that list finds,
/// after as many attempts.
pub proof fn lemma_sequential_range_is_batch(s: MiningSession, count: nat)
    requires
        count <= u64::MAX + 1,
    ensures
        range_nonces(0, count, false) =~= Seq::new(count, |i: int| i as u64),
        batch_outcome(s, range_nonces(0, count, false)) == batch_outcome(
            s,
            Seq::new(count, |i: int| i as u64),
        ),
        attempts(s, range_nonces(0, count, false)) == attempts(
            s,
            Seq::new(count, |i: int| i as u64),
        ),
{
    assert(range_nonces(0, count, false) =~= Seq::new(count, |i: int| i as u64));
}

/// The random-mode nonces depend on the start nonce alone: a longer call
/// evaluates the nonces of a shorter one first, and the `i`-th nonce is the
/// generator's state after `i + 1` steps.
pub proof fn lemma_random_nonces_reproducible(start: u64, c1: nat, c2: nat)
    requires
        c1 <= c2,
    ensures
        range_nonces(start, c1, true) =~= range_nonces(start, c2, true).subrange(0, c1 as int),
        forall|i: int| 0 <= i < c1 ==> range_nonces(start, c1, true)[i] == lcg_iterate(start, (i + 1) as nat),
{
}

proof fn lemma_le_value_all_ff(n: nat)
    ensures
        le_value(Seq::new(n, |i: int| 0xFFu8)) == radix(n) - 1,
    decreases n,
{
    if n > 0 {
        assert(Seq::new(n, |i: int| 0xFFu8).drop_first() =~= Seq::new((n - 1) as nat, |i: int| 0xFFu8));
        lemma_le_value_all_ff((n - 1) as nat);
    }
}

proof fn lemma_le_value_all_zero(n: nat)
    ensures
        le_value(Seq::new(n, |i: int| 0u8)) == 0,
    decreases n,
{
    if n > 0 {
        assert(Seq::new(n, |i: int| 0u8).drop_first() =~= Seq::new((n - 1) as nat, |i: int| 0u8));
        lemma_le_value_all_zero((n - 1) as nat);
    }
}

/// With the target made of 32 bytes 0xFF, the first nonce evaluated qualifies,
/// unless its digest is itself the largest 256-bit value.
pub proof fn lemma_max_target_first_qualifies(s: MiningSession, ns: Seq<u64>)
    requires
        s.target@ == le_words(Seq::new(32, |i: int| 0xFFu8)),
        ns.len() > 0,
        le_value(digest_at(s, ns[0])) < radix(32) - 1,
    ensures
        batch_outcome(s, ns) == Some((ns[0], digest_at(s, ns[0]))),
        attempts(s, ns) == 1,
{
    lemma_words_value(Seq::new(32, |i: int| 0xFFu8));
    lemma_le_value_all_ff(32);
}

/// With the target made of 32 zero bytes no nonce qualifies: every nonce is
/// evaluated and none is found.
pub proof fn lemma_zero_target_never_qualifies(s: MiningSession, ns: Seq<u64>)
    requires
        s.target@ == le_words(Seq::new(32, |i: int| 0u8)),
    ensures
        batch_outcome(s, ns) is None,
        attempts(s, ns) == ns.len(),
    decreases ns.len(),
{
    lemma_words_value(Seq::new(32, |i: int| 0u8));
    lemma_le_value_all_zero(32);
    if ns.len() > 0 {
        lemma_zero_target_never_qualifies(s, ns.drop_first());
    }
}

/// After two setups in a row the session holds the second call's values, all
/// of them, so its fingerprint is the second pre-image hash and never the first
/// one where the two differ.
pub proof fn lemma_session_replacement(
    after_first: Miner,
    after_second: Miner,
    first_hash: Seq<u8>,
    first_timestamp: u64,
    first_target: Seq<u8>,
    first_matrix: Seq<u16>,
    second_hash: Seq<u8>,
    second_timestamp: u64,
    second_target: Seq<u8>,
    second_matrix: Seq<u16>,
)
    requires
        after_first.holds(first_hash, first_timestamp, first_target, first_matrix),
        after_second.holds(second_hash, second_timestamp, second_target, second_matrix),
    ensures
        after_second.session is Some,
        after_second.session->Some_0.pre_pow_hash@ == second_hash,
        first_hash != second_hash ==> after_second.session->Some_0.pre_pow_hash@ != first_hash,
        after_second.session->Some_0.timestamp == second_timestamp,
        after_second.session->Some_0.target@ == le_words(second_target),
        after_second.session->Some_0.matrix@ == second_matrix,
{
}

/// The holder of at most one mining session.
pub struct Miner {
    pub session: Option<MiningSession>,
}

impl Miner {
    pub open spec fn wf(&self) -> bool {
        self.session is Some ==> self.session->Some_0.wf()
    }

    /// Whether the session holds exactly these values.
    pub open spec fn holds(
        &self,
        pre_pow_hash: Seq<u8>,
        timestamp: u64,
        target_bytes: Seq<u8>,
        matrix: Seq<u16>,
    ) -> bool {
        &&& self.session is Some
        &&& self.session->Some_0.pre_pow_hash@ == pre_pow_hash
        &&& self.session->Some_0.timestamp == timestamp
        &&& self.session->Some_0.target@ == le_words(target_bytes)
        &&& self.session->Some_0.matrix@ == matrix
    }

    /// A miner with no session.
    pub fn new() -> (r: Self)
        ensures
            r.session is None,
            r.wf(),
    {
        Miner { session: None }
    }

    /// Installs a session, replacing any earlier one whole. `matrix` is a
    /// candidate sampled from the stream seeded by `pre_pow_hash` (the one that
    /// passed the full-rank test).
    pub fn setup_session(
        &mut self,
        pre_pow_hash: &[u8],
        timestamp: u64,
        target_bytes: &[u8],
        matrix: Matrix,
    ) -> (r: Result<(), PowError>)
        requires
            old(self).wf(),
            matrix.wf(),
            pre_pow_hash@.len() == 32 ==> exists|k: nat|
                matrix@ == #[trigger] nth_candidate(pre_pow_hash@, k),
        ensures
            final(self).wf(),
            pre_pow_hash@.len() != 32 || target_bytes@.len() != 32 <==> r == Err::<(), PowError>(
                PowError::InvalidLength,
            ),
            pre_pow_hash@.len() == 32 && target_bytes@.len() == 32 ==> r is Ok,
            r is Err ==> *final(self) == *old(self),
            r is Ok ==> final(self).holds(pre_pow_hash@, timestamp, target_bytes@, matrix@),
    {
        if pre_pow_hash.len() != 32 || target_bytes.len() != 32 {
            return Err(PowError::InvalidLength);
        }
        let target_vec = vstd::slice::slice_to_vec(target_bytes);
        let target = hash_to_u256_le(&target_vec);
        let session = MiningSession {
            pre_pow_hash: vstd::slice::slice_to_vec(pre_pow_hash),
            timestamp,
            target,
            matrix,
        };
        self.session = Some(session);
        Ok(())
    }

    /// The pre-image hash of the installed session, if any.
    pub fn session_fingerprint(&self) -> (r: Option<Vec<u8>>)
        ensures
            r is None <==> self.session is None,
            r is Some ==> r->Some_0@ == self.session->Some_0.pre_pow_hash@,
    {
        match &self.session {
            Some(s) => Some(vstd::slice::slice_to_vec(s.pre_pow_hash.as_slice())),
            None => None,
        }
    }

    /// Evaluates the nonces in order and returns the first that qualifies, with
    /// its digest.
    pub fn mine_batch(&self, nonces: Vec<u64>) -> (r: Result<Option<(u64, Vec<u8>)>, PowError>)
        requires
            self.wf(),
        ensures
            self.session is None <==> r == Err::<Option<(u64, Vec<u8>)>, PowError>(
                PowError::SessionNotReady,
            ),
            self.session is Some ==> r is Ok && match batch_outcome(self.session->Some_0, nonces@) {
                None => r->Ok_0 is None,
                Some(o) => r->Ok_0 is Some && r->Ok_0->Some_0.0 == o.0 && r->Ok_0->Some_0.1@ == o.1
                    && r->Ok_0->Some_0.1@.len() == 32,
            },
    {
        let s = match &self.session {
            Some(s) => s,
            None => {
                return Err(PowError::SessionNotReady);
            },
        };
        let ghost ns = nonces@;
        let n = nonces.len();
        let mut i: usize = 0;
        assert(ns.subrange(0, n as int) =~= ns);
        while i < n
            invariant
                self.session == Some(*s),
                s.wf(),
                n == ns.len(),
                ns == nonces@,
                i <= n,
                batch_outcome(*s, ns) == batch_outcome(*s, ns.subrange(i as int, n as int)),
            decreases n - i,
        {
            let nonce = nonces[i];
            let pow_hash = calculate_pow_internal(&s.pre_pow_hash, s.timestamp, nonce, &s.matrix);
            let pow_value = hash_to_u256_le(&pow_hash);
            proof {
                lemma_words_value(pow_hash@);
                lemma_outcome_step(*s, ns, i as int);
            }
            if matches!(compare_u256(&pow_value, &s.target), core::cmp::Ordering::Less) {
                return Ok(Some((nonce, pow_hash)));
            }
            i = i + 1;
        }
        assert(ns.subrange(n as int, n as int).len() == 0);
        Ok(None)
    }

    /// Evaluates up to `count` nonces, stopping at the first that qualifies.
    /// Sequential mode takes `start_nonce + i` (wrapping); random mode takes the
    /// successive states of a linear congruential generator seeded with
    /// `start_nonce`. Returns the nonce found and its digest, if any, and the
    /// number of nonces evaluated.
    pub fn mine_range(&self, start_nonce: u64, count: u64, random_mode: bool) -> (r: Result<
        (Option<u64>, Option<Vec<u8>>, u64),
        PowError,
    >)
        requires
            self.wf(),
        ensures
            self.session is None <==> r is Err,
            r is Err ==> r == Err::<(Option<u64>, Option<Vec<u8>>, u64), PowError>(
                PowError::SessionNotReady,
            ),
            r is Ok ==> ({
                let s = self.session->Some_0;
                let ns = range_nonces(start_nonce, count as nat, random_mode);
                let (found, digest, used) = r->Ok_0;
                &&& used as nat == attempts(s, ns)
                &&& match batch_outcome(s, ns) {
                    None => found is None && digest is None,
                    Some(o) => found == Some(o.0) && digest is Some && digest->Some_0@ == o.1
                        && digest->Some_0@.len() == 32,
                }
            }),
    {
        let s = match &self.session {
            Some(s) => s,
            None => {
                return Err(PowError::SessionNotReady);
            },
        };
        let ghost ns = range_nonces(start_nonce, count as nat, random_mode);
        let mut rng_state: u64 = start_nonce;
        let mut i: u64 = 0;
        assert(ns.subrange(0, count as int) =~= ns);
        while i < count
            invariant
                self.session == Some(*s),
                s.wf(),
                ns == range_nonces(start_nonce, count as nat, random_mode),
                i <= count,
                random_mode ==> rng_state == lcg_iterate(start_nonce, i as nat),
                batch_outcome(*s, ns) == batch_outcome(*s, ns.subrange(i as int, count as int)),
                attempts(*s, ns) == i + attempts(*s, ns.subrange(i as int, count as int)),
            decreases count - i,
        {
            let nonce = if random_mode {
                rng_state = rng_state.wrapping_mul(LCG_MUL).wrapping_add(LCG_INC);
                assert(rng_state == lcg_iterate(start_nonce, (i + 1) as nat));
                rng_state
            } else {
                start_nonce.wrapping_add(i)
            };
            assert(ns[i as int] == nonce_at(start_nonce, i as nat, random_mode));
            assert(nonce == ns[i as int]);
            let pow_hash = calculate_pow_internal(&s.pre_pow_hash, s.timestamp, nonce, &s.matrix);
            let pow_value = hash_to_u256_le(&pow_hash);
            proof {
                lemma_words_value(pow_hash@);
                lemma_outcome_step(*s, ns, i as int);
            }
            if matches!(compare_u256(&pow_value, &s.target), core::cmp::Ordering::Less) {
                return Ok((Some(nonce), Some(pow_hash), i + 1));
            }
            i = i + 1;
        }
        assert(ns.subrange(count as int, count as int).len() == 0);
        Ok((None, None, count))
    }
}

} // verus!
