//! The per-worker brute-force nonce search and the reduction of the workers'
//! results to a single best candidate.

use vstd::prelude::*;
use crate::timing::format_duration;
use drillx::equix::SolverMemory;

verus! {

/// Number of nonces a worker hashes at most between two readings of the clock.
pub const STRIDE: u64 = 100;

#[verifier::external_type_specification]
#[verifier::external_body]
pub struct ExSolverMemory(SolverMemory);

/// The (digest, hash) pair that drillx derives from a challenge and a nonce,
/// or `None` where its memory-bound solver finds no solution for them.
pub uninterp spec fn drillx_hash(challenge: Seq<u8>, nonce: u64) -> Option<(Seq<u8>, Seq<u8>)>;

/// The name given to the base-58 text of a byte string.
pub uninterp spec fn base58_of(bytes: Seq<u8>) -> Seq<char>;

/// Relies on `drillx::hash_with_memory`: the result is determined by the
/// challenge and the little-endian bytes of the nonce; the memory is scratch.
#[verifier::external_body]
fn hash_nonce(memory: &mut SolverMemory, challenge: &[u8; 32], nonce: u64) -> (r: Option<([u8; 16], [u8; 32])>)
    ensures
        match r {
            Some(p) => drillx_hash(challenge@, nonce) == Some((p.0@, p.1@)),
            None => drillx_hash(challenge@, nonce) is None,
        },
{
    match drillx::hash_with_memory(memory, challenge, &nonce.to_le_bytes()) {
        Ok(hx) => Some((hx.d, hx.h)),
        Err(_) => None,
    }
}

/// Leading zero bits of one byte.
pub open spec fn byte_leading_zeros(b: u8) -> nat {
    if b >= 128 {
        0
    } else if b >= 64 {
        1
    } else if b >= 32 {
        2
    } else if b >= 16 {
        3
    } else if b >= 8 {
        4
    } else if b >= 4 {
        5
    } else if b >= 2 {
        6
    } else if b >= 1 {
        7
    } else {
        8
    }
}

/// Leading zero bits of a byte string, most significant bit of the first
/// byte first: the difficulty score of a hash.
pub open spec fn leading_zero_bits(h: Seq<u8>) -> nat
    decreases h.len(),
{
    if h.len() == 0 {
        0
    } else if h[0] == 0 {
        8 + leading_zero_bits(h.drop_first())
    } else {
        byte_leading_zeros(h[0])
    }
}

/// Relies on `drillx::difficulty`: it counts the leading zero bits of the
/// hash, byte by byte, stopping at the first byte that is not zero.
#[verifier::external_body]
fn hash_difficulty(h: &[u8; 32]) -> (r: u32)
    ensures
        r as nat == leading_zero_bits(h@),
{
    drillx::difficulty(*h)
}

/// Relies on `bs58::encode(..).into_string()`: the base-58 text of the bytes.
#[verifier::external_body]
fn encode_base58(h: &[u8; 32]) -> (r: String)
    ensures
        r@ == base58_of(h@),
{
    bs58::encode(h).into_string()
}

/// A hashed nonce together with its difficulty score.
#[derive(Clone, Copy)]
pub struct Candidate {
    pub nonce: u64,
    pub difficulty: u32,
    pub digest: [u8; 16],
    pub hash: [u8; 32],
}

/// Mathematical model of a [`Candidate`].
pub ghost struct CandidateView {
    pub nonce: u64,
    pub difficulty: nat,
    pub digest: Seq<u8>,
    pub hash: Seq<u8>,
}

impl View for Candidate {
    type V = CandidateView;

    open spec fn view(&self) -> CandidateView {
        CandidateView {
            nonce: self.nonce,
            difficulty: self.difficulty as nat,
            digest: self.digest@,
            hash: self.hash@,
        }
    }
}

/// The empty candidate: nonce zero, difficulty zero, all-zero digest and hash.
pub open spec fn zero_candidate() -> CandidateView {
    CandidateView {
        nonce: 0,
        difficulty: 0,
        digest: Seq::new(16, |i: int| 0u8),
        hash: Seq::new(32, |i: int| 0u8),
    }
}

impl Candidate {
    /// The empty candidate, which any successful hash with a positive
    /// difficulty improves on.
    pub fn zero() -> (r: Candidate)
        ensures
            r@ == zero_candidate(),
    {
        let r = Candidate { nonce: 0, difficulty: 0, digest: [0u8; 16], hash: [0u8; 32] };
        assert(r.digest@ =~= zero_candidate().digest);
        assert(r.hash@ =~= zero_candidate().hash);
        r
    }

    /// Base-58 text of the candidate's hash, as shown to the operator.
    pub fn hash_text(&self) -> (r: String)
        ensures
            r@ == base58_of(self.hash@),
    {
        encode_base58(&self.hash)
    }
}

/// What examining `nonce` makes of the best candidate so far: the new hash
/// replaces it only when its difficulty is strictly greater, so the first
/// candidate found wins a tie; a nonce the solver rejects changes nothing.
pub open spec fn improve(challenge: Seq<u8>, best: CandidateView, nonce: u64) -> CandidateView {
    match drillx_hash(challenge, nonce) {
        Some(p) => if leading_zero_bits(p.1) > best.difficulty {
            CandidateView { nonce, difficulty: leading_zero_bits(p.1), digest: p.0, hash: p.1 }
        } else {
            best
        },
        None => best,
    }
}

/// The nonce after `n`; the space wraps around after `u64::MAX`.
pub open spec fn next_nonce(n: u64) -> u64 {
    if n == u64::MAX { 0 } else { (n + 1) as u64 }
}

/// The `k`-th nonce of a run that starts at `start`.
pub open spec fn nonce_at(start: u64, k: nat) -> u64
    decreases k,
{
    if k == 0 { start } else { next_nonce(nonce_at(start, (k - 1) as nat)) }
}

/// The best candidate after examining `count` consecutive nonces from
/// `start`, beginning with `best`.
pub open spec fn scan(challenge: Seq<u8>, best: CandidateView, start: u64, count: nat) -> CandidateView
    decreases count,
{
    if count == 0 {
        best
    } else {
        improve(challenge, scan(challenge, best, start, (count - 1) as nat), nonce_at(start, (count - 1) as nat))
    }
}

/// First nonce of worker `id` out of `cores`: the nonce space split evenly.
pub open spec fn start_nonce(id: u64, cores: u64) -> int {
    (u64::MAX as int / cores as int) * id as int
}

/// One search worker: the next nonce to hash and the best candidate found.
pub struct Worker {
    pub id: u64,
    pub nonce: u64,
    pub best: Candidate,
}

impl Worker {
    /// The worker with index `id` among `cores` requested workers, or `None`
    /// when `id` is beyond the requested count: such a worker does no work.
    /// Its best candidate starts at difficulty zero on its own first nonce.
    pub fn new(id: u64, cores: u64) -> (r: Option<Worker>)
        ensures
            id >= cores <==> r is None,
            r matches Some(w) ==> {
                &&& w.id == id
                &&& w.nonce as int == start_nonce(id, cores)
                &&& w.best@ == (CandidateView { nonce: w.nonce, ..zero_candidate() })
            },
    {
        if id >= cores {
            return None;
        }
        let span = u64::MAX / cores;
        assert(span * id <= span * cores) by (nonlinear_arith)
            requires id < cores;
        assert(span * cores <= u64::MAX) by (nonlinear_arith)
            requires span == u64::MAX / cores, cores > 0;
        let nonce = span * id;
        let mut best = Candidate::zero();
        best.nonce = nonce;
        Some(Worker { id, nonce, best })
    }

    /// Hashes `nonce` and keeps the result if it beats the best so far.
    fn examine(&mut self, memory: &mut SolverMemory, challenge: &[u8; 32], nonce: u64)
        ensures
            final(self).best@ == improve(challenge@, old(self).best@, nonce),
            final(self).id == old(self).id,
            final(self).nonce == old(self).nonce,
    {
        match hash_nonce(memory, challenge, nonce) {
            Some(p) => {
                let difficulty = hash_difficulty(&p.1);
                if difficulty > self.best.difficulty {
                    self.best = Candidate { nonce, difficulty, digest: p.0, hash: p.1 };
                }
            },
            None => {},
        }
    }

    /// Hashes consecutive nonces up to and including the next one divisible
    /// by the sampling interval (at most `STRIDE` of them), and returns how
    /// many were hashed. The count is at least one, so the total of hashes
    /// grows with every call.
    pub fn run_stride(&mut self, memory: &mut SolverMemory, challenge: &[u8; 32]) -> (n: u64)
        ensures
            1 <= n <= STRIDE,
            final(self).id == old(self).id,
            final(self).nonce == nonce_at(old(self).nonce, n as nat),
            final(self).best@ == scan(challenge@, old(self).best@, old(self).nonce, n as nat),
            forall|k: nat| k + 1 < n ==> #[trigger] nonce_at(old(self).nonce, k) % STRIDE != 0,
            nonce_at(old(self).nonce, (n - 1) as nat) % STRIDE == 0 || n == STRIDE,
    {
        let ghost start = self.nonce;
        let ghost best0 = self.best@;
        let ghost id0 = self.id;
        let mut count: u64 = 0;
        loop
            invariant_except_break
                count < STRIDE,
                forall|k: nat| k < count ==> #[trigger] nonce_at(start, k) % STRIDE != 0,
            invariant
                count <= STRIDE,
                self.id == id0,
                self.nonce == nonce_at(start, count as nat),
                self.best@ == scan(challenge@, best0, start, count as nat),
            ensures
                1 <= count <= STRIDE,
                forall|k: nat| k + 1 < count ==> #[trigger] nonce_at(start, k) % STRIDE != 0,
                nonce_at(start, (count - 1) as nat) % STRIDE == 0 || count == STRIDE,
            decreases STRIDE - count,
        {
            let nonce = self.nonce;
            self.examine(memory, challenge, nonce);
            self.nonce = if nonce == u64::MAX { 0 } else { nonce + 1 };
            count = count + 1;
            assert(nonce_at(start, count as nat) == next_nonce(nonce_at(start, (count - 1) as nat)));
            if nonce % STRIDE == 0 || count == STRIDE {
                break;
            }
        }
        count
    }
}

/// Whether a worker stops at a clock reading: the deadline has passed and the best
/// difficulty found by any worker meets the threshold. Past the deadline a
/// worker keeps searching until the threshold is met.
pub fn should_stop(elapsed_secs: u64, cutoff: u64, global_best: u32, min_difficulty: u32) -> (r: bool)
    ensures
        r == (elapsed_secs >= cutoff && global_best >= min_difficulty),
{
    elapsed_secs >= cutoff && global_best >= min_difficulty
}

/// The published best difficulty after a worker offers `difficulty`: the
/// larger of the two, so it never goes down.
pub fn raise_best(current: u32, difficulty: u32) -> (r: u32)
    ensures
        r == if difficulty > current { difficulty } else { current },
{
    if difficulty > current { difficulty } else { current }
}

/// The best difficulty published after offers `offers`, starting from `start`.
pub open spec fn published(start: u32, offers: Seq<u32>) -> u32
    decreases offers.len(),
{
    if offers.len() == 0 {
        start
    } else {
        let b = published(start, offers.drop_last());
        if offers.last() > b { offers.last() } else { b }
    }
}

/// The published best difficulty never goes down: sampled after any `i`
/// offers and again after any later `j`, the first value is at most the
/// second, and no offer exceeds the value published once it is made.
pub proof fn lemma_best_monotone(start: u32, offers: Seq<u32>, i: int, j: int)
    requires
        0 <= i <= j <= offers.len(),
    ensures
        published(start, offers.take(i)) <= published(start, offers.take(j)),
        forall|k: int| 0 <= k < j ==> #[trigger] offers[k] <= published(start, offers.take(j)),
    decreases j,
{
    if i < j {
        lemma_best_monotone(start, offers, i, j - 1);
        assert(offers.take(j).drop_last() =~= offers.take(j - 1));
        assert(offers.take(j).last() == offers[j - 1]);
    } else if j > 0 {
        lemma_best_monotone(start, offers, j - 1, j - 1);
        assert(offers.take(j).drop_last() =~= offers.take(j - 1));
        assert(offers.take(j).last() == offers[j - 1]);
    }
}

/// A worker's search never discards a candidate: after examining `count`
/// nonces its best difficulty is at least where it started and at least
/// that of every hash the solver produced on the way, and the best is
/// either the starting one or one of those hashes.
pub proof fn lemma_scan_keeps_best(challenge: Seq<u8>, best: CandidateView, start: u64, count: nat)
    ensures
        scan(challenge, best, start, count).difficulty >= best.difficulty,
        forall|k: nat| k < count ==> (#[trigger] drillx_hash(challenge, nonce_at(start, k)) matches Some(p)
            ==> scan(challenge, best, start, count).difficulty >= leading_zero_bits(p.1)),
        scan(challenge, best, start, count) == best || exists|k: nat| k < count && {
            let c = scan(challenge, best, start, count);
            &&& c.nonce == nonce_at(start, k)
            &&& #[trigger] drillx_hash(challenge, nonce_at(start, k)) == Some((c.digest, c.hash))
            &&& c.difficulty == leading_zero_bits(c.hash)
        },
    decreases count,
{
    if count > 0 {
        lemma_scan_keeps_best(challenge, best, start, (count - 1) as nat);
    }
}

/// The progress label for the time left: `MM:SS` of the seconds remaining
/// until the deadline, zero once it has passed (taken modulo `2^32`).
pub fn time_left_label(cutoff: u64, elapsed_secs: u64) -> (r: String)
    ensures
        r@ == crate::timing::duration_text(
            (if elapsed_secs >= cutoff { 0 } else { cutoff - elapsed_secs }) as u32 as nat,
        ),
{
    let left: u64 = if elapsed_secs >= cutoff { 0 } else { cutoff - elapsed_secs };
    format_duration(left as u32)
}

/// The best of a sequence of candidates: the first of greatest difficulty,
/// or the zero candidate if none has a positive difficulty.
pub open spec fn reduce_spec(s: Seq<CandidateView>) -> CandidateView
    decreases s.len(),
{
    if s.len() == 0 {
        zero_candidate()
    } else {
        let b = reduce_spec(s.drop_last());
        if s.last().difficulty > b.difficulty { s.last() } else { b }
    }
}

/// The views of a sequence of candidates.
pub open spec fn views(s: Seq<Candidate>) -> Seq<CandidateView> {
    s.map_values(|c: Candidate| c@)
}

/// Reduces the workers' results to the single best candidate: the first of
/// greatest difficulty, or the zero candidate when no worker improved on it.
pub fn find_best(results: &Vec<Candidate>) -> (r: Candidate)
    ensures
        r@ == reduce_spec(views(results@)),
        forall|i: int| 0 <= i < results@.len() ==> r.difficulty >= #[trigger] results@[i].difficulty,
        r@ == zero_candidate() || exists|i: int| 0 <= i < results@.len() && r == #[trigger] results@[i],
{
    let mut best = Candidate::zero();
    let mut i: usize = 0;
    while i < results.len()
        invariant
            i <= results@.len(),
            best@ == reduce_spec(views(results@.subrange(0, i as int))),
            forall|j: int| 0 <= j < i ==> best.difficulty >= #[trigger] results@[j].difficulty,
            best@ == zero_candidate() || exists|j: int| 0 <= j < i && best == #[trigger] results@[j],
        decreases results@.len() - i,
    {
        let c = results[i];
        assert(views(results@.subrange(0, i + 1)).drop_last() =~= views(results@.subrange(0, i as int)));
        if c.difficulty > best.difficulty {
            best = c;
        }
        i = i + 1;
    }
    assert(results@.subrange(0, i as int) =~= results@);
    best
}

} // verus!
