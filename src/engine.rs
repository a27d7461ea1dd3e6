//! The engine's state and its two entry points: the nonce search, which
//! records the winning digest, and the validator, which checks a claimed
//! nonce against an expected digest.

use crate::derivation::{compute_hash, derived_digest, DIGEST_SIZE};
use crate::difficulty::{first_bits_zero, validate};
use vstd::prelude::*;
use vstd::wrapping::u32_specs;

verus! {

/// Capacity in bytes of the challenge buffer.
pub const CHALLENGE_CAPACITY: usize = 4096;

/// Number of distinct `u32` nonces; a search never needs more steps than this.
pub const NONCE_SPACE: u64 = 0x1_0000_0000;

/// The nonce reached after `k` steps of `iterand` from `initial`, wrapping
/// around at 2^32.
pub open spec fn nonce_at(initial: u32, iterand: u32, k: nat) -> u32
    decreases k,
{
    if k == 0 {
        initial
    } else {
        u32_specs::wrapping_add(nonce_at(initial, iterand, (k - 1) as nat), iterand)
    }
}

/// The digest derived for `nonce` meets `difficulty`.
pub open spec fn satisfies(challenge: Seq<u8>, nonce: u32, difficulty: u32) -> bool {
    first_bits_zero(derived_digest(challenge, nonce), difficulty as int)
}

/// Step `k` of the sequence from `initial` is the first one whose digest meets
/// `difficulty`.
pub open spec fn is_first_hit(
    challenge: Seq<u8>,
    difficulty: u32,
    initial: u32,
    iterand: u32,
    k: nat,
) -> bool {
    &&& k < NONCE_SPACE
    &&& satisfies(challenge, nonce_at(initial, iterand, k), difficulty)
    &&& forall|m: nat|
        m < k ==> !satisfies(challenge, #[trigger] nonce_at(initial, iterand, m), difficulty)
}

/// `nonce` is the first nonce of the sequence from `initial` by `iterand`
/// whose digest meets `difficulty`.
pub open spec fn search_finds(
    challenge: Seq<u8>,
    difficulty: u32,
    initial: u32,
    iterand: u32,
    nonce: u32,
) -> bool {
    exists|k: nat|
        #[trigger] is_first_hit(challenge, difficulty, initial, iterand, k) && nonce_at(
            initial,
            iterand,
            k,
        ) == nonce
}

/// No nonce of the sequence from `initial` by `iterand` meets `difficulty`.
/// After 2^32 steps the sequence repeats itself, so these steps cover it.
pub open spec fn search_exhausted(
    challenge: Seq<u8>,
    difficulty: u32,
    initial: u32,
    iterand: u32,
) -> bool {
    forall|k: nat|
        k < NONCE_SPACE ==> !satisfies(challenge, #[trigger] nonce_at(initial, iterand, k), difficulty)
}

/// A claimed `nonce` passes validation: its digest meets `difficulty` and
/// equals the expected digest.
pub open spec fn validation_holds(
    challenge: Seq<u8>,
    expected: Seq<u8>,
    nonce: u32,
    difficulty: u32,
) -> bool {
    satisfies(challenge, nonce, difficulty) && derived_digest(challenge, nonce) == expected
}

/// Progress is due after a step from `old_nonce` to `nonce` when the step
/// crosses a multiple of 1024 and the crossed block, counted modulo the
/// stride, is this worker's slot.
pub open spec fn report_due(old_nonce: u32, nonce: u32, iterand: u32, initial_nonce: u32) -> bool {
    &&& nonce > (old_nonce | 1023u32)
    &&& iterand != 0
    &&& (nonce >> 10u32) % iterand == initial_nonce
}

/// Whether the search reports progress after stepping from `old_nonce` to
/// `nonce`. The schedule is best effort: it spreads reports over workers that
/// share one progress channel, without any guarantee of fairness.
pub fn should_report(old_nonce: u32, nonce: u32, iterand: u32, initial_nonce: u32) -> (r: bool)
    ensures
        r == report_due(old_nonce, nonce, iterand, initial_nonce),
{
    nonce > (old_nonce | 1023) && iterand != 0 && (nonce >> 10u32) % iterand == initial_nonce
}

/// A progress hook that ignores its reports, for callers with no host
/// listening. Reports are advisory telemetry and never affect the search.
pub fn update_nonce(_nonce: u32) {
}

/// The challenge buffer, its meaningful length, and the two digest registers:
/// the digest that the search found, and the digest a caller expects during
/// validation.
pub struct PowState {
    data: Vec<u8>,
    data_length: usize,
    result_hash: [u8; 32],
    verification_hash: [u8; 32],
}

/// Whether two digests hold the same bytes.
fn digests_equal(a: &[u8; 32], b: &[u8; 32]) -> (r: bool)
    ensures
        r == (a@ == b@),
{
    let mut i: usize = 0;
    while i < DIGEST_SIZE
        invariant
            i <= DIGEST_SIZE,
            a@.len() == DIGEST_SIZE,
            b@.len() == DIGEST_SIZE,
            forall|j: int| 0 <= j < i ==> a@[j] == b@[j],
        decreases DIGEST_SIZE - i,
    {
        if a[i] != b[i] {
            return false;
        }
        i += 1;
    }
    proof {
        assert(a@ =~= b@);
    }
    true
}

impl PowState {
    /// The buffer has its full capacity and the length lies within it.
    pub closed spec fn wf(&self) -> bool {
        &&& self.data@.len() == CHALLENGE_CAPACITY
        &&& self.data_length <= CHALLENGE_CAPACITY
    }

    /// The whole challenge buffer, meaningful prefix and stale tail.
    pub closed spec fn buffer(&self) -> Seq<u8> {
        self.data@
    }

    /// The meaningful length of the buffer.
    pub closed spec fn len(&self) -> nat {
        self.data_length as nat
    }

    /// The challenge: the meaningful prefix of the buffer.
    pub closed spec fn challenge(&self) -> Seq<u8> {
        self.data@.subrange(0, self.data_length as int)
    }

    /// The digest register that the search fills.
    pub closed spec fn result(&self) -> Seq<u8> {
        self.result_hash@
    }

    /// The digest register that validation compares against.
    pub closed spec fn expected(&self) -> Seq<u8> {
        self.verification_hash@
    }

    /// A zeroed buffer of full capacity, an empty challenge and zeroed
    /// digest registers.
    pub fn new() -> (s: Self)
        ensures
            s.wf(),
            s.buffer() == Seq::new(CHALLENGE_CAPACITY as nat, |i: int| 0u8),
            s.len() == 0,
            s.result() == Seq::new(DIGEST_SIZE as nat, |i: int| 0u8),
            s.expected() == Seq::new(DIGEST_SIZE as nat, |i: int| 0u8),
    {
        let data: Vec<u8> = vec![0u8; CHALLENGE_CAPACITY];
        let s = PowState {
            data,
            data_length: 0,
            result_hash: [0u8; 32],
            verification_hash: [0u8; 32],
        };
        proof {
            assert(s.data@ =~= Seq::new(CHALLENGE_CAPACITY as nat, |i: int| 0u8));
            assert(s.result_hash@ =~= Seq::new(DIGEST_SIZE as nat, |i: int| 0u8));
        }
        s
    }

    /// The meaningful length of the buffer.
    pub fn data_length(&self) -> (r: usize)
        ensures
            r == self.len(),
    {
        self.data_length
    }

    /// Copies `bytes` into the buffer at `offset`. Writing past the buffer's
    /// capacity is a contract violation, refused by the precondition.
    pub fn write_data(&mut self, offset: usize, bytes: &[u8])
        requires
            old(self).wf(),
            offset + bytes@.len() <= CHALLENGE_CAPACITY,
        ensures
            final(self).wf(),
            final(self).buffer() == old(self).buffer().take(offset as int) + bytes@
                + old(self).buffer().skip(offset + bytes@.len()),
            final(self).len() == old(self).len(),
            final(self).result() == old(self).result(),
            final(self).expected() == old(self).expected(),
    {
        let mut i: usize = 0;
        while i < bytes.len()
            invariant
                offset + bytes@.len() <= CHALLENGE_CAPACITY,
                i <= bytes@.len(),
                self.data@.len() == CHALLENGE_CAPACITY,
                self.data_length == old(self).data_length,
                self.result_hash == old(self).result_hash,
                self.verification_hash == old(self).verification_hash,
                forall|j: int|
                    0 <= j < CHALLENGE_CAPACITY ==> #[trigger] self.data@[j] == if offset <= j
                        < offset + i {
                        bytes@[j - offset]
                    } else {
                        old(self).data@[j]
                    },
            decreases bytes@.len() - i,
        {
            self.data.set(offset + i, bytes[i]);
            i += 1;
        }
        proof {
            assert(self.data@ =~= old(self).data@.take(offset as int) + bytes@ + old(self).data@.skip(
                offset + bytes@.len(),
            ));
        }
    }

    /// Sets the meaningful length of the buffer, after its bytes have been
    /// written. A length past the capacity is a contract violation, refused by
    /// the precondition.
    pub fn set_data_length(&mut self, len: u32)
        requires
            old(self).wf(),
            len <= CHALLENGE_CAPACITY,
        ensures
            final(self).wf(),
            final(self).len() == len,
            final(self).buffer() == old(self).buffer(),
            final(self).result() == old(self).result(),
            final(self).expected() == old(self).expected(),
    {
        self.data_length = len as usize;
    }

    /// The digest that the last successful search found.
    pub fn result_hash(&self) -> (r: [u8; 32])
        ensures
            r@ == self.result(),
    {
        self.result_hash
    }

    /// Width in bytes of the result register.
    pub fn result_hash_size(&self) -> (r: usize)
        ensures
            r == DIGEST_SIZE,
    {
        DIGEST_SIZE
    }

    /// The digest that validation compares against.
    pub fn verification_hash(&self) -> (r: [u8; 32])
        ensures
            r@ == self.expected(),
    {
        self.verification_hash
    }

    /// Width in bytes of the verification register.
    pub fn verification_hash_size(&self) -> (r: usize)
        ensures
            r == DIGEST_SIZE,
    {
        DIGEST_SIZE
    }

    /// Sets the digest that validation compares against.
    pub fn set_verification_hash(&mut self, hash: [u8; 32])
        requires
            old(self).wf(),
        ensures
            final(self).wf(),
            final(self).expected() == hash@,
            final(self).buffer() == old(self).buffer(),
            final(self).len() == old(self).len(),
            final(self).result() == old(self).result(),
    {
        self.verification_hash = hash;
    }

    /// The digest for `nonce` under the current challenge.
    fn hash_nonce(&self, nonce: u32) -> (r: [u8; 32])
        requires
            self.wf(),
            self.len() > 0,
        ensures
            r@ == derived_digest(self.challenge(), nonce),
    {
        let challenge = vstd::slice::slice_subrange(self.data.as_slice(), 0, self.data_length);
        compute_hash(challenge, nonce)
    }

    /// Searches the nonces `initial_nonce`, `initial_nonce + iterand`, ...
    /// (wrapping at 2^32) for the first one whose digest meets `difficulty`.
    /// On success the digest is stored in the result register and the nonce is
    /// returned. The sequence repeats after 2^32 steps; if none of them meets
    /// the difficulty, nothing can, and the search gives `None`. Along the way
    /// `progress` is handed the current nonce whenever `should_report` says a
    /// report is due; it must accept any nonce.
    pub fn anubis_work<F: Fn(u32)>(
        &mut self,
        difficulty: u32,
        initial_nonce: u32,
        iterand: u32,
        progress: &F,
    ) -> (r: Option<u32>)
        requires
            old(self).wf(),
            old(self).len() > 0,
            forall|n: u32| progress.requires((n,)),
        ensures
            final(self).wf(),
            final(self).buffer() == old(self).buffer(),
            final(self).len() == old(self).len(),
            final(self).expected() == old(self).expected(),
            match r {
                Some(n) => {
                    &&& search_finds(old(self).challenge(), difficulty, initial_nonce, iterand, n)
                    &&& final(self).result() == derived_digest(old(self).challenge(), n)
                },
                None => {
                    &&& search_exhausted(old(self).challenge(), difficulty, initial_nonce, iterand)
                    &&& final(self).result() == old(self).result()
                },
            },
    {
        let mut nonce: u32 = initial_nonce;
        let mut step: u64 = 0;
        while step < NONCE_SPACE
            invariant
                self.wf(),
                self.len() > 0,
                *self == *old(self),
                step <= NONCE_SPACE,
                forall|n: u32| progress.requires((n,)),
                nonce == nonce_at(initial_nonce, iterand, step as nat),
                forall|m: nat|
                    m < step ==> !satisfies(
                        self.challenge(),
                        #[trigger] nonce_at(initial_nonce, iterand, m),
                        difficulty,
                    ),
            decreases NONCE_SPACE - step,
        {
            let hash = self.hash_nonce(nonce);
            if validate(&hash, difficulty) {
                proof {
                    assert(is_first_hit(self.challenge(), difficulty, initial_nonce, iterand, step as nat));
                }
                self.result_hash = hash;
                return Some(nonce);
            }
            let old_nonce = nonce;
            nonce = nonce.wrapping_add(iterand);
            step += 1;
            if should_report(old_nonce, nonce, iterand, initial_nonce) {
                progress(nonce);
            }
        }
        None
    }

    /// Checks a claimed `nonce`: its digest under the current challenge must
    /// meet `difficulty` and equal the verification register. Reads the state
    /// and changes nothing.
    pub fn anubis_validate(&self, nonce: u32, difficulty: u32) -> (r: bool)
        requires
            self.wf(),
            self.len() > 0,
        ensures
            r == validation_holds(self.challenge(), self.expected(), nonce, difficulty),
    {
        let computed = self.hash_nonce(nonce);
        if !validate(&computed, difficulty) {
            return false;
        }
        digests_equal(&computed, &self.verification_hash)
    }
}

/// A nonce that the search returns passes validation once the verification
/// register holds the digest the search recorded: that digest meets the
/// difficulty and is the one derived for the nonce.
pub proof fn lemma_search_then_validate(
    challenge: Seq<u8>,
    difficulty: u32,
    initial_nonce: u32,
    iterand: u32,
    nonce: u32,
)
    requires
        search_finds(challenge, difficulty, initial_nonce, iterand, nonce),
    ensures
        validation_holds(challenge, derived_digest(challenge, nonce), nonce, difficulty),
{
    let k = choose|k: nat|
        #[trigger] is_first_hit(challenge, difficulty, initial_nonce, iterand, k) && nonce_at(
            initial_nonce,
            iterand,
            k,
        ) == nonce;
    assert(satisfies(challenge, nonce, difficulty));
}

/// Validation depends on the challenge, the verification register, the nonce
/// and the difficulty alone: two states that agree on the first two give the
/// same answer, and so does one state asked twice.
pub proof fn lemma_validate_repeatable(a: PowState, b: PowState, nonce: u32, difficulty: u32)
    requires
        a.challenge() == b.challenge(),
        a.expected() == b.expected(),
    ensures
        validation_holds(a.challenge(), a.expected(), nonce, difficulty) == validation_holds(
            b.challenge(),
            b.expected(),
            nonce,
            difficulty,
        ),
{
}

} // verus!
