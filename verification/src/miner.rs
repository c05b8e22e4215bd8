//! The nonce search: candidates, their double hash, and the solutions among
//! them.

use crate::difficulty::{satisfies, satisfies_spec};
use crate::hash::double_digest;
use crate::hexcode::{decode, encode, hex_decode_spec, hex_encode_spec, reversed};
use crate::job::{JobError, Ticker, WorkState, MAX_CHALLENGE_LEN};
use rand::Rng;
use vstd::prelude::*;

verus! {

/// The number of bytes of a double hash.
pub const HASH_LEN: usize = 32;

/// The number of bytes of a nonce.
pub const NONCE_LEN: usize = 8;

/// The number of slots searched in one round. A larger batch looks for
/// fresh work less often and so costs less per hash, but reacts more slowly
/// when the job or its difficulty changes.
pub const BATCH_SIZE: u32 = 8_000_000;

/// A nonce that meets the difficulty of a job, ready to be submitted.
#[derive(Debug)]
pub struct Solution {
    /// The nonce, as hexadecimal text.
    pub nonce: String,
    /// The double hash of challenge and nonce, as hexadecimal text.
    pub hash: String,
    /// The location of the job that the nonce was found for.
    pub location: String,
    /// The identifier of that job.
    pub token_id: String,
    /// The challenge bytes that were hashed.
    pub challenge: Vec<u8>,
}

/// The four bytes of `slot`, least significant first.
pub open spec fn slot_prefix_spec(slot: u32) -> Seq<u8> {
    seq![
        (slot as int % 256) as u8,
        (slot as int / 256 % 256) as u8,
        (slot as int / 65536 % 256) as u8,
        (slot as int / 16777216) as u8,
    ]
}

/// The nonce of a slot: its prefix, then the random suffix.
pub open spec fn nonce_spec(slot: u32, random: Seq<u8>) -> Seq<u8> {
    slot_prefix_spec(slot) + random
}

/// The bytes that are hashed for a nonce: the challenge, then the nonce.
pub open spec fn preimage_spec(challenge: Seq<u8>, nonce: Seq<u8>) -> Seq<u8> {
    challenge + nonce
}

/// The challenge bytes of hexadecimal `text`: its bytes in reverse order.
pub open spec fn challenge_bytes_spec(text: Seq<char>) -> Seq<u8> {
    hex_decode_spec(text).reverse()
}

/// Whether `solution` is the one that `job` gives for `nonce` and `hash`
/// over `challenge`.
pub open spec fn solution_of(
    job: Ticker,
    challenge: Seq<u8>,
    nonce: Seq<u8>,
    hash: Seq<u8>,
    solution: Solution,
) -> bool {
    &&& solution.nonce@ == hex_encode_spec(nonce)
    &&& solution.hash@ == hex_encode_spec(hash)
    &&& solution.location@ == job.current_location@
    &&& solution.token_id@ == job.id@
    &&& solution.challenge@ == challenge
}

/// Whether `solution` was won in `slot`: with some random suffix, the
/// double hash of challenge and nonce meets the job's difficulty, and
/// `solution` reports that nonce and hash for `job`.
pub open spec fn won_in_slot(job: Ticker, challenge: Seq<u8>, slot: u32, solution: Solution) -> bool {
    exists|random: Seq<u8>| #[trigger] wins_with(job, challenge, slot, random, solution)
}

/// Whether `solution` was won in `slot` with the suffix `random`.
pub open spec fn wins_with(
    job: Ticker,
    challenge: Seq<u8>,
    slot: u32,
    random: Seq<u8>,
    solution: Solution,
) -> bool {
    let nonce = nonce_spec(slot, random);
    let hash = double_digest(preimage_spec(challenge, nonce));
    &&& random.len() == 4
    &&& satisfies_spec(hash, job.difficulty as nat)
    &&& solution_of(job, challenge, nonce, hash, solution)
}

/// Whether `slot` was lost with the suffix `random`: the double hash of
/// challenge and nonce does not meet the job's difficulty.
pub open spec fn loses_with(job: Ticker, challenge: Seq<u8>, slot: u32, random: Seq<u8>) -> bool {
    &&& random.len() == 4
    &&& !satisfies_spec(
        double_digest(preimage_spec(challenge, nonce_spec(slot, random))),
        job.difficulty as nat,
    )
}

/// Whether `slot` was tried and lost, with some random suffix.
pub open spec fn lost_in_slot(job: Ticker, challenge: Seq<u8>, slot: u32) -> bool {
    exists|random: Seq<u8>| #[trigger] loses_with(job, challenge, slot, random)
}

/// Calls `rand::thread_rng` and `Rng::gen`: four random bytes, of which
/// nothing is claimed.
#[verifier::external_body]
fn random_suffix() -> (random: [u8; 4]) {
    rand::thread_rng().gen::<[u8; 4]>()
}

/// The challenge bytes of `job`: its hexadecimal challenge decoded and put
/// in reverse order; or why `job` cannot be mined.
pub fn challenge_bytes(job: &Ticker) -> (bytes: Result<Vec<u8>, JobError>)
    ensures
        bytes is Ok <==> job.minable(),
        match bytes {
            Ok(challenge) => challenge@ == challenge_bytes_spec(job.challenge@)
                && challenge@.len() <= MAX_CHALLENGE_LEN,
            Err(error) => job.fault() == Some(error),
        },
{
    match decode(job.challenge.as_str()) {
        None => Err(JobError::NotHex),
        Some(decoded) => {
            if decoded.len() > MAX_CHALLENGE_LEN {
                Err(JobError::TooLong)
            } else if job.difficulty < 0 {
                Err(JobError::NegativeDifficulty)
            } else {
                Ok(reversed(decoded.as_slice()))
            }
        },
    }
}

/// The four bytes of `slot`, least significant first.
pub fn slot_prefix(slot: u32) -> (bytes: Vec<u8>)
    ensures
        bytes@ == slot_prefix_spec(slot),
{
    let mut bytes: Vec<u8> = Vec::new();
    bytes.push((slot % 256) as u8);
    bytes.push((slot / 256 % 256) as u8);
    bytes.push((slot / 65536 % 256) as u8);
    bytes.push((slot / 16777216) as u8);
    assert(bytes@ =~= slot_prefix_spec(slot));
    bytes
}

/// The nonce of `slot` with the suffix `random`.
pub fn nonce_bytes(slot: u32, random: [u8; 4]) -> (nonce: Vec<u8>)
    ensures
        nonce@ == nonce_spec(slot, random@),
        nonce@.len() == NONCE_LEN,
{
    let mut nonce: Vec<u8> = slot_prefix(slot);
    nonce.push(random[0]);
    nonce.push(random[1]);
    nonce.push(random[2]);
    nonce.push(random[3]);
    assert(nonce@ =~= nonce_spec(slot, random@));
    nonce
}

/// The bytes to hash for `nonce`: `challenge`, then `nonce`.
pub fn preimage(challenge: &[u8], nonce: &[u8]) -> (bytes: Vec<u8>)
    ensures
        bytes@ == preimage_spec(challenge@, nonce@),
{
    let mut bytes: Vec<u8> = Vec::new();
    let mut i: usize = 0;
    while i < challenge.len()
        invariant
            0 <= i <= challenge@.len(),
            bytes@ == challenge@.take(i as int),
        decreases challenge@.len() - i,
    {
        bytes.push(challenge[i]);
        assert(bytes@ =~= challenge@.take(i + 1));
        i = i + 1;
    }
    assert(challenge@.take(i as int) =~= challenge@);
    let mut j: usize = 0;
    while j < nonce.len()
        invariant
            0 <= j <= nonce@.len(),
            bytes@ == challenge@ + nonce@.take(j as int),
        decreases nonce@.len() - j,
    {
        bytes.push(nonce[j]);
        assert(bytes@ =~= challenge@ + nonce@.take(j + 1));
        j = j + 1;
    }
    assert(nonce@.take(j as int) =~= nonce@);
    bytes
}

/// Judges one candidate whose double hash is `hash`: where `hash` meets the
/// difficulty of `job`, the solution that reports `nonce` and `hash` for
/// `job`; otherwise nothing.
pub fn package(job: &Ticker, challenge: &[u8], nonce: &[u8], hash: &[u8]) -> (found: Option<
    Solution,
>)
    requires
        job.difficulty >= 0,
    ensures
        found is Some <==> satisfies_spec(hash@, job.difficulty as nat),
        found is Some ==> solution_of(*job, challenge@, nonce@, hash@, found.unwrap()),
        job.difficulty > 2 * hash@.len() ==> found is None,
{
    if !satisfies(hash, job.difficulty as u32) {
        return None;
    }
    let kept: Vec<u8> = vstd::slice::slice_to_vec(challenge);
    Some(
        Solution {
            nonce: encode(nonce),
            hash: encode(hash),
            location: job.current_location.clone(),
            token_id: job.id.clone(),
            challenge: kept,
        },
    )
}

/// Tries the candidate of `slot` with the suffix `random`: hashes challenge
/// and nonce twice and judges the result against `job`.
pub fn evaluate(job: &Ticker, challenge: &[u8], slot: u32, random: [u8; 4]) -> (found: Option<
    Solution,
>)
    requires
        job.difficulty >= 0,
    ensures
        found is Some <==> satisfies_spec(
            double_digest(preimage_spec(challenge@, nonce_spec(slot, random@))),
            job.difficulty as nat,
        ),
        found is Some ==> wins_with(*job, challenge@, slot, random@, found.unwrap()),
        job.difficulty > 2 * HASH_LEN ==> found is None,
{
    let nonce: Vec<u8> = nonce_bytes(slot, random);
    let data: Vec<u8> = preimage(challenge, nonce.as_slice());
    let hash: [u8; 32] = crate::hash::Hash::sha256d(data.as_slice());
    package(job, challenge, nonce.as_slice(), hash.as_slice())
}

/// Tries `slot` once, with a fresh random suffix. Whatever the suffix, a
/// solution that comes back was won in `slot`, none comes back only where
/// the slot was lost, a job that asks for no zero nibble always gets one,
/// and a job that asks for more nibbles than a hash has never does.
pub fn mine_slot(job: &Ticker, challenge: &[u8], slot: u32) -> (found: Option<Solution>)
    requires
        job.difficulty >= 0,
    ensures
        found is Some ==> won_in_slot(*job, challenge@, slot, found.unwrap()),
        found is None ==> lost_in_slot(*job, challenge@, slot),
        job.difficulty == 0 ==> found is Some,
        job.difficulty > 2 * HASH_LEN ==> found is None,
{
    let random: [u8; 4] = random_suffix();
    let found: Option<Solution> = evaluate(job, challenge, slot, random);
    proof {
        if found is None {
            assert(loses_with(*job, challenge@, slot, random@));
        }
    }
    found
}

/// Whether `found` is what a search of the slots from `first` up to
/// `first + count` can return, with `slots[k]` the slot of `found[k]`: the
/// slots lie in that range in rising order, each solution was won in its
/// slot, and every other slot of the range was tried and lost.
pub open spec fn round_result(
    job: Ticker,
    challenge: Seq<u8>,
    first: u32,
    count: u32,
    found: Seq<Solution>,
    slots: Seq<u32>,
) -> bool {
    &&& slots.len() == found.len()
    &&& forall|k: int| 0 <= k < slots.len() ==> first <= #[trigger] slots[k] < first + count
    &&& forall|j: int, k: int| 0 <= j < k < slots.len() ==> slots[j] < slots[k]
    &&& forall|k: int|
        0 <= k < found.len() ==> won_in_slot(job, challenge, slots[k], #[trigger] found[k])
    &&& forall|slot: u32|
        first <= slot < first + count && !slots.contains(slot) ==> #[trigger] lost_in_slot(
            job,
            challenge,
            slot,
        )
}

/// Whether `found` is what a search of the slots from `first` up to
/// `first + count` can return: the solutions won in slots of that range,
/// one at most per slot, in the order of their slots, with every other slot
/// tried and lost.
pub open spec fn found_in_round(
    job: Ticker,
    challenge: Seq<u8>,
    first: u32,
    count: u32,
    found: Seq<Solution>,
) -> bool {
    exists|slots: Seq<u32>| #[trigger] round_result(job, challenge, first, count, found, slots)
}

/// Searches the slots from `first` up to `first + count` in turn, each
/// once, against one job, and returns the solutions in the order of their
/// slots. A job that asks for no zero nibble wins in every slot, and one
/// that asks for more nibbles than a hash has wins in none.
pub fn search_round(job: &Ticker, challenge: &[u8], first: u32, count: u32) -> (found: Vec<
    Solution,
>)
    requires
        job.difficulty >= 0,
        first + count <= u32::MAX + 1,
    ensures
        found_in_round(*job, challenge@, first, count, found@),
        found@.len() <= count,
        job.difficulty == 0 ==> found@.len() == count,
        job.difficulty > 2 * HASH_LEN ==> found@.len() == 0,
{
    let mut found: Vec<Solution> = Vec::new();
    let ghost mut slots: Seq<u32> = Seq::empty();
    let mut i: u32 = 0;
    while i < count
        invariant
            0 <= i <= count,
            job.difficulty >= 0,
            first + count <= u32::MAX + 1,
            round_result(*job, challenge@, first, i, found@, slots),
            found@.len() <= i,
            job.difficulty == 0 ==> found@.len() == i,
            job.difficulty > 2 * HASH_LEN ==> found@.len() == 0,
        decreases count - i,
    {
        let slot: u32 = first + i;
        let ghost earlier = slots;
        match mine_slot(job, challenge, slot) {
            Some(solution) => {
                found.push(solution);
                proof {
                    slots = slots.push(slot);
                    assert(slots[earlier.len() as int] == slot);
                    assert forall|other: u32| earlier.contains(other) implies slots.contains(
                        other,
                    ) by {
                        let k = choose|k: int| 0 <= k < earlier.len() && earlier[k] == other;
                        assert(slots[k] == other);
                    }
                }
            },
            None => {},
        }
        i = i + 1;
    }
    assert(round_result(*job, challenge@, first, count, found@, slots));
    found
}

/// One round for `job`: decodes its challenge and searches the slots below
/// `count`; or why `job` cannot be mined. The job is read here and nowhere
/// later, so every solution reports the job that the round began with.
pub fn mine_round(job: &Ticker, count: u32) -> (outcome: Result<Vec<Solution>, JobError>)
    ensures
        outcome is Ok <==> job.minable(),
        match outcome {
            Ok(found) => {
                &&& found_in_round(*job, challenge_bytes_spec(job.challenge@), 0, count, found@)
                &&& found@.len() <= count
                &&& job.difficulty == 0 ==> found@.len() == count
                &&& job.difficulty > 2 * HASH_LEN ==> found@.len() == 0
            },
            Err(error) => job.fault() == Some(error),
        },
{
    match challenge_bytes(job) {
        Err(error) => Err(error),
        Ok(challenge) => Ok(search_round(job, challenge.as_slice(), 0, count)),
    }
}

/// Searches the slots from `first` up to `first + count` for the job that
/// `state` holds. The held job can always be mined, so this cannot fail.
pub fn search_state(state: &WorkState, first: u32, count: u32) -> (found: Vec<Solution>)
    requires
        first + count <= u32::MAX + 1,
    ensures
        found_in_round(
            state.held(),
            challenge_bytes_spec(state.held().challenge@),
            first,
            count,
            found@,
        ),
        found@.len() <= count,
        state.held().difficulty == 0 ==> found@.len() == count,
        state.held().difficulty > 2 * HASH_LEN ==> found@.len() == 0,
{
    let challenge: Vec<u8> = held_challenge(state);
    search_round(state.job(), challenge.as_slice(), first, count)
}

/// The challenge bytes of the job that `state` holds. The held job can
/// always be mined, so this cannot fail.
pub fn held_challenge(state: &WorkState) -> (challenge: Vec<u8>)
    ensures
        challenge@ == challenge_bytes_spec(state.held().challenge@),
        challenge@.len() <= MAX_CHALLENGE_LEN,
{
    match challenge_bytes(state.job()) {
        Ok(challenge) => challenge,
        Err(_) => {
            proof {
                assert(false);
            }
            Vec::new()
        },
    }
}

/// The solution of a round that is submitted: the first one found, if any.
pub fn first_share(found: &Vec<Solution>) -> (share: Option<&Solution>)
    ensures
        share is Some <==> found@.len() > 0,
        share is Some ==> *share.unwrap() == found@[0],
{
    if found.len() > 0 {
        Some(&found[0])
    } else {
        None
    }
}

/// The tag that progress lines carry for a challenge: the hexadecimal text
/// of its first four bytes, or of all of them where it has fewer.
pub fn challenge_tag(challenge: &[u8]) -> (tag: String)
    ensures
        challenge@.len() >= 4 ==> tag@ == hex_encode_spec(challenge@.take(4)),
        challenge@.len() < 4 ==> tag@ == hex_encode_spec(challenge@),
{
    if challenge.len() >= 4 {
        let head: &[u8] = vstd::slice::slice_subrange(challenge, 0, 4);
        assert(challenge@.subrange(0, 4) =~= challenge@.take(4));
        encode(head)
    } else {
        encode(challenge)
    }
}

/// Different slots have different prefixes.
pub proof fn lemma_slot_prefix_injective(a: u32, b: u32)
    requires
        slot_prefix_spec(a) == slot_prefix_spec(b),
    ensures
        a == b,
{
    let pa = slot_prefix_spec(a);
    let pb = slot_prefix_spec(b);
    assert(pa[0] == pb[0] && pa[1] == pb[1] && pa[2] == pb[2] && pa[3] == pb[3]);
    lemma_slot_from_prefix(a);
    lemma_slot_from_prefix(b);
}

/// A slot is the number that its prefix spells, least significant byte
/// first.
pub proof fn lemma_slot_from_prefix(slot: u32)
    ensures
        slot == slot_prefix_spec(slot)[0] + 256 * slot_prefix_spec(slot)[1] + 65536
            * slot_prefix_spec(slot)[2] + 16777216 * slot_prefix_spec(slot)[3],
{
    let b0: u32 = slot % 256;
    let b1: u32 = slot / 256 % 256;
    let b2: u32 = slot / 65536 % 256;
    let b3: u32 = slot / 16777216;
    assert(slot == b0 + 256 * b1 + 65536 * b2 + 16777216 * b3) by (bit_vector)
        requires
            b0 == slot % 256,
            b1 == slot / 256 % 256,
            b2 == slot / 65536 % 256,
            b3 == slot / 16777216,
    ;
}

/// Two slots of a round never try the same nonce, whatever their random
/// suffixes are, equal ones included.
pub proof fn lemma_nonces_distinct(a: u32, b: u32, random_a: Seq<u8>, random_b: Seq<u8>)
    requires
        a != b,
    ensures
        nonce_spec(a, random_a) != nonce_spec(b, random_b),
{
    let na = nonce_spec(a, random_a);
    let nb = nonce_spec(b, random_b);
    if na == nb {
        assert(slot_prefix_spec(a) =~= na.take(4));
        assert(slot_prefix_spec(b) =~= nb.take(4));
        lemma_slot_prefix_injective(a, b);
    }
}

/// Two rounds over neighbouring ranges of slots make one round over both:
/// the solutions of the first, then those of the second. The second range
/// begins at a slot, and the two counts add up to a count.
pub proof fn lemma_rounds_join(
    job: Ticker,
    challenge: Seq<u8>,
    first: u32,
    a: u32,
    b: u32,
    fa: Seq<Solution>,
    fb: Seq<Solution>,
)
    requires
        first + a <= u32::MAX,
        a + b <= u32::MAX,
        first + a + b <= u32::MAX + 1,
        found_in_round(job, challenge, first, a, fa),
        found_in_round(job, challenge, (first + a) as u32, b, fb),
    ensures
        found_in_round(job, challenge, first, (a + b) as u32, fa + fb),
{
    let mid = (first + a) as u32;
    let total = (a + b) as u32;
    let sa = choose|slots: Seq<u32>| #[trigger] round_result(job, challenge, first, a, fa, slots);
    let sb = choose|slots: Seq<u32>| #[trigger] round_result(job, challenge, mid, b, fb, slots);
    let found = fa + fb;
    let slots = sa + sb;
    assert forall|k: int| 0 <= k < slots.len() implies first <= #[trigger] slots[k] < first
        + total by {
        if k < sa.len() {
            assert(slots[k] == sa[k]);
        } else {
            assert(slots[k] == sb[k - sa.len()]);
        }
    }
    assert forall|j: int, k: int| 0 <= j < k < slots.len() implies slots[j] < slots[k] by {
        if j < sa.len() {
            assert(slots[j] == sa[j]);
        } else {
            assert(slots[j] == sb[j - sa.len()]);
        }
        if k < sa.len() {
            assert(slots[k] == sa[k]);
        } else {
            assert(slots[k] == sb[k - sa.len()]);
        }
    }
    assert forall|k: int| 0 <= k < found.len() implies won_in_slot(
        job,
        challenge,
        slots[k],
        #[trigger] found[k],
    ) by {
        if k < fa.len() {
            assert(found[k] == fa[k] && slots[k] == sa[k]);
        } else {
            assert(found[k] == fb[k - fa.len()] && slots[k] == sb[k - sa.len()]);
        }
    }
    assert forall|slot: u32|
        first <= slot < first + total && !slots.contains(slot) implies #[trigger] lost_in_slot(
        job,
        challenge,
        slot,
    ) by {
        if slot < mid {
            if sa.contains(slot) {
                let k = choose|k: int| 0 <= k < sa.len() && sa[k] == slot;
                assert(slots[k] == slot);
            }
        } else {
            if sb.contains(slot) {
                let k = choose|k: int| 0 <= k < sb.len() && sb[k] == slot;
                assert(slots[k + sa.len()] == slot);
            }
        }
    }
    assert(round_result(job, challenge, first, total, found, slots));
}

/// A round reports the job that it captured. Let `snapshot` be the job
/// that `state` held when the round began, and `found` what the round
/// returns for it: every solution carries the location, the token and the
/// challenge of `snapshot`, whatever a refresh has meanwhile put into the
/// state.
pub proof fn lemma_round_bound_to_snapshot(
    state: WorkState,
    snapshot: Ticker,
    fetched: Option<Ticker>,
    challenge: Seq<u8>,
    first: u32,
    count: u32,
    found: Seq<Solution>,
)
    requires
        snapshot == state.held(),
        found_in_round(snapshot, challenge, first, count, found),
    ensures
        forall|k: int|
            0 <= k < found.len() ==> {
                &&& (#[trigger] found[k]).location@ == state.held().current_location@
                &&& found[k].token_id@ == state.held().id@
                &&& found[k].challenge@ == challenge
            },
        state.replaced_by(fetched) ==> state.refreshed(fetched) == fetched.unwrap(),
        !state.replaced_by(fetched) ==> state.refreshed(fetched) == state.held(),
{
    let slots = choose|slots: Seq<u32>| #[trigger]
        round_result(snapshot, challenge, first, count, found, slots);
    assert forall|k: int| 0 <= k < found.len() implies {
        &&& (#[trigger] found[k]).location@ == state.held().current_location@
        &&& found[k].token_id@ == state.held().id@
        &&& found[k].challenge@ == challenge
    } by {
        assert(won_in_slot(snapshot, challenge, slots[k], found[k]));
    }
}

} // verus!
