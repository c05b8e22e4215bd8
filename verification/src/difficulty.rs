//! The difficulty predicate: leading zero nibbles of a hash.

use vstd::prelude::*;

verus! {

/// The `i`-th 4-bit nibble of `hash`, the high nibble of each byte first.
pub open spec fn nibble(hash: Seq<u8>, i: int) -> int
    recommends
        0 <= i < 2 * hash.len(),
{
    if i % 2 == 0 {
        hash[i / 2] as int / 16
    } else {
        hash[i / 2] as int % 16
    }
}

/// Whether the first `difficulty` nibbles of `hash` exist and are all zero.
/// A difficulty of zero asks for nothing; one beyond the number of nibbles
/// of `hash` can never be met.
pub open spec fn satisfies_spec(hash: Seq<u8>, difficulty: nat) -> bool {
    &&& difficulty <= 2 * hash.len()
    &&& forall|i: int| 0 <= i < difficulty ==> #[trigger] nibble(hash, i) == 0
}

/// Decides whether `hash` meets `difficulty`.
pub fn satisfies(hash: &[u8], difficulty: u32) -> (ok: bool)
    ensures
        ok == satisfies_spec(hash@, difficulty as nat),
{
    let len: usize = hash.len();
    let wanted: usize = difficulty as usize;
    if wanted / 2 > len || (wanted / 2 == len && wanted % 2 == 1) {
        return false;
    }
    let mut i: usize = 0;
    while i < wanted
        invariant
            0 <= i <= wanted,
            wanted == difficulty as int,
            wanted <= 2 * hash@.len(),
            len == hash@.len(),
            forall|j: int| 0 <= j < i ==> #[trigger] nibble(hash@, j) == 0,
        decreases wanted - i,
    {
        let byte: u8 = hash[i / 2];
        let value: u8 = if i % 2 == 0 {
            byte / 16
        } else {
            byte % 16
        };
        if value != 0 {
            assert(nibble(hash@, i as int) != 0);
            return false;
        }
        i = i + 1;
    }
    true
}

/// With a difficulty of zero every hash is accepted.
pub proof fn lemma_zero_difficulty_accepts(hash: Seq<u8>)
    ensures
        satisfies_spec(hash, 0),
{
}

/// A hash whose first `k` nibbles are zero and whose next nibble is not
/// meets difficulty `k` and fails difficulty `k + 1`.
pub proof fn lemma_threshold(hash: Seq<u8>, k: nat)
    requires
        k < 2 * hash.len(),
        forall|i: int| 0 <= i < k ==> #[trigger] nibble(hash, i) == 0,
        nibble(hash, k as int) != 0,
    ensures
        satisfies_spec(hash, k),
        !satisfies_spec(hash, k + 1),
{
}

/// A difficulty beyond the number of nibbles of the hash is never met.
pub proof fn lemma_excessive_difficulty_rejects(hash: Seq<u8>, difficulty: nat)
    requires
        difficulty > 2 * hash.len(),
    ensures
        !satisfies_spec(hash, difficulty),
{
}

} // verus!
