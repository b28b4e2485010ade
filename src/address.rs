use anchor_lang::solana_program::pubkey::Pubkey;
use vstd::prelude::*;

verus! {

/// The program-derived address for a list of seeds under a program id,
/// or `None` when no bump seed yields an address off the curve.
pub uninterp spec fn program_address(seeds: Seq<Seq<u8>>, program_id: Seq<u8>) -> Option<Seq<u8>>;

/// Relies on `Pubkey::try_find_program_address` of solana-program (re-exported by
/// anchor-lang): it hashes the seeds, a bump seed and the program id, and its
/// result depends on those bytes alone; it never panics.
#[verifier::external_body]
fn try_find_program_address(first: &[u8], second: &[u8], program_id: &[u8; 32]) -> (r: Option<[u8; 32]>)
    ensures
        r is Some <==> program_address(seq![first@, second@], program_id@) is Some,
        r is Some ==> program_address(seq![first@, second@], program_id@) == Some(r->0@),
{
    Pubkey::try_find_program_address(&[first, second], &Pubkey::new_from_array(*program_id))
        .map(|(key, _bump)| key.to_bytes())
}

/// The seed prefix of every ballot address: the bytes of "vote".
pub open spec fn ballot_tag() -> Seq<u8> {
    seq![118u8, 111u8, 116u8, 101u8]
}

/// The little-endian bytes of `n`.
pub open spec fn le_bytes(n: u64) -> Seq<u8> {
    seq![
        n as u8,
        (n >> 8) as u8,
        (n >> 16) as u8,
        (n >> 24) as u8,
        (n >> 32) as u8,
        (n >> 40) as u8,
        (n >> 48) as u8,
        (n >> 56) as u8,
    ]
}

/// The seeds of ballot number `n`.
pub open spec fn ballot_seeds(n: u64) -> Seq<Seq<u8>> {
    seq![ballot_tag(), le_bytes(n)]
}

/// The seeds of the receipt of `participant` on the ballot at `ballot`.
pub open spec fn receipt_seeds(ballot: Seq<u8>, participant: Seq<u8>) -> Seq<Seq<u8>> {
    seq![ballot, participant]
}

/// Writes `n` as its eight little-endian bytes.
pub fn to_le_bytes(n: u64) -> (r: Vec<u8>)
    ensures
        r@ == le_bytes(n),
{
    let r = vec![
        n as u8,
        (n >> 8) as u8,
        (n >> 16) as u8,
        (n >> 24) as u8,
        (n >> 32) as u8,
        (n >> 40) as u8,
        (n >> 48) as u8,
        (n >> 56) as u8,
    ];
    assert(r@ =~= le_bytes(n));
    r
}

/// Distinct counters give distinct little-endian encodings.
pub proof fn lemma_le_bytes_injective(a: u64, b: u64)
    requires
        a != b,
    ensures
        le_bytes(a) != le_bytes(b),
{
    if le_bytes(a) == le_bytes(b) {
        assert(le_bytes(a)[0] == le_bytes(b)[0]);
        assert(le_bytes(a)[1] == le_bytes(b)[1]);
        assert(le_bytes(a)[2] == le_bytes(b)[2]);
        assert(le_bytes(a)[3] == le_bytes(b)[3]);
        assert(le_bytes(a)[4] == le_bytes(b)[4]);
        assert(le_bytes(a)[5] == le_bytes(b)[5]);
        assert(le_bytes(a)[6] == le_bytes(b)[6]);
        assert(le_bytes(a)[7] == le_bytes(b)[7]);
        assert(a == b) by (bit_vector)
            requires
                a as u8 == b as u8,
                (a >> 8) as u8 == (b >> 8) as u8,
                (a >> 16) as u8 == (b >> 16) as u8,
                (a >> 24) as u8 == (b >> 24) as u8,
                (a >> 32) as u8 == (b >> 32) as u8,
                (a >> 40) as u8 == (b >> 40) as u8,
                (a >> 48) as u8 == (b >> 48) as u8,
                (a >> 56) as u8 == (b >> 56) as u8,
        ;
    }
}

/// Distinct ballot numbers are keyed by distinct seeds.
pub proof fn lemma_ballot_seeds_distinct(a: u64, b: u64)
    requires
        a != b,
    ensures
        ballot_seeds(a) != ballot_seeds(b),
{
    lemma_le_bytes_injective(a, b);
    if ballot_seeds(a) == ballot_seeds(b) {
        assert(ballot_seeds(a)[1] == ballot_seeds(b)[1]);
    }
}

/// Derives the address of ballot number `n` under `program_id`.
pub fn ballot_address(n: u64, program_id: &[u8; 32]) -> (r: Option<[u8; 32]>)
    ensures
        r is Some <==> program_address(ballot_seeds(n), program_id@) is Some,
        r is Some ==> program_address(ballot_seeds(n), program_id@) == Some(r->0@),
{
    let tag: Vec<u8> = vec![118u8, 111u8, 116u8, 101u8];
    let counter = to_le_bytes(n);
    let r = try_find_program_address(tag.as_slice(), counter.as_slice(), program_id);
    assert(seq![tag@, counter@] =~= ballot_seeds(n));
    r
}

/// Derives the address of the receipt of `participant` on the ballot at `ballot`.
pub fn receipt_address(ballot: &[u8; 32], participant: &[u8; 32], program_id: &[u8; 32]) -> (r: Option<[u8; 32]>)
    ensures
        r is Some <==> program_address(receipt_seeds(ballot@, participant@), program_id@) is Some,
        r is Some ==> program_address(receipt_seeds(ballot@, participant@), program_id@) == Some(r->0@),
{
    try_find_program_address(ballot.as_slice(), participant.as_slice(), program_id)
}

} // verus!
