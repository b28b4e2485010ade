use crate::address::{ballot_seeds, lemma_ballot_seeds_distinct, program_address, receipt_seeds};
use crate::program::{
    ballot_exists, ballot_index, create_step, receipt_count, receipt_exists,
    total_votes, vote_check, vote_step, Ledger,
};
use crate::state::{CastVote, VotingErr};
use vstd::prelude::*;

verus! {

/// The registry counts the ballots created so far, and ballot number `k + 1`, the
/// `k`-th stored, sits at the address derived from its own number: distinct numbers
/// give distinct seeds, and the stored addresses are pairwise distinct.
pub proof fn lemma_registry_counts_ballots(ledger: Ledger, i: int, j: int)
    requires
        ledger.wf(),
        ledger.votes_account is Some,
        0 <= i < j < ledger.vote_accounts@.len(),
    ensures
        ledger.votes_account->0.number_of_votes == ledger.vote_accounts@.len(),
        ballot_seeds((i + 1) as u64) != ballot_seeds((j + 1) as u64),
        program_address(ballot_seeds((i + 1) as u64), ledger.program_id@) == Some(
            ledger.vote_accounts@[i].address@,
        ),
        ledger.vote_accounts@[i].address@ != ledger.vote_accounts@[j].address@,
{
    assert(ledger.vote_accounts@.len() <= u64::MAX);
    lemma_ballot_seeds_distinct((i + 1) as u64, (j + 1) as u64);
}

/// A ballot created at `now` for `voting_days` days closes exactly
/// `voting_days * 86400` seconds after `now`.
pub proof fn lemma_deadline_exact(
    before: Ledger,
    address: Seq<u8>,
    topic: String,
    names: Seq<String>,
    voting_days: i32,
    now: i64,
    after: Ledger,
)
    requires
        create_step(before, address, topic, names, voting_days, now, after),
    ensures
        after.vote_accounts@.last().account.voting_deadline == now + voting_days * 86400,
{
}

/// Once a participant's vote on a ballot has been taken, no later vote of theirs on it
/// is taken: it is refused with `AlreadyVoted` while the ballot is open and the option
/// valid, and refused by an earlier check otherwise.
pub proof fn lemma_vote_at_most_once(
    before: Ledger,
    ctx: CastVote,
    option_index: u8,
    now: i64,
    after: Ledger,
    later_index: u8,
    later: i64,
)
    requires
        before.wf(),
        after.wf(),
        vote_check(before, ctx, option_index, now) is Ok,
        vote_step(before, ctx, option_index, vote_check(before, ctx, option_index, now)->Ok_0, after),
    ensures
        vote_check(after, ctx, later_index, later) is Err,
        ({
            let ballot = after.vote_accounts@[ballot_index(after.vote_accounts@, ctx.vote_account@)];
            later < ballot.account.voting_deadline && later_index < ballot.account.options@.len()
                ==> vote_check(after, ctx, later_index, later) == Err::<Seq<u8>, VotingErr>(
                VotingErr::AlreadyVoted,
            )
        }),
{
    let k = ballot_index(before.vote_accounts@, ctx.vote_account@);
    let ballots = after.vote_accounts@;
    assert(ballots[k].address@ == ctx.vote_account@);
    assert(ballot_exists(ballots, ctx.vote_account@));
    let c = ballot_index(ballots, ctx.vote_account@);
    if c != k {
        if c < k {
            assert(ballots[c].address@ != ballots[k].address@);
        } else {
            assert(ballots[k].address@ != ballots[c].address@);
        }
    }
    let receipts = after.voter_accounts@;
    assert(receipts[receipts.len() - 1] == receipts.last());
    assert(receipt_exists(receipts, vote_check(before, ctx, option_index, now)->Ok_0));
}

/// In every well-formed ledger the votes of a ballot add up to the receipts issued for
/// it, and each vote taken adds exactly one to both.
pub proof fn lemma_votes_match_receipts(
    before: Ledger,
    ctx: CastVote,
    option_index: u8,
    now: i64,
    after: Ledger,
    k: int,
)
    requires
        before.wf(),
        after.wf(),
        vote_check(before, ctx, option_index, now) is Ok,
        vote_step(before, ctx, option_index, vote_check(before, ctx, option_index, now)->Ok_0, after),
        k == ballot_index(before.vote_accounts@, ctx.vote_account@),
    ensures
        total_votes(before.vote_accounts@[k].account.options@) == receipt_count(
            before.voter_accounts@,
            ctx.vote_account@,
        ),
        total_votes(after.vote_accounts@[k].account.options@) == receipt_count(
            after.voter_accounts@,
            ctx.vote_account@,
        ),
        receipt_count(after.voter_accounts@, ctx.vote_account@) == receipt_count(
            before.voter_accounts@,
            ctx.vote_account@,
        ) + 1,
{
    let receipts = after.voter_accounts@;
    assert(receipts.drop_last() == before.voter_accounts@);
}

/// A vote cast at the very instant of the deadline is refused with `VotingIsOver`.
pub proof fn lemma_closed_at_deadline(ledger: Ledger, ctx: CastVote, option_index: u8)
    requires
        ledger.wf(),
        ballot_exists(ledger.vote_accounts@, ctx.vote_account@),
    ensures
        vote_check(
            ledger,
            ctx,
            option_index,
            ledger.vote_accounts@[ballot_index(
                ledger.vote_accounts@,
                ctx.vote_account@,
            )].account.voting_deadline,
        ) == Err::<Seq<u8>, VotingErr>(VotingErr::VotingIsOver),
{
}

/// On an open ballot, the index one past the last option is refused with
/// `InvalidOption`, while the last index passes the option check and is taken exactly
/// when the participant has no receipt yet and the option's count can grow.
pub proof fn lemma_option_boundary(ledger: Ledger, ctx: CastVote, now: i64)
    requires
        ledger.wf(),
        ballot_exists(ledger.vote_accounts@, ctx.vote_account@),
        now < ledger.vote_accounts@[ballot_index(
            ledger.vote_accounts@,
            ctx.vote_account@,
        )].account.voting_deadline,
    ensures
        ({
            let options = ledger.vote_accounts@[ballot_index(
                ledger.vote_accounts@,
                ctx.vote_account@,
            )].account.options@;
            &&& vote_check(ledger, ctx, options.len() as u8, now) == Err::<Seq<u8>, VotingErr>(
                VotingErr::InvalidOption,
            )
            &&& options.len() > 0 ==> vote_check(ledger, ctx, (options.len() - 1) as u8, now)
                != Err::<Seq<u8>, VotingErr>(VotingErr::InvalidOption)
            &&& options.len() > 0 ==> (vote_check(ledger, ctx, (options.len() - 1) as u8, now) is Ok
                <==> match program_address(
                receipt_seeds(ctx.vote_account@, ctx.user@),
                ledger.program_id@,
            ) {
                Some(a) => !receipt_exists(ledger.voter_accounts@, a) && options[options.len() - 1].votes
                    < u64::MAX,
                None => false,
            })
        }),
{
    let k = ballot_index(ledger.vote_accounts@, ctx.vote_account@);
    assert(ledger.vote_accounts@[k].account.options@.len() <= 10);
}

} // verus!
