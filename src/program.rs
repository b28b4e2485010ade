use crate::address::{
    ballot_address, ballot_seeds, program_address, receipt_address, receipt_seeds,
};
use crate::state::{
    BallotRecord, CastVote, CreateVote, InitializeVotes, ReceiptRecord, VoteAccount, VoteOption,
    Voter, Votes, VotingErr, MAX_OPTIONS, SECONDS_PER_DAY,
};
use vstd::prelude::*;

verus! {

/// All records of one deployment: the registry, the ballots and the receipts,
/// each ballot and receipt at its own address.
#[derive(Debug)]
pub struct Ledger {
    pub program_id: [u8; 32],
    pub votes_account: Option<Votes>,
    pub vote_accounts: Vec<BallotRecord>,
    pub voter_accounts: Vec<ReceiptRecord>,
}

/// Some ballot is stored at `a`.
pub open spec fn ballot_exists(ballots: Seq<BallotRecord>, a: Seq<u8>) -> bool {
    exists|k: int| 0 <= k < ballots.len() && (#[trigger] ballots[k]).address@ == a
}

/// Some receipt is stored at `a`.
pub open spec fn receipt_exists(receipts: Seq<ReceiptRecord>, a: Seq<u8>) -> bool {
    exists|k: int| 0 <= k < receipts.len() && (#[trigger] receipts[k]).address@ == a
}

/// The position of the ballot stored at `a`.
pub open spec fn ballot_index(ballots: Seq<BallotRecord>, a: Seq<u8>) -> int {
    choose|k: int| 0 <= k < ballots.len() && (#[trigger] ballots[k]).address@ == a
}

/// How many receipts were issued for the ballot at `ballot`.
pub open spec fn receipt_count(receipts: Seq<ReceiptRecord>, ballot: Seq<u8>) -> nat
    decreases receipts.len(),
{
    if receipts.len() == 0 {
        0
    } else {
        receipt_count(receipts.drop_last(), ballot) + if receipts.last().ballot@ == ballot {
            1nat
        } else {
            0nat
        }
    }
}

/// The sum of the vote counts of `options`.
pub open spec fn total_votes(options: Seq<VoteOption>) -> nat
    decreases options.len(),
{
    if options.len() == 0 {
        0
    } else {
        total_votes(options.drop_last()) + options.last().votes as nat
    }
}

/// The deadline of a ballot created at `now` that stays open `voting_days` days.
pub open spec fn deadline_after(now: i64, voting_days: i32) -> int {
    now + voting_days * SECONDS_PER_DAY
}

impl Ledger {
    /// The ledger's invariant: the registry counts the ballots, ballot `k` sits at the
    /// address of ballot number `k + 1`, no ballot has more than `MAX_OPTIONS` options,
    /// addresses are unique, every receipt belongs to a stored ballot, and each ballot's
    /// votes add up to the receipts issued for it.
    pub open spec fn wf(self) -> bool {
        let ballots = self.vote_accounts@;
        let receipts = self.voter_accounts@;
        &&& self.votes_account is None ==> ballots.len() == 0 && receipts.len() == 0
        &&& self.votes_account is Some ==> self.votes_account->0.number_of_votes == ballots.len()
        &&& forall|k: int|
            0 <= k < ballots.len() ==> program_address(
                ballot_seeds((k + 1) as u64),
                self.program_id@,
            ) == Some((#[trigger] ballots[k]).address@)
        &&& forall|k: int|
            0 <= k < ballots.len() ==> (#[trigger] ballots[k]).account.options@.len() <= MAX_OPTIONS
        &&& forall|i: int, j: int|
            0 <= i < j < ballots.len() ==> (#[trigger] ballots[i]).address@
                != (#[trigger] ballots[j]).address@
        &&& forall|i: int, j: int|
            0 <= i < j < receipts.len() ==> (#[trigger] receipts[i]).address@
                != (#[trigger] receipts[j]).address@
        &&& forall|i: int|
            0 <= i < receipts.len() ==> ballot_exists(ballots, (#[trigger] receipts[i]).ballot@)
        &&& forall|k: int|
            0 <= k < ballots.len() ==> total_votes((#[trigger] ballots[k]).account.options@)
                == receipt_count(receipts, ballots[k].address@)
    }

    /// An empty ledger for the program `program_id`, before the registry exists.
    pub fn new(program_id: [u8; 32]) -> (r: Ledger)
        ensures
            r.wf(),
            r.program_id == program_id,
            r.votes_account is None,
            r.vote_accounts@.len() == 0,
            r.voter_accounts@.len() == 0,
    {
        Ledger {
            program_id,
            votes_account: None,
            vote_accounts: Vec::new(),
            voter_accounts: Vec::new(),
        }
    }

    /// The position of the ballot stored at `address`, if any.
    pub fn find_ballot(&self, address: &[u8; 32]) -> (r: Option<usize>)
        ensures
            r is None <==> !ballot_exists(self.vote_accounts@, address@),
            r is Some ==> r->0 < self.vote_accounts@.len()
                && self.vote_accounts@[r->0 as int].address@ == address@,
    {
        let mut k: usize = 0;
        while k < self.vote_accounts.len()
            invariant
                k <= self.vote_accounts@.len(),
                forall|j: int| 0 <= j < k ==> (#[trigger] self.vote_accounts@[j]).address@ != address@,
            decreases self.vote_accounts@.len() - k,
        {
            if same_address(&self.vote_accounts[k].address, address) {
                return Some(k);
            }
            k = k + 1;
        }
        None
    }

    /// Whether a receipt is stored at `address`.
    pub fn has_receipt(&self, address: &[u8; 32]) -> (r: bool)
        ensures
            r == receipt_exists(self.voter_accounts@, address@),
    {
        let mut k: usize = 0;
        while k < self.voter_accounts.len()
            invariant
                k <= self.voter_accounts@.len(),
                forall|j: int| 0 <= j < k ==> (#[trigger] self.voter_accounts@[j]).address@ != address@,
            decreases self.voter_accounts@.len() - k,
        {
            if same_address(&self.voter_accounts[k].address, address) {
                return true;
            }
            k = k + 1;
        }
        false
    }
}

/// Whether two addresses hold the same bytes.
pub fn same_address(a: &[u8; 32], b: &[u8; 32]) -> (r: bool)
    ensures
        r == (a@ == b@),
{
    let mut i: usize = 0;
    while i < 32
        invariant
            i <= 32,
            a@.len() == 32,
            b@.len() == 32,
            forall|j: int| 0 <= j < i ==> a@[j] == b@[j],
        decreases 32 - i,
    {
        if a[i] != b[i] {
            return false;
        }
        i = i + 1;
    }
    assert(a@ =~= b@);
    true
}

/// Creates the registry with no ballots counted. Refused with `AlreadyExists` when the
/// registry is already there.
pub fn initialize_votes(ledger: &mut Ledger, ctx: &InitializeVotes) -> (r: Result<(), VotingErr>)
    requires
        old(ledger).wf(),
    ensures
        final(ledger).wf(),
        old(ledger).votes_account is Some ==> r == Err::<(), VotingErr>(VotingErr::AlreadyExists)
            && *final(ledger) == *old(ledger),
        old(ledger).votes_account is None ==> r is Ok && final(ledger).votes_account == Some(
            Votes { number_of_votes: 0 },
        ) && final(ledger).program_id == old(ledger).program_id
            && final(ledger).vote_accounts == old(ledger).vote_accounts
            && final(ledger).voter_accounts == old(ledger).voter_accounts,
{
    if ledger.votes_account.is_some() {
        return Err(VotingErr::AlreadyExists);
    }
    ledger.votes_account = Some(Votes { number_of_votes: 0 });
    Ok(())
}

/// What `create_vote` does on `ledger` for a ballot of `n_options` options: the first
/// check that fails, or the address at which the new ballot is stored.
pub open spec fn create_check(ledger: Ledger, n_options: int, voting_days: i32, now: i64) -> Result<
    Seq<u8>,
    VotingErr,
> {
    match ledger.votes_account {
        None => Err(VotingErr::AccountNotFound),
        Some(registry) => if n_options == 0 {
            Err(VotingErr::NoOptions)
        } else if n_options > MAX_OPTIONS {
            Err(VotingErr::TooManyOptions)
        } else if registry.number_of_votes == u64::MAX || deadline_after(now, voting_days)
            < i64::MIN || deadline_after(now, voting_days) > i64::MAX {
            Err(VotingErr::ArithmeticOverflow)
        } else {
            match program_address(
                ballot_seeds((registry.number_of_votes + 1) as u64),
                ledger.program_id@,
            ) {
                None => Err(VotingErr::AddressUnavailable),
                Some(a) => if ballot_exists(ledger.vote_accounts@, a) {
                    Err(VotingErr::AlreadyExists)
                } else {
                    Ok(a)
                },
            }
        },
    }
}

/// `after` is `before` with the registry count raised by one and a new ballot appended
/// at `address`, holding `topic`, the deadline `deadline_after(now, voting_days)` and
/// the options `names`, in order, each with no votes.
pub open spec fn create_step(
    before: Ledger,
    address: Seq<u8>,
    topic: String,
    names: Seq<String>,
    voting_days: i32,
    now: i64,
    after: Ledger,
) -> bool {
    let ballots = after.vote_accounts@;
    let created = ballots.last().account;
    &&& after.program_id == before.program_id
    &&& after.votes_account == Some(
        Votes { number_of_votes: (before.votes_account->0.number_of_votes + 1) as u64 },
    )
    &&& after.voter_accounts == before.voter_accounts
    &&& ballots.len() == before.vote_accounts@.len() + 1
    &&& ballots.drop_last() == before.vote_accounts@
    &&& ballots.last().address@ == address
    &&& created.topic == topic
    &&& created.voting_deadline == deadline_after(now, voting_days)
    &&& created.options@.len() == names.len()
    &&& forall|i: int|
        0 <= i < names.len() ==> (#[trigger] created.options@[i]) == (VoteOption {
            name: names[i],
            votes: 0,
        })
}

/// Options named by `names`, in order, each with no votes.
pub fn fresh_options(names: Vec<String>) -> (r: Vec<VoteOption>)
    ensures
        r@.len() == names@.len(),
        forall|i: int|
            0 <= i < names@.len() ==> (#[trigger] r@[i]) == (VoteOption {
                name: names@[i],
                votes: 0,
            }),
{
    let ghost all = names@;
    let mut rest = names;
    let mut r: Vec<VoteOption> = Vec::new();
    while rest.len() > 0
        invariant
            r@.len() + rest@.len() == all.len(),
            rest@ == all.subrange(r@.len() as int, all.len() as int),
            forall|i: int|
                0 <= i < r@.len() ==> (#[trigger] r@[i]) == (VoteOption { name: all[i], votes: 0 }),
        decreases rest@.len(),
    {
        let name = rest.remove(0);
        r.push(VoteOption { name, votes: 0 });
    }
    r
}

proof fn lemma_fresh_total(options: Seq<VoteOption>)
    requires
        forall|i: int| 0 <= i < options.len() ==> (#[trigger] options[i]).votes == 0,
    ensures
        total_votes(options) == 0,
    decreases options.len(),
{
    if options.len() > 0 {
        lemma_fresh_total(options.drop_last());
    }
}

proof fn lemma_count_needs_receipt(receipts: Seq<ReceiptRecord>, ballot: Seq<u8>)
    requires
        receipt_count(receipts, ballot) > 0,
    ensures
        exists|i: int| 0 <= i < receipts.len() && (#[trigger] receipts[i]).ballot@ == ballot,
    decreases receipts.len(),
{
    if receipts.last().ballot@ != ballot {
        lemma_count_needs_receipt(receipts.drop_last(), ballot);
        let i = choose|i: int|
            0 <= i < receipts.drop_last().len() && (#[trigger] receipts.drop_last()[i]).ballot@
                == ballot;
        assert(receipts[i] == receipts.drop_last()[i]);
    } else {
        assert(receipts[receipts.len() - 1] == receipts.last());
    }
}

/// Opens a new ballot on `topic` with the options `options`, open `voting_days` days
/// from `now`: raises the registry count to `n + 1` and stores the ballot at the
/// address derived from ballot number `n + 1`. Every refusal leaves the ledger as it was.
pub fn create_vote(
    ledger: &mut Ledger,
    ctx: &CreateVote,
    topic: String,
    options: Vec<String>,
    voting_days: i32,
    now: i64,
) -> (r: Result<(), VotingErr>)
    requires
        old(ledger).wf(),
    ensures
        final(ledger).wf(),
        match create_check(*old(ledger), options@.len() as int, voting_days, now) {
            Err(e) => r == Err::<(), VotingErr>(e) && *final(ledger) == *old(ledger),
            Ok(a) => r is Ok && create_step(
                *old(ledger),
                a,
                topic,
                options@,
                voting_days,
                now,
                *final(ledger),
            ),
        },
{
    let n = match &ledger.votes_account {
        None => {
            return Err(VotingErr::AccountNotFound);
        },
        Some(registry) => registry.number_of_votes,
    };
    if options.len() == 0 {
        return Err(VotingErr::NoOptions);
    }
    if options.len() > MAX_OPTIONS {
        return Err(VotingErr::TooManyOptions);
    }
    if n == u64::MAX {
        return Err(VotingErr::ArithmeticOverflow);
    }
    let span: i64 = voting_days as i64 * SECONDS_PER_DAY;
    let deadline = match now.checked_add(span) {
        None => {
            return Err(VotingErr::ArithmeticOverflow);
        },
        Some(d) => d,
    };
    let address = match ballot_address(n + 1, &ledger.program_id) {
        None => {
            return Err(VotingErr::AddressUnavailable);
        },
        Some(a) => a,
    };
    if ledger.find_ballot(&address).is_some() {
        return Err(VotingErr::AlreadyExists);
    }
    let ghost before = *ledger;
    let options = fresh_options(options);
    let record = BallotRecord {
        address,
        account: VoteAccount { topic, voting_deadline: deadline, options },
    };
    ledger.votes_account = Some(Votes { number_of_votes: n + 1 });
    ledger.vote_accounts.push(record);
    proof {
        let ballots = ledger.vote_accounts@;
        let receipts = ledger.voter_accounts@;
        let last = ballots.len() - 1;
        assert(ballots.drop_last() =~= before.vote_accounts@);
        assert forall|k: int| 0 <= k < ballots.len() implies program_address(
            ballot_seeds((k + 1) as u64),
            ledger.program_id@,
        ) == Some((#[trigger] ballots[k]).address@) by {
            if k < last {
                assert(ballots[k] == before.vote_accounts@[k]);
            }
        }
        assert forall|i: int, j: int| 0 <= i < j < ballots.len() implies (#[trigger] ballots[i]).address@
            != (#[trigger] ballots[j]).address@ by {
            assert(ballots[i] == before.vote_accounts@[i]);
            if j < last {
                assert(ballots[j] == before.vote_accounts@[j]);
            } else {
                assert(!ballot_exists(before.vote_accounts@, address@));
            }
        }
        assert forall|i: int| 0 <= i < receipts.len() implies ballot_exists(
            ballots,
            (#[trigger] receipts[i]).ballot@,
        ) by {
            assert(ballot_exists(before.vote_accounts@, receipts[i].ballot@));
            let k = choose|k: int|
                0 <= k < before.vote_accounts@.len() && (#[trigger] before.vote_accounts@[k]).address@
                    == receipts[i].ballot@;
            assert(ballots[k] == before.vote_accounts@[k]);
        }
        assert forall|k: int| 0 <= k < ballots.len() implies total_votes(
            (#[trigger] ballots[k]).account.options@,
        ) == receipt_count(receipts, ballots[k].address@) by {
            if k < last {
                assert(ballots[k] == before.vote_accounts@[k]);
            } else {
                lemma_fresh_total(ballots[k].account.options@);
                if receipt_count(receipts, address@) > 0 {
                    lemma_count_needs_receipt(receipts, address@);
                    let i = choose|i: int|
                        0 <= i < receipts.len() && (#[trigger] receipts[i]).ballot@ == address@;
                    assert(ballot_exists(before.vote_accounts@, receipts[i].ballot@));
                }
            }
        }
    }
    Ok(())
}

/// What `vote` does on `ledger`: the first check that fails, or the address at which
/// the participant's receipt is stored. The checks come in this order: the ballot
/// exists, it is still open, the option is one of its options, the receipt address
/// can be derived and is free, and the option's count can grow.
pub open spec fn vote_check(ledger: Ledger, ctx: CastVote, option_index: u8, now: i64) -> Result<
    Seq<u8>,
    VotingErr,
> {
    let ballots = ledger.vote_accounts@;
    if !ballot_exists(ballots, ctx.vote_account@) {
        Err(VotingErr::AccountNotFound)
    } else {
        let ballot = ballots[ballot_index(ballots, ctx.vote_account@)].account;
        if now >= ballot.voting_deadline {
            Err(VotingErr::VotingIsOver)
        } else if option_index >= ballot.options@.len() {
            Err(VotingErr::InvalidOption)
        } else {
            match program_address(
                receipt_seeds(ctx.vote_account@, ctx.user@),
                ledger.program_id@,
            ) {
                None => Err(VotingErr::AddressUnavailable),
                Some(a) => if receipt_exists(ledger.voter_accounts@, a) {
                    Err(VotingErr::AlreadyVoted)
                } else if ballot.options@[option_index as int].votes == u64::MAX {
                    Err(VotingErr::ArithmeticOverflow)
                } else {
                    Ok(a)
                },
            }
        }
    }
}

/// `after` is `before` with one more vote for option `option_index` of the ballot at
/// `ctx.vote_account`, and a receipt at `address` recording that choice by `ctx.user`.
pub open spec fn vote_step(
    before: Ledger,
    ctx: CastVote,
    option_index: u8,
    address: Seq<u8>,
    after: Ledger,
) -> bool {
    let k = ballot_index(before.vote_accounts@, ctx.vote_account@);
    let old_ballot = before.vote_accounts@[k];
    let new_ballot = after.vote_accounts@[k];
    let i = option_index as int;
    let receipt = after.voter_accounts@.last();
    &&& after.program_id == before.program_id
    &&& after.votes_account == before.votes_account
    &&& after.vote_accounts@.len() == before.vote_accounts@.len()
    &&& forall|j: int|
        0 <= j < before.vote_accounts@.len() && j != k ==> after.vote_accounts@[j]
            == before.vote_accounts@[j]
    &&& new_ballot.address == old_ballot.address
    &&& new_ballot.account.topic == old_ballot.account.topic
    &&& new_ballot.account.voting_deadline == old_ballot.account.voting_deadline
    &&& new_ballot.account.options@ == old_ballot.account.options@.update(
        i,
        VoteOption {
            name: old_ballot.account.options@[i].name,
            votes: (old_ballot.account.options@[i].votes + 1) as u64,
        },
    )
    &&& after.voter_accounts@.len() == before.voter_accounts@.len() + 1
    &&& after.voter_accounts@.drop_last() == before.voter_accounts@
    &&& receipt.address@ == address
    &&& receipt.ballot@ == ctx.vote_account@
    &&& receipt.participant@ == ctx.user@
    &&& receipt.voter == Voter { voted: true, option_index }
}

proof fn lemma_total_after_increment(options: Seq<VoteOption>, i: int, o: VoteOption)
    requires
        0 <= i < options.len(),
        o.votes == options[i].votes + 1,
    ensures
        total_votes(options.update(i, o)) == total_votes(options) + 1,
    decreases options.len(),
{
    let updated = options.update(i, o);
    if i < options.len() - 1 {
        lemma_total_after_increment(options.drop_last(), i, o);
        assert(updated.drop_last() =~= options.drop_last().update(i, o));
    } else {
        assert(updated.drop_last() =~= options.drop_last());
    }
}

proof fn lemma_count_after_push(receipts: Seq<ReceiptRecord>, r: ReceiptRecord, ballot: Seq<u8>)
    ensures
        receipt_count(receipts.push(r), ballot) == receipt_count(receipts, ballot) + if r.ballot@
            == ballot {
            1nat
        } else {
            0nat
        },
{
    assert(receipts.push(r).drop_last() =~= receipts);
}

/// Casts the vote of `ctx.user` for option `option_index` of the ballot at
/// `ctx.vote_account`, at time `now`: stores the participant's receipt and adds one to
/// that option's count. Every refusal leaves the ledger as it was.
pub fn vote(ledger: &mut Ledger, ctx: &CastVote, option_index: u8, now: i64) -> (r: Result<
    (),
    VotingErr,
>)
    requires
        old(ledger).wf(),
    ensures
        final(ledger).wf(),
        match vote_check(*old(ledger), *ctx, option_index, now) {
            Err(e) => r == Err::<(), VotingErr>(e) && *final(ledger) == *old(ledger),
            Ok(a) => r is Ok && vote_step(*old(ledger), *ctx, option_index, a, *final(ledger)),
        },
{
    let k = match ledger.find_ballot(&ctx.vote_account) {
        None => {
            return Err(VotingErr::AccountNotFound);
        },
        Some(k) => k,
    };
    proof {
        let c = ballot_index(ledger.vote_accounts@, ctx.vote_account@);
        assert(ledger.vote_accounts@[k as int].address@ == ctx.vote_account@);
        if c != k {
            if c < k {
                assert(ledger.vote_accounts@[c].address@ != ledger.vote_accounts@[k as int].address@);
            } else {
                assert(ledger.vote_accounts@[k as int].address@ != ledger.vote_accounts@[c].address@);
            }
        }
    }
    if now >= ledger.vote_accounts[k].account.voting_deadline {
        return Err(VotingErr::VotingIsOver);
    }
    if option_index as usize >= ledger.vote_accounts[k].account.options.len() {
        return Err(VotingErr::InvalidOption);
    }
    let address = match receipt_address(&ctx.vote_account, &ctx.user, &ledger.program_id) {
        None => {
            return Err(VotingErr::AddressUnavailable);
        },
        Some(a) => a,
    };
    if ledger.has_receipt(&address) {
        return Err(VotingErr::AlreadyVoted);
    }
    let i = option_index as usize;
    if ledger.vote_accounts[k].account.options[i].votes == u64::MAX {
        return Err(VotingErr::ArithmeticOverflow);
    }
    let ghost before = *ledger;
    let mut record = ledger.vote_accounts.remove(k);
    let mut option = record.account.options.remove(i);
    option.votes = option.votes + 1;
    record.account.options.insert(i, option);
    ledger.vote_accounts.insert(k, record);
    ledger.voter_accounts.push(
        ReceiptRecord {
            address,
            ballot: ctx.vote_account,
            participant: ctx.user,
            voter: Voter { voted: true, option_index },
        },
    );
    proof {
        let ballots = ledger.vote_accounts@;
        let receipts = ledger.voter_accounts@;
        let old_ballots = before.vote_accounts@;
        let old_options = old_ballots[k as int].account.options@;
        let bumped = VoteOption { name: old_options[i as int].name, votes: (old_options[i as int].votes + 1) as u64 };
        assert(ballots =~= old_ballots.update(k as int, ballots[k as int]));
        assert(ballots[k as int].account.options@ =~= old_options.update(i as int, bumped));
        assert(receipts.drop_last() =~= before.voter_accounts@);
        let receipt = receipts.last();
        lemma_total_after_increment(old_options, i as int, bumped);
        assert forall|i1: int, j1: int| 0 <= i1 < j1 < receipts.len() implies (#[trigger] receipts[i1]).address@
            != (#[trigger] receipts[j1]).address@ by {
            assert(receipts[i1] == before.voter_accounts@[i1]);
            if j1 < receipts.len() - 1 {
                assert(receipts[j1] == before.voter_accounts@[j1]);
            } else {
                assert(!receipt_exists(before.voter_accounts@, address@));
            }
        }
        assert forall|j: int| 0 <= j < receipts.len() implies ballot_exists(
            ballots,
            (#[trigger] receipts[j]).ballot@,
        ) by {
            if j < receipts.len() - 1 {
                assert(receipts[j] == before.voter_accounts@[j]);
                assert(ballot_exists(old_ballots, receipts[j].ballot@));
                let c = choose|c: int|
                    0 <= c < old_ballots.len() && (#[trigger] old_ballots[c]).address@
                        == receipts[j].ballot@;
                assert(ballots[c].address == old_ballots[c].address);
            } else {
                assert(ballots[k as int].address@ == receipts[j].ballot@);
            }
        }
        assert forall|c: int| 0 <= c < ballots.len() implies total_votes(
            (#[trigger] ballots[c]).account.options@,
        ) == receipt_count(receipts, ballots[c].address@) by {
            lemma_count_after_push(before.voter_accounts@, receipt, ballots[c].address@);
            assert(receipts == before.voter_accounts@.push(receipt));
            if c != k {
                if c < k {
                    assert(old_ballots[c].address@ != old_ballots[k as int].address@);
                } else {
                    assert(old_ballots[k as int].address@ != old_ballots[c].address@);
                }
            }
        }
    }
    Ok(())
}

} // verus!
