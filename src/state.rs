use vstd::prelude::*;

verus! {

/// Most options a ballot can hold: its storage is sized for this many.
pub const MAX_OPTIONS: usize = 10;

/// Seconds in one voting day.
pub const SECONDS_PER_DAY: i64 = 86400;

/// The registry: how many ballots have been created so far.
#[derive(Debug, Clone, Copy, PartialEq, Eq)]
pub struct Votes {
    pub number_of_votes: u64,
}

/// One choice on a ballot and the votes it has received.
#[derive(Debug)]
pub struct VoteOption {
    pub name: String,
    pub votes: u64,
}

/// A ballot: its topic, the first instant at which voting is closed, and its options.
#[derive(Debug)]
pub struct VoteAccount {
    pub topic: String,
    pub voting_deadline: i64,
    pub options: Vec<VoteOption>,
}

/// A receipt: its existence records that a participant has voted on a ballot.
#[derive(Debug, Clone, Copy, PartialEq, Eq)]
pub struct Voter {
    pub voted: bool,
    pub option_index: u8,
}

/// Why an instruction was refused. A refused instruction changes nothing.
#[derive(Debug, Clone, Copy, PartialEq, Eq)]
pub enum VotingErr {
    /// The ballot's deadline has been reached.
    VotingIsOver,
    /// The participant already holds a receipt for this ballot.
    AlreadyVoted,
    /// The option index is not an index of the ballot's options.
    InvalidOption,
    /// The registry or the ballot named does not exist.
    AccountNotFound,
    /// A record already occupies the address being created.
    AlreadyExists,
    /// A ballot was requested without options.
    NoOptions,
    /// A ballot was requested with more than `MAX_OPTIONS` options.
    TooManyOptions,
    /// A counter or the deadline does not fit its integer type.
    ArithmeticOverflow,
    /// No program address could be derived from the seeds.
    AddressUnavailable,
}

/// A ballot stored at its derived address.
#[derive(Debug)]
pub struct BallotRecord {
    pub address: [u8; 32],
    pub account: VoteAccount,
}

/// A receipt stored at the address derived from its ballot and participant.
#[derive(Debug, Clone, Copy)]
pub struct ReceiptRecord {
    pub address: [u8; 32],
    pub ballot: [u8; 32],
    pub participant: [u8; 32],
    pub voter: Voter,
}

/// The accounts of an `initialize_votes` instruction: the signer who pays.
#[derive(Debug, Clone, Copy)]
pub struct InitializeVotes {
    pub user: [u8; 32],
}

/// The accounts of a `create_vote` instruction: the signer who pays.
#[derive(Debug, Clone, Copy)]
pub struct CreateVote {
    pub user: [u8; 32],
}

/// The accounts of a `vote` instruction: the ballot voted on and the voting signer.
#[derive(Debug, Clone, Copy)]
pub struct CastVote {
    pub vote_account: [u8; 32],
    pub user: [u8; 32],
}

} // verus!
