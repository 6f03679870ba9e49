//! Chain data as the node hands it over, reduced to plain values: what the
//! pipeline reads of a block, its commit, its validator set and its
//! transactions.

use vstd::prelude::*;

verus! {

/// Unix seconds of the first second of the calendar: the start of the year
/// -262143.
pub const MIN_TIMESTAMP: i64 = -8_334_601_228_800;

/// Unix seconds of the last second of the calendar: the end of the year
/// 262142.
pub const MAX_TIMESTAMP: i64 = 8_210_266_876_799;

/// Whether the calendar has a date and time for the given Unix seconds.
pub open spec fn has_date(seconds: i64) -> bool {
    MIN_TIMESTAMP <= seconds <= MAX_TIMESTAMP
}

/// `chrono::DateTime::from_timestamp` with no nanoseconds: whether it gives
/// a date and time. It does for the seconds whose day lies within the years
/// that the calendar covers; the contract states that range and is trusted,
/// not proved.
#[verifier::external_body]
fn timestamp_has_date(seconds: i64) -> (b: bool)
    ensures
        b == has_date(seconds),
{
    chrono::DateTime::from_timestamp(seconds, 0).is_some()
}

/// A point in time, in Unix seconds, that the calendar has a date for.
#[derive(Clone, Copy, Debug)]
pub struct Timestamp {
    seconds: i64,
}

impl View for Timestamp {
    type V = i64;

    closed spec fn view(&self) -> i64 {
        self.seconds
    }
}

impl Timestamp {
    #[verifier::type_invariant]
    spec fn on_the_calendar(self) -> bool {
        has_date(self.seconds)
    }

    /// The point in time at the given Unix seconds, if the calendar has a
    /// date for it.
    pub fn new(seconds: i64) -> (t: Option<Timestamp>)
        ensures
            match t {
                Some(t) => has_date(seconds) && t@ == seconds,
                None => !has_date(seconds),
            },
    {
        if timestamp_has_date(seconds) {
            Some(Timestamp { seconds })
        } else {
            None
        }
    }

    /// The Unix seconds of the point in time.
    pub fn seconds(&self) -> (s: i64)
        ensures
            s == self@,
            has_date(s),
    {
        proof {
            use_type_invariant(self);
        }
        self.seconds
    }
}

/// One member of a block's validator set.
pub struct TmValidatorInfo {
    /// Account address, raw bytes.
    pub address: [u8; 20],
    /// Consensus public key in its bech32 text form.
    pub pub_key: String,
    /// Voting power.
    pub power: i64,
    /// Proposer priority.
    pub proposer_priority: i64,
}

/// One entry of a commit's signature list.
pub enum CommitSig {
    /// The validator did not vote.
    BlockIdFlagAbsent,
    /// The validator voted for the block.
    BlockIdFlagCommit {
        validator_address: [u8; 20],
        timestamp: Timestamp,
        signature: Option<Vec<u8>>,
    },
    /// The validator voted nil.
    BlockIdFlagNil {
        validator_address: [u8; 20],
        timestamp: Timestamp,
        signature: Option<Vec<u8>>,
    },
}

/// The commit that closed the previous block.
pub struct Commit {
    pub signatures: Vec<CommitSig>,
}

/// What executing one transaction reported.
pub struct ExecTxResult {
    /// Response code; zero means success.
    pub code: u32,
    pub gas_wanted: i64,
    pub gas_used: i64,
    pub log: String,
}

/// A block envelope.
pub struct TmBlock {
    pub height: u64,
    /// Header hash, upper-case hex.
    pub hash: String,
    /// Raw transactions, in block order.
    pub data: Vec<Vec<u8>>,
    pub proposer_address: [u8; 20],
    /// Header time.
    pub time: Timestamp,
    pub last_commit: Option<Commit>,
}

/// The four envelope kinds a transaction header can announce.
#[derive(Clone, Copy, Debug, PartialEq, Eq, Structural)]
pub enum TxType {
    Raw,
    Wrapper,
    Decrypted,
    Protocol,
}

/// What the pipeline reads of a decoded transaction envelope.
pub struct NamadaTx {
    pub tx_type: TxType,
    /// Memo text; empty when the envelope carries none.
    pub memo: String,
    /// Hash of the code section, when the envelope has one.
    pub code_hash: Option<[u8; 32]>,
    /// Payload bytes, when the envelope has a data section.
    pub data: Option<Vec<u8>>,
}

impl TxType {
    /// The name under which the envelope kind is stored.
    pub open spec fn spec_name(self) -> Seq<char> {
        match self {
            TxType::Raw => "raw"@,
            TxType::Wrapper => "wrapper"@,
            TxType::Decrypted => "decrypted"@,
            TxType::Protocol => "protocol"@,
        }
    }

    /// The name under which the envelope kind is stored.
    pub fn name(&self) -> (s: String)
        ensures
            s@ == self.spec_name(),
    {
        match self {
            TxType::Raw => String::from_str("raw"),
            TxType::Wrapper => String::from_str("wrapper"),
            TxType::Decrypted => String::from_str("decrypted"),
            TxType::Protocol => String::from_str("protocol"),
        }
    }
}

impl ExecTxResult {
    /// Whether the transaction succeeded.
    pub fn is_ok(&self) -> (b: bool)
        ensures
            b == (self.code == 0),
    {
        self.code == 0
    }
}

/// Whether two account addresses are the same address.
pub fn same_address(a: &[u8; 20], b: &[u8; 20]) -> (r: bool)
    ensures
        r == (a@ == b@),
{
    let mut i: usize = 0;
    while i < 20
        invariant
            i <= 20,
            forall|j: int| 0 <= j < i ==> a@[j] == b@[j],
        decreases 20 - i,
    {
        if a[i] != b[i] {
            return false;
        }
        i += 1;
    }
    assert(a@ =~= b@);
    true
}

} // verus!
