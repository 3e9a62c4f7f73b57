//! What is read from the ledger's endpoint: where to ask, and what the
//! answer means.
//!
//! The requests themselves are made elsewhere. Here are the addresses of the
//! two reads and the sequence id in the answer to the first, which pins a
//! transaction to a point in the ledger's history.

use vstd::prelude::*;
use vstd::string::StringExecFns;

use crate::error::TransferError;
use crate::json::{global_state_sequence, parse_global_state};

verus! {

/// A transaction builder opened at a sequence id: the id is all of it that
/// this crate reads.
#[derive(Clone, Copy, Debug, PartialEq, Eq, Structural)]
pub struct TransactionBuilder {
    seq_id: u64,
}

impl TransactionBuilder {
    /// A builder opened at `seq_id`.
    pub fn from_seq_id(seq_id: u64) -> (builder: TransactionBuilder)
        ensures
            builder.seq_id() == seq_id,
    {
        TransactionBuilder { seq_id }
    }

    /// The sequence id at which the builder was opened.
    pub closed spec fn seq_id(self) -> u64 {
        self.seq_id
    }

    /// The sequence id at which the builder was opened.
    pub fn get_seq_id(&self) -> (seq_id: u64)
        ensures
            seq_id == self.seq_id(),
    {
        self.seq_id
    }
}

/// The address of the ledger's global state.
pub fn global_state_url(endpoint: &str) -> (url: String)
    ensures
        url@ == endpoint@ + "/global_state"@,
{
    let mut url = String::from_str(endpoint);
    url.append("/global_state");
    url
}

/// The address of the unspent outputs that a key owns; `public_key` is the
/// key in base64.
pub fn owned_utxos_url(endpoint: &str, public_key: &str) -> (url: String)
    ensures
        url@ == endpoint@ + "/owned_utxos/"@ + public_key@,
{
    let mut url = String::from_str(endpoint);
    url.append("/owned_utxos/");
    url.append(public_key);
    url
}

/// How many times a read is tried before it is given up.
pub const READ_ATTEMPTS: u32 = 3;

/// How long a single attempt may take, in seconds.
pub const READ_TIMEOUT_SECS: u64 = 10;

/// How an attempt to read from the endpoint went.
#[derive(Clone, Copy, Debug, PartialEq, Eq, Structural)]
pub enum ReadOutcome {
    /// The endpoint answered with a body.
    Answered,
    /// The network failed or the attempt ran out of time; another attempt may
    /// fare better.
    Transient,
    /// The endpoint answered with a failure; asking again would not help.
    Refused,
}

/// What follows an attempt to read.
#[derive(Clone, Copy, Debug, PartialEq, Eq, Structural)]
pub enum ReadStep {
    /// The body is there: go on with it.
    Proceed,
    /// Try once more.
    Retry,
    /// Fail with `RemoteFetch`.
    GiveUp,
}

/// What follows the attempt that brought the number of attempts to
/// `attempts_made`: an answer is taken, a refusal is final, and after a
/// transient failure the read is tried again until `READ_ATTEMPTS` attempts
/// were made.
pub open spec fn step_after(attempts_made: u32, outcome: ReadOutcome) -> ReadStep {
    match outcome {
        ReadOutcome::Answered => ReadStep::Proceed,
        ReadOutcome::Refused => ReadStep::GiveUp,
        ReadOutcome::Transient => if attempts_made < READ_ATTEMPTS {
            ReadStep::Retry
        } else {
            ReadStep::GiveUp
        },
    }
}

/// Decides what follows an attempt to read. No read is tried more than
/// `READ_ATTEMPTS` times: once that many attempts were made, none is granted.
pub fn after_attempt(attempts_made: u32, outcome: ReadOutcome) -> (step: ReadStep)
    ensures
        step == step_after(attempts_made, outcome),
        step == ReadStep::Retry ==> attempts_made < READ_ATTEMPTS,
{
    match outcome {
        ReadOutcome::Answered => ReadStep::Proceed,
        ReadOutcome::Refused => ReadStep::GiveUp,
        ReadOutcome::Transient => {
            if attempts_made < READ_ATTEMPTS {
                ReadStep::Retry
            } else {
                ReadStep::GiveUp
            }
        },
    }
}

/// What the body of the global state yields: the sequence id in it, or
/// `RemoteFetch` where the body cannot be read.
pub open spec fn sequence_of(body: Seq<u8>) -> Result<u64, TransferError> {
    match global_state_sequence(body) {
        Some(seq_id) => Ok(seq_id),
        None => Err(TransferError::RemoteFetch),
    }
}

/// The sequence id at which a builder was opened, where one was.
pub open spec fn opened_at(outcome: Result<TransactionBuilder, TransferError>) -> Result<
    u64,
    TransferError,
> {
    match outcome {
        Ok(builder) => Ok(builder.seq_id()),
        Err(error) => Err(error),
    }
}

/// The builder for the ledger state that `body` describes: one opened at
/// the sequence id in the body.
pub fn get_transaction_builder(body: &[u8]) -> (outcome: Result<TransactionBuilder, TransferError>)
    ensures
        opened_at(outcome) == sequence_of(body@),
{
    match parse_global_state(body) {
        Ok(seq_id) => Ok(TransactionBuilder::from_seq_id(seq_id)),
        Err(_) => Err(TransferError::RemoteFetch),
    }
}

/// The sequence id of the ledger state that `body` describes.
///
/// It is the id at which `get_transaction_builder` opens a builder for the
/// same body, so a transaction built from a body carries the id that this
/// query returns for it.
pub fn get_seq_id(body: &[u8]) -> (outcome: Result<u64, TransferError>)
    ensures
        outcome == sequence_of(body@),
{
    match get_transaction_builder(body) {
        Ok(builder) => Ok(builder.get_seq_id()),
        Err(error) => Err(error),
    }
}

/// A transaction carries the sequence id that the query reports: for one and
/// the same body of the global state, the builder is opened at the id that
/// `get_seq_id` returns, and where the one fails so does the other, with
/// `RemoteFetch`.
pub proof fn sequence_id_is_shared(
    body: Seq<u8>,
    built: Result<TransactionBuilder, TransferError>,
    queried: Result<u64, TransferError>,
)
    requires
        opened_at(built) == sequence_of(body),
        queried == sequence_of(body),
    ensures
        match built {
            Ok(builder) => queried == Ok::<u64, TransferError>(builder.seq_id()),
            Err(error) => error == TransferError::RemoteFetch && queried == Err::<
                u64,
                TransferError,
            >(error),
        },
{
}

} // verus!
