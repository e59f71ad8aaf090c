//! The errors of the transaction layer.

use vstd::prelude::*;
use crate::codec::CodecError;
use crate::dagger::{Dagger, DaggerView};
use crate::timestamp::TimeStamp;

verus! {

/// Why an operation of the transaction layer did not go through.
#[derive(Debug, PartialEq, Eq)]
pub enum Error {
    /// A key could not be decoded.
    Codec(CodecError),
    /// The bytes stored for a dagger are malformed.
    BadFormatDagger,
    /// The bytes stored for a write record are malformed.
    BadFormatWrite,
    /// Another transaction holds a dagger on the key.
    KeyIsDaggered { key: Vec<u8>, dagger: Dagger },
    /// A version of the key was committed that the transaction must not
    /// overwrite, or the transaction was rolled back at the key.
    WriteConflict {
        start_ts: TimeStamp,
        conflict_start_ts: TimeStamp,
        conflict_commit_ts: TimeStamp,
        key: Vec<u8>,
        primary: Vec<u8>,
    },
    /// The key must not exist, and does.
    AlreadyExist { key: Vec<u8> },
    /// The least commit timestamp that can be had is over the limit that the
    /// request set.
    CommitTsTooLarge { start_ts: TimeStamp, min_commit_ts: TimeStamp, max_commit_ts: TimeStamp },
    /// The pessimistic dagger that the prewrite was to turn into a dagger is
    /// gone.
    PessimisticDaggerNotFound { start_ts: TimeStamp, key: Vec<u8> },
    /// The pessimistic transaction was rolled back at the key.
    PessimisticDaggerRolledBack { start_ts: TimeStamp, key: Vec<u8> },
    /// The dagger on the key is not of the kind that the request goes with.
    DaggerTypeNotMatch { start_ts: TimeStamp, key: Vec<u8>, pessimistic: bool },
    /// The transaction holds no dagger on the key that it wants to commit,
    /// and has not committed it before.
    TxnDaggerNotFound { start_ts: TimeStamp, commit_ts: TimeStamp, key: Vec<u8> },
    /// The commit timestamp is before the least that the dagger allows.
    CommitTsExpired {
        start_ts: TimeStamp,
        commit_ts: TimeStamp,
        key: Vec<u8>,
        min_commit_ts: TimeStamp,
    },
    /// The transaction that is to be rolled back has committed.
    Committed { start_ts: TimeStamp, commit_ts: TimeStamp, key: Vec<u8> },
    /// The greatest timestamp known to the node may be stale, so that no
    /// commit timestamp can be computed from it.
    MaxTimestampNotSynced { region_id: u64, start_ts: TimeStamp },
    /// A put record refers to a value that is not stored.
    DataNotFound { key: Vec<u8> },
    /// The table of pessimistic daggers belongs to another term.
    StaleCommand,
    /// The table of pessimistic daggers belongs to another version of the
    /// region.
    EpochNotMatch,
    /// A mutation that only checks that a key does not exist was sent in a
    /// pessimistic prewrite.
    CheckNotExistsInPessimisticPrewrite,
    /// The commit timestamp is not after the start timestamp.
    InvalidTxnTso { start_ts: TimeStamp, commit_ts: TimeStamp },
}

/// What an error holds.
pub enum ErrorView {
    Codec(CodecError),
    BadFormatDagger,
    BadFormatWrite,
    KeyIsDaggered { key: Seq<u8>, dagger: DaggerView },
    WriteConflict {
        start_ts: TimeStamp,
        conflict_start_ts: TimeStamp,
        conflict_commit_ts: TimeStamp,
        key: Seq<u8>,
        primary: Seq<u8>,
    },
    AlreadyExist { key: Seq<u8> },
    CommitTsTooLarge { start_ts: TimeStamp, min_commit_ts: TimeStamp, max_commit_ts: TimeStamp },
    PessimisticDaggerNotFound { start_ts: TimeStamp, key: Seq<u8> },
    PessimisticDaggerRolledBack { start_ts: TimeStamp, key: Seq<u8> },
    DaggerTypeNotMatch { start_ts: TimeStamp, key: Seq<u8>, pessimistic: bool },
    TxnDaggerNotFound { start_ts: TimeStamp, commit_ts: TimeStamp, key: Seq<u8> },
    CommitTsExpired {
        start_ts: TimeStamp,
        commit_ts: TimeStamp,
        key: Seq<u8>,
        min_commit_ts: TimeStamp,
    },
    Committed { start_ts: TimeStamp, commit_ts: TimeStamp, key: Seq<u8> },
    MaxTimestampNotSynced { region_id: u64, start_ts: TimeStamp },
    DataNotFound { key: Seq<u8> },
    StaleCommand,
    EpochNotMatch,
    CheckNotExistsInPessimisticPrewrite,
    InvalidTxnTso { start_ts: TimeStamp, commit_ts: TimeStamp },
}

impl View for Error {
    type V = ErrorView;

    open spec fn view(&self) -> ErrorView {
        match *self {
            Error::Codec(e) => ErrorView::Codec(e),
            Error::BadFormatDagger => ErrorView::BadFormatDagger,
            Error::BadFormatWrite => ErrorView::BadFormatWrite,
            Error::KeyIsDaggered { key, dagger } => ErrorView::KeyIsDaggered {
                key: key@,
                dagger: dagger@,
            },
            Error::WriteConflict {
                start_ts,
                conflict_start_ts,
                conflict_commit_ts,
                key,
                primary,
            } => ErrorView::WriteConflict {
                start_ts,
                conflict_start_ts,
                conflict_commit_ts,
                key: key@,
                primary: primary@,
            },
            Error::AlreadyExist { key } => ErrorView::AlreadyExist { key: key@ },
            Error::CommitTsTooLarge {
                start_ts,
                min_commit_ts,
                max_commit_ts,
            } => ErrorView::CommitTsTooLarge { start_ts, min_commit_ts, max_commit_ts },
            Error::PessimisticDaggerNotFound {
                start_ts,
                key,
            } => ErrorView::PessimisticDaggerNotFound { start_ts, key: key@ },
            Error::PessimisticDaggerRolledBack {
                start_ts,
                key,
            } => ErrorView::PessimisticDaggerRolledBack { start_ts, key: key@ },
            Error::DaggerTypeNotMatch {
                start_ts,
                key,
                pessimistic,
            } => ErrorView::DaggerTypeNotMatch { start_ts, key: key@, pessimistic },
            Error::TxnDaggerNotFound {
                start_ts,
                commit_ts,
                key,
            } => ErrorView::TxnDaggerNotFound { start_ts, commit_ts, key: key@ },
            Error::CommitTsExpired {
                start_ts,
                commit_ts,
                key,
                min_commit_ts,
            } => ErrorView::CommitTsExpired { start_ts, commit_ts, key: key@, min_commit_ts },
            Error::Committed { start_ts, commit_ts, key } => ErrorView::Committed {
                start_ts,
                commit_ts,
                key: key@,
            },
            Error::MaxTimestampNotSynced {
                region_id,
                start_ts,
            } => ErrorView::MaxTimestampNotSynced { region_id, start_ts },
            Error::DataNotFound { key } => ErrorView::DataNotFound { key: key@ },
            Error::StaleCommand => ErrorView::StaleCommand,
            Error::EpochNotMatch => ErrorView::EpochNotMatch,
            Error::CheckNotExistsInPessimisticPrewrite => ErrorView::CheckNotExistsInPessimisticPrewrite,
            Error::InvalidTxnTso { start_ts, commit_ts } => ErrorView::InvalidTxnTso {
                start_ts,
                commit_ts,
            },
        }
    }
}

} // verus!
