//! The prewrite of one key: the checks that a mutation must pass before its
//! transaction may lock the key, and the dagger that it then stages.

use vstd::prelude::*;
use crate::actions::with_raw_key;
use crate::codec::{copy_bytes, CodecError};
use crate::dagger::{byte_strings_view, copy_byte_strings, Dagger, DaggerType, DaggerView};
use crate::error::{Error, ErrorView};
use crate::key::{append_ts_spec, Key};
use crate::kv::{CfName, Entries, ModifyView, SnapshotView};
use crate::mutation::{Mutation, MutationType, MutationView, OldValue, OldValueView};
use crate::reader::{
    blackbraneReader, get_write_spec, load_dagger_spec, old_value_spec, seek_write_spec,
};
use crate::timestamp::TimeStamp;
use crate::txn::{updated_max_ts, EpaxosTxn, MemoryDagger, MemoryDaggerView, TxnView};
use crate::write::{
    is_short_value, opt_bytes_view, Write, WriteType, WriteView, SHORT_VALUE_MAX_LEN,
};

verus! {

/// How a transaction locks its keys.
#[derive(Clone, Copy, Debug, PartialEq, Eq, Structural)]
pub enum TransactionKind {
    /// At prewrite; the flag tells whether the checks against committed
    /// versions are left out.
    Optimistic(bool),
    /// Ahead of the prewrite, at the given timestamp.
    Pessimistic(TimeStamp),
}

/// How a transaction commits.
#[derive(Clone, Copy, Debug, PartialEq, Eq, Structural)]
pub enum CommitKind {
    /// In two phases.
    TwoPc,
    /// In one phase, at a timestamp not over the given one; zero sets no
    /// limit.
    OnePc(TimeStamp),
    /// By async commit, at a timestamp not over the given one; zero sets no
    /// limit.
    Async(TimeStamp),
}

/// What a prewrite knows of its transaction.
#[derive(Debug, PartialEq, Eq)]
pub struct TransactionProperties {
    pub start_ts: TimeStamp,
    pub kind: TransactionKind,
    pub commit_kind: CommitKind,
    /// The user key of the primary dagger.
    pub primary: Vec<u8>,
    pub solitontxn_size: u64,
    pub dagger_ttl: u64,
    pub min_commit_ts: TimeStamp,
    pub need_old_value: bool,
    pub is_retry_request: bool,
}

/// What the properties of a transaction hold.
pub struct TxnPropsView {
    pub start_ts: TimeStamp,
    pub kind: TransactionKind,
    pub commit_kind: CommitKind,
    pub primary: Seq<u8>,
    pub solitontxn_size: u64,
    pub dagger_ttl: u64,
    pub min_commit_ts: TimeStamp,
    pub need_old_value: bool,
    pub is_retry_request: bool,
}

impl TxnPropsView {
    pub open spec fn is_pessimistic(self) -> bool {
        self.kind is Pessimistic
    }

    /// The timestamp at which a pessimistic transaction locked its keys;
    /// zero for an optimistic one.
    pub open spec fn for_update_ts(self) -> TimeStamp {
        match self.kind {
            TransactionKind::Optimistic(_) => TimeStamp(0),
            TransactionKind::Pessimistic(ts) => ts,
        }
    }

    /// The limit on the commit timestamp; zero where there is none.
    pub open spec fn max_commit_ts(self) -> TimeStamp {
        match self.commit_kind {
            CommitKind::TwoPc => TimeStamp(0),
            CommitKind::OnePc(ts) => ts,
            CommitKind::Async(ts) => ts,
        }
    }

    /// Whether the prewrite is to compute a least commit timestamp.
    pub open spec fn need_min_commit_ts(self) -> bool {
        !(self.commit_kind is TwoPc)
    }

    pub open spec fn try_one_pc(self) -> bool {
        self.commit_kind is OnePc
    }
}

impl View for TransactionProperties {
    type V = TxnPropsView;

    open spec fn view(&self) -> TxnPropsView {
        TxnPropsView {
            start_ts: self.start_ts,
            kind: self.kind,
            commit_kind: self.commit_kind,
            primary: self.primary@,
            solitontxn_size: self.solitontxn_size,
            dagger_ttl: self.dagger_ttl,
            min_commit_ts: self.min_commit_ts,
            need_old_value: self.need_old_value,
            is_retry_request: self.is_retry_request,
        }
    }
}

impl TransactionProperties {
    pub fn is_pessimistic(&self) -> (r: bool)
        ensures
            r == self@.is_pessimistic(),
    {
        match self.kind {
            TransactionKind::Optimistic(_) => false,
            TransactionKind::Pessimistic(_) => true,
        }
    }

    pub fn for_update_ts(&self) -> (r: TimeStamp)
        ensures
            r == self@.for_update_ts(),
    {
        match self.kind {
            TransactionKind::Optimistic(_) => TimeStamp::zero(),
            TransactionKind::Pessimistic(ts) => ts,
        }
    }

    pub fn max_commit_ts(&self) -> (r: TimeStamp)
        ensures
            r == self@.max_commit_ts(),
    {
        match self.commit_kind {
            CommitKind::TwoPc => TimeStamp::zero(),
            CommitKind::OnePc(ts) => ts,
            CommitKind::Async(ts) => ts,
        }
    }

    pub fn need_min_commit_ts(&self) -> (r: bool)
        ensures
            r == self@.need_min_commit_ts(),
    {
        match self.commit_kind {
            CommitKind::TwoPc => false,
            _ => true,
        }
    }

    pub fn try_one_pc(&self) -> (r: bool)
        ensures
            r == self@.try_one_pc(),
    {
        match self.commit_kind {
            CommitKind::OnePc(_) => true,
            _ => false,
        }
    }
}

/// What stands on a key when a prewrite comes to it.
#[derive(Clone, Copy, Debug, PartialEq, Eq, Structural)]
pub enum DaggerStatus {
    /// The dagger of this prewrite, staged by an earlier request; with the
    /// least commit timestamp of an async-commit dagger, else zero.
    Daggered(TimeStamp),
    /// The pessimistic dagger of this transaction; with the time to live
    /// and the least commit timestamp to go on with, each the greater of
    /// the dagger's and the request's.
    Pessimistic { dagger_ttl: u64, min_commit_ts: TimeStamp },
    /// Nothing.
    NoDagger,
}

/// What the dagger found on a key means to the prewrite. A dagger of
/// another transaction blocks it. A pessimistic dagger of its own
/// transaction is to be overwritten, and any other dagger of its own tells
/// that the prewrite was done before.
pub open spec fn check_dagger_spec(
    props: TxnPropsView,
    key: Seq<u8>,
    dagger: DaggerView,
    is_pessimistic_dagger: bool,
) -> Result<DaggerStatus, ErrorView> {
    if dagger.ts != props.start_ts {
        if is_pessimistic_dagger {
            Err(
                with_raw_key(
                    key,
                    |raw: Seq<u8>|
                        ErrorView::PessimisticDaggerNotFound {
                            start_ts: props.start_ts,
                            key: raw,
                        },
                ),
            )
        } else {
            Err(
                with_raw_key(
                    key,
                    |raw: Seq<u8>|
                        ErrorView::KeyIsDaggered {
                            key: raw,
                            dagger: if props.is_pessimistic() {
                                DaggerView { ttl: 0, ..dagger }
                            } else {
                                dagger
                            },
                        },
                ),
            )
        }
    } else if dagger.dagger_type == DaggerType::Pessimistic {
        if !props.is_pessimistic() {
            Err(
                with_raw_key(
                    key,
                    |raw: Seq<u8>|
                        ErrorView::DaggerTypeNotMatch {
                            start_ts: props.start_ts,
                            key: raw,
                            pessimistic: true,
                        },
                ),
            )
        } else {
            Ok(
                DaggerStatus::Pessimistic {
                    dagger_ttl: if props.dagger_ttl >= dagger.ttl {
                        props.dagger_ttl
                    } else {
                        dagger.ttl
                    },
                    min_commit_ts: TimeStamp::spec_max_of(props.min_commit_ts, dagger.min_commit_ts),
                },
            )
        }
    } else {
        Ok(
            DaggerStatus::Daggered(
                if dagger.use_async_commit {
                    dagger.min_commit_ts
                } else {
                    TimeStamp(0)
                },
            ),
        )
    }
}

/// Whether a prewrite that was to find a pessimistic dagger and finds none
/// may go on: it may, as long as nothing was committed on the key since the
/// transaction started.
pub open spec fn amend_pessimistic_dagger_spec(
    writes: Entries,
    reader_start_ts: TimeStamp,
    key: Seq<u8>,
) -> Result<(), ErrorView> {
    match seek_write_spec(writes, key, TimeStamp(u64::MAX)) {
        Err(e) => Err(e),
        Ok(Some((commit_ts, _))) => if commit_ts@ >= reader_start_ts@ {
            Err(
                with_raw_key(
                    key,
                    |raw: Seq<u8>|
                        ErrorView::PessimisticDaggerNotFound { start_ts: reader_start_ts, key: raw },
                ),
            )
        } else {
            Ok(())
        },
        Ok(None) => Ok(()),
    }
}

/// What stands on the key of a prewrite.
pub open spec fn dagger_status_spec(
    snapshot: SnapshotView,
    term: u64,
    version: u64,
    reader_start_ts: TimeStamp,
    props: TxnPropsView,
    key: Seq<u8>,
    is_pessimistic_dagger: bool,
) -> Result<DaggerStatus, ErrorView> {
    match load_dagger_spec(snapshot, term, version, key) {
        Err(e) => Err(e),
        Ok(Some(d)) => check_dagger_spec(props, key, d, is_pessimistic_dagger),
        Ok(None) => if is_pessimistic_dagger {
            match amend_pessimistic_dagger_spec(snapshot.store.write_cf, reader_start_ts, key) {
                Err(e) => Err(e),
                Ok(()) => Ok(DaggerStatus::NoDagger),
            }
        } else {
            Ok(DaggerStatus::NoDagger)
        },
    }
}

/// The error of a prewrite that must not overwrite the record `write`.
pub open spec fn write_conflict_spec(
    props: TxnPropsView,
    key: Seq<u8>,
    write: WriteView,
    commit_ts: TimeStamp,
) -> ErrorView {
    with_raw_key(
        key,
        |raw: Seq<u8>|
            ErrorView::WriteConflict {
                start_ts: props.start_ts,
                conflict_start_ts: write.start_ts,
                conflict_commit_ts: commit_ts,
                key: raw,
                primary: props.primary,
            },
    )
}

/// Whether the key may be written by a mutation that asks that it not
/// exist, given its newest record. The key exists if that record is a put,
/// or is a dagger or rollback record with a value readable before it. A
/// record with a fence is no longer the newest version and tells nothing.
pub open spec fn data_constraint_spec(
    writes: Entries,
    reader_start_ts: TimeStamp,
    should_not_exist: bool,
    write: WriteView,
    write_commit_ts: TimeStamp,
    key: Seq<u8>,
) -> Result<(), ErrorView> {
    if !should_not_exist || write.write_type == WriteType::Delete || (write.gc_fence is Some
        && write.gc_fence.unwrap()@ != 0) {
        Ok(())
    } else if write.write_type == WriteType::Put {
        Err(with_raw_key(key, |raw: Seq<u8>| ErrorView::AlreadyExist { key: raw }))
    } else if write_commit_ts@ == 0 {
        Ok(())
    } else {
        match get_write_spec(
            writes,
            key,
            TimeStamp((write_commit_ts@ - 1) as u64),
            Some(reader_start_ts),
        ) {
            Err(e) => Err(e),
            Ok(Some(_)) => Err(with_raw_key(key, |raw: Seq<u8>| ErrorView::AlreadyExist { key: raw })),
            Ok(None) => Ok(()),
        }
    }
}

/// The newest record of the key, where the prewrite may go on beside it. A
/// record committed after the transaction started is a conflict, and so is
/// a rollback of the transaction itself.
pub open spec fn newer_version_spec(
    writes: Entries,
    reader_start_ts: TimeStamp,
    props: TxnPropsView,
    key: Seq<u8>,
    should_not_exist: bool,
) -> Result<Option<(WriteView, TimeStamp)>, ErrorView> {
    match seek_write_spec(writes, key, TimeStamp(u64::MAX)) {
        Err(e) => Err(e),
        Ok(None) => Ok(None),
        Ok(Some((commit_ts, write))) => if commit_ts@ > props.start_ts@ {
            Err(write_conflict_spec(props, key, write, commit_ts))
        } else if commit_ts == props.start_ts && (write.write_type == WriteType::Rollback
            || write.has_overlapped_rollback) {
            Err(write_conflict_spec(props, key, write, commit_ts))
        } else {
            match data_constraint_spec(
                writes,
                reader_start_ts,
                should_not_exist,
                write,
                commit_ts,
                key,
            ) {
                Err(e) => Err(e),
                Ok(()) => Ok(Some((write, commit_ts))),
            }
        },
    }
}

/// Whether the prewrite leaves out the checks against committed versions.
/// An optimistic transaction says so itself. A pessimistic one has checked
/// when it locked the key; but a key that it did not lock is checked when
/// the request is sent again, so that a prewrite done before is found out.
pub open spec fn skip_constraint_check_spec(props: TxnPropsView, is_pessimistic_dagger: bool) -> bool {
    match props.kind {
        TransactionKind::Optimistic(skip) => skip,
        TransactionKind::Pessimistic(_) => is_pessimistic_dagger || !props.is_retry_request,
    }
}

/// The least commit timestamp of a dagger: after every timestamp that the
/// node has seen, after the start of the transaction and after the
/// timestamp of its pessimistic daggers, and not before the least that the
/// dagger came with.
pub open spec fn async_commit_ts_spec(
    max_ts: TimeStamp,
    start_ts: TimeStamp,
    for_update_ts: TimeStamp,
    dagger_min_commit_ts: TimeStamp,
) -> TimeStamp {
    TimeStamp::spec_max_of(
        dagger_min_commit_ts,
        TimeStamp::spec_max_of(
            TimeStamp::spec_max_of(max_ts, start_ts),
            for_update_ts,
        ).spec_next_or_max(),
    )
}

/// The least commit timestamp of a dagger is after the start of its
/// transaction, after the timestamp of its pessimistic daggers and after
/// every timestamp that the node has seen, unless one of them is the
/// greatest timestamp of all; and it is never before the least that the
/// dagger came with.
pub proof fn lemma_least_commit_ts(
    max_ts: TimeStamp,
    start_ts: TimeStamp,
    for_update_ts: TimeStamp,
    dagger_min_commit_ts: TimeStamp,
)
    ensures
        async_commit_ts_spec(max_ts, start_ts, for_update_ts, dagger_min_commit_ts)@
            >= dagger_min_commit_ts@,
        (max_ts@ < u64::MAX && start_ts@ < u64::MAX && for_update_ts@ < u64::MAX) ==> {
            let ts = async_commit_ts_spec(max_ts, start_ts, for_update_ts, dagger_min_commit_ts);
            ts@ > max_ts@ && ts@ > start_ts@ && ts@ > for_update_ts@
        },
{
}

/// What the old value of the key is, as a prewrite with these properties
/// reports it.
pub open spec fn prewrite_old_value_spec(
    writes: Entries,
    props: TxnPropsView,
    m: MutationView,
    skipped: bool,
    prev: Option<(WriteView, TimeStamp)>,
) -> Result<OldValueView, ErrorView> {
    if props.need_old_value && (m.mutation_type() == MutationType::Put || m.mutation_type()
        == MutationType::Delete) {
        old_value_spec(writes, m.key(), props.start_ts, !skipped, crate::reader::fst_of(prev))
    } else {
        Ok(OldValueView::Unspecified)
    }
}

/// The dagger that a mutation stages, before its least commit timestamp is
/// computed.
pub open spec fn staged_dagger_spec(
    props: TxnPropsView,
    m: MutationView,
    secondaries: Option<Seq<Seq<u8>>>,
    status: DaggerStatus,
) -> DaggerView {
    let value = m.value();
    let base = DaggerView::plain(
        match m.dagger_type() {
            Some(t) => t,
            None => DaggerType::Dagger,
        },
        props.primary,
        props.start_ts,
        match status {
            DaggerStatus::Pessimistic { dagger_ttl, .. } => dagger_ttl,
            _ => props.dagger_ttl,
        },
        if value is Some && value.unwrap().len() <= SHORT_VALUE_MAX_LEN {
            value
        } else {
            None
        },
        props.for_update_ts(),
        props.solitontxn_size,
        match status {
            DaggerStatus::Pessimistic { min_commit_ts, .. } => min_commit_ts,
            _ => props.min_commit_ts,
        },
    );
    match secondaries {
        Some(keys) => DaggerView { use_async_commit: true, secondaries: keys, ..base },
        None => base,
    }
}

/// What writing the dagger of a mutation gives and stages. A value too long
/// for the dagger is stored beside it. For async commit and for a
/// one-phase commit the least commit timestamp is computed and the dagger
/// is kept in memory; a one-phase dagger is kept back from the changes.
/// Where the least commit timestamp is over the limit of the request, the
/// dagger is staged as a plain dagger all the same, and the error tells the
/// caller to go on in two phases.
pub open spec fn write_dagger_spec(
    txn: TxnView,
    props: TxnPropsView,
    m: MutationView,
    secondaries: Option<Seq<Seq<u8>>>,
    status: DaggerStatus,
) -> (Result<TimeStamp, ErrorView>, TxnView) {
    let key = m.key();
    let value = m.value();
    let d1 = staged_dagger_spec(props, m, secondaries, status);
    let t1 = if value is Some && value.unwrap().len() > SHORT_VALUE_MAX_LEN {
        txn.with_modify(
            ModifyView::Put(CfName::Default, append_ts_spec(key, props.start_ts@), value.unwrap()),
        )
    } else {
        txn
    };
    if d1.use_async_commit || props.try_one_pc() {
        let min_commit_ts = async_commit_ts_spec(
            txn.max_ts,
            props.start_ts,
            props.for_update_ts(),
            d1.min_commit_ts,
        );
        if props.max_commit_ts()@ != 0 && min_commit_ts@ > props.max_commit_ts()@ {
            (
                Err(
                    ErrorView::CommitTsTooLarge {
                        start_ts: props.start_ts,
                        min_commit_ts,
                        max_commit_ts: props.max_commit_ts(),
                    },
                ),
                t1.with_modify(
                    ModifyView::Put(
                        CfName::Dagger,
                        key,
                        (DaggerView {
                            use_async_commit: false,
                            secondaries: Seq::empty(),
                            ..d1
                        }).to_bytes(),
                    ),
                ),
            )
        } else {
            let d2 = DaggerView { min_commit_ts, ..d1 };
            let t2 = TxnView { guards: t1.guards.push(MemoryDaggerView { key, dagger: d2 }), ..t1 };
            (
                Ok(min_commit_ts),
                if props.try_one_pc() {
                    TxnView {
                        daggers_for_1pc: t2.daggers_for_1pc.push(
                            (key, d2, status is Pessimistic),
                        ),
                        ..t2
                    }
                } else {
                    t2.with_modify(ModifyView::Put(CfName::Dagger, key, d2.to_bytes()))
                },
            )
        }
    } else {
        (
            Ok(TimeStamp(0)),
            t1.with_modify(ModifyView::Put(CfName::Dagger, key, d1.to_bytes())),
        )
    }
}

/// What the prewrite of one mutation gives and stages: the least commit
/// timestamp of the key, or zero where the commit is in two phases, with
/// the old value where that is asked for. In order: a mutation that only
/// checks is refused in a pessimistic transaction; a mutation that asks
/// that the key not exist makes the node take in the start timestamp; the
/// dagger on the key is looked at; the committed versions are checked,
/// unless that is left out; a mutation that only checks ends here; the old
/// value is read; and the dagger is written.
#[verifier::opaque]
pub open spec fn prewrite_spec(
    txn: TxnView,
    snapshot: SnapshotView,
    term: u64,
    version: u64,
    reader_start_ts: TimeStamp,
    props: TxnPropsView,
    m: MutationView,
    secondaries: Option<Seq<Seq<u8>>>,
    is_pessimistic_dagger: bool,
) -> (Result<(TimeStamp, OldValueView), ErrorView>, TxnView) {
    if props.is_pessimistic() && m.should_not_write() {
        (Err(ErrorView::CheckNotExistsInPessimisticPrewrite), txn)
    } else {
        let t0 = if m.should_not_exists() {
            TxnView { max_ts: updated_max_ts(txn.max_ts, props.start_ts), ..txn }
        } else {
            txn
        };
        let writes = snapshot.store.write_cf;
        match dagger_status_spec(
            snapshot,
            term,
            version,
            reader_start_ts,
            props,
            m.key(),
            is_pessimistic_dagger,
        ) {
            Err(e) => (Err(e), t0),
            Ok(DaggerStatus::Daggered(ts)) => (Ok((ts, OldValueView::Unspecified)), t0),
            Ok(status) => {
                let skipped = skip_constraint_check_spec(props, is_pessimistic_dagger);
                match (if skipped {
                    Ok(None)
                } else {
                    newer_version_spec(
                        writes,
                        reader_start_ts,
                        props,
                        m.key(),
                        m.should_not_exists(),
                    )
                }) {
                    Err(e) => (Err(e), t0),
                    Ok(prev) => if m.should_not_write() {
                        (
                            Ok(
                                (
                                    if props.need_min_commit_ts() {
                                        TimeStamp::spec_max_of(
                                            props.min_commit_ts,
                                            props.start_ts.spec_next_or_max(),
                                        )
                                    } else {
                                        TimeStamp(0)
                                    },
                                    OldValueView::Unspecified,
                                ),
                            ),
                            TxnView { max_ts: updated_max_ts(t0.max_ts, props.start_ts), ..t0 },
                        )
                    } else {
                        match prewrite_old_value_spec(writes, props, m, skipped, prev) {
                            Err(e) => (Err(e), t0),
                            Ok(old_value) => {
                                let (res, t1) = write_dagger_spec(t0, props, m, secondaries, status);
                                (
                                    match res {
                                        Ok(ts) => Ok((ts, old_value)),
                                        Err(e) => Err(e),
                                    },
                                    t1,
                                )
                            },
                        }
                    },
                }
            },
        }
    }
}

/// The view of a read record with its commit timestamp.
pub open spec fn prev_view(r: Option<(Write, TimeStamp)>) -> Option<(WriteView, TimeStamp)> {
    match r {
        Some((w, ts)) => Some((w@, ts)),
        None => None,
    }
}

/// The view of an optional list of byte strings.
pub open spec fn opt_byte_strings_view(v: Option<Vec<Vec<u8>>>) -> Option<Seq<Seq<u8>>> {
    match v {
        Some(keys) => Some(byte_strings_view(keys)),
        None => None,
    }
}

fn raw_key_error_check(key: &Key) -> (r: Result<Vec<u8>, Error>)
    ensures
        match r {
            Ok(raw) => crate::codec::decode_bytes_spec(key@) == Some(raw@),
            Err(e) => crate::codec::decode_bytes_spec(key@) is None && e@ == ErrorView::Codec(
                CodecError::KeyPadding,
            ),
        },
{
    match key.to_cocauset() {
        Ok(raw) => Ok(raw),
        Err(e) => Err(Error::Codec(e)),
    }
}

fn check_dagger(props: &TransactionProperties, key: &Key, dagger: Dagger, is_pessimistic_dagger: bool) -> (r:
    Result<DaggerStatus, Error>)
    ensures
        match r {
            Ok(s) => check_dagger_spec(props@, key@, dagger@, is_pessimistic_dagger) == Ok::<
                DaggerStatus,
                ErrorView,
            >(s),
            Err(e) => check_dagger_spec(props@, key@, dagger@, is_pessimistic_dagger) == Err::<
                DaggerStatus,
                ErrorView,
            >(e@),
        },
{
    if dagger.ts.into_inner() != props.start_ts.into_inner() {
        let raw = match raw_key_error_check(key) {
            Ok(raw) => raw,
            Err(e) => {
                return Err(e);
            },
        };
        // A pessimistic dagger that is gone and replaced by another
        // transaction's is not to be waited for.
        if is_pessimistic_dagger {
            return Err(Error::PessimisticDaggerNotFound { start_ts: props.start_ts, key: raw });
        }
        let mut dagger = dagger;
        if props.is_pessimistic() {
            // The keys that a pessimistic transaction did not lock ahead
            // are guarded by those it did: the caller need not wait.
            dagger.ttl = 0;
        }
        return Err(Error::KeyIsDaggered { key: raw, dagger });
    }
    match dagger.dagger_type {
        DaggerType::Pessimistic => {
            if !props.is_pessimistic() {
                return match raw_key_error_check(key) {
                    Ok(raw) => Err(
                        Error::DaggerTypeNotMatch {
                            start_ts: props.start_ts,
                            key: raw,
                            pessimistic: true,
                        },
                    ),
                    Err(e) => Err(e),
                };
            }
            // The dagger is this transaction's own and is overwritten; its
            // time to live and least commit timestamp may have been pushed.
            Ok(
                DaggerStatus::Pessimistic {
                    dagger_ttl: if props.dagger_ttl >= dagger.ttl {
                        props.dagger_ttl
                    } else {
                        dagger.ttl
                    },
                    min_commit_ts: TimeStamp::max_of(props.min_commit_ts, dagger.min_commit_ts),
                },
            )
        },
        _ => {
            // The prewrite was done before.
            Ok(
                DaggerStatus::Daggered(
                    if dagger.use_async_commit {
                        dagger.min_commit_ts
                    } else {
                        TimeStamp::zero()
                    },
                ),
            )
        },
    }
}

fn amend_pessimistic_dagger(reader: &mut blackbraneReader, key: &Key) -> (r: Result<(), Error>)
    ensures
        final(reader).same_source(old(reader)),
        match r {
            Ok(()) => amend_pessimistic_dagger_spec(old(reader).writes(), old(reader).start_ts, key@)
                == Ok::<(), ErrorView>(()),
            Err(e) => amend_pessimistic_dagger_spec(old(reader).writes(), old(reader).start_ts, key@)
                == Err::<(), ErrorView>(e@),
        },
{
    match reader.seek_write(key, TimeStamp::max()) {
        Err(e) => Err(e),
        Ok(Some((commit_ts, _))) => {
            // The pessimistic dagger was at or after the start of the
            // transaction: a version committed before the start was
            // committed before the dagger, and the data has not changed.
            if commit_ts.into_inner() >= reader.start_ts.into_inner() {
                match raw_key_error_check(key) {
                    Ok(raw) => Err(
                        Error::PessimisticDaggerNotFound { start_ts: reader.start_ts, key: raw },
                    ),
                    Err(e) => Err(e),
                }
            } else {
                Ok(())
            }
        },
        Ok(None) => Ok(()),
    }
}

/// Checks that the key may be written by a mutation that asks that it not
/// exist, given its newest record `write`, committed at `write_commit_ts`.
pub fn check_data_constraint(
    reader: &mut blackbraneReader,
    should_not_exist: bool,
    write: &Write,
    write_commit_ts: TimeStamp,
    key: &Key,
) -> (r: Result<(), Error>)
    ensures
        final(reader).same_source(old(reader)),
        match r {
            Ok(()) => data_constraint_spec(
                old(reader).writes(),
                old(reader).start_ts,
                should_not_exist,
                write@,
                write_commit_ts,
                key@,
            ) == Ok::<(), ErrorView>(()),
            Err(e) => data_constraint_spec(
                old(reader).writes(),
                old(reader).start_ts,
                should_not_exist,
                write@,
                write_commit_ts,
                key@,
            ) == Err::<(), ErrorView>(e@),
        },
{
    let fenced = match write.gc_fence {
        Some(fence) => !fence.is_zero(),
        None => false,
    };
    let deleted = match write.write_type {
        WriteType::Delete => true,
        _ => false,
    };
    if !should_not_exist || deleted || fenced {
        return Ok(());
    }
    let exists = match write.write_type {
        WriteType::Put => true,
        _ => {
            if write_commit_ts.is_zero() {
                false
            } else {
                match reader.key_exist(key, write_commit_ts.prev()) {
                    Ok(b) => b,
                    Err(e) => {
                        return Err(e);
                    },
                }
            }
        },
    };
    if exists {
        match raw_key_error_check(key) {
            Ok(raw) => Err(Error::AlreadyExist { key: raw }),
            Err(e) => Err(e),
        }
    } else {
        Ok(())
    }
}

fn write_conflict_error(props: &TransactionProperties, key: &Key, write: &Write, commit_ts: TimeStamp) -> (r:
    Error)
    ensures
        r@ == write_conflict_spec(props@, key@, write@, commit_ts),
{
    match raw_key_error_check(key) {
        Ok(raw) => Error::WriteConflict {
            start_ts: props.start_ts,
            conflict_start_ts: write.start_ts,
            conflict_commit_ts: commit_ts,
            key: raw,
            primary: copy_bytes(props.primary.as_slice()),
        },
        Err(e) => e,
    }
}

fn check_for_newer_version(
    reader: &mut blackbraneReader,
    props: &TransactionProperties,
    key: &Key,
    should_not_exist: bool,
) -> (r: Result<Option<(Write, TimeStamp)>, Error>)
    ensures
        final(reader).same_source(old(reader)),
        match r {
            Ok(prev) => newer_version_spec(
                old(reader).writes(),
                old(reader).start_ts,
                props@,
                key@,
                should_not_exist,
            ) == Ok::<Option<(WriteView, TimeStamp)>, ErrorView>(prev_view(prev)),
            Err(e) => newer_version_spec(
                old(reader).writes(),
                old(reader).start_ts,
                props@,
                key@,
                should_not_exist,
            ) == Err::<Option<(WriteView, TimeStamp)>, ErrorView>(e@),
        },
{
    match reader.seek_write(key, TimeStamp::max()) {
        Err(e) => Err(e),
        Ok(None) => Ok(None),
        Ok(Some((commit_ts, write))) => {
            // A version committed after the transaction started must not
            // be overwritten.
            if commit_ts.into_inner() > props.start_ts.into_inner() {
                return Err(write_conflict_error(props, key, &write, commit_ts));
            }
            // A record at the start timestamp is in the way only if it
            // tells that the transaction was rolled back.
            let rolled_back = match write.write_type {
                WriteType::Rollback => true,
                _ => write.has_overlapped_rollback,
            };
            if commit_ts.into_inner() == props.start_ts.into_inner() && rolled_back {
                return Err(write_conflict_error(props, key, &write, commit_ts));
            }
            match check_data_constraint(reader, should_not_exist, &write, commit_ts, key) {
                Ok(()) => Ok(Some((write, commit_ts))),
                Err(e) => Err(e),
            }
        },
    }
}

fn skip_constraint_check(props: &TransactionProperties, is_pessimistic_dagger: bool) -> (r: bool)
    ensures
        r == skip_constraint_check_spec(props@, is_pessimistic_dagger),
{
    match props.kind {
        TransactionKind::Optimistic(skip) => skip,
        TransactionKind::Pessimistic(_) => is_pessimistic_dagger || !props.is_retry_request,
    }
}

fn write_dagger(
    txn: &mut EpaxosTxn,
    props: &TransactionProperties,
    key: Key,
    dagger_type: DaggerType,
    value: Option<Vec<u8>>,
    secondary_keys: &Option<Vec<Vec<u8>>>,
    status: DaggerStatus,
    Ghost(m): Ghost<MutationView>,
) -> (r: Result<TimeStamp, Error>)
    requires
        m.key() == key@,
        m.value() == opt_bytes_view(value),
        m.dagger_type() == Some(dagger_type),
    ensures
        match r {
            Ok(ts) => write_dagger_spec(
                old(txn)@,
                props@,
                m,
                opt_byte_strings_view(*secondary_keys),
                status,
            ) == (Ok::<TimeStamp, ErrorView>(ts), final(txn)@),
            Err(e) => write_dagger_spec(
                old(txn)@,
                props@,
                m,
                opt_byte_strings_view(*secondary_keys),
                status,
            ) == (Err::<TimeStamp, ErrorView>(e@), final(txn)@),
        },
{
    let try_one_pc = props.try_one_pc();
    let (dagger_ttl, min_commit_ts) = match status {
        DaggerStatus::Pessimistic { dagger_ttl, min_commit_ts } => (dagger_ttl, min_commit_ts),
        _ => (props.dagger_ttl, props.min_commit_ts),
    };
    let mut dagger = Dagger::new(
        dagger_type,
        copy_bytes(props.primary.as_slice()),
        props.start_ts,
        dagger_ttl,
        None,
        props.for_update_ts(),
        props.solitontxn_size,
        min_commit_ts,
    );
    if let Some(value) = value {
        if is_short_value(value.as_slice()) {
            dagger.short_value = Some(value);
        } else {
            txn.put_value(key.clone(), props.start_ts, value);
        }
    }
    if let Some(keys) = secondary_keys {
        dagger.use_async_commit = true;
        dagger.secondaries = copy_byte_strings(keys);
    }
    assert(dagger@ == staged_dagger_spec(props@, m, opt_byte_strings_view(*secondary_keys), status));
    if dagger.use_async_commit || try_one_pc {
        let max_ts = txn.concurrency_manager.max_ts();
        let computed = TimeStamp::max_of(
            TimeStamp::max_of(max_ts, props.start_ts),
            props.for_update_ts(),
        ).next_or_max();
        let min_commit_ts = TimeStamp::max_of(dagger.min_commit_ts, computed);
        let max_commit_ts = props.max_commit_ts();
        if !max_commit_ts.is_zero() && min_commit_ts.into_inner() > max_commit_ts.into_inner() {
            // Go on in two phases: the dagger is a plain one.
            dagger.use_async_commit = false;
            dagger.secondaries = Vec::new();
            assert(byte_strings_view(dagger.secondaries) =~= Seq::empty());
            txn.put_dagger(key, &dagger);
            return Err(
                Error::CommitTsTooLarge { start_ts: props.start_ts, min_commit_ts, max_commit_ts },
            );
        }
        dagger.min_commit_ts = min_commit_ts;
        let ghost before = txn@;
        let guard = MemoryDagger { key: key.clone(), dagger: dagger.clone() };
        let ghost gv = guard@;
        txn.guards.push(guard);
        assert(txn@.guards =~= before.guards.push(gv));
        if try_one_pc {
            let has_pessimistic_dagger = match status {
                DaggerStatus::Pessimistic { .. } => true,
                _ => false,
            };
            txn.put_daggers_for_1pc(key, dagger, has_pessimistic_dagger);
        } else {
            txn.put_dagger(key, &dagger);
        }
        Ok(min_commit_ts)
    } else {
        txn.put_dagger(key, &dagger);
        Ok(TimeStamp::zero())
    }
}

/// Prewrites one mutation for the reader's transaction: checks that the
/// transaction may lock the key, and stages the dagger. Gives the least
/// commit timestamp of the key, or zero where the commit is in two phases,
/// and the old value of the key where `props` asks for it.
pub fn prewrite(
    txn: &mut EpaxosTxn,
    reader: &mut blackbraneReader,
    props: &TransactionProperties,
    mutation: Mutation,
    secondary_keys: &Option<Vec<Vec<u8>>>,
    is_pessimistic_dagger: bool,
) -> (r: Result<(TimeStamp, OldValue), Error>)
    ensures
        final(reader).same_source(old(reader)),
        match r {
            Ok((ts, old_value)) => prewrite_spec(
                old(txn)@,
                old(reader).reader.snapshot(),
                old(reader).reader.term(),
                old(reader).reader.version(),
                old(reader).start_ts,
                props@,
                mutation@,
                opt_byte_strings_view(*secondary_keys),
                is_pessimistic_dagger,
            ) == (Ok::<(TimeStamp, OldValueView), ErrorView>((ts, old_value@)), final(txn)@),
            Err(e) => prewrite_spec(
                old(txn)@,
                old(reader).reader.snapshot(),
                old(reader).reader.term(),
                old(reader).reader.version(),
                old(reader).start_ts,
                props@,
                mutation@,
                opt_byte_strings_view(*secondary_keys),
                is_pessimistic_dagger,
            ) == (Err::<(TimeStamp, OldValueView), ErrorView>(e@), final(txn)@),
        },
{
    proof {
        reveal(prewrite_spec);
    }
    let should_not_write = mutation.should_not_write();
    if props.is_pessimistic() && should_not_write {
        return Err(Error::CheckNotExistsInPessimisticPrewrite);
    }
    let should_not_exist = mutation.should_not_exists();
    let mutation_type = mutation.mutation_type();
    let dagger_type = mutation.dagger_type();
    let ghost m = mutation@;
    let (key, value) = mutation.into_key_value();
    // An insert reads the key as of the start timestamp: the node must not
    // hand out an earlier commit timestamp after this.
    if should_not_exist {
        txn.concurrency_manager.update_max_ts(props.start_ts);
    }
    let found = match reader.load_dagger(&key) {
        Ok(d) => d,
        Err(e) => {
            return Err(e);
        },
    };
    let status = match found {
        Some(dagger) => match check_dagger(props, &key, dagger, is_pessimistic_dagger) {
            Ok(s) => s,
            Err(e) => {
                return Err(e);
            },
        },
        None => {
            if is_pessimistic_dagger {
                match amend_pessimistic_dagger(reader, &key) {
                    Ok(()) => {},
                    Err(e) => {
                        return Err(e);
                    },
                }
            }
            DaggerStatus::NoDagger
        },
    };
    if let DaggerStatus::Daggered(ts) = status {
        return Ok((ts, OldValue::Unspecified));
    }
    let skipped = skip_constraint_check(props, is_pessimistic_dagger);
    let prev = if !skipped {
        match check_for_newer_version(reader, props, &key, should_not_exist) {
            Ok(p) => p,
            Err(e) => {
                return Err(e);
            },
        }
    } else {
        None
    };
    if should_not_write {
        // The check is a read at the start timestamp.
        txn.concurrency_manager.update_max_ts(props.start_ts);
        let min_commit_ts = if props.need_min_commit_ts() {
            // Nothing is stored, so what the node has seen does not count.
            TimeStamp::max_of(props.min_commit_ts, props.start_ts.next_or_max())
        } else {
            TimeStamp::zero()
        };
        return Ok((min_commit_ts, OldValue::Unspecified));
    }
    let may_have_old_value = match mutation_type {
        MutationType::Put => true,
        MutationType::Delete => true,
        _ => false,
    };
    let old_value = if props.need_old_value && may_have_old_value {
        let prev_write = match prev {
            Some((w, _)) => Some(w),
            None => None,
        };
        match reader.get_old_value(&key, props.start_ts, !skipped, prev_write) {
            Ok(v) => v,
            Err(e) => {
                return Err(e);
            },
        }
    } else {
        OldValue::Unspecified
    };
    let dagger_type = dagger_type.unwrap();
    match write_dagger(txn, props, key, dagger_type, value, secondary_keys, status, Ghost(m)) {
        Ok(ts) => Ok((ts, old_value)),
        Err(e) => Err(e),
    }
}

} // verus!
