//! The search for the first key that a transaction has written, with all
//! that is stored for the key.

use vstd::prelude::*;
use crate::commands::{
    stamped_writes_view, EpaxosInfo, EpaxosInfoView, ProcessResult, ProcessResultView,
};
use crate::context::Context;

use crate::error::{Error, ErrorView};
use crate::key::Key;
use crate::kv::{seek_spec, Entries, SentinelSearchMode, Snapshot, SnapshotView};
use crate::reader::{
    load_dagger_spec, scan_values_from, seek_ts_from, seek_write_spec, EpaxosReader,
};
use crate::timestamp::TimeStamp;
use crate::write::{Write, WriteView};

verus! {

/// Looks for the first key, in the order of the store, that was written by
/// the transaction that started at `start_ts`.
#[derive(Clone, Copy, Debug, PartialEq, Eq, Structural)]
pub struct EpaxosByStartTs {
    pub start_ts: TimeStamp,
    pub ctx: Context,
}

/// The write records of `key` at or before `ts`, the latest first, added
/// to `acc`.
pub open spec fn all_writes_spec(
    writes: Entries,
    key: Seq<u8>,
    ts: TimeStamp,
    acc: Seq<(TimeStamp, WriteView)>,
) -> Result<Seq<(TimeStamp, WriteView)>, ErrorView>
    decreases ts@,
{
    match seek_write_spec(writes, key, ts) {
        Err(e) => Err(e),
        Ok(None) => Ok(acc),
        Ok(Some((commit_ts, write))) => if commit_ts@ == 0 || commit_ts@ > ts@ {
            Ok(acc.push((commit_ts, write)))
        } else {
            all_writes_spec(
                writes,
                key,
                TimeStamp((commit_ts@ - 1) as u64),
                acc.push((commit_ts, write)),
            )
        },
    }
}

/// All that is stored for `key`: the dagger on it, its write records at or
/// before `ts`, and its long values.
pub open spec fn epaxos_infos_spec(
    snapshot: SnapshotView,
    term: u64,
    version: u64,
    key: Seq<u8>,
    ts: TimeStamp,
) -> Result<EpaxosInfoView, ErrorView> {
    match load_dagger_spec(snapshot, term, version, key) {
        Err(e) => Err(e),
        Ok(dagger) => match all_writes_spec(snapshot.store.write_cf, key, ts, Seq::empty()) {
            Err(e) => Err(e),
            Ok(writes) => match scan_values_from(
                snapshot.store.default_cf,
                key,
                seek_spec(snapshot.store.default_cf, key),
                Seq::empty(),
            ) {
                Err(e) => Err(e),
                Ok(values) => Ok(EpaxosInfoView { dagger, writes, values }),
            },
        },
    }
}

/// What the search of the command finds.
pub open spec fn epaxos_by_start_ts_spec(cmd: EpaxosByStartTs, snapshot: SnapshotView) -> Result<
    ProcessResultView,
    ErrorView,
> {
    match seek_ts_from(snapshot.store.write_cf, cmd.start_ts, 0) {
        Err(e) => Err(e),
        Ok(None) => Ok(ProcessResultView::EpaxoCausetartTs { epaxos: None }),
        Ok(Some(key)) => match epaxos_infos_spec(
            snapshot,
            cmd.ctx.term,
            cmd.ctx.version,
            key,
            TimeStamp(u64::MAX),
        ) {
            Err(e) => Err(e),
            Ok(info) => Ok(ProcessResultView::EpaxoCausetartTs { epaxos: Some((key, info)) }),
        },
    }
}

/// Gathers all that is stored for `key`: the dagger on it, its write
/// records at or before `ts`, the latest first, and its long values.
#[verifier::loop_isolation(false)]
pub fn find_epaxos_infos_by_key(reader: &mut EpaxosReader, key: &Key, ts: TimeStamp) -> (r: Result<
    EpaxosInfo,
    Error,
>)
    ensures
        final(reader).same_source(old(reader)),
        match r {
            Ok(info) => epaxos_infos_spec(
                old(reader).snapshot(),
                old(reader).term(),
                old(reader).version(),
                key@,
                ts,
            ) == Ok::<EpaxosInfoView, ErrorView>(info@),
            Err(e) => epaxos_infos_spec(
                old(reader).snapshot(),
                old(reader).term(),
                old(reader).version(),
                key@,
                ts,
            ) == Err::<EpaxosInfoView, ErrorView>(e@),
        },
{
    let ghost writes_cf = reader.snapshot().store.write_cf;
    let dagger = match reader.load_dagger(key) {
        Ok(d) => d,
        Err(e) => {
            return Err(e);
        },
    };
    let mut writes: Vec<(TimeStamp, Write)> = Vec::new();
    assert(stamped_writes_view(writes@) =~= Seq::empty());
    let mut seek_ts = ts;
    loop
        invariant
            reader.same_source(old(reader)),
            all_writes_spec(writes_cf, key@, seek_ts, stamped_writes_view(writes@))
                == all_writes_spec(writes_cf, key@, ts, Seq::empty()),
        decreases seek_ts@,
    {
        match reader.seek_write(key, seek_ts) {
            Err(e) => {
                return Err(e);
            },
            Ok(None) => {
                break ;
            },
            Ok(Some((commit_ts, write))) => {
                let ghost before = stamped_writes_view(writes@);
                let ghost item = (commit_ts, write@);
                writes.push((commit_ts, write));
                assert(stamped_writes_view(writes@) =~= before.push(item));
                if commit_ts.is_zero() {
                    break ;
                }
                seek_ts = commit_ts.prev();
            },
        }
    }
    let values = match reader.mutant_search_values_in_default(key) {
        Ok(v) => v,
        Err(e) => {
            return Err(e);
        },
    };
    Ok(EpaxosInfo { dagger, writes, values })
}

impl EpaxosByStartTs {
    pub fn new(start_ts: TimeStamp, ctx: Context) -> (r: EpaxosByStartTs)
        ensures
            r == (EpaxosByStartTs { start_ts, ctx }),
    {
        EpaxosByStartTs { start_ts, ctx }
    }

    /// The command writes nothing.
    pub fn write_bytes(&self) -> (r: usize)
        ensures
            r == 0,
    {
        0
    }

    /// Carries out the search on the snapshot `blackbrane`.
    pub fn process_read(self, blackbrane: Snapshot) -> (r: Result<ProcessResult, Error>)
        ensures
            match r {
                Ok(pr) => epaxos_by_start_ts_spec(self, blackbrane@) == Ok::<
                    ProcessResultView,
                    ErrorView,
                >(pr@),
                Err(e) => epaxos_by_start_ts_spec(self, blackbrane@) == Err::<
                    ProcessResultView,
                    ErrorView,
                >(e@),
            },
    {
        let mut reader = EpaxosReader::new_with_ctx(
            blackbrane,
            Some(SentinelSearchMode::Forward),
            &self.ctx,
        );
        match reader.seek_ts(self.start_ts) {
            Err(e) => Err(e),
            Ok(Some(key)) => {
                match find_epaxos_infos_by_key(&mut reader, &key, TimeStamp::max()) {
                    Ok(info) => Ok(ProcessResult::EpaxoCausetartTs { epaxos: Some((key, info)) }),
                    Err(e) => Err(e),
                }
            },
            Ok(None) => Ok(ProcessResult::EpaxoCausetartTs { epaxos: None }),
        }
    }
}

} // verus!
