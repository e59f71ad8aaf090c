//! The commit of a transaction at a list of keys, the second phase of a
//! commit in two phases.

use vstd::prelude::*;
use crate::actions::{commit, commit_spec, TxnStatus};
use crate::commands::{
    ProcessResult, ProcessResultView, ResponsePolicy, WriteContext, WriteData, WriteDataView,
    WriteResult, WriteResultView,
};
use crate::commands::prewrite::capped;
use crate::commands::rollback::keys_size;
use crate::context::{Context, DiskFullOpt};
use crate::error::{Error, ErrorView};
use crate::key::Key;
use crate::kv::{Snapshot, SnapshotView};
use crate::reader::{blackbraneReader, keys_view};
use crate::timestamp::TimeStamp;
use crate::txn::{EpaxosTxn, ReleasedDaggers, ReleasedDaggersView, TxnView};
use crate::util::reversed;

verus! {

/// Commits, at the given keys and at `commit_ts`, the transaction that
/// started at `dagger_ts`. It follows a prewrite of the keys.
#[derive(Debug, PartialEq, Eq)]
pub struct Commit {
    pub keys: Vec<Key>,
    /// The start timestamp of the transaction, which its daggers carry.
    pub dagger_ts: TimeStamp,
    pub commit_ts: TimeStamp,
    pub ctx: Context,
}

/// What a commit holds.
pub struct CommitView {
    pub keys: Seq<Seq<u8>>,
    pub dagger_ts: TimeStamp,
    pub commit_ts: TimeStamp,
    pub ctx: Context,
}

impl View for Commit {
    type V = CommitView;

    open spec fn view(&self) -> CommitView {
        CommitView {
            keys: keys_view(self.keys@),
            dagger_ts: self.dagger_ts,
            commit_ts: self.commit_ts,
            ctx: self.ctx,
        }
    }
}

/// What the commit of the keys from `i` on stages, added to `txn`, and the
/// daggers that it takes off, added to `released`. The first error ends
/// the commit.
pub open spec fn commit_run(
    txn: TxnView,
    released: ReleasedDaggersView,
    cmd: CommitView,
    snapshot: SnapshotView,
    i: int,
) -> Result<(TxnView, ReleasedDaggersView), ErrorView>
    decreases cmd.keys.len() - i,
{
    if i < 0 || i >= cmd.keys.len() {
        Ok((txn, released))
    } else {
        match commit_spec(
            txn,
            snapshot,
            cmd.ctx.term,
            cmd.ctx.version,
            cmd.dagger_ts,
            cmd.keys[i],
            cmd.commit_ts,
        ) {
            Err(e) => Err(e),
            Ok((r, t)) => commit_run(t, released.push(r), cmd, snapshot, i + 1),
        }
    }
}

/// What a commit hands back. A commit timestamp that is not after the
/// start timestamp is refused. Else every key is committed, and the batch
/// is to be written even when the disk is almost full; for the keys of the
/// daggers taken off, the waiting transactions are to be woken up.
pub open spec fn commit_command_spec(cmd: CommitView, snapshot: SnapshotView, max_ts: TimeStamp) -> Result<
    WriteResultView,
    ErrorView,
> {
    if cmd.commit_ts@ <= cmd.dagger_ts@ {
        Err(ErrorView::InvalidTxnTso { start_ts: cmd.dagger_ts, commit_ts: cmd.commit_ts })
    } else {
        match commit_run(
            TxnView {
                start_ts: cmd.dagger_ts,
                modifies: Seq::empty(),
                daggers_for_1pc: Seq::empty(),
                max_ts,
                guards: Seq::empty(),
            },
            ReleasedDaggersView {
                start_ts: cmd.dagger_ts,
                commit_ts: cmd.commit_ts,
                keys: Seq::empty(),
                pessimistic: false,
            },
            cmd,
            snapshot,
            0,
        ) {
            Err(e) => Err(e),
            Ok((txn, released)) => Ok(
                WriteResultView {
                    ctx: cmd.ctx,
                    to_be_write: WriteDataView {
                        disk_full_opt: DiskFullOpt::AllowedOnAlmostFull,
                        ..WriteDataView::from_modifies(txn.modifies)
                    },
                    rows: cmd.keys.len() as usize,
                    pr: ProcessResultView::TxnStatus {
                        txn_status: TxnStatus::Committed { commit_ts: cmd.commit_ts },
                    },
                    dagger_guards: Seq::empty(),
                    response_policy: ResponsePolicy::OnApplied,
                    released_daggers: Some(released),
                },
            ),
        }
    }
}

impl Commit {
    pub fn new(keys: Vec<Key>, dagger_ts: TimeStamp, commit_ts: TimeStamp, ctx: Context) -> (r:
        Commit)
        ensures
            r@ == (CommitView { keys: keys_view(keys@), dagger_ts, commit_ts, ctx }),
    {
        Commit { keys, dagger_ts, commit_ts, ctx }
    }

    /// The bytes of the keys; the greatest number that can be held where
    /// they are more.
    pub fn write_bytes(&self) -> (r: usize)
        ensures
            r == capped(keys_size(self@.keys)),
    {
        let ghost ks = keys_view(self.keys@);
        let mut bytes: usize = 0;
        let mut i: usize = 0;
        assert(ks.take(0) =~= Seq::empty());
        while i < self.keys.len()
            invariant
                i <= self.keys.len(),
                ks == keys_view(self.keys@),
                bytes == capped(keys_size(ks.take(i as int))),
            decreases self.keys.len() - i,
        {
            proof {
                assert(ks.take(i + 1).drop_last() =~= ks.take(i as int));
                assert(ks.take(i + 1).last() == self.keys@[i as int]@);
            }
            bytes = bytes.saturating_add(self.keys[i].len());
            i += 1;
        }
        assert(ks.take(ks.len() as int) =~= ks);
        bytes
    }

    /// Carries out the commit on the snapshot `blackbrane`.
    #[verifier::loop_isolation(false)]
    pub fn process_write(self, blackbrane: Snapshot, context: &WriteContext) -> (r: Result<
        WriteResult,
        Error,
    >)
        ensures
            match r {
                Ok(result) => commit_command_spec(self@, blackbrane@, context.concurrency_manager@)
                    == Ok::<WriteResultView, ErrorView>(result@),
                Err(e) => commit_command_spec(self@, blackbrane@, context.concurrency_manager@)
                    == Err::<WriteResultView, ErrorView>(e@),
            },
    {
        if self.commit_ts.into_inner() <= self.dagger_ts.into_inner() {
            return Err(
                Error::InvalidTxnTso { start_ts: self.dagger_ts, commit_ts: self.commit_ts },
            );
        }
        let ghost cmd = self@;
        let mut txn = EpaxosTxn::new(self.dagger_ts, context.concurrency_manager);
        let mut reader = blackbraneReader::new_with_ctx(self.dagger_ts, blackbrane, &self.ctx);
        let rows = self.keys.len();
        let mut released_daggers = ReleasedDaggers::new(self.dagger_ts, self.commit_ts);
        let ghost begin = (txn@, released_daggers@);
        let mut stack = reversed(self.keys);
        let mut done: usize = 0;
        while stack.len() > 0
            invariant
                done + stack@.len() == rows,
                rows == cmd.keys.len(),
                forall|i: int| 0 <= i < stack@.len() ==> stack@[i]@ == cmd.keys[rows - 1 - i],
                reader.start_ts == cmd.dagger_ts,
                reader.reader.snapshot() == blackbrane@,
                reader.reader.term() == cmd.ctx.term,
                reader.reader.version() == cmd.ctx.version,
                commit_run(txn@, released_daggers@, cmd, blackbrane@, done as int) == commit_run(
                    begin.0,
                    begin.1,
                    cmd,
                    blackbrane@,
                    0,
                ),
            decreases stack.len(),
        {
            let k = stack.pop().unwrap();
            let released = match commit(&mut txn, &mut reader, k, self.commit_ts) {
                Ok(r) => r,
                Err(e) => {
                    return Err(e);
                },
            };
            released_daggers.push(released);
            done += 1;
        }
        let mut write_data = WriteData::from_modifies(txn.into_modifies());
        write_data.set_allowed_on_disk_almost_full();
        let dagger_guards: Vec<crate::txn::MemoryDagger> = Vec::new();
        assert(crate::txn::guards_view(dagger_guards@) =~= Seq::empty());
        Ok(
            WriteResult {
                ctx: self.ctx,
                to_be_write: write_data,
                rows,
                pr: ProcessResult::TxnStatus {
                    txn_status: TxnStatus::Committed { commit_ts: self.commit_ts },
                },
                dagger_guards,
                response_policy: ResponsePolicy::OnApplied,
                released_daggers: Some(released_daggers),
            },
        )
    }
}

} // verus!
