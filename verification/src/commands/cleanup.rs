//! The cleaning up of one key after a transaction that may be dead.

use vstd::prelude::*;
use crate::actions::{cleanup, cleanup_spec};
use crate::commands::{
    ProcessResult, ProcessResultView, ResponsePolicy, WriteContext, WriteData, WriteDataView,
    WriteResult, WriteResultView,
};
use crate::context::{Context, DiskFullOpt};
use crate::error::{Error, ErrorView};
use crate::key::Key;
use crate::kv::{Snapshot, SnapshotView};
use crate::reader::blackbraneReader;
use crate::timestamp::TimeStamp;
use crate::txn::{updated_max_ts, EpaxosTxn, ReleasedDaggers, ReleasedDaggersView, TxnView};

verus! {

/// Rolls back, at one key, the transaction that started at `start_ts`, if
/// its dagger on the key has outlived its time at `current_ts`. It is sent
/// by a transaction that found the dagger in its way.
#[derive(Debug, PartialEq, Eq)]
pub struct Cleanup {
    pub key: Key,
    pub start_ts: TimeStamp,
    /// The time at which the dagger is held to its time to live; zero rolls
    /// back whatever its age.
    pub current_ts: TimeStamp,
    pub ctx: Context,
}

/// What a cleanup holds.
pub struct CleanupView {
    pub key: Seq<u8>,
    pub start_ts: TimeStamp,
    pub current_ts: TimeStamp,
    pub ctx: Context,
}

impl View for Cleanup {
    type V = CleanupView;

    open spec fn view(&self) -> CleanupView {
        CleanupView {
            key: self.key@,
            start_ts: self.start_ts,
            current_ts: self.current_ts,
            ctx: self.ctx,
        }
    }
}

/// What a cleanup hands back, and the greatest timestamp that the node has
/// seen after it. The node takes in the start timestamp, so that no commit
/// can be given a timestamp at which it would overwrite the rollback
/// record; the record is protected, for the transaction may yet try to
/// commit.
pub open spec fn cleanup_command_spec(cmd: CleanupView, snapshot: SnapshotView, max_ts: TimeStamp) -> (
    Result<WriteResultView, ErrorView>,
    TimeStamp,
) {
    let seen = updated_max_ts(max_ts, cmd.start_ts);
    (
        match cleanup_spec(
            TxnView {
                start_ts: cmd.start_ts,
                modifies: Seq::empty(),
                daggers_for_1pc: Seq::empty(),
                max_ts: seen,
                guards: Seq::empty(),
            },
            snapshot,
            cmd.ctx.term,
            cmd.ctx.version,
            cmd.start_ts,
            cmd.key,
            cmd.current_ts,
            true,
        ) {
            Err(e) => Err(e),
            Ok((released, txn)) => Ok(
                WriteResultView {
                    ctx: cmd.ctx,
                    to_be_write: WriteDataView {
                        disk_full_opt: DiskFullOpt::AllowedOnAlmostFull,
                        ..WriteDataView::from_modifies(txn.modifies)
                    },
                    rows: 1,
                    pr: ProcessResultView::Res,
                    dagger_guards: Seq::empty(),
                    response_policy: ResponsePolicy::OnApplied,
                    released_daggers: Some(
                        (ReleasedDaggersView {
                            start_ts: cmd.start_ts,
                            commit_ts: TimeStamp(0),
                            keys: Seq::empty(),
                            pessimistic: false,
                        }).push(released),
                    ),
                },
            ),
        },
        seen,
    )
}

impl Cleanup {
    pub fn new(key: Key, start_ts: TimeStamp, current_ts: TimeStamp, ctx: Context) -> (r: Cleanup)
        ensures
            r@ == (CleanupView { key: key@, start_ts, current_ts, ctx }),
    {
        Cleanup { key, start_ts, current_ts, ctx }
    }

    /// The bytes of the key.
    pub fn write_bytes(&self) -> (r: usize)
        ensures
            r == self@.key.len(),
    {
        self.key.len()
    }

    /// Carries out the cleanup on the snapshot `blackbrane`.
    pub fn process_write(self, blackbrane: Snapshot, context: &mut WriteContext) -> (r: Result<
        WriteResult,
        Error,
    >)
        ensures
            final(context).extra_op == old(context).extra_op,
            final(context).async_apply_prewrite == old(context).async_apply_prewrite,
            match r {
                Ok(result) => cleanup_command_spec(
                    self@,
                    blackbrane@,
                    old(context).concurrency_manager@,
                ) == (
                    Ok::<WriteResultView, ErrorView>(result@),
                    final(context).concurrency_manager@,
                ),
                Err(e) => cleanup_command_spec(
                    self@,
                    blackbrane@,
                    old(context).concurrency_manager@,
                ) == (Err::<WriteResultView, ErrorView>(e@), final(context).concurrency_manager@),
            },
    {
        // A commit must not overwrite the rollback record.
        context.concurrency_manager.update_max_ts(self.start_ts);
        let mut txn = EpaxosTxn::new(self.start_ts, context.concurrency_manager);
        let mut reader = blackbraneReader::new_with_ctx(self.start_ts, blackbrane, &self.ctx);
        let mut released_daggers = ReleasedDaggers::new(self.start_ts, TimeStamp::zero());
        let released = match cleanup(&mut txn, &mut reader, self.key, self.current_ts, true) {
            Ok(r) => r,
            Err(e) => {
                return Err(e);
            },
        };
        released_daggers.push(released);
        let mut write_data = WriteData::from_modifies(txn.into_modifies());
        write_data.set_allowed_on_disk_almost_full();
        let dagger_guards: Vec<crate::txn::MemoryDagger> = Vec::new();
        assert(crate::txn::guards_view(dagger_guards@) =~= Seq::empty());
        Ok(
            WriteResult {
                ctx: self.ctx,
                to_be_write: write_data,
                rows: 1,
                pr: ProcessResult::Res,
                dagger_guards,
                response_policy: ResponsePolicy::OnApplied,
                released_daggers: Some(released_daggers),
            },
        )
    }
}

} // verus!
