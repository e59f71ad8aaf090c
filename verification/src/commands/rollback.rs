//! The rollback of a transaction at a list of keys.

use vstd::prelude::*;
use crate::actions::{cleanup, cleanup_spec};
use crate::commands::{
    ProcessResult, ProcessResultView, ResponsePolicy, WriteContext, WriteData, WriteDataView,
    WriteResult, WriteResultView,
};
use crate::commands::prewrite::capped;
use crate::context::{Context, DiskFullOpt};
use crate::error::{Error, ErrorView};
use crate::key::Key;
use crate::kv::{Snapshot, SnapshotView};
use crate::reader::{blackbraneReader, keys_view};
use crate::timestamp::TimeStamp;
use crate::txn::{EpaxosTxn, ReleasedDaggers, ReleasedDaggersView, TxnView};
use crate::util::reversed;

verus! {

/// Rolls back, at the given keys, the transaction that started at
/// `start_ts`. It follows a prewrite of the keys that is known to have
/// failed.
#[derive(Debug, PartialEq, Eq)]
pub struct Rollback {
    pub keys: Vec<Key>,
    pub start_ts: TimeStamp,
    pub ctx: Context,
}

/// What a rollback holds.
pub struct RollbackView {
    pub keys: Seq<Seq<u8>>,
    pub start_ts: TimeStamp,
    pub ctx: Context,
}

impl View for Rollback {
    type V = RollbackView;

    open spec fn view(&self) -> RollbackView {
        RollbackView { keys: keys_view(self.keys@), start_ts: self.start_ts, ctx: self.ctx }
    }
}

/// The bytes of the keys of `s`.
pub open spec fn keys_size(s: Seq<Seq<u8>>) -> nat
    decreases s.len(),
{
    if s.len() == 0 {
        0
    } else {
        keys_size(s.drop_last()) + s.last().len()
    }
}

/// What the rollback of the keys from `i` on stages, added to `txn`, and
/// the daggers that it takes off, added to `released`. Each key is cleaned
/// up with no regard to the age of its dagger, and its rollback record is
/// not protected: the transaction is known to have failed, so that nobody
/// depends on the record. The first error ends the rollback.
pub open spec fn rollback_run(
    txn: TxnView,
    released: ReleasedDaggersView,
    cmd: RollbackView,
    snapshot: SnapshotView,
    i: int,
) -> Result<(TxnView, ReleasedDaggersView), ErrorView>
    decreases cmd.keys.len() - i,
{
    if i < 0 || i >= cmd.keys.len() {
        Ok((txn, released))
    } else {
        match cleanup_spec(
            txn,
            snapshot,
            cmd.ctx.term,
            cmd.ctx.version,
            cmd.start_ts,
            cmd.keys[i],
            TimeStamp(0),
            false,
        ) {
            Err(e) => Err(e),
            Ok((r, t)) => rollback_run(t, released.push(r), cmd, snapshot, i + 1),
        }
    }
}

/// What a rollback hands back: the batch that rolls back every key, to be
/// written even when the disk is almost full, and the daggers taken off,
/// for whose keys the waiting transactions are to be woken up.
pub open spec fn rollback_spec(cmd: RollbackView, snapshot: SnapshotView, max_ts: TimeStamp) -> Result<
    WriteResultView,
    ErrorView,
> {
    match rollback_run(
        TxnView {
            start_ts: cmd.start_ts,
            modifies: Seq::empty(),
            daggers_for_1pc: Seq::empty(),
            max_ts,
            guards: Seq::empty(),
        },
        ReleasedDaggersView {
            start_ts: cmd.start_ts,
            commit_ts: TimeStamp(0),
            keys: Seq::empty(),
            pessimistic: false,
        },
        cmd,
        snapshot,
        0,
    ) {
        Err(e) => Err(e),
        Ok((txn, released)) => Ok(
            WriteResultView {
                ctx: cmd.ctx,
                to_be_write: WriteDataView {
                    disk_full_opt: DiskFullOpt::AllowedOnAlmostFull,
                    ..WriteDataView::from_modifies(txn.modifies)
                },
                rows: cmd.keys.len() as usize,
                pr: ProcessResultView::Res,
                dagger_guards: Seq::empty(),
                response_policy: ResponsePolicy::OnApplied,
                released_daggers: Some(released),
            },
        ),
    }
}

impl Rollback {
    pub fn new(keys: Vec<Key>, start_ts: TimeStamp, ctx: Context) -> (r: Rollback)
        ensures
            r@ == (RollbackView { keys: keys_view(keys@), start_ts, ctx }),
    {
        Rollback { keys, start_ts, ctx }
    }

    /// The bytes of the keys; the greatest number that can be held where
    /// they are more.
    pub fn write_bytes(&self) -> (r: usize)
        ensures
            r == capped(keys_size(self@.keys)),
    {
        let ghost ks = keys_view(self.keys@);
        let mut bytes: usize = 0;
        let mut i: usize = 0;
        assert(ks.take(0) =~= Seq::empty());
        while i < self.keys.len()
            invariant
                i <= self.keys.len(),
                ks == keys_view(self.keys@),
                bytes == capped(keys_size(ks.take(i as int))),
            decreases self.keys.len() - i,
        {
            proof {
                assert(ks.take(i + 1).drop_last() =~= ks.take(i as int));
                assert(ks.take(i + 1).last() == self.keys@[i as int]@);
            }
            bytes = bytes.saturating_add(self.keys[i].len());
            i += 1;
        }
        assert(ks.take(ks.len() as int) =~= ks);
        bytes
    }

    /// Carries out the rollback on the snapshot `blackbrane`.
    #[verifier::loop_isolation(false)]
    pub fn process_write(self, blackbrane: Snapshot, context: &WriteContext) -> (r: Result<
        WriteResult,
        Error,
    >)
        ensures
            match r {
                Ok(result) => rollback_spec(self@, blackbrane@, context.concurrency_manager@) == Ok::<
                    WriteResultView,
                    ErrorView,
                >(result@),
                Err(e) => rollback_spec(self@, blackbrane@, context.concurrency_manager@) == Err::<
                    WriteResultView,
                    ErrorView,
                >(e@),
            },
    {
        let ghost cmd = self@;
        let mut txn = EpaxosTxn::new(self.start_ts, context.concurrency_manager);
        let mut reader = blackbraneReader::new_with_ctx(self.start_ts, blackbrane, &self.ctx);
        let rows = self.keys.len();
        let mut released_daggers = ReleasedDaggers::new(self.start_ts, TimeStamp::zero());
        let ghost begin = (txn@, released_daggers@);
        let mut stack = reversed(self.keys);
        let mut done: usize = 0;
        while stack.len() > 0
            invariant
                done + stack@.len() == rows,
                rows == cmd.keys.len(),
                forall|i: int| 0 <= i < stack@.len() ==> stack@[i]@ == cmd.keys[rows - 1 - i],
                txn.start_ts == reader.start_ts,
                reader.start_ts == cmd.start_ts,
                reader.reader.snapshot() == blackbrane@,
                reader.reader.term() == cmd.ctx.term,
                reader.reader.version() == cmd.ctx.version,
                rollback_run(txn@, released_daggers@, cmd, blackbrane@, done as int) == rollback_run(
                    begin.0,
                    begin.1,
                    cmd,
                    blackbrane@,
                    0,
                ),
            decreases stack.len(),
        {
            let k = stack.pop().unwrap();
            // The transaction is known to have failed: its rollback record
            // need not be protected.
            let released = match cleanup(&mut txn, &mut reader, k, TimeStamp::zero(), false) {
                Ok(r) => r,
                Err(e) => {
                    return Err(e);
                },
            };
            released_daggers.push(released);
            done += 1;
        }
        let mut write_data = WriteData::from_modifies(txn.into_modifies());
        write_data.set_allowed_on_disk_almost_full();
        let dagger_guards: Vec<crate::txn::MemoryDagger> = Vec::new();
        assert(crate::txn::guards_view(dagger_guards@) =~= Seq::empty());
        Ok(
            WriteResult {
                ctx: self.ctx,
                to_be_write: write_data,
                rows,
                pr: ProcessResult::Res,
                dagger_guards,
                response_policy: ResponsePolicy::OnApplied,
                released_daggers: Some(released_daggers),
            },
        )
    }
}

} // verus!
