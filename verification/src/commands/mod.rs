//! The commands of the transaction layer and what they hand back.

use vstd::prelude::*;
use crate::actions::TxnStatus;
use crate::context::{Context, DiskFullOpt, ExtraOp};
use crate::dagger::{Dagger, DaggerView};
use crate::error::{Error, ErrorView};
use crate::key::Key;
use crate::kv::{modifies_view, Modify, ModifyView};
use crate::mutation::{MutationType, OldValue, OldValueView};
use crate::timestamp::TimeStamp;
use crate::txn::{
    guards_view, ConcurrencyManager, MemoryDagger, MemoryDaggerView, ReleasedDaggers,
    ReleasedDaggersView,
};
use crate::write::{Write, WriteView};

pub mod cleanup;
pub mod commit;
pub mod epaxos_by_start_ts;
pub mod prewrite;
pub mod rollback;

verus! {

/// When the caller may be told of the outcome of a write.
#[derive(Clone, Copy, Debug, PartialEq, Eq, Structural)]
pub enum ResponsePolicy {
    /// Once the changes are applied to the store.
    OnApplied,
    /// As soon as the changes are sure to be applied.
    OnCommitted,
}

/// What a write command is given beside the snapshot.
#[derive(Clone, Copy, Debug, PartialEq, Eq, Structural)]
pub struct WriteContext {
    pub concurrency_manager: ConcurrencyManager,
    pub extra_op: ExtraOp,
    /// Whether the configuration lets a prewrite answer before its changes
    /// are applied.
    pub async_apply_prewrite: bool,
}

/// The old values that a command has read, each under the version of its
/// key at the start timestamp of the transaction. A key has one entry.
#[derive(Debug, PartialEq, Eq)]
pub struct OldValues {
    entries: Vec<(Key, OldValue, Option<MutationType>)>,
}

/// What a list of old values holds.
pub type OldValuesView = Seq<(Seq<u8>, OldValueView, Option<MutationType>)>;

/// The index of the first entry from `i` on with the key `k`; the length
/// where there is none.
pub open spec fn old_value_index(s: OldValuesView, k: Seq<u8>, i: int) -> int
    decreases s.len() - i,
{
    if i < 0 || i >= s.len() {
        s.len() as int
    } else if s[i].0 == k {
        i
    } else {
        old_value_index(s, k, i + 1)
    }
}

/// The old values after one was put in for `k`, in place of the one that
/// was there.
pub open spec fn old_values_insert(
    s: OldValuesView,
    k: Seq<u8>,
    v: OldValueView,
    t: Option<MutationType>,
) -> OldValuesView {
    let i = old_value_index(s, k, 0);
    if i < s.len() {
        s.update(i, (k, v, t))
    } else {
        s.push((k, v, t))
    }
}

impl View for OldValues {
    type V = OldValuesView;

    closed spec fn view(&self) -> OldValuesView {
        Seq::new(self.entries@.len(), |i: int| (self.entries@[i].0@, self.entries@[i].1@, self.entries@[i].2))
    }
}

impl OldValues {
    /// No old values.
    pub fn new() -> (r: OldValues)
        ensures
            r@ == Seq::<(Seq<u8>, OldValueView, Option<MutationType>)>::empty(),
    {
        let r = OldValues { entries: Vec::new() };
        assert(r@ =~= Seq::empty());
        r
    }

    /// The number of keys with an old value.
    pub fn len(&self) -> (r: usize)
        ensures
            r == self@.len(),
    {
        self.entries.len()
    }

    /// Puts in the old value of `key`, in place of the one that was there.
    pub fn insert(&mut self, key: Key, value: OldValue, mutation_type: Option<MutationType>)
        ensures
            final(self)@ == old_values_insert(old(self)@, key@, value@, mutation_type),
    {
        let mut i: usize = 0;
        let mut found = false;
        while i < self.entries.len() && !found
            invariant
                i <= self.entries.len(),
                self.entries == old(self).entries,
                found ==> i < self.entries.len() && self@[i as int].0 == key@,
                old_value_index(self@, key@, i as int) == old_value_index(self@, key@, 0),
            decreases self.entries.len() - i, if found { 0int } else { 1int },
        {
            if self.entries[i].0.same(&key) {
                found = true;
            } else {
                i += 1;
            }
        }
        let ghost item = (key@, value@, mutation_type);
        if found {
            self.entries[i] = (key, value, mutation_type);
            assert(self@ =~= old(self)@.update(i as int, item));
        } else {
            self.entries.push((key, value, mutation_type));
            assert(self@ =~= old(self)@.push(item));
        }
    }

    /// The old value of `key`, where one was put in.
    pub fn get(&self, key: &Key) -> (r: Option<&OldValue>)
        ensures
            match r {
                Some(v) => old_value_index(self@, key@, 0) < self@.len() && self@[old_value_index(
                    self@,
                    key@,
                    0,
                )].1 == v@,
                None => old_value_index(self@, key@, 0) == self@.len(),
            },
    {
        let mut i: usize = 0;
        while i < self.entries.len()
            invariant
                i <= self.entries.len(),
                old_value_index(self@, key@, i as int) == old_value_index(self@, key@, 0),
            decreases self.entries.len() - i,
        {
            if self.entries[i].0.same(key) {
                return Some(&self.entries[i].1);
            }
            i += 1;
        }
        None
    }
}

/// What comes along with the changes of a transaction.
#[derive(Debug, PartialEq, Eq)]
pub struct TxnExtra {
    pub old_values: OldValues,
    /// Whether the transaction was committed in one phase.
    pub one_pc: bool,
}

/// What the extra of a transaction holds.
pub struct TxnExtraView {
    pub old_values: OldValuesView,
    pub one_pc: bool,
}

impl View for TxnExtra {
    type V = TxnExtraView;

    open spec fn view(&self) -> TxnExtraView {
        TxnExtraView { old_values: self.old_values@, one_pc: self.one_pc }
    }
}

/// The batch of changes that a command wants written, as a whole or not at
/// all.
#[derive(Debug, PartialEq, Eq)]
pub struct WriteData {
    pub modifies: Vec<Modify>,
    pub extra: TxnExtra,
    pub disk_full_opt: DiskFullOpt,
}

/// What a batch of changes holds.
pub struct WriteDataView {
    pub modifies: Seq<ModifyView>,
    pub extra: TxnExtraView,
    pub disk_full_opt: DiskFullOpt,
}

impl WriteDataView {
    /// A batch of the given changes with nothing along.
    pub open spec fn from_modifies(modifies: Seq<ModifyView>) -> WriteDataView {
        WriteDataView {
            modifies,
            extra: TxnExtraView { old_values: Seq::empty(), one_pc: false },
            disk_full_opt: DiskFullOpt::NotAllowedOnFull,
        }
    }
}

impl View for WriteData {
    type V = WriteDataView;

    open spec fn view(&self) -> WriteDataView {
        WriteDataView {
            modifies: modifies_view(self.modifies@),
            extra: self.extra@,
            disk_full_opt: self.disk_full_opt,
        }
    }
}

impl WriteData {
    /// A batch of the given changes with the given extra.
    pub fn new(modifies: Vec<Modify>, extra: TxnExtra) -> (r: WriteData)
        ensures
            r@ == (WriteDataView {
                modifies: modifies_view(modifies@),
                extra: extra@,
                disk_full_opt: DiskFullOpt::NotAllowedOnFull,
            }),
    {
        WriteData { modifies, extra, disk_full_opt: DiskFullOpt::NotAllowedOnFull }
    }

    /// A batch of the given changes with nothing along.
    pub fn from_modifies(modifies: Vec<Modify>) -> (r: WriteData)
        ensures
            r@ == WriteDataView::from_modifies(modifies_view(modifies@)),
    {
        WriteData {
            modifies,
            extra: TxnExtra { old_values: OldValues::new(), one_pc: false },
            disk_full_opt: DiskFullOpt::NotAllowedOnFull,
        }
    }

    /// An empty batch.
    pub fn default() -> (r: WriteData)
        ensures
            r@ == WriteDataView::from_modifies(Seq::empty()),
    {
        let modifies: Vec<Modify> = Vec::new();
        assert(modifies_view(modifies@) =~= Seq::empty());
        WriteData::from_modifies(modifies)
    }

    pub fn set_disk_full_opt(&mut self, level: DiskFullOpt)
        ensures
            final(self)@ == (WriteDataView { disk_full_opt: level, ..old(self)@ }),
    {
        self.disk_full_opt = level;
    }

    /// Lets the batch through while the disk is almost full.
    pub fn set_allowed_on_disk_almost_full(&mut self)
        ensures
            final(self)@ == (WriteDataView {
                disk_full_opt: DiskFullOpt::AllowedOnAlmostFull,
                ..old(self)@
            }),
    {
        self.disk_full_opt = DiskFullOpt::AllowedOnAlmostFull;
    }
}

/// What a prewrite tells its caller.
#[derive(Debug, PartialEq, Eq)]
pub struct PrewriteResult {
    /// For each key that another transaction holds a dagger on, the error
    /// that tells of it.
    pub daggers: Vec<Error>,
    /// The least commit timestamp of an async-commit transaction; zero for
    /// any other.
    pub min_commit_ts: TimeStamp,
    /// The commit timestamp of a transaction committed in one phase; zero
    /// for any other.
    pub one_pc_commit_ts: TimeStamp,
}

/// What the result of a prewrite holds.
pub struct PrewriteResultView {
    pub daggers: Seq<ErrorView>,
    pub min_commit_ts: TimeStamp,
    pub one_pc_commit_ts: TimeStamp,
}

/// What a list of errors holds.
pub open spec fn errors_view(v: Seq<Error>) -> Seq<ErrorView> {
    Seq::new(v.len(), |i: int| v[i]@)
}

impl View for PrewriteResult {
    type V = PrewriteResultView;

    open spec fn view(&self) -> PrewriteResultView {
        PrewriteResultView {
            daggers: errors_view(self.daggers@),
            min_commit_ts: self.min_commit_ts,
            one_pc_commit_ts: self.one_pc_commit_ts,
        }
    }
}

/// All that is stored for one key.
#[derive(Debug, PartialEq, Eq)]
pub struct EpaxosInfo {
    /// The dagger on the key.
    pub dagger: Option<Dagger>,
    /// The write records of the key with their commit timestamps, the
    /// latest first.
    pub writes: Vec<(TimeStamp, Write)>,
    /// The long values of the key with their start timestamps, the latest
    /// first.
    pub values: Vec<(TimeStamp, Vec<u8>)>,
}

/// What the information on a key holds.
pub struct EpaxosInfoView {
    pub dagger: Option<DaggerView>,
    pub writes: Seq<(TimeStamp, WriteView)>,
    pub values: Seq<(TimeStamp, Seq<u8>)>,
}

/// What a list of write records with their commit timestamps holds.
pub open spec fn stamped_writes_view(v: Seq<(TimeStamp, Write)>) -> Seq<(TimeStamp, WriteView)> {
    Seq::new(v.len(), |i: int| (v[i].0, v[i].1@))
}

impl View for EpaxosInfo {
    type V = EpaxosInfoView;

    open spec fn view(&self) -> EpaxosInfoView {
        EpaxosInfoView {
            dagger: crate::reader::opt_dagger_view(self.dagger),
            writes: stamped_writes_view(self.writes@),
            values: crate::reader::stamped_values_view(self.values@),
        }
    }
}

/// What a command has found out.
#[derive(Debug, PartialEq, Eq)]
pub enum ProcessResult {
    /// Nothing to tell but that the command went through.
    Res,
    /// How far the transaction has got.
    TxnStatus { txn_status: TxnStatus },
    PrewriteResult { result: PrewriteResult },
    /// The first key written by a transaction, with all that is stored for
    /// the key.
    EpaxoCausetartTs { epaxos: Option<(Key, EpaxosInfo)> },
}

/// What the finding of a command holds.
pub enum ProcessResultView {
    Res,
    TxnStatus { txn_status: TxnStatus },
    PrewriteResult { result: PrewriteResultView },
    EpaxoCausetartTs { epaxos: Option<(Seq<u8>, EpaxosInfoView)> },
}

impl View for ProcessResult {
    type V = ProcessResultView;

    open spec fn view(&self) -> ProcessResultView {
        match *self {
            ProcessResult::Res => ProcessResultView::Res,
            ProcessResult::TxnStatus { txn_status } => ProcessResultView::TxnStatus { txn_status },
            ProcessResult::PrewriteResult { result } => ProcessResultView::PrewriteResult {
                result: result@,
            },
            ProcessResult::EpaxoCausetartTs { epaxos } => ProcessResultView::EpaxoCausetartTs {
                epaxos: match epaxos {
                    Some((k, info)) => Some((k@, info@)),
                    None => None,
                },
            },
        }
    }
}

/// What a write command hands back: the batch to write and what to tell
/// the caller once it is written.
#[derive(Debug, PartialEq, Eq)]
pub struct WriteResult {
    pub ctx: Context,
    pub to_be_write: WriteData,
    /// The number of keys that the command was about.
    pub rows: usize,
    pub pr: ProcessResult,
    /// The daggers to keep in memory until the batch is written.
    pub dagger_guards: Vec<MemoryDagger>,
    pub response_policy: ResponsePolicy,
    /// The daggers that the command takes off, for whose keys the waiting
    /// transactions are to be woken up; none where the command wakes up
    /// nobody.
    pub released_daggers: Option<ReleasedDaggers>,
}

/// What the result of a write command holds.
pub struct WriteResultView {
    pub ctx: Context,
    pub to_be_write: WriteDataView,
    pub rows: usize,
    pub pr: ProcessResultView,
    pub dagger_guards: Seq<MemoryDaggerView>,
    pub response_policy: ResponsePolicy,
    pub released_daggers: Option<ReleasedDaggersView>,
}

impl View for WriteResult {
    type V = WriteResultView;

    open spec fn view(&self) -> WriteResultView {
        WriteResultView {
            ctx: self.ctx,
            to_be_write: self.to_be_write@,
            rows: self.rows,
            pr: self.pr@,
            dagger_guards: guards_view(self.dagger_guards@),
            response_policy: self.response_policy,
            released_daggers: match self.released_daggers {
                Some(r) => Some(r@),
                None => None,
            },
        }
    }
}

} // verus!
