//! The staging area of one transaction: the changes that a command has
//! decided on, kept until they are written to the store as one batch.

use vstd::prelude::*;
use crate::dagger::{Dagger, DaggerView, PessimisticDagger};
use crate::key::{append_ts_spec, Key};
use crate::kv::{modifies_view, CfName, Modify, ModifyView};
use crate::timestamp::TimeStamp;

verus! {

/// What a node knows of the transactions that run on it: the greatest
/// timestamp that any of them has read or written at.
#[derive(Clone, Copy, Debug, PartialEq, Eq, Structural)]
pub struct ConcurrencyManager {
    max_ts: TimeStamp,
}

impl View for ConcurrencyManager {
    type V = TimeStamp;

    closed spec fn view(&self) -> TimeStamp {
        self.max_ts
    }
}

/// The greatest timestamp known after `new_ts` was seen: the greater of the
/// two, but the greatest timestamp of all is never taken in.
pub open spec fn updated_max_ts(max_ts: TimeStamp, new_ts: TimeStamp) -> TimeStamp {
    if new_ts@ != u64::MAX && new_ts@ > max_ts@ {
        new_ts
    } else {
        max_ts
    }
}

impl ConcurrencyManager {
    /// A manager that has seen `latest_ts`.
    pub fn new(latest_ts: TimeStamp) -> (r: ConcurrencyManager)
        ensures
            r@ == latest_ts,
    {
        ConcurrencyManager { max_ts: latest_ts }
    }

    /// The greatest timestamp seen.
    pub fn max_ts(&self) -> (r: TimeStamp)
        ensures
            r == self@,
    {
        self.max_ts
    }

    /// Takes in `new_ts`: the greatest timestamp seen never goes back.
    pub fn update_max_ts(&mut self, new_ts: TimeStamp)
        ensures
            final(self)@ == updated_max_ts(old(self)@, new_ts),
    {
        if !new_ts.is_max() && new_ts.into_inner() > self.max_ts.into_inner() {
            self.max_ts = new_ts;
        }
    }
}

/// A dagger that is kept in memory from the moment its least commit
/// timestamp is computed until the dagger is in the store, so that no read
/// at a later timestamp misses it.
#[derive(Debug, PartialEq, Eq)]
pub struct MemoryDagger {
    pub key: Key,
    pub dagger: Dagger,
}

/// What a dagger kept in memory holds.
pub struct MemoryDaggerView {
    pub key: Seq<u8>,
    pub dagger: DaggerView,
}

impl View for MemoryDagger {
    type V = MemoryDaggerView;

    open spec fn view(&self) -> MemoryDaggerView {
        MemoryDaggerView { key: self.key@, dagger: self.dagger@ }
    }
}

/// What a list of daggers kept in memory holds.
pub open spec fn guards_view(v: Seq<MemoryDagger>) -> Seq<MemoryDaggerView> {
    Seq::new(v.len(), |i: int| v[i]@)
}

/// A dagger that a command has taken off a key.
#[derive(Debug, PartialEq, Eq)]
pub struct ReleasedDagger {
    pub key: Key,
    /// Whether the dagger belonged to a pessimistic transaction.
    pub pessimistic: bool,
}

/// What a released dagger holds.
pub struct ReleasedDaggerView {
    pub key: Seq<u8>,
    pub pessimistic: bool,
}

impl View for ReleasedDagger {
    type V = ReleasedDaggerView;

    open spec fn view(&self) -> ReleasedDaggerView {
        ReleasedDaggerView { key: self.key@, pessimistic: self.pessimistic }
    }
}

/// The view of an optional released dagger.
pub open spec fn opt_released_view(r: Option<ReleasedDagger>) -> Option<ReleasedDaggerView> {
    match r {
        Some(d) => Some(d@),
        None => None,
    }
}

impl ReleasedDagger {
    pub fn new(key: &Key, pessimistic: bool) -> (r: ReleasedDagger)
        ensures
            r@ == (ReleasedDaggerView { key: key@, pessimistic }),
    {
        ReleasedDagger { key: key.clone(), pessimistic }
    }
}

/// The daggers that one command has taken off keys. Transactions that wait
/// for one of them are to be woken up once the command's changes are
/// staged.
#[derive(Debug, PartialEq, Eq)]
pub struct ReleasedDaggers {
    pub start_ts: TimeStamp,
    pub commit_ts: TimeStamp,
    pub keys: Vec<Key>,
    /// Whether one of the daggers belonged to a pessimistic transaction.
    pub pessimistic: bool,
}

/// What a list of released daggers holds.
pub struct ReleasedDaggersView {
    pub start_ts: TimeStamp,
    pub commit_ts: TimeStamp,
    pub keys: Seq<Seq<u8>>,
    pub pessimistic: bool,
}

impl ReleasedDaggersView {
    /// The list after one more dagger was released, or none.
    pub open spec fn push(self, dagger: Option<ReleasedDaggerView>) -> ReleasedDaggersView {
        match dagger {
            Some(d) => ReleasedDaggersView {
                keys: self.keys.push(d.key),
                pessimistic: self.pessimistic || d.pessimistic,
                ..self
            },
            None => self,
        }
    }
}

impl View for ReleasedDaggers {
    type V = ReleasedDaggersView;

    open spec fn view(&self) -> ReleasedDaggersView {
        ReleasedDaggersView {
            start_ts: self.start_ts,
            commit_ts: self.commit_ts,
            keys: Seq::new(self.keys@.len(), |i: int| self.keys@[i]@),
            pessimistic: self.pessimistic,
        }
    }
}

impl ReleasedDaggers {
    /// An empty list for the transaction that started at `start_ts` and
    /// committed at `commit_ts`, or was rolled back where that is zero.
    pub fn new(start_ts: TimeStamp, commit_ts: TimeStamp) -> (r: ReleasedDaggers)
        ensures
            r@ == (ReleasedDaggersView {
                start_ts,
                commit_ts,
                keys: Seq::empty(),
                pessimistic: false,
            }),
    {
        let r = ReleasedDaggers { start_ts, commit_ts, keys: Vec::new(), pessimistic: false };
        assert(r@.keys =~= Seq::empty());
        r
    }

    /// Adds a released dagger, where there is one.
    pub fn push(&mut self, dagger: Option<ReleasedDagger>)
        ensures
            final(self)@ == old(self)@.push(opt_released_view(dagger)),
    {
        if let Some(d) = dagger {
            let ghost k = d.key@;
            self.keys.push(d.key);
            if !self.pessimistic {
                self.pessimistic = d.pessimistic;
            }
            assert(self@.keys =~= old(self)@.keys.push(k));
        }
    }

    /// Whether no dagger was released.
    pub fn is_empty(&self) -> (r: bool)
        ensures
            r == (self@.keys.len() == 0),
    {
        self.keys.is_empty()
    }
}

/// What a list of daggers for a one-phase commit holds.
pub open spec fn daggers_for_1pc_view(v: Seq<(Key, Dagger, bool)>) -> Seq<(Seq<u8>, DaggerView, bool)> {
    Seq::new(v.len(), |i: int| (v[i].0@, v[i].1@, v[i].2))
}

/// The staging area of the transaction that started at `start_ts`.
#[derive(Debug, PartialEq, Eq)]
pub struct EpaxosTxn {
    pub start_ts: TimeStamp,
    /// The changes decided on so far, in the order in which they are to be
    /// made.
    pub modifies: Vec<Modify>,
    /// The daggers of a transaction that tries to commit in one phase, each
    /// with its key and with whether a pessimistic dagger stands on the key.
    /// They are kept back from the changes: if all keys can be locked they
    /// are committed at once and no dagger is ever stored.
    pub daggers_for_1pc: Vec<(Key, Dagger, bool)>,
    pub concurrency_manager: ConcurrencyManager,
    /// The daggers to keep in memory until the changes are written.
    pub guards: Vec<MemoryDagger>,
}

/// What a staging area holds.
pub struct TxnView {
    pub start_ts: TimeStamp,
    pub modifies: Seq<ModifyView>,
    pub daggers_for_1pc: Seq<(Seq<u8>, DaggerView, bool)>,
    pub max_ts: TimeStamp,
    pub guards: Seq<MemoryDaggerView>,
}

impl TxnView {
    /// The staging area with one more change.
    pub open spec fn with_modify(self, m: ModifyView) -> TxnView {
        TxnView { modifies: self.modifies.push(m), ..self }
    }

    /// The staging area after a rollback of the transaction was marked on
    /// the dagger `dagger` of another transaction. Only a protected rollback
    /// is marked, and only on an async-commit dagger that could still commit
    /// at the start timestamp of the transaction.
    pub open spec fn mark_rollback(self, key: Seq<u8>, dagger: DaggerView, is_protected: bool) -> TxnView {
        if is_protected && self.start_ts@ >= dagger.min_commit_ts@ && dagger.use_async_commit {
            self.with_modify(
                ModifyView::Put(
                    CfName::Dagger,
                    key,
                    (DaggerView {
                        rollback_ts: dagger.rollback_ts.push(self.start_ts),
                        ..dagger
                    }).to_bytes(),
                ),
            )
        } else {
            self
        }
    }

    /// The staging area emptied of all but its timestamps.
    pub open spec fn cleared(self) -> TxnView {
        TxnView {
            modifies: Seq::empty(),
            daggers_for_1pc: Seq::empty(),
            guards: Seq::empty(),
            ..self
        }
    }
}

impl View for EpaxosTxn {
    type V = TxnView;

    open spec fn view(&self) -> TxnView {
        TxnView {
            start_ts: self.start_ts,
            modifies: modifies_view(self.modifies@),
            daggers_for_1pc: daggers_for_1pc_view(self.daggers_for_1pc@),
            max_ts: self.concurrency_manager@,
            guards: guards_view(self.guards@),
        }
    }
}

impl EpaxosTxn {
    /// An empty staging area.
    pub fn new(start_ts: TimeStamp, concurrency_manager: ConcurrencyManager) -> (r: EpaxosTxn)
        ensures
            r@ == (TxnView {
                start_ts,
                modifies: Seq::empty(),
                daggers_for_1pc: Seq::empty(),
                max_ts: concurrency_manager@,
                guards: Seq::empty(),
            }),
    {
        let r = EpaxosTxn {
            start_ts,
            modifies: Vec::new(),
            daggers_for_1pc: Vec::new(),
            concurrency_manager,
            guards: Vec::new(),
        };
        assert(r@.modifies =~= Seq::empty());
        assert(r@.daggers_for_1pc =~= Seq::empty());
        assert(r@.guards =~= Seq::empty());
        r
    }

    /// The changes decided on, in their order.
    pub fn into_modifies(self) -> (r: Vec<Modify>)
        ensures
            modifies_view(r@) == self@.modifies,
    {
        self.modifies
    }

    /// Takes the daggers kept in memory out of the staging area.
    pub fn take_guards(&mut self) -> (r: Vec<MemoryDagger>)
        ensures
            guards_view(r@) == old(self)@.guards,
            final(self)@ == (TxnView { guards: Seq::empty(), ..old(self)@ }),
    {
        let mut guards: Vec<MemoryDagger> = Vec::new();
        core::mem::swap(&mut guards, &mut self.guards);
        assert(self@.guards =~= Seq::empty());
        guards
    }

    fn push_modify(&mut self, m: Modify)
        ensures
            final(self)@ == old(self)@.with_modify(m@),
    {
        let ghost mv = m@;
        self.modifies.push(m);
        assert(self@.modifies =~= old(self)@.modifies.push(mv));
    }

    /// Stages the storing of `dagger` on `key`.
    pub fn put_dagger(&mut self, key: Key, dagger: &Dagger)
        ensures
            final(self)@ == old(self)@.with_modify(
                ModifyView::Put(CfName::Dagger, key@, dagger@.to_bytes()),
            ),
    {
        self.push_modify(Modify::Put(CfName::Dagger, key, dagger.to_bytes()));
    }

    /// Keeps `dagger` back for a one-phase commit.
    pub fn put_daggers_for_1pc(&mut self, key: Key, dagger: Dagger, remove_pessimistic_dagger: bool)
        ensures
            final(self)@ == (TxnView {
                daggers_for_1pc: old(self)@.daggers_for_1pc.push(
                    (key@, dagger@, remove_pessimistic_dagger),
                ),
                ..old(self)@
            }),
    {
        let ghost item = (key@, dagger@, remove_pessimistic_dagger);
        self.daggers_for_1pc.push((key, dagger, remove_pessimistic_dagger));
        assert(self@.daggers_for_1pc =~= old(self)@.daggers_for_1pc.push(item));
    }

    /// Stages the storing of a pessimistic dagger on `key`.
    pub fn put_pessimistic_dagger(&mut self, key: Key, dagger: PessimisticDagger)
        ensures
            final(self)@ == old(self)@.with_modify(ModifyView::PessimisticDagger(key@, dagger@)),
    {
        self.push_modify(Modify::PessimisticDagger(key, dagger));
    }

    /// Stages the removal of the dagger on `key`; gives the released dagger.
    pub fn undagger_key(&mut self, key: Key, pessimistic: bool) -> (r: Option<ReleasedDagger>)
        ensures
            final(self)@ == old(self)@.with_modify(ModifyView::Delete(CfName::Dagger, key@)),
            opt_released_view(r) == Some(ReleasedDaggerView { key: key@, pessimistic }),
    {
        let released = ReleasedDagger::new(&key, pessimistic);
        self.push_modify(Modify::Delete(CfName::Dagger, key));
        Some(released)
    }

    /// Stages the storing of the long value that the transaction gives
    /// `key`.
    pub fn put_value(&mut self, key: Key, ts: TimeStamp, value: Vec<u8>)
        ensures
            final(self)@ == old(self)@.with_modify(
                ModifyView::Put(CfName::Default, append_ts_spec(key@, ts@), value@),
            ),
    {
        self.push_modify(Modify::Put(CfName::Default, key.append_ts(ts), value));
    }

    /// Stages the removal of the long value stored for `key` at `ts`.
    pub fn delete_value(&mut self, key: Key, ts: TimeStamp)
        ensures
            final(self)@ == old(self)@.with_modify(
                ModifyView::Delete(CfName::Default, append_ts_spec(key@, ts@)),
            ),
    {
        self.push_modify(Modify::Delete(CfName::Default, key.append_ts(ts)));
    }

    /// Stages the storing of a write record of `key` at the commit
    /// timestamp `ts`.
    pub fn put_write(&mut self, key: Key, ts: TimeStamp, value: Vec<u8>)
        ensures
            final(self)@ == old(self)@.with_modify(
                ModifyView::Put(CfName::Write, append_ts_spec(key@, ts@), value@),
            ),
    {
        self.push_modify(Modify::Put(CfName::Write, key.append_ts(ts), value));
    }

    /// Stages the removal of the write record of `key` at `ts`.
    pub fn delete_write(&mut self, key: Key, ts: TimeStamp)
        ensures
            final(self)@ == old(self)@.with_modify(
                ModifyView::Delete(CfName::Write, append_ts_spec(key@, ts@)),
            ),
    {
        self.push_modify(Modify::Delete(CfName::Write, key.append_ts(ts)));
    }

    /// Marks the rollback of this transaction on the dagger that another
    /// transaction holds on `key`, where the commit of that dagger could
    /// otherwise hide the rollback.
    pub fn mark_rollback_on_mismatching_dagger(&mut self, key: &Key, dagger: Dagger, is_protected: bool)
        requires
            dagger.ts != old(self).start_ts,
        ensures
            final(self)@ == old(self)@.mark_rollback(key@, dagger@, is_protected),
    {
        if !is_protected {
            // A rollback record that is not protected may be overwritten.
            return ;
        }
        if self.start_ts.into_inner() < dagger.min_commit_ts.into_inner() {
            // The dagger commits after the rollback for sure.
            return ;
        }
        if !dagger.use_async_commit {
            // Only an async-commit dagger commits at a computed timestamp.
            return ;
        }
        let mut dagger = dagger;
        dagger.rollback_ts.push(self.start_ts);
        self.put_dagger(key.clone(), &dagger);
    }

    /// Empties the staging area.
    pub fn clear(&mut self)
        ensures
            final(self)@ == old(self)@.cleared(),
    {
        self.modifies.clear();
        self.daggers_for_1pc.clear();
        self.guards.clear();
        assert(self@.modifies =~= Seq::empty());
        assert(self@.daggers_for_1pc =~= Seq::empty());
        assert(self@.guards =~= Seq::empty());
    }
}

} // verus!
