//! The prewrite of a batch of mutations, the first phase of a commit. One
//! engine serves optimistic and pessimistic transactions.

use vstd::prelude::*;
use crate::codec::{bytes_lt, encode_bytes_spec, ByteOrder};
use crate::commands::{
    errors_view, old_values_insert, OldValues, OldValuesView, PrewriteResult, PrewriteResultView,
    ProcessResult, ProcessResultView, ResponsePolicy, TxnExtra, TxnExtraView, WriteContext,
    WriteData, WriteDataView, WriteResult, WriteResultView,
};
use crate::context::{Context, ExtraOp};
use crate::dagger::{byte_strings_view, DaggerView};
use crate::error::{Error, ErrorView};
use crate::key::{append_ts_spec, Key};
use crate::kv::{seek_spec, CfName, Entries, ModifyView, Snapshot, SnapshotView};
use crate::mutation::{Mutation, MutationView};
use crate::prewrite::{
    opt_byte_strings_view, prewrite, prewrite_spec, CommitKind, TransactionKind,
    TransactionProperties, TxnPropsView,
};
use crate::reader::{blackbraneReader, txn_commit_record_spec, TxnCommitRecord, TxnCommitRecordView};
use crate::timestamp::TimeStamp;
use crate::txn::{EpaxosTxn, ReleasedDaggerView, ReleasedDaggers, ReleasedDaggersView, TxnView};
use crate::util::reversed;
use crate::write::{write_type_of_dagger, Write, WriteType, WriteView};

verus! {

/// A batch of more mutations than this is looked at as a whole before it is
/// prewritten: where no key in its range has a write record, the checks
/// against committed versions are left out.
pub const FORWARD_MIN_MUTATIONS_NUM: usize = 12;

/// What a list of mutations, each with the word on whether it has a
/// pessimistic dagger, holds.
pub open spec fn tagged_mutations_view(v: Seq<(Mutation, bool)>) -> Seq<(MutationView, bool)> {
    Seq::new(v.len(), |i: int| (v[i].0@, v[i].1))
}

/// What a list of mutations holds.
pub open spec fn mutations_view(v: Seq<Mutation>) -> Seq<MutationView> {
    Seq::new(v.len(), |i: int| v[i]@)
}

/// The bytes that a list of mutations carries.
pub open spec fn mutations_size(s: Seq<MutationView>) -> nat
    decreases s.len(),
{
    if s.len() == 0 {
        0
    } else {
        mutations_size(s.drop_last()) + s.last().size()
    }
}

/// The mutations of `s` without their tags.
pub open spec fn untagged(s: Seq<(MutationView, bool)>) -> Seq<MutationView> {
    Seq::new(s.len(), |i: int| s[i].0)
}

/// The mutations of `s`, each tagged as having no pessimistic dagger.
pub open spec fn tagged_plain(s: Seq<MutationView>) -> Seq<(MutationView, bool)> {
    Seq::new(s.len(), |i: int| (s[i], false))
}

/// The prewrite of an optimistic transaction.
#[derive(Debug, PartialEq, Eq)]
pub struct Prewrite {
    /// The mutations to prewrite.
    pub mutations: Vec<Mutation>,
    /// The user key of the primary dagger, to which the others refer.
    pub primary: Vec<u8>,
    pub start_ts: TimeStamp,
    pub dagger_ttl: u64,
    pub skip_constraint_check: bool,
    /// How many keys the transaction involves.
    pub solitontxn_size: u64,
    pub min_commit_ts: TimeStamp,
    /// The limit on the commit timestamp of an async commit or a one-phase
    /// commit; zero sets none.
    pub max_commit_ts: TimeStamp,
    /// With async commit, the user keys of all other daggers of the
    /// transaction, on this node or another.
    pub secondary_keys: Option<Vec<Vec<u8>>>,
    /// Whether to commit at once, which a transaction on one region may.
    pub try_one_pc: bool,
    pub ctx: Context,
}

/// The prewrite of a pessimistic transaction.
#[derive(Debug, PartialEq, Eq)]
pub struct PrewritePessimistic {
    /// The mutations to prewrite, each with whether the transaction holds
    /// a pessimistic dagger on its key.
    pub mutations: Vec<(Mutation, bool)>,
    pub primary: Vec<u8>,
    pub start_ts: TimeStamp,
    pub dagger_ttl: u64,
    pub for_update_ts: TimeStamp,
    pub solitontxn_size: u64,
    pub min_commit_ts: TimeStamp,
    pub max_commit_ts: TimeStamp,
    pub secondary_keys: Option<Vec<Vec<u8>>>,
    pub try_one_pc: bool,
    pub ctx: Context,
}

/// What a prewrite of either kind holds.
pub struct PrewriterView {
    pub kind: TransactionKind,
    pub mutations: Seq<(MutationView, bool)>,
    pub primary: Seq<u8>,
    pub start_ts: TimeStamp,
    pub dagger_ttl: u64,
    pub solitontxn_size: u64,
    pub min_commit_ts: TimeStamp,
    pub max_commit_ts: TimeStamp,
    pub secondary_keys: Option<Seq<Seq<u8>>>,
    pub try_one_pc: bool,
    pub ctx: Context,
}

impl View for Prewrite {
    type V = PrewriterView;

    open spec fn view(&self) -> PrewriterView {
        PrewriterView {
            kind: TransactionKind::Optimistic(self.skip_constraint_check),
            mutations: tagged_plain(mutations_view(self.mutations@)),
            primary: self.primary@,
            start_ts: self.start_ts,
            dagger_ttl: self.dagger_ttl,
            solitontxn_size: self.solitontxn_size,
            min_commit_ts: self.min_commit_ts,
            max_commit_ts: self.max_commit_ts,
            secondary_keys: opt_byte_strings_view(self.secondary_keys),
            try_one_pc: self.try_one_pc,
            ctx: self.ctx,
        }
    }
}

impl View for PrewritePessimistic {
    type V = PrewriterView;

    open spec fn view(&self) -> PrewriterView {
        PrewriterView {
            kind: TransactionKind::Pessimistic(self.for_update_ts),
            mutations: tagged_mutations_view(self.mutations@),
            primary: self.primary@,
            start_ts: self.start_ts,
            dagger_ttl: self.dagger_ttl,
            solitontxn_size: self.solitontxn_size,
            min_commit_ts: self.min_commit_ts,
            max_commit_ts: self.max_commit_ts,
            secondary_keys: opt_byte_strings_view(self.secondary_keys),
            try_one_pc: self.try_one_pc,
            ctx: self.ctx,
        }
    }
}

/// A count of bytes that stops at the greatest number that it can hold.
pub open spec fn capped(n: nat) -> usize {
    if n <= usize::MAX {
        n as usize
    } else {
        usize::MAX
    }
}

fn add_mutation_size(bytes: usize, m: &Mutation, Ghost(before): Ghost<nat>) -> (r: usize)
    requires
        bytes == capped(before),
    ensures
        r == capped(before + m@.size()),
{
    match m {
        Mutation::Put(key, value) => bytes.saturating_add(key.len()).saturating_add(value.len()),
        Mutation::Insert(key, value) => bytes.saturating_add(key.len()).saturating_add(value.len()),
        Mutation::Delete(key) => bytes.saturating_add(key.len()),
        Mutation::Dagger(key) => bytes.saturating_add(key.len()),
        Mutation::CheckNotExists(_) => bytes,
    }
}

impl Prewrite {
    /// The prewrite of the given mutations for the optimistic transaction
    /// that started at `start_ts`.
    pub fn new(
        mutations: Vec<Mutation>,
        primary: Vec<u8>,
        start_ts: TimeStamp,
        dagger_ttl: u64,
        skip_constraint_check: bool,
        solitontxn_size: u64,
        min_commit_ts: TimeStamp,
        max_commit_ts: TimeStamp,
        secondary_keys: Option<Vec<Vec<u8>>>,
        try_one_pc: bool,
        ctx: Context,
    ) -> (r: Prewrite)
        ensures
            r@ == (PrewriterView {
                kind: TransactionKind::Optimistic(skip_constraint_check),
                mutations: tagged_plain(mutations_view(mutations@)),
                primary: primary@,
                start_ts,
                dagger_ttl,
                solitontxn_size,
                min_commit_ts,
                max_commit_ts,
                secondary_keys: opt_byte_strings_view(secondary_keys),
                try_one_pc,
                ctx,
            }),
    {
        Prewrite {
            mutations,
            primary,
            start_ts,
            dagger_ttl,
            skip_constraint_check,
            solitontxn_size,
            min_commit_ts,
            max_commit_ts,
            secondary_keys,
            try_one_pc,
            ctx,
        }
    }

    /// A prewrite in two phases with nothing set but what is given.
    pub fn with_defaults(mutations: Vec<Mutation>, primary: Vec<u8>, start_ts: TimeStamp) -> (r:
        Prewrite)
        ensures
            r@ == (PrewriterView {
                kind: TransactionKind::Optimistic(false),
                mutations: tagged_plain(mutations_view(mutations@)),
                primary: primary@,
                start_ts,
                dagger_ttl: 0,
                solitontxn_size: 0,
                min_commit_ts: TimeStamp(0),
                max_commit_ts: TimeStamp(0),
                secondary_keys: None,
                try_one_pc: false,
                ctx: Context::blank(),
            }),
    {
        Prewrite::new(
            mutations,
            primary,
            start_ts,
            0,
            false,
            0,
            TimeStamp::zero(),
            TimeStamp::zero(),
            None,
            false,
            Context::new(),
        )
    }

    /// A prewrite that tries to commit in one phase, at a timestamp not
    /// over `max_commit_ts`.
    pub fn with_1pc(
        mutations: Vec<Mutation>,
        primary: Vec<u8>,
        start_ts: TimeStamp,
        max_commit_ts: TimeStamp,
    ) -> (r: Prewrite)
        ensures
            r@ == (PrewriterView {
                kind: TransactionKind::Optimistic(false),
                mutations: tagged_plain(mutations_view(mutations@)),
                primary: primary@,
                start_ts,
                dagger_ttl: 0,
                solitontxn_size: 0,
                min_commit_ts: TimeStamp(0),
                max_commit_ts,
                secondary_keys: None,
                try_one_pc: true,
                ctx: Context::blank(),
            }),
    {
        Prewrite::new(
            mutations,
            primary,
            start_ts,
            0,
            false,
            0,
            TimeStamp::zero(),
            max_commit_ts,
            None,
            true,
            Context::new(),
        )
    }

    /// A prewrite in two phases whose daggers live for `dagger_ttl`.
    pub fn with_dagger_ttl(
        mutations: Vec<Mutation>,
        primary: Vec<u8>,
        start_ts: TimeStamp,
        dagger_ttl: u64,
    ) -> (r: Prewrite)
        ensures
            r@ == (PrewriterView {
                kind: TransactionKind::Optimistic(false),
                mutations: tagged_plain(mutations_view(mutations@)),
                primary: primary@,
                start_ts,
                dagger_ttl,
                solitontxn_size: 0,
                min_commit_ts: TimeStamp(0),
                max_commit_ts: TimeStamp(0),
                secondary_keys: None,
                try_one_pc: false,
                ctx: Context::blank(),
            }),
    {
        Prewrite::new(
            mutations,
            primary,
            start_ts,
            dagger_ttl,
            false,
            0,
            TimeStamp::zero(),
            TimeStamp::zero(),
            None,
            false,
            Context::new(),
        )
    }

    /// A prewrite in two phases for a request with the context `ctx`.
    pub fn with_context(mutations: Vec<Mutation>, primary: Vec<u8>, start_ts: TimeStamp, ctx: Context) -> (r:
        Prewrite)
        ensures
            r@ == (PrewriterView {
                kind: TransactionKind::Optimistic(false),
                mutations: tagged_plain(mutations_view(mutations@)),
                primary: primary@,
                start_ts,
                dagger_ttl: 0,
                solitontxn_size: 0,
                min_commit_ts: TimeStamp(0),
                max_commit_ts: TimeStamp(0),
                secondary_keys: None,
                try_one_pc: false,
                ctx,
            }),
    {
        Prewrite::new(
            mutations,
            primary,
            start_ts,
            0,
            false,
            0,
            TimeStamp::zero(),
            TimeStamp::zero(),
            None,
            false,
            ctx,
        )
    }

    fn into_prewriter(self) -> (r: Prewriter)
        ensures
            r@ == self@,
            r.old_values@.len() == 0,
    {
        let ghost all = mutations_view(self.mutations@);
        let mut stack = reversed(self.mutations);
        let mut mutations: Vec<(Mutation, bool)> = Vec::new();
        while stack.len() > 0
            invariant
                stack@.len() + mutations@.len() == all.len(),
                forall|i: int| 0 <= i < stack@.len() ==> stack@[i]@ == all[all.len() - 1 - i],
                forall|i: int|
                    0 <= i < mutations@.len() ==> (mutations@[i].0@, mutations@[i].1) == (
                        all[i],
                        false,
                    ),
            decreases stack.len(),
        {
            let m = stack.pop().unwrap();
            mutations.push((m, false));
        }
        assert(tagged_mutations_view(mutations@) =~= tagged_plain(all));
        Prewriter {
            kind: TransactionKind::Optimistic(self.skip_constraint_check),
            mutations,
            primary: self.primary,
            start_ts: self.start_ts,
            dagger_ttl: self.dagger_ttl,
            solitontxn_size: self.solitontxn_size,
            min_commit_ts: self.min_commit_ts,
            max_commit_ts: self.max_commit_ts,
            secondary_keys: self.secondary_keys,
            old_values: OldValues::new(),
            try_one_pc: self.try_one_pc,
            ctx: self.ctx,
            commit_kind: CommitKind::TwoPc,
            async_commit_pk: None,
            final_min_commit_ts: TimeStamp::zero(),
            daggers: Vec::new(),
        }
    }

    /// The bytes that the mutations carry; the greatest number that can be
    /// held where they are more.
    pub fn write_bytes(&self) -> (r: usize)
        ensures
            r == capped(mutations_size(mutations_view(self.mutations@))),
    {
        let ghost ms = mutations_view(self.mutations@);
        let mut bytes: usize = 0;
        let mut i: usize = 0;
        assert(ms.take(0) =~= Seq::empty());
        while i < self.mutations.len()
            invariant
                i <= self.mutations.len(),
                ms == mutations_view(self.mutations@),
                bytes == capped(mutations_size(ms.take(i as int))),
            decreases self.mutations.len() - i,
        {
            proof {
                assert(ms.take(i + 1).drop_last() =~= ms.take(i as int));
                assert(ms.take(i + 1).last() == self.mutations@[i as int]@);
            }
            bytes = add_mutation_size(
                bytes,
                &self.mutations[i],
                Ghost(mutations_size(ms.take(i as int))),
            );
            i += 1;
        }
        assert(ms.take(ms.len() as int) =~= ms);
        bytes
    }

    /// Carries out the prewrite on the snapshot `blackbrane`. Gives the
    /// batch of changes to write and what to tell the caller; the
    /// concurrency manager of `context` takes in what the prewrite has
    /// read.
    pub fn process_write(self, blackbrane: Snapshot, context: &mut WriteContext) -> (r: Result<
        WriteResult,
        Error,
    >)
        ensures
            final(context).extra_op == old(context).extra_op,
            final(context).async_apply_prewrite == old(context).async_apply_prewrite,
            match r {
                Ok(result) => process_write_spec(self@, blackbrane@, *old(context)) == (
                    Ok::<WriteResultView, ErrorView>(result@),
                    final(context).concurrency_manager@,
                ),
                Err(e) => process_write_spec(self@, blackbrane@, *old(context)) == (
                    Err::<WriteResultView, ErrorView>(e@),
                    final(context).concurrency_manager@,
                ),
            },
    {
        self.into_prewriter().process_write(blackbrane, context)
    }
}

impl PrewritePessimistic {
    /// The prewrite of the given mutations for the pessimistic transaction
    /// that started at `start_ts`.
    pub fn new(
        mutations: Vec<(Mutation, bool)>,
        primary: Vec<u8>,
        start_ts: TimeStamp,
        dagger_ttl: u64,
        for_update_ts: TimeStamp,
        solitontxn_size: u64,
        min_commit_ts: TimeStamp,
        max_commit_ts: TimeStamp,
        secondary_keys: Option<Vec<Vec<u8>>>,
        try_one_pc: bool,
        ctx: Context,
    ) -> (r: PrewritePessimistic)
        ensures
            r@ == (PrewriterView {
                kind: TransactionKind::Pessimistic(for_update_ts),
                mutations: tagged_mutations_view(mutations@),
                primary: primary@,
                start_ts,
                dagger_ttl,
                solitontxn_size,
                min_commit_ts,
                max_commit_ts,
                secondary_keys: opt_byte_strings_view(secondary_keys),
                try_one_pc,
                ctx,
            }),
    {
        PrewritePessimistic {
            mutations,
            primary,
            start_ts,
            dagger_ttl,
            for_update_ts,
            solitontxn_size,
            min_commit_ts,
            max_commit_ts,
            secondary_keys,
            try_one_pc,
            ctx,
        }
    }

    /// A prewrite in two phases with nothing set but what is given.
    pub fn with_defaults(
        mutations: Vec<(Mutation, bool)>,
        primary: Vec<u8>,
        start_ts: TimeStamp,
        for_update_ts: TimeStamp,
    ) -> (r: PrewritePessimistic)
        ensures
            r@ == (PrewriterView {
                kind: TransactionKind::Pessimistic(for_update_ts),
                mutations: tagged_mutations_view(mutations@),
                primary: primary@,
                start_ts,
                dagger_ttl: 0,
                solitontxn_size: 0,
                min_commit_ts: TimeStamp(0),
                max_commit_ts: TimeStamp(0),
                secondary_keys: None,
                try_one_pc: false,
                ctx: Context::blank(),
            }),
    {
        PrewritePessimistic::new(
            mutations,
            primary,
            start_ts,
            0,
            for_update_ts,
            0,
            TimeStamp::zero(),
            TimeStamp::zero(),
            None,
            false,
            Context::new(),
        )
    }

    /// A prewrite that tries to commit in one phase, at a timestamp not
    /// over `max_commit_ts`.
    pub fn with_1pc(
        mutations: Vec<(Mutation, bool)>,
        primary: Vec<u8>,
        start_ts: TimeStamp,
        for_update_ts: TimeStamp,
        max_commit_ts: TimeStamp,
    ) -> (r: PrewritePessimistic)
        ensures
            r@ == (PrewriterView {
                kind: TransactionKind::Pessimistic(for_update_ts),
                mutations: tagged_mutations_view(mutations@),
                primary: primary@,
                start_ts,
                dagger_ttl: 0,
                solitontxn_size: 0,
                min_commit_ts: TimeStamp(0),
                max_commit_ts,
                secondary_keys: None,
                try_one_pc: true,
                ctx: Context::blank(),
            }),
    {
        PrewritePessimistic::new(
            mutations,
            primary,
            start_ts,
            0,
            for_update_ts,
            0,
            TimeStamp::zero(),
            max_commit_ts,
            None,
            true,
            Context::new(),
        )
    }

    fn into_prewriter(self) -> (r: Prewriter)
        ensures
            r@ == self@,
            r.old_values@.len() == 0,
    {
        Prewriter {
            kind: TransactionKind::Pessimistic(self.for_update_ts),
            mutations: self.mutations,
            primary: self.primary,
            start_ts: self.start_ts,
            dagger_ttl: self.dagger_ttl,
            solitontxn_size: self.solitontxn_size,
            min_commit_ts: self.min_commit_ts,
            max_commit_ts: self.max_commit_ts,
            secondary_keys: self.secondary_keys,
            old_values: OldValues::new(),
            try_one_pc: self.try_one_pc,
            ctx: self.ctx,
            commit_kind: CommitKind::TwoPc,
            async_commit_pk: None,
            final_min_commit_ts: TimeStamp::zero(),
            daggers: Vec::new(),
        }
    }

    /// The bytes that the mutations carry; the greatest number that can be
    /// held where they are more.
    pub fn write_bytes(&self) -> (r: usize)
        ensures
            r == capped(mutations_size(untagged(tagged_mutations_view(self.mutations@)))),
    {
        let ghost ms = untagged(tagged_mutations_view(self.mutations@));
        let mut bytes: usize = 0;
        let mut i: usize = 0;
        assert(ms.take(0) =~= Seq::empty());
        while i < self.mutations.len()
            invariant
                i <= self.mutations.len(),
                ms == untagged(tagged_mutations_view(self.mutations@)),
                bytes == capped(mutations_size(ms.take(i as int))),
            decreases self.mutations.len() - i,
        {
            proof {
                assert(ms.take(i + 1).drop_last() =~= ms.take(i as int));
                assert(ms.take(i + 1).last() == self.mutations@[i as int].0@);
            }
            bytes = add_mutation_size(
                bytes,
                &self.mutations[i].0,
                Ghost(mutations_size(ms.take(i as int))),
            );
            i += 1;
        }
        assert(ms.take(ms.len() as int) =~= ms);
        bytes
    }

    /// Carries out the prewrite on the snapshot `blackbrane`. Gives the
    /// batch of changes to write and what to tell the caller; the
    /// concurrency manager of `context` takes in what the prewrite has
    /// read.
    pub fn process_write(self, blackbrane: Snapshot, context: &mut WriteContext) -> (r: Result<
        WriteResult,
        Error,
    >)
        ensures
            final(context).extra_op == old(context).extra_op,
            final(context).async_apply_prewrite == old(context).async_apply_prewrite,
            match r {
                Ok(result) => process_write_spec(self@, blackbrane@, *old(context)) == (
                    Ok::<WriteResultView, ErrorView>(result@),
                    final(context).concurrency_manager@,
                ),
                Err(e) => process_write_spec(self@, blackbrane@, *old(context)) == (
                    Err::<WriteResultView, ErrorView>(e@),
                    final(context).concurrency_manager@,
                ),
            },
    {
        self.into_prewriter().process_write(blackbrane, context)
    }
}

/// The changes that store the daggers kept back for a one-phase commit,
/// each under its key.
pub open spec fn fallback_modifies(daggers: Seq<(Seq<u8>, DaggerView, bool)>) -> Seq<ModifyView> {
    Seq::new(
        daggers.len(),
        |i: int| ModifyView::Put(CfName::Dagger, daggers[i].0, daggers[i].1.to_bytes()),
    )
}

/// The staging area after the daggers kept back for a one-phase commit were
/// staged as daggers of a commit in two phases.
pub open spec fn fallback_1pc_spec(txn: TxnView) -> TxnView {
    TxnView {
        modifies: txn.modifies + fallback_modifies(txn.daggers_for_1pc),
        daggers_for_1pc: Seq::empty(),
        ..txn
    }
}

/// Turns the daggers kept back for a one-phase commit into daggers of a
/// commit in two phases.
pub fn fallback_1pc_daggers(txn: &mut EpaxosTxn)
    ensures
        final(txn)@ == fallback_1pc_spec(old(txn)@),
{
    let mut daggers: Vec<(Key, crate::dagger::Dagger, bool)> = Vec::new();
    core::mem::swap(&mut daggers, &mut txn.daggers_for_1pc);
    let ghost before = old(txn)@;
    let ghost kept = before.daggers_for_1pc;
    assert(txn@.daggers_for_1pc =~= Seq::empty());
    assert(crate::txn::daggers_for_1pc_view(daggers@) == kept);
    let mut i: usize = 0;
    assert(fallback_modifies(kept).take(0) =~= Seq::empty());
    assert(before.modifies + Seq::<ModifyView>::empty() =~= before.modifies);
    while i < daggers.len()
        invariant
            i <= daggers.len(),
            crate::txn::daggers_for_1pc_view(daggers@) == kept,
            txn@ == (TxnView {
                modifies: before.modifies + fallback_modifies(kept).take(i as int),
                daggers_for_1pc: Seq::empty(),
                ..before
            }),
        decreases daggers.len() - i,
    {
        txn.put_dagger(daggers[i].0.clone(), &daggers[i].1);
        proof {
            assert(kept[i as int] == (daggers@[i as int].0@, daggers@[i as int].1@, daggers@[i as int].2));
            assert(fallback_modifies(kept).take(i + 1) =~= fallback_modifies(kept).take(
                i as int,
            ).push(fallback_modifies(kept)[i as int]));
            assert(txn@.modifies =~= before.modifies + fallback_modifies(kept).take(i + 1));
        }
        i += 1;
    }
    assert(fallback_modifies(kept).take(kept.len() as int) =~= fallback_modifies(kept));
}

/// The write record that a dagger kept back for a one-phase commit leaves.
pub open spec fn one_pc_write_spec(dagger: DaggerView, start_ts: TimeStamp) -> WriteView {
    WriteView {
        write_type: match write_type_of_dagger(dagger.dagger_type) {
            Some(t) => t,
            None => WriteType::Dagger,
        },
        start_ts,
        short_value: dagger.short_value,
        has_overlapped_rollback: false,
        gc_fence: None,
    }
}

/// The changes that commit the daggers kept back for a one-phase commit at
/// `commit_ts`: each leaves its write record, and where a pessimistic
/// dagger stands on the key, that is removed.
pub open spec fn one_pc_modifies(
    daggers: Seq<(Seq<u8>, DaggerView, bool)>,
    start_ts: TimeStamp,
    commit_ts: TimeStamp,
) -> Seq<ModifyView>
    decreases daggers.len(),
{
    if daggers.len() == 0 {
        Seq::empty()
    } else {
        let d = daggers.last();
        let rest = one_pc_modifies(daggers.drop_last(), start_ts, commit_ts).push(
            ModifyView::Put(
                CfName::Write,
                append_ts_spec(d.0, commit_ts@),
                one_pc_write_spec(d.1, start_ts).to_bytes(),
            ),
        );
        if d.2 {
            rest.push(ModifyView::Delete(CfName::Dagger, d.0))
        } else {
            rest
        }
    }
}

/// The pessimistic daggers that a one-phase commit takes off.
pub open spec fn one_pc_released(
    daggers: Seq<(Seq<u8>, DaggerView, bool)>,
    start_ts: TimeStamp,
    commit_ts: TimeStamp,
) -> ReleasedDaggersView
    decreases daggers.len(),
{
    if daggers.len() == 0 {
        ReleasedDaggersView { start_ts, commit_ts, keys: Seq::empty(), pessimistic: false }
    } else {
        let d = daggers.last();
        let rest = one_pc_released(daggers.drop_last(), start_ts, commit_ts);
        if d.2 {
            rest.push(Some(ReleasedDaggerView { key: d.0, pessimistic: true }))
        } else {
            rest
        }
    }
}

/// The staging area after the daggers kept back for a one-phase commit were
/// committed at `commit_ts`.
pub open spec fn handle_1pc_spec(txn: TxnView, commit_ts: TimeStamp) -> TxnView {
    TxnView {
        modifies: txn.modifies + one_pc_modifies(txn.daggers_for_1pc, txn.start_ts, commit_ts),
        daggers_for_1pc: Seq::empty(),
        ..txn
    }
}

/// Commits the daggers kept back for a one-phase commit at `commit_ts`;
/// gives the pessimistic daggers taken off.
fn handle_1pc_daggers(txn: &mut EpaxosTxn, commit_ts: TimeStamp) -> (r: ReleasedDaggers)
    ensures
        final(txn)@ == handle_1pc_spec(old(txn)@, commit_ts),
        r@ == one_pc_released(old(txn)@.daggers_for_1pc, old(txn)@.start_ts, commit_ts),
{
    let mut released = ReleasedDaggers::new(txn.start_ts, commit_ts);
    let mut daggers: Vec<(Key, crate::dagger::Dagger, bool)> = Vec::new();
    core::mem::swap(&mut daggers, &mut txn.daggers_for_1pc);
    let ghost before = old(txn)@;
    let ghost kept = before.daggers_for_1pc;
    let start_ts = txn.start_ts;
    assert(txn@.daggers_for_1pc =~= Seq::empty());
    assert(kept.take(0) =~= Seq::empty());
    assert(before.modifies + Seq::<ModifyView>::empty() =~= before.modifies);
    let mut i: usize = 0;
    while i < daggers.len()
        invariant
            i <= daggers.len(),
            start_ts == before.start_ts,
            crate::txn::daggers_for_1pc_view(daggers@) == kept,
            released@ == one_pc_released(kept.take(i as int), start_ts, commit_ts),
            txn@ == (TxnView {
                modifies: before.modifies + one_pc_modifies(kept.take(i as int), start_ts, commit_ts),
                daggers_for_1pc: Seq::empty(),
                ..before
            }),
        decreases daggers.len() - i,
    {
        let dagger = &daggers[i].1;
        let write_type = match WriteType::from_dagger_type(dagger.dagger_type) {
            Some(t) => t,
            None => WriteType::Dagger,
        };
        let write = Write::new(
            write_type,
            start_ts,
            crate::write::copy_opt_bytes(&dagger.short_value),
        );
        // A one-phase commit writes no record over another: the commit
        // timestamp is after every timestamp that the node has seen.
        txn.put_write(daggers[i].0.clone(), commit_ts, write.to_bytes());
        if daggers[i].2 {
            released.push(txn.undagger_key(daggers[i].0.clone(), true));
        }
        proof {
            assert(kept[i as int] == (daggers@[i as int].0@, daggers@[i as int].1@, daggers@[i as int].2));
            assert(kept.take(i + 1).drop_last() =~= kept.take(i as int));
            assert(kept.take(i + 1).last() == kept[i as int]);
            assert(txn@.modifies =~= before.modifies + one_pc_modifies(
                kept.take(i + 1),
                start_ts,
                commit_ts,
            ));
        }
        i += 1;
    }
    assert(kept.take(kept.len() as int) =~= kept);
    released
}

/// The daggers for whose keys waiting transactions are to be woken up;
/// none where no dagger was taken off.
pub open spec fn wake_up_spec(released: ReleasedDaggersView) -> Option<ReleasedDaggersView> {
    if released.keys.len() > 0 {
        Some(released)
    } else {
        None
    }
}

/// The commit timestamp of a transaction that commits in one phase, which
/// is committed hereby: every dagger kept back in `txn` turns into a write
/// record at `final_min_commit_ts`. With the timestamp come the
/// pessimistic daggers taken off, where there are any, for whose keys
/// waiting transactions are to be woken up. For any other transaction the
/// timestamp is zero and nothing is done.
pub fn one_pc_commit_ts(try_one_pc: bool, txn: &mut EpaxosTxn, final_min_commit_ts: TimeStamp) -> (r: (
    TimeStamp,
    Option<ReleasedDaggers>,
))
    requires
        try_one_pc ==> final_min_commit_ts@ != 0,
        !try_one_pc ==> old(txn)@.daggers_for_1pc.len() == 0,
    ensures
        try_one_pc ==> {
            &&& r.0 == final_min_commit_ts
            &&& final(txn)@ == handle_1pc_spec(old(txn)@, final_min_commit_ts)
            &&& (match r.1 {
                Some(released) => Some(released@),
                None => None,
            }) == wake_up_spec(
                one_pc_released(
                    old(txn)@.daggers_for_1pc,
                    old(txn)@.start_ts,
                    final_min_commit_ts,
                ),
            )
        },
        !try_one_pc ==> r.0@ == 0 && r.1 is None && final(txn)@ == old(txn)@,
{
    if try_one_pc {
        // Every key could be locked: commit them all at once.
        let released = handle_1pc_daggers(txn, final_min_commit_ts);
        if !released.is_empty() {
            (final_min_commit_ts, Some(released))
        } else {
            (final_min_commit_ts, None)
        }
    } else {
        (TimeStamp::zero(), None)
    }
}

/// Where `x` goes into the list `s`, which is in the order of its keys:
/// behind the mutations whose keys are not greater than that of `x`.
pub open spec fn insert_position(s: Seq<(MutationView, bool)>, x: (MutationView, bool), i: int) -> int
    decreases s.len() - i,
{
    if i < 0 || i >= s.len() {
        s.len() as int
    } else if bytes_lt(x.0.key(), s[i].0.key()) {
        i
    } else {
        insert_position(s, x, i + 1)
    }
}

/// The mutations of `s` in the order of their keys; mutations of one key
/// stay in the order in which they came.
pub open spec fn sorted_by_key(s: Seq<(MutationView, bool)>) -> Seq<(MutationView, bool)>
    decreases s.len(),
{
    if s.len() == 0 {
        Seq::empty()
    } else {
        let rest = sorted_by_key(s.drop_last());
        rest.insert(insert_position(rest, s.last(), 0), s.last())
    }
}

proof fn lemma_insert_position_bounds(s: Seq<(MutationView, bool)>, x: (MutationView, bool), i: int)
    requires
        0 <= i <= s.len(),
    ensures
        i <= insert_position(s, x, i) <= s.len(),
    decreases s.len() - i,
{
    if i < s.len() && !bytes_lt(x.0.key(), s[i].0.key()) {
        lemma_insert_position_bounds(s, x, i + 1);
    }
}

/// Sorting keeps the number of mutations.
pub proof fn lemma_sorted_len(s: Seq<(MutationView, bool)>)
    ensures
        sorted_by_key(s).len() == s.len(),
    decreases s.len(),
{
    if s.len() > 0 {
        lemma_sorted_len(s.drop_last());
        lemma_insert_position_bounds(sorted_by_key(s.drop_last()), s.last(), 0);
    }
}

/// The keys of `s` ascend, with keys that are the same side by side.
pub open spec fn in_key_order(s: Seq<(MutationView, bool)>) -> bool {
    forall|a: int, b: int|
        0 <= a < b < s.len() ==> !bytes_lt((#[trigger] s[b]).0.key(), (#[trigger] s[a]).0.key())
}

proof fn lemma_insert_position(s: Seq<(MutationView, bool)>, x: (MutationView, bool), i: int)
    requires
        0 <= i <= s.len(),
    ensures
        i <= insert_position(s, x, i) <= s.len(),
        forall|j: int|
            i <= j < insert_position(s, x, i) ==> !bytes_lt(x.0.key(), (#[trigger] s[j]).0.key()),
        insert_position(s, x, i) < s.len() ==> bytes_lt(
            x.0.key(),
            s[insert_position(s, x, i)].0.key(),
        ),
    decreases s.len() - i,
{
    if i < s.len() && !bytes_lt(x.0.key(), s[i].0.key()) {
        lemma_insert_position(s, x, i + 1);
    }
}

/// Sorting puts the mutations in the order of their keys, and loses none:
/// every mutation of the batch is in the sorted batch.
pub proof fn lemma_sorted_by_key(s: Seq<(MutationView, bool)>)
    ensures
        sorted_by_key(s).len() == s.len(),
        in_key_order(sorted_by_key(s)),
        forall|i: int| 0 <= i < s.len() ==> sorted_by_key(s).contains(#[trigger] s[i]),
    decreases s.len(),
{
    lemma_sorted_len(s);
    if s.len() > 0 {
        let front = s.drop_last();
        let x = s.last();
        let rest = sorted_by_key(front);
        lemma_sorted_by_key(front);
        lemma_insert_position(rest, x, 0);
        let at = insert_position(rest, x, 0);
        let t = rest.insert(at, x);
        assert(t == sorted_by_key(s));
        assert forall|a: int, b: int| 0 <= a < b < t.len() implies !bytes_lt(
            (#[trigger] t[b]).0.key(),
            (#[trigger] t[a]).0.key(),
        ) by {
            if b < at {
                assert(t[a] == rest[a] && t[b] == rest[b]);
            } else if b == at {
                assert(t[a] == rest[a]);
                crate::codec::lemma_bytes_order_total(x.0.key(), rest[a].0.key());
            } else if a == at {
                assert(t[b] == rest[b - 1]);
                crate::codec::lemma_bytes_order_total(x.0.key(), rest[at].0.key());
                if b - 1 > at && bytes_lt(rest[b - 1].0.key(), x.0.key()) {
                    crate::codec::lemma_bytes_lt_trans(
                        rest[b - 1].0.key(),
                        x.0.key(),
                        rest[at].0.key(),
                    );
                }
            } else if a < at {
                assert(t[a] == rest[a] && t[b] == rest[b - 1]);
                if a < b - 1 {
                    assert(!bytes_lt(rest[b - 1].0.key(), rest[a].0.key()));
                } else {
                    crate::codec::lemma_bytes_order_total(rest[a].0.key(), rest[a].0.key());
                }
            } else {
                assert(t[a] == rest[a - 1] && t[b] == rest[b - 1]);
            }
        }
        assert forall|i: int| 0 <= i < s.len() implies t.contains(#[trigger] s[i]) by {
            if i == s.len() - 1 {
                assert(t[at] == s[i]);
            } else {
                assert(front[i] == s[i]);
                assert(rest.contains(front[i]));
                let j = choose|j: int| 0 <= j < rest.len() && rest[j] == front[i];
                let j2 = if j < at { j } else { j + 1 };
                assert(t[j2] == s[i]);
            }
        }
    }
}

/// Where the look at the whole batch lets the checks against committed
/// versions be left out, there is nothing to check against: in a store
/// whose write records lie under versions of encoded user keys, no key of
/// the batch has a write record, but for one at the commit timestamp zero,
/// at which nothing is committed.
pub proof fn lemma_skip_constraint_check_is_safe(
    kind: TransactionKind,
    mutations: Seq<(MutationView, bool)>,
    writes: Entries,
    i: int,
    commit_ts: u64,
)
    requires
        crate::kv::sorted(writes),
        crate::reader::well_keyed(writes),
        forall|j: int|
            0 <= j < mutations.len() ==> crate::codec::well_grouped(
                (#[trigger] mutations[j]).0.key(),
            ),
        kind == TransactionKind::Optimistic(false),
        can_skip_constraint_check_spec(kind, mutations, writes).0 == TransactionKind::Optimistic(
            true,
        ),
        0 <= i < mutations.len(),
        commit_ts > 0,
    ensures
        !crate::reader::has_version(writes, mutations[i].0.key(), commit_ts),
{
    let sorted = sorted_by_key(mutations);
    lemma_sorted_by_key(mutations);
    let first = sorted.first().0.key();
    let last = sorted.last().0.key();
    let left = first;
    let right = append_ts_spec(last, 0);
    let key = mutations[i].0.key();
    let version = append_ts_spec(key, commit_ts);
    assert(sorted.contains(mutations[i]));
    let at = choose|at: int| 0 <= at < sorted.len() && sorted[at] == mutations[i];
    if crate::reader::has_version(writes, key, commit_ts) {
        crate::kv::lemma_get_is_stored(writes, version);
        let j = choose|j: int|
            0 <= j < writes.len() && #[trigger] writes[j] == (
                version,
                crate::kv::get_spec(writes, version).unwrap(),
            );
        crate::kv::lemma_seek_sorted(writes, left);
        let lo = seek_spec(writes, left);
        // The version is not before the first key of the batch.
        assert(!bytes_lt(version, left)) by {
            crate::codec::lemma_lt_common_prefix(key, Seq::empty(), crate::key::ts_suffix(commit_ts));
            assert(key + Seq::<u8>::empty() =~= key);
            assert(bytes_lt(key, version));
            crate::codec::lemma_bytes_order_total(first, key);
            crate::codec::lemma_bytes_order_total(version, left);
            if bytes_lt(version, left) {
                if first == key {
                } else {
                    assert(!bytes_lt(key, first));
                    crate::codec::lemma_bytes_lt_trans(key, version, left);
                }
            }
        }
        // And it is before the oldest version that the last key can have.
        assert(bytes_lt(version, right)) by {
            if key == last {
                crate::key::lemma_append_ts_order(key, commit_ts, 0);
            } else {
                assert(sorted[sorted.len() - 1] == sorted.last());
                assert(!bytes_lt(last, key));
                crate::codec::lemma_bytes_order_total(key, last);
                assert(mutations[i] == sorted[at]);
                lemma_sorted_is_of_batch(mutations, sorted.len() - 1);
                let l = choose|l: int| 0 <= l < mutations.len() && mutations[l] == sorted.last();
                assert(crate::codec::well_grouped(mutations[l].0.key()));
                crate::key::lemma_versions_of_other_key(key, last, commit_ts, 0);
            }
        }
        assert(j >= lo);
        assert(lo < writes.len());
        if j > lo {
            crate::codec::lemma_bytes_lt_trans(writes[lo].0, writes[j].0, right);
        }
    }
}

/// Every mutation of the sorted batch is a mutation of the batch.
pub proof fn lemma_sorted_is_of_batch(s: Seq<(MutationView, bool)>, j: int)
    requires
        0 <= j < sorted_by_key(s).len(),
    ensures
        s.contains(sorted_by_key(s)[j]),
    decreases s.len(),
{
    lemma_sorted_len(s);
    if s.len() > 0 {
        let front = s.drop_last();
        let rest = sorted_by_key(front);
        lemma_sorted_len(front);
        lemma_insert_position_bounds(rest, s.last(), 0);
        let at = insert_position(rest, s.last(), 0);
        if j == at {
            assert(s[s.len() - 1] == s.last());
        } else {
            let j0 = if j < at { j } else { j - 1 };
            lemma_sorted_is_of_batch(front, j0);
            let k = choose|k: int| 0 <= k < front.len() && front[k] == rest[j0];
            assert(s[k] == front[k]);
        }
    }
}

/// Puts the mutations in the order of their keys.
fn sort_mutations(mutations: Vec<(Mutation, bool)>) -> (r: Vec<(Mutation, bool)>)
    ensures
        tagged_mutations_view(r@) == sorted_by_key(tagged_mutations_view(mutations@)),
{
    let ghost all = tagged_mutations_view(mutations@);
    let mut stack = reversed(mutations);
    let mut out: Vec<(Mutation, bool)> = Vec::new();
    let mut done: usize = 0;
    let total = stack.len();
    assert(all.take(0) =~= Seq::empty());
    assert(tagged_mutations_view(out@) =~= Seq::empty());
    while stack.len() > 0
        invariant
            total == all.len(),
            done + stack@.len() == total,
            forall|i: int|
                0 <= i < stack@.len() ==> (stack@[i].0@, stack@[i].1) == all[all.len() - 1 - i],
            tagged_mutations_view(out@) == sorted_by_key(all.take(done as int)),
        decreases stack.len(),
    {
        let x = stack.pop().unwrap();
        let ghost xv = (x.0@, x.1);
        let ghost sorted = tagged_mutations_view(out@);
        proof {
            assert(xv == all[done as int]);
            assert(all.take(done + 1).drop_last() =~= all.take(done as int));
            assert(all.take(done + 1).last() == xv);
        }
        let mut at: usize = 0;
        let mut found = false;
        while at < out.len() && !found
            invariant
                at <= out.len(),
                sorted == tagged_mutations_view(out@),
                xv == (x.0@, x.1),
                found ==> at < out.len() && bytes_lt(xv.0.key(), sorted[at as int].0.key()),
                insert_position(sorted, xv, at as int) == insert_position(sorted, xv, 0),
            decreases out.len() - at, if found { 0int } else { 1int },
        {
            match x.0.key().order(out[at].0.key()) {
                ByteOrder::Less => {
                    found = true;
                },
                _ => {
                    proof {
                        crate::codec::lemma_bytes_order_total(xv.0.key(), sorted[at as int].0.key());
                    }
                    at += 1;
                },
            }
        }
        out.insert(at, x);
        assert(tagged_mutations_view(out@) =~= sorted.insert(at as int, xv));
        done += 1;
    }
    assert(all.take(all.len() as int) =~= all);
    out
}

/// Whether the write records hold a key from `left` on and before `right`.
pub open spec fn has_data_in_range_spec(writes: Entries, left: Seq<u8>, right: Seq<u8>) -> bool {
    seek_spec(writes, left) < writes.len() && bytes_lt(writes[seek_spec(writes, left)].0, right)
}

/// Whether the column family `cf` of the snapshot holds a key from `left`
/// on and before `right`.
pub fn has_data_in_range(blackbrane: &Snapshot, cf: CfName, left: &Key, right: &Key) -> (r: bool)
    ensures
        r == has_data_in_range_spec(blackbrane@.store.cf(cf), left@, right@),
{
    let family = blackbrane.cf(cf);
    let i = family.seek(left.as_encoded().as_slice());
    if i < family.len() {
        match crate::codec::compare(
            family.key_at(i).as_slice(),
            right.as_encoded().as_slice(),
        ) {
            ByteOrder::Less => true,
            _ => false,
        }
    } else {
        false
    }
}

/// The mutations in the order in which a prewrite goes through them, and
/// the kind of transaction that it goes on with. A batch of an optimistic
/// transaction with more than `FORWARD_MIN_MUTATIONS_NUM` mutations is put
/// in the order of its keys; and where no write record lies from its first
/// key on and before the oldest version that its last key can have, the
/// checks against committed versions are left out.
pub open spec fn can_skip_constraint_check_spec(
    kind: TransactionKind,
    mutations: Seq<(MutationView, bool)>,
    writes: Entries,
) -> (TransactionKind, Seq<(MutationView, bool)>) {
    if kind is Optimistic && mutations.len() > FORWARD_MIN_MUTATIONS_NUM {
        let sorted = sorted_by_key(mutations);
        if sorted.len() > 0 && !has_data_in_range_spec(
            writes,
            sorted.first().0.key(),
            append_ts_spec(sorted.last().0.key(), 0),
        ) {
            (TransactionKind::Optimistic(true), sorted)
        } else {
            (kind, sorted)
        }
    } else {
        (kind, mutations)
    }
}

/// How far a prewrite has come: what it has staged, how it means to
/// commit, and what it has found so far.
pub struct PrewriterState {
    pub txn: TxnView,
    pub commit_kind: CommitKind,
    pub secondary_keys: Option<Seq<Seq<u8>>>,
    pub try_one_pc: bool,
    /// The key of the primary dagger of an async commit with secondary
    /// keys: the mutation of that key gets the secondary keys.
    pub async_commit_pk: Option<Seq<u8>>,
    /// The greatest of the least commit timestamps of the keys so far.
    pub final_min_commit_ts: TimeStamp,
    /// The errors of the keys that another transaction holds a dagger on.
    pub daggers: Seq<ErrorView>,
    pub old_values: OldValuesView,
}

/// How a prewrite ends: the daggers in its way and its least commit
/// timestamp, or the error that stopped it.
pub type PrewriteOutcome = Result<(Seq<ErrorView>, TimeStamp), ErrorView>;

impl PrewriterState {
    /// The state in which a prewrite begins.
    pub open spec fn begin(cmd: PrewriterView, max_ts: TimeStamp) -> PrewriterState {
        PrewriterState {
            txn: TxnView {
                start_ts: cmd.start_ts,
                modifies: Seq::empty(),
                daggers_for_1pc: Seq::empty(),
                max_ts,
                guards: Seq::empty(),
            },
            commit_kind: if cmd.try_one_pc {
                CommitKind::OnePc(cmd.max_commit_ts)
            } else if cmd.secondary_keys is Some {
                CommitKind::Async(cmd.max_commit_ts)
            } else {
                CommitKind::TwoPc
            },
            secondary_keys: cmd.secondary_keys,
            try_one_pc: cmd.try_one_pc,
            async_commit_pk: if cmd.secondary_keys is Some && cmd.secondary_keys.unwrap().len() > 0 {
                Some(encode_bytes_spec(cmd.primary))
            } else {
                None
            },
            final_min_commit_ts: TimeStamp(0),
            daggers: Seq::empty(),
            old_values: Seq::empty(),
        }
    }

    /// The state after the prewrite fell back to a commit in two phases:
    /// what was computed for async commit or a one-phase commit is dropped,
    /// the daggers kept back are staged as plain daggers, and no dagger is
    /// kept in memory.
    pub open spec fn fallen_back(self) -> PrewriterState {
        PrewriterState {
            txn: TxnView { guards: Seq::empty(), ..fallback_1pc_spec(self.txn) },
            commit_kind: CommitKind::TwoPc,
            secondary_keys: None,
            try_one_pc: false,
            async_commit_pk: None,
            final_min_commit_ts: TimeStamp(0),
            ..self
        }
    }

    /// The properties that the prewrite of the next key goes by.
    pub open spec fn props(self, cmd: PrewriterView, kind: TransactionKind, extra_op: ExtraOp) -> TxnPropsView {
        TxnPropsView {
            start_ts: cmd.start_ts,
            kind,
            commit_kind: self.commit_kind,
            primary: cmd.primary,
            solitontxn_size: cmd.solitontxn_size,
            dagger_ttl: cmd.dagger_ttl,
            min_commit_ts: cmd.min_commit_ts,
            need_old_value: extra_op == ExtraOp::ReadOldValue,
            is_retry_request: cmd.ctx.is_retry_request,
        }
    }

    /// The secondary keys that go on the dagger of the key `key`: all of
    /// them on the primary dagger of an async commit, none on any other.
    pub open spec fn secondaries_for(self, key: Seq<u8>) -> Option<Seq<Seq<u8>>> {
        if self.async_commit_pk == Some(key) {
            self.secondary_keys
        } else {
            match self.secondary_keys {
                Some(_) => Some(Seq::empty()),
                None => None,
            }
        }
    }
}

/// Whether the error of a prewrite may mean that the transaction has
/// committed already: a conflict with a record committed after the
/// conflicting transaction started, or a pessimistic dagger that is gone.
pub open spec fn may_be_committed(e: ErrorView) -> bool {
    match e {
        ErrorView::WriteConflict { start_ts, conflict_commit_ts, .. } => conflict_commit_ts@
            > start_ts@,
        ErrorView::PessimisticDaggerNotFound { .. } => true,
        _ => false,
    }
}

/// What the prewrite of one mutation of the batch does to the state of the
/// prewrite, and the outcome where the prewrite ends with it. The key is
/// prewritten. A least commit timestamp that was asked for and is there is
/// taken in. An error that may come of a prewrite sent again after the
/// commit is looked into: where the transaction has committed the key, the
/// prewrite ends well with that commit timestamp and stages nothing. A
/// least commit timestamp that is over the limit, or missing, makes the
/// prewrite fall back to two phases. A key locked by another transaction
/// is noted. Any other error ends the prewrite.
#[verifier::opaque]
pub open spec fn prewriter_step(
    st: PrewriterState,
    cmd: PrewriterView,
    kind: TransactionKind,
    extra_op: ExtraOp,
    snapshot: SnapshotView,
    m: MutationView,
    is_pessimistic_dagger: bool,
) -> (Option<PrewriteOutcome>, PrewriterState) {
    let secondaries = st.secondaries_for(m.key());
    let need_min_commit_ts = secondaries is Some || st.try_one_pc;
    let (res, txn) = prewrite_spec(
        st.txn,
        snapshot,
        cmd.ctx.term,
        cmd.ctx.version,
        cmd.start_ts,
        st.props(cmd, kind, extra_op),
        m,
        secondaries,
        is_pessimistic_dagger,
    );
    let st1 = PrewriterState { txn, ..st };
    match res {
        Ok((ts, old_value)) => if !(need_min_commit_ts && ts@ == 0) {
            (
                None,
                PrewriterState {
                    final_min_commit_ts: if need_min_commit_ts && st.final_min_commit_ts@ < ts@ {
                        ts
                    } else {
                        st.final_min_commit_ts
                    },
                    old_values: if !(old_value is Unspecified) {
                        old_values_insert(
                            st.old_values,
                            append_ts_spec(m.key(), txn.start_ts@),
                            old_value,
                            Some(m.mutation_type()),
                        )
                    } else {
                        st.old_values
                    },
                    ..st1
                },
            )
        } else {
            (None, st1.fallen_back())
        },
        Err(e) => if may_be_committed(e) {
            match txn_commit_record_spec(snapshot.store.write_cf, m.key(), cmd.start_ts) {
                Err(e2) => (Some(Err(e2)), st1),
                Ok(TxnCommitRecordView::SingleRecord { commit_ts, write }) => if write.write_type
                    != WriteType::Rollback {
                    (
                        Some(Ok((Seq::empty(), commit_ts))),
                        PrewriterState { txn: txn.cleared(), ..st1 },
                    )
                } else {
                    (Some(Err(e)), st1)
                },
                Ok(_) => (Some(Err(e)), st1),
            }
        } else if e is CommitTsTooLarge {
            (None, st1.fallen_back())
        } else if e is KeyIsDaggered {
            (None, PrewriterState { daggers: st.daggers.push(e), ..st1 })
        } else {
            (Some(Err(e)), st1)
        },
    }
}

/// How the prewrite of the mutations from `i` on ends, and the state that
/// it ends in.
pub open spec fn prewriter_run(
    st: PrewriterState,
    cmd: PrewriterView,
    kind: TransactionKind,
    extra_op: ExtraOp,
    snapshot: SnapshotView,
    mutations: Seq<(MutationView, bool)>,
    i: int,
) -> (PrewriteOutcome, PrewriterState)
    decreases mutations.len() - i,
{
    if i < 0 || i >= mutations.len() {
        (Ok((st.daggers, st.final_min_commit_ts)), st)
    } else {
        let (outcome, st1) = prewriter_step(
            st,
            cmd,
            kind,
            extra_op,
            snapshot,
            mutations[i].0,
            mutations[i].1,
        );
        match outcome {
            Some(o) => (o, st1),
            None => prewriter_run(st1, cmd, kind, extra_op, snapshot, mutations, i + 1),
        }
    }
}

/// What a prewrite that came through hands back. Where no key is locked by
/// another transaction, the staged changes are to be written, and a
/// one-phase commit is made. Where some are, nothing is to be written, and
/// the errors of those keys are told. The caller may be answered before
/// the changes are applied only where no key is locked, an async commit or
/// a one-phase commit was made, and the configuration allows it.
pub open spec fn write_result_spec(
    cmd: PrewriterView,
    st: PrewriterState,
    daggers: Seq<ErrorView>,
    final_min_commit_ts: TimeStamp,
    rows: usize,
    async_apply_prewrite: bool,
) -> WriteResultView {
    let async_commit_ts = if st.secondary_keys is Some {
        final_min_commit_ts
    } else {
        TimeStamp(0)
    };
    let one_pc = st.try_one_pc && final_min_commit_ts@ != 0;
    let response_policy = if daggers.len() == 0 && (async_commit_ts@ != 0 || one_pc)
        && async_apply_prewrite {
        ResponsePolicy::OnCommitted
    } else {
        ResponsePolicy::OnApplied
    };
    if daggers.len() == 0 {
        let txn = if one_pc {
            handle_1pc_spec(st.txn, final_min_commit_ts)
        } else {
            st.txn
        };
        WriteResultView {
            ctx: cmd.ctx,
            to_be_write: WriteDataView {
                modifies: txn.modifies,
                extra: TxnExtraView { old_values: st.old_values, one_pc: st.try_one_pc },
                disk_full_opt: cmd.ctx.disk_full_opt,
            },
            rows,
            pr: ProcessResultView::PrewriteResult {
                result: PrewriteResultView {
                    daggers: Seq::empty(),
                    min_commit_ts: async_commit_ts,
                    one_pc_commit_ts: if one_pc {
                        final_min_commit_ts
                    } else {
                        TimeStamp(0)
                    },
                },
            },
            dagger_guards: txn.guards,
            response_policy,
            released_daggers: if one_pc {
                wake_up_spec(
                    one_pc_released(st.txn.daggers_for_1pc, st.txn.start_ts, final_min_commit_ts),
                )
            } else {
                None
            },
        }
    } else {
        WriteResultView {
            ctx: cmd.ctx,
            to_be_write: WriteDataView::from_modifies(Seq::empty()),
            rows,
            pr: ProcessResultView::PrewriteResult {
                result: PrewriteResultView {
                    daggers,
                    min_commit_ts: async_commit_ts,
                    one_pc_commit_ts: TimeStamp(0),
                },
            },
            dagger_guards: Seq::empty(),
            response_policy,
            released_daggers: None,
        }
    }
}

/// What a prewrite hands back, and the greatest timestamp that the node has
/// seen after it. An async commit or a one-phase commit is refused while
/// the greatest timestamp known to the node may be stale.
pub open spec fn process_write_spec(
    cmd: PrewriterView,
    snapshot: SnapshotView,
    context: WriteContext,
) -> (Result<WriteResultView, ErrorView>, TimeStamp) {
    let (kind, mutations) = can_skip_constraint_check_spec(
        cmd.kind,
        cmd.mutations,
        snapshot.store.write_cf,
    );
    if (cmd.secondary_keys is Some || cmd.try_one_pc) && !snapshot.max_ts_synced {
        (
            Err(
                ErrorView::MaxTimestampNotSynced {
                    region_id: cmd.ctx.region_id,
                    start_ts: cmd.start_ts,
                },
            ),
            context.concurrency_manager@,
        )
    } else {
        let (outcome, st) = prewriter_run(
            PrewriterState::begin(cmd, context.concurrency_manager@),
            cmd,
            kind,
            context.extra_op,
            snapshot,
            mutations,
            0,
        );
        (
            match outcome {
                Ok((daggers, final_min_commit_ts)) => Ok(
                    write_result_spec(
                        cmd,
                        st,
                        daggers,
                        final_min_commit_ts,
                        cmd.mutations.len() as usize,
                        context.async_apply_prewrite,
                    ),
                ),
                Err(e) => Err(e),
            },
            st.txn.max_ts,
        )
    }
}

/// A prewrite that finds a key locked by another transaction writes
/// nothing and commits nothing: it hands back an empty batch, keeps no
/// dagger in memory, wakes nobody, tells no commit timestamp of a
/// one-phase commit, and is answered only once its result is applied.
pub proof fn lemma_blocked_prewrite_writes_nothing(
    cmd: PrewriterView,
    snapshot: SnapshotView,
    context: WriteContext,
)
    ensures
        process_write_spec(cmd, snapshot, context).0 matches Ok(r) ==> r.pr
            matches ProcessResultView::PrewriteResult { result } && (result.daggers.len() > 0 ==> {
            &&& r.to_be_write.modifies.len() == 0
            &&& r.dagger_guards.len() == 0
            &&& r.released_daggers is None
            &&& result.one_pc_commit_ts@ == 0
            &&& r.response_policy == ResponsePolicy::OnApplied
        }),
{
}

/// The caller is answered before the changes are applied only after a
/// commit: exactly where the configuration allows it, no key was found
/// locked, and the prewrite tells the commit timestamp of an async commit
/// or of a one-phase commit.
pub proof fn lemma_early_answer_only_after_commit(
    cmd: PrewriterView,
    snapshot: SnapshotView,
    context: WriteContext,
)
    ensures
        process_write_spec(cmd, snapshot, context).0 matches Ok(r) ==> r.pr
            matches ProcessResultView::PrewriteResult { result } && (r.response_policy
            == ResponsePolicy::OnCommitted <==> context.async_apply_prewrite && result.daggers.len()
            == 0 && (result.min_commit_ts@ != 0 || result.one_pc_commit_ts@ != 0)),
{
}

/// The engine that prewrites a batch for a transaction of either kind.
struct Prewriter {
    kind: TransactionKind,
    mutations: Vec<(Mutation, bool)>,
    primary: Vec<u8>,
    start_ts: TimeStamp,
    dagger_ttl: u64,
    solitontxn_size: u64,
    min_commit_ts: TimeStamp,
    max_commit_ts: TimeStamp,
    secondary_keys: Option<Vec<Vec<u8>>>,
    old_values: OldValues,
    try_one_pc: bool,
    ctx: Context,
    // How far the prewrite has come.
    commit_kind: CommitKind,
    async_commit_pk: Option<Key>,
    final_min_commit_ts: TimeStamp,
    daggers: Vec<Error>,
}

impl View for Prewriter {
    type V = PrewriterView;

    closed spec fn view(&self) -> PrewriterView {
        PrewriterView {
            kind: self.kind,
            mutations: tagged_mutations_view(self.mutations@),
            primary: self.primary@,
            start_ts: self.start_ts,
            dagger_ttl: self.dagger_ttl,
            solitontxn_size: self.solitontxn_size,
            min_commit_ts: self.min_commit_ts,
            max_commit_ts: self.max_commit_ts,
            secondary_keys: opt_byte_strings_view(self.secondary_keys),
            try_one_pc: self.try_one_pc,
            ctx: self.ctx,
        }
    }
}

/// What a list of errors and a timestamp hold.
pub open spec fn outcome_view(r: Result<(Vec<Error>, TimeStamp), Error>) -> PrewriteOutcome {
    match r {
        Ok((daggers, ts)) => Ok((errors_view(daggers@), ts)),
        Err(e) => Err(e@),
    }
}

/// The view of an outcome that may not be there yet.
pub open spec fn opt_outcome_view(r: Option<Result<(Vec<Error>, TimeStamp), Error>>) -> Option<
    PrewriteOutcome,
> {
    match r {
        Some(o) => Some(outcome_view(o)),
        None => None,
    }
}

/// Whether the error of a prewrite may mean that the transaction has
/// committed already.
fn error_may_be_committed(e: &Error) -> (r: bool)
    ensures
        r == may_be_committed(e@),
{
    match e {
        Error::WriteConflict { start_ts, conflict_commit_ts, .. } => conflict_commit_ts.into_inner()
            > start_ts.into_inner(),
        Error::PessimisticDaggerNotFound { .. } => true,
        _ => false,
    }
}

impl Prewriter {
    /// The state of the prewrite as the engine holds it.
    spec fn state(&self, txn: TxnView) -> PrewriterState {
        PrewriterState {
            txn,
            commit_kind: self.commit_kind,
            secondary_keys: opt_byte_strings_view(self.secondary_keys),
            try_one_pc: self.try_one_pc,
            async_commit_pk: crate::reader::opt_key_view(self.async_commit_pk),
            final_min_commit_ts: self.final_min_commit_ts,
            daggers: errors_view(self.daggers@),
            old_values: self.old_values@,
        }
    }

    /// The command without what changes while it is carried out.
    spec fn fixed(&self) -> (TransactionKind, Seq<u8>, TimeStamp, u64, u64, TimeStamp, TimeStamp, Context) {
        (
            self.kind,
            self.primary@,
            self.start_ts,
            self.dagger_ttl,
            self.solitontxn_size,
            self.min_commit_ts,
            self.max_commit_ts,
            self.ctx,
        )
    }

    /// Whether `cmd` is this command but for what changes while it is
    /// carried out.
    spec fn serves(&self, cmd: PrewriterView) -> bool {
        &&& cmd.primary == self.primary@
        &&& cmd.start_ts == self.start_ts
        &&& cmd.dagger_ttl == self.dagger_ttl
        &&& cmd.solitontxn_size == self.solitontxn_size
        &&& cmd.min_commit_ts == self.min_commit_ts
        &&& cmd.max_commit_ts == self.max_commit_ts
        &&& cmd.ctx == self.ctx
    }

    // An async commit and a one-phase commit take their commit timestamp
    // from the greatest timestamp that the node has seen, which must be
    // up to date.
    fn check_max_ts_synced(&self, blackbrane: &Snapshot) -> (r: Result<(), Error>)
        ensures
            match r {
                Ok(()) => !((self.secondary_keys is Some || self.try_one_pc)
                    && !blackbrane@.max_ts_synced),
                Err(e) => (self.secondary_keys is Some || self.try_one_pc)
                    && !blackbrane@.max_ts_synced && e@ == (ErrorView::MaxTimestampNotSynced {
                    region_id: self.ctx.region_id,
                    start_ts: self.start_ts,
                }),
            },
    {
        if (self.secondary_keys.is_some() || self.try_one_pc) && !blackbrane.ext().max_ts_synced {
            Err(
                Error::MaxTimestampNotSynced {
                    region_id: self.ctx.get_region_id(),
                    start_ts: self.start_ts,
                },
            )
        } else {
            Ok(())
        }
    }

    // Where the range of a large batch holds no write record, no key of the
    // batch can conflict with one.
    fn can_skip_constraint_check(&mut self, blackbrane: &Snapshot)
        ensures
            (final(self).kind, tagged_mutations_view(final(self).mutations@))
                == can_skip_constraint_check_spec(
                old(self).kind,
                tagged_mutations_view(old(self).mutations@),
                blackbrane@.store.write_cf,
            ),
            final(self).serves(old(self)@),
            final(self).try_one_pc == old(self).try_one_pc,
            opt_byte_strings_view(final(self).secondary_keys) == opt_byte_strings_view(
                old(self).secondary_keys,
            ),
            final(self).old_values@ == old(self).old_values@,
    {
        let optimistic = match self.kind {
            TransactionKind::Optimistic(_) => true,
            TransactionKind::Pessimistic(_) => false,
        };
        if optimistic && self.mutations.len() > FORWARD_MIN_MUTATIONS_NUM {
            let mut mutations: Vec<(Mutation, bool)> = Vec::new();
            core::mem::swap(&mut mutations, &mut self.mutations);
            proof {
                lemma_sorted_len(tagged_mutations_view(mutations@));
            }
            let sorted = sort_mutations(mutations);
            let n = sorted.len();
            let left_key = sorted[0].0.key();
            let right_key = sorted[n - 1].0.key().clone().append_ts(TimeStamp::zero());
            if !has_data_in_range(blackbrane, CfName::Write, left_key, &right_key) {
                self.kind = TransactionKind::Optimistic(true);
            }
            self.mutations = sorted;
        }
    }

    /// Sets the prewrite to its beginning.
    fn begin(&mut self, Ghost(max_ts): Ghost<TimeStamp>)
        requires
            old(self).old_values@.len() == 0,
        ensures
            final(self).fixed() == old(self).fixed(),
            final(self).mutations == old(self).mutations,
            final(self).state(PrewriterState::begin(old(self)@, max_ts).txn) == PrewriterState::begin(
                old(self)@,
                max_ts,
            ),
    {
        self.commit_kind = if self.try_one_pc {
            CommitKind::OnePc(self.max_commit_ts)
        } else if self.secondary_keys.is_some() {
            CommitKind::Async(self.max_commit_ts)
        } else {
            CommitKind::TwoPc
        };
        let has_secondaries = match &self.secondary_keys {
            Some(keys) => keys.len() > 0,
            None => false,
        };
        self.async_commit_pk = if has_secondaries {
            Some(Key::from_cocauset(self.primary.as_slice()))
        } else {
            None
        };
        self.final_min_commit_ts = TimeStamp::zero();
        self.daggers = Vec::new();
        assert(errors_view(self.daggers@) =~= Seq::empty());
        assert(self.old_values@ =~= Seq::empty());
    }

    /// Falls back to a commit in two phases.
    fn fall_back(&mut self, txn: &mut EpaxosTxn)
        ensures
            final(self).fixed() == old(self).fixed(),
            final(self).mutations == old(self).mutations,
            final(self).state(final(txn)@) == old(self).state(old(txn)@).fallen_back(),
    {
        self.commit_kind = CommitKind::TwoPc;
        self.async_commit_pk = None;
        self.secondary_keys = None;
        self.try_one_pc = false;
        fallback_1pc_daggers(txn);
        // The daggers in memory are let go.
        txn.guards = Vec::new();
        assert(txn@.guards =~= Seq::empty());
        self.final_min_commit_ts = TimeStamp::zero();
    }

    /// Looks into an error that may come of a prewrite sent again after
    /// the commit: where the transaction has committed the key, the
    /// prewrite has done its work before. The records may be gone by now,
    /// and then the error stands.
    fn check_committed_record_on_err(
        e: Error,
        txn: &mut EpaxosTxn,
        reader: &mut blackbraneReader,
        key: &Key,
    ) -> (r: Result<(Vec<Error>, TimeStamp), Error>)
        ensures
            final(reader).same_source(old(reader)),
            match txn_commit_record_spec(old(reader).writes(), key@, old(reader).start_ts) {
                Err(e2) => r matches Err(got) && got@ == e2 && final(txn)@ == old(txn)@,
                Ok(TxnCommitRecordView::SingleRecord { commit_ts, write }) => if write.write_type
                    != WriteType::Rollback {
                    outcome_view(r) == Ok::<(Seq<ErrorView>, TimeStamp), ErrorView>(
                        (Seq::empty(), commit_ts),
                    ) && final(txn)@ == old(txn)@.cleared()
                } else {
                    r matches Err(got) && got@ == e@ && final(txn)@ == old(txn)@
                },
                Ok(_) => r matches Err(got) && got@ == e@ && final(txn)@ == old(txn)@,
            },
    {
        let record = match reader.get_solitontxn_commit_record(key) {
            Ok(r) => r,
            Err(e2) => {
                return Err(e2);
            },
        };
        match record {
            TxnCommitRecord::SingleRecord { commit_ts, write } => {
                match write.write_type {
                    WriteType::Rollback => Err(e),
                    _ => {
                        txn.clear();
                        let none: Vec<Error> = Vec::new();
                        assert(errors_view(none@) =~= Seq::empty());
                        Ok((none, commit_ts))
                    },
                }
            },
            _ => Err(e),
        }
    }

    /// Prewrites one mutation of the batch; gives the outcome where the
    /// prewrite ends with it.
    fn step(
        &mut self,
        txn: &mut EpaxosTxn,
        reader: &mut blackbraneReader,
        extra_op: ExtraOp,
        m: Mutation,
        is_pessimistic_dagger: bool,
        Ghost(cmd): Ghost<PrewriterView>,
    ) -> (r: Option<Result<(Vec<Error>, TimeStamp), Error>>)
        requires
            old(self).serves(cmd),
            old(reader).start_ts == old(self).start_ts,
            old(reader).reader.term() == old(self).ctx.term,
            old(reader).reader.version() == old(self).ctx.version,
        ensures
            final(self).fixed() == old(self).fixed(),
            final(self).mutations == old(self).mutations,
            final(reader).same_source(old(reader)),
            (opt_outcome_view(r), final(self).state(final(txn)@)) == prewriter_step(
                old(self).state(old(txn)@),
                cmd,
                old(self).kind,
                extra_op,
                old(reader).reader.snapshot(),
                m@,
                is_pessimistic_dagger,
            ),
    {
        proof {
            reveal(prewriter_step);
        }
        let ghost st = self.state(txn@);
        let key = m.key().clone();
        let mutation_type = m.mutation_type();
        let is_pk = match &self.async_commit_pk {
            Some(pk) => pk.same(m.key()),
            None => false,
        };
        let props = TransactionProperties {
            start_ts: self.start_ts,
            kind: self.kind,
            commit_kind: self.commit_kind,
            primary: crate::codec::copy_bytes(self.primary.as_slice()),
            solitontxn_size: self.solitontxn_size,
            dagger_ttl: self.dagger_ttl,
            min_commit_ts: self.min_commit_ts,
            need_old_value: match extra_op {
                ExtraOp::ReadOldValue => true,
                ExtraOp::Noop => false,
            },
            is_retry_request: self.ctx.is_retry_request,
        };
        assert(props@ == st.props(cmd, self.kind, extra_op));
        let need_min_commit_ts = self.secondary_keys.is_some() || self.try_one_pc;
        let prewrite_result = if is_pk {
            prewrite(txn, reader, &props, m, &self.secondary_keys, is_pessimistic_dagger)
        } else {
            let no_secondaries: Option<Vec<Vec<u8>>> = match &self.secondary_keys {
                Some(_) => Some(Vec::new()),
                None => None,
            };
            proof {
                if no_secondaries is Some {
                    assert(byte_strings_view(no_secondaries.unwrap()) =~= Seq::empty());
                }
            }
            prewrite(txn, reader, &props, m, &no_secondaries, is_pessimistic_dagger)
        };
        match prewrite_result {
            Ok((ts, old_value)) => {
                if !(need_min_commit_ts && ts.is_zero()) {
                    if need_min_commit_ts && self.final_min_commit_ts.into_inner() < ts.into_inner() {
                        self.final_min_commit_ts = ts;
                    }
                    if old_value.resolved() {
                        let versioned = key.append_ts(txn.start_ts);
                        self.old_values.insert(versioned, old_value, Some(mutation_type));
                    }
                } else {
                    self.fall_back(txn);
                }
                None
            },
            Err(e) => {
                if error_may_be_committed(&e) {
                    return Some(Prewriter::check_committed_record_on_err(e, txn, reader, &key));
                }
                match e {
                    Error::CommitTsTooLarge { .. } => {
                        self.fall_back(txn);
                        None
                    },
                    Error::KeyIsDaggered { .. } => {
                        let ghost ev = e@;
                        let ghost before = errors_view(self.daggers@);
                        self.daggers.push(e);
                        assert(errors_view(self.daggers@) =~= before.push(ev));
                        None
                    },
                    _ => Some(Err(e)),
                }
            },
        }
    }

    /// Prewrites the mutations one after another; gives the errors of the
    /// keys that another transaction holds a dagger on, and the least
    /// commit timestamp of the batch.
    #[verifier::loop_isolation(false)]
    fn prewrite(&mut self, txn: &mut EpaxosTxn, reader: &mut blackbraneReader, extra_op: ExtraOp) -> (r:
        Result<(Vec<Error>, TimeStamp), Error>)
        requires
            old(reader).start_ts == old(self).start_ts,
            old(reader).reader.term() == old(self).ctx.term,
            old(reader).reader.version() == old(self).ctx.version,
            old(txn)@ == PrewriterState::begin(old(self)@, old(txn)@.max_ts).txn,
            old(self).old_values@.len() == 0,
        ensures
            final(self).fixed() == old(self).fixed(),
            final(reader).same_source(old(reader)),
            ({
                let (outcome, st) = prewriter_run(
                    PrewriterState::begin(old(self)@, old(txn)@.max_ts),
                    old(self)@,
                    old(self).kind,
                    extra_op,
                    old(reader).reader.snapshot(),
                    tagged_mutations_view(old(self).mutations@),
                    0,
                );
                &&& outcome_view(r) == outcome
                &&& final(txn)@ == st.txn
                &&& opt_byte_strings_view(final(self).secondary_keys) == st.secondary_keys
                &&& final(self).try_one_pc == st.try_one_pc
                &&& final(self).old_values@ == st.old_values
            }),
    {
        let ghost cmd = self@;
        let ghost kind = self.kind;
        let ghost snapshot = reader.reader.snapshot();
        let ghost all = tagged_mutations_view(self.mutations@);
        let ghost begin = PrewriterState::begin(cmd, txn@.max_ts);
        self.begin(Ghost(txn@.max_ts));
        let mut mutations: Vec<(Mutation, bool)> = Vec::new();
        core::mem::swap(&mut mutations, &mut self.mutations);
        let mut stack = reversed(mutations);
        let total = stack.len();
        let mut done: usize = 0;
        while stack.len() > 0
            invariant
                self.fixed() == old(self).fixed(),
                self.serves(cmd),
                self.kind == kind,
                reader.same_source(old(reader)),
                reader.reader.snapshot() == snapshot,
                reader.start_ts == self.start_ts,
                reader.reader.term() == self.ctx.term,
                reader.reader.version() == self.ctx.version,
                total == all.len(),
                done + stack@.len() == total,
                forall|i: int|
                    0 <= i < stack@.len() ==> (stack@[i].0@, stack@[i].1) == all[all.len() - 1 - i],
                prewriter_run(self.state(txn@), cmd, kind, extra_op, snapshot, all, done as int)
                    == prewriter_run(begin, cmd, kind, extra_op, snapshot, all, 0),
            decreases stack.len(),
        {
            let (m, is_pessimistic_dagger) = stack.pop().unwrap();
            assert((m@, is_pessimistic_dagger) == all[done as int]);
            match self.step(txn, reader, extra_op, m, is_pessimistic_dagger, Ghost(cmd)) {
                Some(outcome) => {
                    return outcome;
                },
                None => {},
            }
            done += 1;
        }
        let mut daggers: Vec<Error> = Vec::new();
        core::mem::swap(&mut daggers, &mut self.daggers);
        Ok((daggers, self.final_min_commit_ts))
    }

    /// Makes up what the prewrite hands back.
    fn write_result(
        self,
        daggers: Vec<Error>,
        txn: EpaxosTxn,
        final_min_commit_ts: TimeStamp,
        rows: usize,
        async_apply_prewrite: bool,
        Ghost(cmd): Ghost<PrewriterView>,
    ) -> (r: WriteResult)
        requires
            cmd.ctx == self.ctx,
        ensures
            r@ == write_result_spec(
                cmd,
                self.state(txn@),
                errors_view(daggers@),
                final_min_commit_ts,
                rows,
                async_apply_prewrite,
            ),
    {
        let mut txn = txn;
        let async_commit_ts = if self.secondary_keys.is_some() {
            final_min_commit_ts
        } else {
            TimeStamp::zero()
        };
        // Only a commit that was made lets the caller be answered early.
        let one_pc = self.try_one_pc && !final_min_commit_ts.is_zero();
        let response_policy = if daggers.is_empty() && (!async_commit_ts.is_zero() || one_pc)
            && async_apply_prewrite {
            ResponsePolicy::OnCommitted
        } else {
            ResponsePolicy::OnApplied
        };
        if daggers.is_empty() {
            let (one_pc_ts, released_daggers) = if one_pc {
                one_pc_commit_ts(true, &mut txn, final_min_commit_ts)
            } else {
                (TimeStamp::zero(), None)
            };
            let none: Vec<Error> = Vec::new();
            assert(errors_view(none@) =~= Seq::empty());
            let pr = ProcessResult::PrewriteResult {
                result: PrewriteResult {
                    daggers: none,
                    min_commit_ts: async_commit_ts,
                    one_pc_commit_ts: one_pc_ts,
                },
            };
            // The mark lets those who follow the changes know that no
            // commit is to come.
            let extra = TxnExtra { old_values: self.old_values, one_pc: self.try_one_pc };
            // The daggers in memory are let go once the batch is written.
            let dagger_guards = txn.take_guards();
            let mut to_be_write = WriteData::new(txn.into_modifies(), extra);
            to_be_write.set_disk_full_opt(self.ctx.get_disk_full_opt());
            WriteResult {
                ctx: self.ctx,
                to_be_write,
                rows,
                pr,
                dagger_guards,
                response_policy,
                released_daggers,
            }
        } else {
            // Nothing is written while some keys are locked.
            let pr = ProcessResult::PrewriteResult {
                result: PrewriteResult {
                    daggers,
                    min_commit_ts: async_commit_ts,
                    one_pc_commit_ts: TimeStamp::zero(),
                },
            };
            let dagger_guards: Vec<crate::txn::MemoryDagger> = Vec::new();
            assert(crate::txn::guards_view(dagger_guards@) =~= Seq::empty());
            WriteResult {
                ctx: self.ctx,
                to_be_write: WriteData::default(),
                rows,
                pr,
                dagger_guards,
                response_policy,
                released_daggers: None,
            }
        }
    }

    /// Carries out the prewrite.
    fn process_write(self, blackbrane: Snapshot, context: &mut WriteContext) -> (r: Result<
        WriteResult,
        Error,
    >)
        requires
            self.old_values@.len() == 0,
        ensures
            final(context).extra_op == old(context).extra_op,
            final(context).async_apply_prewrite == old(context).async_apply_prewrite,
            match r {
                Ok(result) => process_write_spec(self@, blackbrane@, *old(context)) == (
                    Ok::<WriteResultView, ErrorView>(result@),
                    final(context).concurrency_manager@,
                ),
                Err(e) => process_write_spec(self@, blackbrane@, *old(context)) == (
                    Err::<WriteResultView, ErrorView>(e@),
                    final(context).concurrency_manager@,
                ),
            },
    {
        let mut this = self;
        let rows = this.mutations.len();
        this.can_skip_constraint_check(&blackbrane);
        match this.check_max_ts_synced(&blackbrane) {
            Ok(()) => {},
            Err(e) => {
                return Err(e);
            },
        }
        let mut txn = EpaxosTxn::new(this.start_ts, context.concurrency_manager);
        let mut reader = blackbraneReader::new_with_ctx(this.start_ts, blackbrane, &this.ctx);
        let ghost cmd = self@;
        let ghost begin_kind = this.kind;
        let ghost begin_mutations = tagged_mutations_view(this.mutations@);
        proof {
            // The order of the mutations and the kind of the transaction
            // come into the prewrite of a key only through its properties.
            lemma_run_ignores_batch(
                PrewriterState::begin(cmd, txn@.max_ts),
                this@,
                cmd,
                begin_kind,
                context.extra_op,
                blackbrane@,
                begin_mutations,
                0,
            );
        }
        let res = this.prewrite(&mut txn, &mut reader, context.extra_op);
        context.concurrency_manager = txn.concurrency_manager;
        let (daggers, final_min_commit_ts) = match res {
            Ok(found) => found,
            Err(e) => {
                return Err(e);
            },
        };
        Ok(
            this.write_result(
                daggers,
                txn,
                final_min_commit_ts,
                rows,
                context.async_apply_prewrite,
                Ghost(cmd),
            ),
        )
    }
}

/// The prewrite of a key goes by the command only through what the command
/// and its copy with the batch in another order have in common.
proof fn lemma_run_ignores_batch(
    st: PrewriterState,
    a: PrewriterView,
    b: PrewriterView,
    kind: TransactionKind,
    extra_op: ExtraOp,
    snapshot: SnapshotView,
    mutations: Seq<(MutationView, bool)>,
    i: int,
)
    requires
        a == (PrewriterView { kind: a.kind, mutations: a.mutations, ..b }),
    ensures
        prewriter_run(st, a, kind, extra_op, snapshot, mutations, i) == prewriter_run(
            st,
            b,
            kind,
            extra_op,
            snapshot,
            mutations,
            i,
        ),
    decreases mutations.len() - i,
{
    reveal(prewriter_step);
    if 0 <= i < mutations.len() {
        let (outcome, st1) = prewriter_step(
            st,
            a,
            kind,
            extra_op,
            snapshot,
            mutations[i].0,
            mutations[i].1,
        );
        assert(st.props(a, kind, extra_op) == st.props(b, kind, extra_op));
        if outcome is None {
            lemma_run_ignores_batch(st1, a, b, kind, extra_op, snapshot, mutations, i + 1);
        }
    }
}

} // verus!
