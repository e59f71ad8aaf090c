//! The ordered key-value store under the transaction layer: three column
//! families of byte strings, changed by batches and read through snapshots.

use vstd::prelude::*;
use crate::codec::{
    bytes_eq, bytes_lt, compare, copy_bytes, lemma_bytes_lt_trans, lemma_bytes_order_total,
    ByteOrder,
};
use crate::dagger::{PessimisticDagger, PessimisticDaggerView};
use crate::key::Key;
use crate::timestamp::TimeStamp;

verus! {

/// The column families of the store.
#[derive(Clone, Copy, Debug, PartialEq, Eq, Structural)]
pub enum CfName {
    /// Values too long to be kept in a record, each under the key's version
    /// at the start timestamp of the transaction that wrote it.
    Default,
    /// The daggers, each under its key.
    Dagger,
    /// The write records, each under the key's version at the commit
    /// timestamp.
    Write,
}

/// The column family of the long values.
pub const CF_DEFAULT: CfName = CfName::Default;

/// The column family of the daggers.
pub const CF_LOCK: CfName = CfName::Dagger;

/// The column family of the write records.
pub const CF_WRITE: CfName = CfName::Write;

/// What a column family holds: its entries, each a key with its value, in
/// the order of the keys.
pub type Entries = Seq<(Seq<u8>, Seq<u8>)>;

/// The keys of `s` ascend strictly.
pub open spec fn sorted(s: Entries) -> bool {
    forall|i: int, j: int| 0 <= i < j < s.len() ==> bytes_lt(#[trigger] s[i].0, #[trigger] s[j].0)
}

/// The first index from `i` on whose key is not less than `k`; the length
/// of `s` where there is none.
pub open spec fn first_from(s: Entries, k: Seq<u8>, i: int) -> int
    decreases s.len() - i,
{
    if i < 0 || i >= s.len() {
        s.len() as int
    } else if !bytes_lt(s[i].0, k) {
        i
    } else {
        first_from(s, k, i + 1)
    }
}

/// Where a seek for `k` lands: at the first entry whose key is not less than
/// `k`.
pub open spec fn seek_spec(s: Entries, k: Seq<u8>) -> int {
    first_from(s, k, 0)
}

/// The value stored under `k`.
pub open spec fn get_spec(s: Entries, k: Seq<u8>) -> Option<Seq<u8>> {
    let i = seek_spec(s, k);
    if i < s.len() && s[i].0 == k {
        Some(s[i].1)
    } else {
        None
    }
}

/// The entries after `v` was stored under `k`.
pub open spec fn put_spec(s: Entries, k: Seq<u8>, v: Seq<u8>) -> Entries {
    let i = seek_spec(s, k);
    if i < s.len() && s[i].0 == k {
        s.update(i, (k, v))
    } else {
        s.insert(i, (k, v))
    }
}

/// The entries after what was stored under `k` was deleted.
pub open spec fn delete_spec(s: Entries, k: Seq<u8>) -> Entries {
    let i = seek_spec(s, k);
    if i < s.len() && s[i].0 == k {
        s.remove(i)
    } else {
        s
    }
}

/// The entries after those with a key from `start` on and before `end` were
/// deleted.
pub open spec fn delete_range_spec(s: Entries, start: Seq<u8>, end: Seq<u8>) -> Entries {
    let i = seek_spec(s, start);
    let j = seek_spec(s, end);
    if i < j {
        s.take(i) + s.skip(j)
    } else {
        s
    }
}

/// A seek lands inside the entries or at their end, after the keys that are
/// less than `k` and on a key that is not.
pub proof fn lemma_first_from(s: Entries, k: Seq<u8>, i: int)
    requires
        0 <= i <= s.len(),
    ensures
        i <= first_from(s, k, i) <= s.len(),
        forall|j: int| i <= j < first_from(s, k, i) ==> bytes_lt(#[trigger] s[j].0, k),
        first_from(s, k, i) < s.len() ==> !bytes_lt(s[first_from(s, k, i)].0, k),
    decreases s.len() - i,
{
    if i < s.len() && bytes_lt(s[i].0, k) {
        lemma_first_from(s, k, i + 1);
    }
}

/// In sorted entries no key from where a seek lands on is less than `k`.
pub proof fn lemma_seek_sorted(s: Entries, k: Seq<u8>)
    requires
        sorted(s),
    ensures
        0 <= seek_spec(s, k) <= s.len(),
        forall|j: int| 0 <= j < seek_spec(s, k) ==> bytes_lt(#[trigger] s[j].0, k),
        forall|j: int| seek_spec(s, k) <= j < s.len() ==> !bytes_lt(#[trigger] s[j].0, k),
{
    lemma_first_from(s, k, 0);
    let r = seek_spec(s, k);
    assert forall|j: int| r <= j < s.len() implies !bytes_lt(#[trigger] s[j].0, k) by {
        if j > r && bytes_lt(s[j].0, k) {
            lemma_bytes_lt_trans(s[r].0, s[j].0, k);
        }
    }
}

/// The index that parts the keys less than `k` from the others is where a
/// seek lands.
pub proof fn lemma_seek_unique(s: Entries, k: Seq<u8>, r: int)
    requires
        0 <= r <= s.len(),
        forall|j: int| 0 <= j < r ==> bytes_lt(#[trigger] s[j].0, k),
        r < s.len() ==> !bytes_lt(s[r].0, k),
    ensures
        seek_spec(s, k) == r,
{
    lemma_first_from(s, k, 0);
}

/// In sorted entries, a key is stored at most once, and a seek for a stored
/// key lands on it.
pub proof fn lemma_seek_finds(s: Entries, i: int)
    requires
        sorted(s),
        0 <= i < s.len(),
    ensures
        seek_spec(s, s[i].0) == i,
        get_spec(s, s[i].0) == Some(s[i].1),
{
    let k = s[i].0;
    lemma_bytes_order_total(k, k);
    lemma_seek_unique(s, k, i);
}

/// Storing a value keeps the entries sorted.
pub proof fn lemma_put_sorted(s: Entries, k: Seq<u8>, v: Seq<u8>)
    requires
        sorted(s),
    ensures
        sorted(put_spec(s, k, v)),
{
    lemma_seek_sorted(s, k);
    let i = seek_spec(s, k);
    let t = put_spec(s, k, v);
    if i < s.len() && s[i].0 == k {
        assert forall|a: int, b: int| 0 <= a < b < t.len() implies bytes_lt(
            #[trigger] t[a].0,
            #[trigger] t[b].0,
        ) by {
            assert(t[a].0 == s[a].0);
            assert(t[b].0 == s[b].0);
        }
    } else {
        assert forall|a: int, b: int| 0 <= a < b < t.len() implies bytes_lt(
            #[trigger] t[a].0,
            #[trigger] t[b].0,
        ) by {
            if b < i {
                assert(t[a] == s[a] && t[b] == s[b]);
            } else if b == i {
                assert(t[a] == s[a]);
            } else if a == i {
                assert(t[b] == s[b - 1]);
                lemma_bytes_order_total(s[b - 1].0, k);
                if b - 1 > i {
                    lemma_bytes_order_total(s[i].0, k);
                    lemma_bytes_lt_trans(k, s[i].0, s[b - 1].0);
                }
            } else if a < i {
                assert(t[a] == s[a] && t[b] == s[b - 1]);
                if a == b - 1 {
                } else {
                    assert(bytes_lt(s[a].0, s[b - 1].0));
                }
            } else {
                assert(t[a] == s[a - 1] && t[b] == s[b - 1]);
            }
        }
    }
}

/// Deleting a key keeps the entries sorted.
pub proof fn lemma_delete_sorted(s: Entries, k: Seq<u8>)
    requires
        sorted(s),
    ensures
        sorted(delete_spec(s, k)),
{
    lemma_first_from(s, k, 0);
    let i = seek_spec(s, k);
    let t = delete_spec(s, k);
    if i < s.len() && s[i].0 == k {
        assert forall|a: int, b: int| 0 <= a < b < t.len() implies bytes_lt(
            #[trigger] t[a].0,
            #[trigger] t[b].0,
        ) by {
            let a0 = if a < i { a } else { a + 1 };
            let b0 = if b < i { b } else { b + 1 };
            assert(t[a] == s[a0] && t[b] == s[b0]);
        }
    }
}

/// In sorted entries, the value stored under a key is the value beside the
/// key, wherever the key stands.
pub proof fn lemma_get_is_stored(s: Entries, k: Seq<u8>)
    requires
        sorted(s),
    ensures
        get_spec(s, k) matches Some(v) ==> exists|j: int|
            0 <= j < s.len() && #[trigger] s[j] == (k, v),
        forall|j: int| 0 <= j < s.len() && (#[trigger] s[j]).0 == k ==> get_spec(s, k) == Some(s[j].1),
{
    lemma_first_from(s, k, 0);
    if get_spec(s, k) is Some {
        let i = seek_spec(s, k);
        assert(s[i] == (k, get_spec(s, k).unwrap()));
    }
    assert forall|j: int| 0 <= j < s.len() && (#[trigger] s[j]).0 == k implies get_spec(s, k)
        == Some(s[j].1) by {
        lemma_seek_finds(s, j);
    }
}

/// Sorted entries are a map: after a value was stored under a key, the key
/// holds the value, and every other key holds what it held.
pub proof fn lemma_get_after_put(s: Entries, k: Seq<u8>, v: Seq<u8>, k2: Seq<u8>)
    requires
        sorted(s),
    ensures
        sorted(put_spec(s, k, v)),
        get_spec(put_spec(s, k, v), k2) == if k2 == k {
            Some(v)
        } else {
            get_spec(s, k2)
        },
{
    lemma_put_sorted(s, k, v);
    lemma_first_from(s, k, 0);
    let i = seek_spec(s, k);
    let t = put_spec(s, k, v);
    let replaced = i < s.len() && s[i].0 == k;
    lemma_get_is_stored(s, k2);
    lemma_get_is_stored(t, k2);
    assert(t[i] == (k, v));
    if k2 != k {
        if get_spec(s, k2) is Some {
            let j = choose|j: int| 0 <= j < s.len() && #[trigger] s[j] == (k2, get_spec(s, k2).unwrap());
            let j2 = if replaced || j < i { j } else { j + 1 };
            assert(t[j2] == s[j]);
        } else if get_spec(t, k2) is Some {
            let j2 = choose|j: int| 0 <= j < t.len() && #[trigger] t[j] == (k2, get_spec(t, k2).unwrap());
            let j = if replaced || j2 < i { j2 } else { j2 - 1 };
            assert(s[j] == t[j2]);
        }
    }
}

/// After what was stored under a key was deleted, the key holds nothing,
/// and every other key holds what it held.
pub proof fn lemma_get_after_delete(s: Entries, k: Seq<u8>, k2: Seq<u8>)
    requires
        sorted(s),
    ensures
        sorted(delete_spec(s, k)),
        get_spec(delete_spec(s, k), k2) == if k2 == k {
            None
        } else {
            get_spec(s, k2)
        },
{
    lemma_delete_sorted(s, k);
    lemma_first_from(s, k, 0);
    let i = seek_spec(s, k);
    let t = delete_spec(s, k);
    let removed = i < s.len() && s[i].0 == k;
    lemma_get_is_stored(s, k2);
    lemma_get_is_stored(t, k2);
    lemma_get_is_stored(s, k);
    if get_spec(t, k2) is Some {
        let j2 = choose|j: int| 0 <= j < t.len() && #[trigger] t[j] == (k2, get_spec(t, k2).unwrap());
        let j = if !removed || j2 < i { j2 } else { j2 + 1 };
        assert(s[j] == t[j2]);
        if k2 == k {
            // The key stood once, at `i`, which is gone.
            lemma_seek_finds(s, j);
        }
    } else if k2 != k && get_spec(s, k2) is Some {
        let j = choose|j: int| 0 <= j < s.len() && #[trigger] s[j] == (k2, get_spec(s, k2).unwrap());
        let j2 = if !removed || j < i { j } else { j - 1 };
        assert(t[j2] == s[j]);
    }
}

/// One entry of a column family.
#[derive(Debug, PartialEq, Eq)]
pub struct Entry {
    key: Vec<u8>,
    value: Vec<u8>,
}

/// One column family: byte strings stored under byte strings, in the order
/// of the keys.
#[derive(Debug, PartialEq, Eq)]
pub struct ColumnFamily {
    entries: Vec<Entry>,
}

impl View for ColumnFamily {
    type V = Entries;

    closed spec fn view(&self) -> Entries {
        Seq::new(self.entries@.len(), |i: int| (self.entries@[i].key@, self.entries@[i].value@))
    }
}

impl Clone for ColumnFamily {
    fn clone(&self) -> (r: Self)
        ensures
            r@ == self@,
    {
        proof {
            use_type_invariant(self);
        }
        let mut entries: Vec<Entry> = Vec::new();
        let mut i: usize = 0;
        while i < self.entries.len()
            invariant
                i <= self.entries.len(),
                entries@.len() == i,
                forall|j: int|
                    0 <= j < i ==> entries@[j].key@ == self.entries@[j].key@ && entries@[j].value@
                        == self.entries@[j].value@,
            decreases self.entries.len() - i,
        {
            entries.push(
                Entry {
                    key: copy_bytes(self.entries[i].key.as_slice()),
                    value: copy_bytes(self.entries[i].value.as_slice()),
                },
            );
            i += 1;
        }
        let ghost v = Seq::new(entries@.len(), |i: int| (entries@[i].key@, entries@[i].value@));
        assert(v =~= self@);
        ColumnFamily { entries }
    }
}

impl ColumnFamily {
    #[verifier::type_invariant]
    spec fn inv(self) -> bool {
        sorted(self@)
    }

    /// A column family that holds nothing.
    pub fn new() -> (r: ColumnFamily)
        ensures
            r@ == Seq::<(Seq<u8>, Seq<u8>)>::empty(),
    {
        let entries: Vec<Entry> = Vec::new();
        let ghost v = Seq::new(entries@.len(), |i: int| (entries@[i].key@, entries@[i].value@));
        assert(v =~= Seq::<(Seq<u8>, Seq<u8>)>::empty());
        ColumnFamily { entries }
    }

    /// The number of entries.
    pub fn len(&self) -> (r: usize)
        ensures
            r == self@.len(),
            sorted(self@),
    {
        proof {
            use_type_invariant(self);
        }
        self.entries.len()
    }

    /// The key of the entry at `i`.
    pub fn key_at(&self, i: usize) -> (r: &Vec<u8>)
        requires
            i < self@.len(),
        ensures
            r@ == self@[i as int].0,
    {
        &self.entries[i].key
    }

    /// The value of the entry at `i`.
    pub fn value_at(&self, i: usize) -> (r: &Vec<u8>)
        requires
            i < self@.len(),
        ensures
            r@ == self@[i as int].1,
    {
        &self.entries[i].value
    }

    /// The index of the first entry whose key is not less than `key`; the
    /// number of entries where there is none.
    pub fn seek(&self, key: &[u8]) -> (r: usize)
        ensures
            r == seek_spec(self@, key@),
            r <= self@.len(),
            sorted(self@),
    {
        proof {
            use_type_invariant(self);
        }
        let ghost s = self@;
        let mut lo: usize = 0;
        let mut hi: usize = self.entries.len();
        while lo < hi
            invariant
                lo <= hi <= self.entries.len(),
                s == self@,
                s.len() == self.entries.len(),
                sorted(s),
                forall|j: int| 0 <= j < lo ==> bytes_lt(#[trigger] s[j].0, key@),
                forall|j: int| hi <= j < s.len() ==> !bytes_lt(#[trigger] s[j].0, key@),
            decreases hi - lo,
        {
            let mid = lo + (hi - lo) / 2;
            assert(s[mid as int].0 == self.entries@[mid as int].key@);
            match compare(self.entries[mid].key.as_slice(), key) {
                ByteOrder::Less => {
                    proof {
                        assert forall|j: int| 0 <= j < mid + 1 implies bytes_lt(
                            #[trigger] s[j].0,
                            key@,
                        ) by {
                            if j < mid {
                                lemma_bytes_lt_trans(s[j].0, s[mid as int].0, key@);
                            }
                        }
                    }
                    lo = mid + 1;
                },
                _ => {
                    proof {
                        lemma_bytes_order_total(s[mid as int].0, key@);
                        assert forall|j: int| mid <= j < s.len() implies !bytes_lt(
                            #[trigger] s[j].0,
                            key@,
                        ) by {
                            if j > mid && bytes_lt(s[j].0, key@) {
                                lemma_bytes_lt_trans(s[mid as int].0, s[j].0, key@);
                            }
                        }
                    }
                    hi = mid;
                },
            }
        }
        proof {
            lemma_seek_unique(s, key@, lo as int);
        }
        lo
    }

    /// The value stored under `key`.
    pub fn get(&self, key: &[u8]) -> (r: Option<&Vec<u8>>)
        ensures
            match r {
                Some(v) => get_spec(self@, key@) == Some(v@),
                None => get_spec(self@, key@) is None,
            },
    {
        let i = self.seek(key);
        if i < self.entries.len() && bytes_eq(self.entries[i].key.as_slice(), key) {
            Some(&self.entries[i].value)
        } else {
            None
        }
    }

    /// Stores `value` under `key`, in place of what was stored there.
    pub fn put(&mut self, key: Vec<u8>, value: Vec<u8>)
        ensures
            final(self)@ == put_spec(old(self)@, key@, value@),
    {
        let i = self.seek(key.as_slice());
        let ghost s = self@;
        proof {
            lemma_put_sorted(s, key@, value@);
        }
        if i < self.entries.len() && bytes_eq(self.entries[i].key.as_slice(), key.as_slice()) {
            let ghost t = s.update(i as int, (key@, value@));
            assert(s[i as int].0 == key@);
            let mut entries: Vec<Entry> = Vec::new();
            core::mem::swap(&mut entries, &mut self.entries);
            entries[i] = Entry { key, value };
            assert(Seq::new(entries@.len(), |j: int| (entries@[j].key@, entries@[j].value@)) =~= t);
            *self = ColumnFamily { entries };
        } else {
            let ghost t = s.insert(i as int, (key@, value@));
            let mut entries: Vec<Entry> = Vec::new();
            core::mem::swap(&mut entries, &mut self.entries);
            entries.insert(i, Entry { key, value });
            assert(Seq::new(entries@.len(), |j: int| (entries@[j].key@, entries@[j].value@)) =~= t);
            *self = ColumnFamily { entries };
        }
    }

    /// Deletes what is stored under `key`.
    pub fn delete(&mut self, key: &[u8])
        ensures
            final(self)@ == delete_spec(old(self)@, key@),
    {
        let i = self.seek(key);
        let ghost s = self@;
        proof {
            lemma_delete_sorted(s, key@);
        }
        if i < self.entries.len() && bytes_eq(self.entries[i].key.as_slice(), key) {
            let ghost t = s.remove(i as int);
            let mut entries: Vec<Entry> = Vec::new();
            core::mem::swap(&mut entries, &mut self.entries);
            entries.remove(i);
            assert(Seq::new(entries@.len(), |j: int| (entries@[j].key@, entries@[j].value@)) =~= t);
            *self = ColumnFamily { entries };
        }
    }
}


/// Deleting a range of keys keeps the entries sorted.
pub proof fn lemma_delete_range_sorted(s: Entries, i: int, j: int)
    requires
        sorted(s),
        0 <= i <= j <= s.len(),
    ensures
        sorted(s.take(i) + s.skip(j)),
{
    let t = s.take(i) + s.skip(j);
    assert forall|a: int, b: int| 0 <= a < b < t.len() implies bytes_lt(
        #[trigger] t[a].0,
        #[trigger] t[b].0,
    ) by {
        let a0 = if a < i { a } else { a - i + j };
        let b0 = if b < i { b } else { b - i + j };
        assert(t[a] == s[a0] && t[b] == s[b0]);
    }
}

impl ColumnFamily {
    /// Deletes the entries with a key from `start` on and before `end`.
    pub fn delete_range(&mut self, start: &[u8], end: &[u8])
        ensures
            final(self)@ == delete_range_spec(old(self)@, start@, end@),
    {
        let i = self.seek(start);
        let j = self.seek(end);
        let ghost s = self@;
        if i < j {
            let mut entries: Vec<Entry> = Vec::new();
            core::mem::swap(&mut entries, &mut self.entries);
            let mut n: usize = 0;
            while n < j - i
                invariant
                    i < j <= s.len(),
                    n <= j - i,
                    sorted(s),
                    Seq::new(entries@.len(), |x: int| (entries@[x].key@, entries@[x].value@))
                        == s.take(i as int) + s.skip(i + n),
                decreases j - i - n,
            {
                let ghost before = Seq::new(
                    entries@.len(),
                    |x: int| (entries@[x].key@, entries@[x].value@),
                );
                let ghost prior = entries@;
                assert(before.len() == s.len() - n);
                entries.remove(i);
                proof {
                    let now = Seq::new(
                        entries@.len(),
                        |x: int| (entries@[x].key@, entries@[x].value@),
                    );
                    let target = s.take(i as int) + s.skip(i + n + 1);
                    assert(now.len() == target.len());
                    assert forall|x: int| 0 <= x < now.len() implies now[x] == target[x] by {
                        if x < i {
                            assert(entries@[x] == prior[x]);
                            assert(before[x] == s[x]);
                        } else {
                            assert(entries@[x] == prior[x + 1]);
                            assert(before[x + 1] == s[x + 1 + n]);
                        }
                    }
                    assert(now =~= target);
                }
                n += 1;
            }
            proof {
                lemma_delete_range_sorted(s, i as int, j as int);
            }
            *self = ColumnFamily { entries };
        }
    }
}

/// One change to the store.
#[derive(Debug, PartialEq, Eq)]
pub enum Modify {
    /// Delete what is stored under the key.
    Delete(CfName, Key),
    /// Store the value under the key.
    Put(CfName, Key, Vec<u8>),
    /// Store a pessimistic dagger under the key.
    PessimisticDagger(Key, PessimisticDagger),
    /// Delete what is stored from the first key on and before the second;
    /// with the flag set, only tell of it and delete nothing.
    DeleteRange(CfName, Key, Key, bool),
}

/// What a change to the store holds.
pub enum ModifyView {
    Delete(CfName, Seq<u8>),
    Put(CfName, Seq<u8>, Seq<u8>),
    PessimisticDagger(Seq<u8>, PessimisticDaggerView),
    DeleteRange(CfName, Seq<u8>, Seq<u8>, bool),
}

impl View for Modify {
    type V = ModifyView;

    open spec fn view(&self) -> ModifyView {
        match *self {
            Modify::Delete(cf, k) => ModifyView::Delete(cf, k@),
            Modify::Put(cf, k, v) => ModifyView::Put(cf, k@, v@),
            Modify::PessimisticDagger(k, d) => ModifyView::PessimisticDagger(k@, d@),
            Modify::DeleteRange(cf, a, b, notify_only) => ModifyView::DeleteRange(
                cf,
                a@,
                b@,
                notify_only,
            ),
        }
    }
}

impl Clone for Modify {
    fn clone(&self) -> (r: Self)
        ensures
            r@ == self@,
    {
        match self {
            Modify::Delete(cf, k) => Modify::Delete(*cf, k.clone()),
            Modify::Put(cf, k, v) => Modify::Put(*cf, k.clone(), copy_bytes(v.as_slice())),
            Modify::PessimisticDagger(k, d) => Modify::PessimisticDagger(k.clone(), d.clone()),
            Modify::DeleteRange(cf, a, b, notify_only) => Modify::DeleteRange(
                *cf,
                a.clone(),
                b.clone(),
                *notify_only,
            ),
        }
    }
}

/// What a list of changes holds.
pub open spec fn modifies_view(v: Seq<Modify>) -> Seq<ModifyView> {
    Seq::new(v.len(), |i: int| v[i]@)
}

/// What the three column families hold.
pub struct StoreView {
    pub default_cf: Entries,
    pub dagger_cf: Entries,
    pub write_cf: Entries,
}

impl StoreView {
    /// What the column family `cf` holds.
    pub open spec fn cf(self, cf: CfName) -> Entries {
        match cf {
            CfName::Default => self.default_cf,
            CfName::Dagger => self.dagger_cf,
            CfName::Write => self.write_cf,
        }
    }

    /// The store with the column family `cf` holding `entries`.
    pub open spec fn with_cf(self, cf: CfName, entries: Entries) -> StoreView {
        match cf {
            CfName::Default => StoreView { default_cf: entries, ..self },
            CfName::Dagger => StoreView { dagger_cf: entries, ..self },
            CfName::Write => StoreView { write_cf: entries, ..self },
        }
    }

    /// The store after one change. A pessimistic dagger is stored as the
    /// dagger it stands for.
    pub open spec fn apply(self, m: ModifyView) -> StoreView {
        match m {
            ModifyView::Delete(cf, k) => self.with_cf(cf, delete_spec(self.cf(cf), k)),
            ModifyView::Put(cf, k, v) => self.with_cf(cf, put_spec(self.cf(cf), k, v)),
            ModifyView::PessimisticDagger(k, d) => self.with_cf(
                CfName::Dagger,
                put_spec(self.dagger_cf, k, d.to_dagger().to_bytes()),
            ),
            ModifyView::DeleteRange(cf, a, b, notify_only) => if notify_only {
                self
            } else {
                self.with_cf(cf, delete_range_spec(self.cf(cf), a, b))
            },
        }
    }

    /// The store after the changes of `ms`, made in their order.
    pub open spec fn apply_all(self, ms: Seq<ModifyView>) -> StoreView
        decreases ms.len(),
    {
        if ms.len() == 0 {
            self
        } else {
            self.apply_all(ms.drop_last()).apply(ms.last())
        }
    }

    /// A store that holds nothing.
    pub open spec fn empty() -> StoreView {
        StoreView { default_cf: Seq::empty(), dagger_cf: Seq::empty(), write_cf: Seq::empty() }
    }
}

/// The table of the pessimistic daggers that a region keeps in memory
/// before they reach the store. It is tagged with the term and the version
/// of the region that it was filled in.
#[derive(Debug, PartialEq, Eq)]
pub struct PessimisticDaggerTable {
    /// The daggers with their keys; of two entries with one key the first
    /// counts.
    pub entries: Vec<(Key, PessimisticDagger)>,
    pub term: u64,
    pub version: u64,
}

/// What the table of pessimistic daggers holds.
pub struct PessimisticDaggerTableView {
    pub entries: Seq<(Seq<u8>, PessimisticDaggerView)>,
    pub term: u64,
    pub version: u64,
}

/// The pessimistic dagger of the first entry from `i` on whose key is `k`.
pub open spec fn table_get_from(
    entries: Seq<(Seq<u8>, PessimisticDaggerView)>,
    k: Seq<u8>,
    i: int,
) -> Option<PessimisticDaggerView>
    decreases entries.len() - i,
{
    if i < 0 || i >= entries.len() {
        None
    } else if entries[i].0 == k {
        Some(entries[i].1)
    } else {
        table_get_from(entries, k, i + 1)
    }
}

impl PessimisticDaggerTableView {
    /// The pessimistic dagger that the table holds for `k`.
    pub open spec fn get(self, k: Seq<u8>) -> Option<PessimisticDaggerView> {
        table_get_from(self.entries, k, 0)
    }
}

impl View for PessimisticDaggerTable {
    type V = PessimisticDaggerTableView;

    open spec fn view(&self) -> PessimisticDaggerTableView {
        PessimisticDaggerTableView {
            entries: Seq::new(self.entries@.len(), |i: int| (self.entries@[i].0@, self.entries@[i].1@)),
            term: self.term,
            version: self.version,
        }
    }
}

impl Clone for PessimisticDaggerTable {
    fn clone(&self) -> (r: Self)
        ensures
            r@ == self@,
    {
        let mut entries: Vec<(Key, PessimisticDagger)> = Vec::new();
        let mut i: usize = 0;
        while i < self.entries.len()
            invariant
                i <= self.entries.len(),
                entries@.len() == i,
                forall|j: int|
                    0 <= j < i ==> entries@[j].0@ == self.entries@[j].0@ && entries@[j].1@
                        == self.entries@[j].1@,
            decreases self.entries.len() - i,
        {
            entries.push((self.entries[i].0.clone(), self.entries[i].1.clone()));
            i += 1;
        }
        let r = PessimisticDaggerTable { entries, term: self.term, version: self.version };
        assert(r@.entries =~= self@.entries);
        r
    }
}

impl PessimisticDaggerTable {
    /// A table that holds nothing, filled in the given term and version.
    pub fn new(term: u64, version: u64) -> (r: PessimisticDaggerTable)
        ensures
            r@ == (PessimisticDaggerTableView { entries: Seq::empty(), term, version }),
    {
        let r = PessimisticDaggerTable { entries: Vec::new(), term, version };
        assert(r@.entries =~= Seq::empty());
        r
    }

    /// Puts a pessimistic dagger at the end of the table.
    pub fn insert(&mut self, key: Key, dagger: PessimisticDagger)
        ensures
            final(self)@ == (PessimisticDaggerTableView {
                entries: old(self)@.entries.push((key@, dagger@)),
                ..old(self)@
            }),
    {
        self.entries.push((key, dagger));
        assert(self@.entries =~= old(self)@.entries.push((key@, dagger@)));
    }

    /// The pessimistic dagger that the table holds for `key`.
    pub fn get(&self, key: &Key) -> (r: Option<&PessimisticDagger>)
        ensures
            match r {
                Some(d) => self@.get(key@) == Some(d@),
                None => self@.get(key@) is None,
            },
    {
        let mut i: usize = 0;
        while i < self.entries.len()
            invariant
                i <= self.entries.len(),
                self@.get(key@) == table_get_from(self@.entries, key@, i as int),
            decreases self.entries.len() - i,
        {
            if self.entries[i].0.same(key) {
                return Some(&self.entries[i].1);
            }
            i += 1;
        }
        None
    }
}

/// What a snapshot knows of the region beside the data.
#[derive(Debug, PartialEq, Eq)]
pub struct SnapshotExt {
    /// Whether the greatest timestamp known to the node is up to date.
    pub max_ts_synced: bool,
    /// The region's table of pessimistic daggers, where it keeps one.
    pub pessimistic_daggers: Option<PessimisticDaggerTable>,
}

/// What a snapshot holds.
pub struct SnapshotView {
    pub store: StoreView,
    pub max_ts_synced: bool,
    pub pessimistic_daggers: Option<PessimisticDaggerTableView>,
}

/// A view of the store at one point in time. It holds the versions of all
/// keys, whatever their timestamps.
#[derive(Debug, PartialEq, Eq)]
pub struct Snapshot {
    default_cf: ColumnFamily,
    dagger_cf: ColumnFamily,
    write_cf: ColumnFamily,
    ext: SnapshotExt,
}

impl View for Snapshot {
    type V = SnapshotView;

    closed spec fn view(&self) -> SnapshotView {
        SnapshotView {
            store: StoreView {
                default_cf: self.default_cf@,
                dagger_cf: self.dagger_cf@,
                write_cf: self.write_cf@,
            },
            max_ts_synced: self.ext.max_ts_synced,
            pessimistic_daggers: match self.ext.pessimistic_daggers {
                Some(t) => Some(t@),
                None => None,
            },
        }
    }
}

impl Clone for Snapshot {
    fn clone(&self) -> (r: Self)
        ensures
            r@ == self@,
    {
        Snapshot {
            default_cf: self.default_cf.clone(),
            dagger_cf: self.dagger_cf.clone(),
            write_cf: self.write_cf.clone(),
            ext: SnapshotExt {
                max_ts_synced: self.ext.max_ts_synced,
                pessimistic_daggers: match &self.ext.pessimistic_daggers {
                    Some(t) => Some(t.clone()),
                    None => None,
                },
            },
        }
    }
}

impl Snapshot {
    /// The column family `cf` of the snapshot.
    pub fn cf(&self, cf: CfName) -> (r: &ColumnFamily)
        ensures
            r@ == self@.store.cf(cf),
    {
        match cf {
            CfName::Default => &self.default_cf,
            CfName::Dagger => &self.dagger_cf,
            CfName::Write => &self.write_cf,
        }
    }

    /// The value stored under `key` in the column family of the long
    /// values.
    pub fn get(&self, key: &Key) -> (r: Option<Vec<u8>>)
        ensures
            crate::write::opt_bytes_view(r) == get_spec(self@.store.default_cf, key@),
    {
        self.get_cf(CfName::Default, key)
    }

    /// The value stored under `key` in the column family `cf`.
    pub fn get_cf(&self, cf: CfName, key: &Key) -> (r: Option<Vec<u8>>)
        ensures
            crate::write::opt_bytes_view(r) == get_spec(self@.store.cf(cf), key@),
    {
        match self.cf(cf).get(key.as_encoded().as_slice()) {
            Some(v) => Some(copy_bytes(v.as_slice())),
            None => None,
        }
    }

    /// A cursor over the column family `cf`, at its first entry. The
    /// options are kept with the cursor and change nothing of what it
    /// finds.
    pub fn iter_cf(&self, cf: CfName, options: IterOptions) -> (r: Cursor)
        ensures
            r == (Cursor { position: 0, options }),
    {
        Cursor::new(options)
    }

    /// What the snapshot knows of the region beside the data.
    pub fn ext(&self) -> (r: &SnapshotExt)
        ensures
            r.max_ts_synced == self@.max_ts_synced,
            match r.pessimistic_daggers {
                Some(t) => self@.pessimistic_daggers == Some(t@),
                None => self@.pessimistic_daggers is None,
            },
    {
        &self.ext
    }

    /// This snapshot with the given table of pessimistic daggers.
    pub fn with_pessimistic_daggers(self, table: PessimisticDaggerTable) -> (r: Snapshot)
        ensures
            r@ == (SnapshotView { pessimistic_daggers: Some(table@), ..self@ }),
    {
        Snapshot {
            default_cf: self.default_cf,
            dagger_cf: self.dagger_cf,
            write_cf: self.write_cf,
            ext: SnapshotExt {
                max_ts_synced: self.ext.max_ts_synced,
                pessimistic_daggers: Some(table),
            },
        }
    }

    /// This snapshot with the given word on whether the greatest timestamp
    /// known to the node is up to date.
    pub fn with_max_ts_synced(self, max_ts_synced: bool) -> (r: Snapshot)
        ensures
            r@ == (SnapshotView { max_ts_synced, ..self@ }),
    {
        Snapshot {
            default_cf: self.default_cf,
            dagger_cf: self.dagger_cf,
            write_cf: self.write_cf,
            ext: SnapshotExt { max_ts_synced, pessimistic_daggers: self.ext.pessimistic_daggers },
        }
    }
}

/// A store in memory. A batch of changes is written as a whole; a snapshot
/// shows the store as it is when the snapshot is taken.
#[derive(Debug, PartialEq, Eq)]
pub struct Engine {
    default_cf: ColumnFamily,
    dagger_cf: ColumnFamily,
    write_cf: ColumnFamily,
}

impl View for Engine {
    type V = StoreView;

    closed spec fn view(&self) -> StoreView {
        StoreView {
            default_cf: self.default_cf@,
            dagger_cf: self.dagger_cf@,
            write_cf: self.write_cf@,
        }
    }
}

impl Engine {
    /// A store that holds nothing.
    pub fn new() -> (r: Engine)
        ensures
            r@ == StoreView::empty(),
    {
        Engine {
            default_cf: ColumnFamily::new(),
            dagger_cf: ColumnFamily::new(),
            write_cf: ColumnFamily::new(),
        }
    }

    /// Stores `value` under `key` in the column family `cf`.
    pub fn put_cf(&mut self, cf: CfName, key: Key, value: Vec<u8>)
        ensures
            final(self)@ == old(self)@.apply(ModifyView::Put(cf, key@, value@)),
    {
        match cf {
            CfName::Default => self.default_cf.put(key.into_encoded(), value),
            CfName::Dagger => self.dagger_cf.put(key.into_encoded(), value),
            CfName::Write => self.write_cf.put(key.into_encoded(), value),
        }
    }

    /// Deletes what is stored under `key` in the column family `cf`.
    pub fn delete_cf(&mut self, cf: CfName, key: &Key)
        ensures
            final(self)@ == old(self)@.apply(ModifyView::Delete(cf, key@)),
    {
        match cf {
            CfName::Default => self.default_cf.delete(key.as_encoded().as_slice()),
            CfName::Dagger => self.dagger_cf.delete(key.as_encoded().as_slice()),
            CfName::Write => self.write_cf.delete(key.as_encoded().as_slice()),
        }
    }

    /// Deletes what is stored in the column family `cf` from `start` on and
    /// before `end`.
    pub fn delete_range_cf(&mut self, cf: CfName, start: &Key, end: &Key)
        ensures
            final(self)@ == old(self)@.apply(ModifyView::DeleteRange(cf, start@, end@, false)),
    {
        let a = start.as_encoded().as_slice();
        let b = end.as_encoded().as_slice();
        match cf {
            CfName::Default => self.default_cf.delete_range(a, b),
            CfName::Dagger => self.dagger_cf.delete_range(a, b),
            CfName::Write => self.write_cf.delete_range(a, b),
        }
    }

    /// Makes one change to the store.
    pub fn apply(&mut self, m: Modify)
        ensures
            final(self)@ == old(self)@.apply(m@),
    {
        match m {
            Modify::Delete(cf, k) => self.delete_cf(cf, &k),
            Modify::Put(cf, k, v) => self.put_cf(cf, k, v),
            Modify::PessimisticDagger(k, d) => {
                let bytes = d.into_dagger().to_bytes();
                self.put_cf(CfName::Dagger, k, bytes)
            },
            Modify::DeleteRange(cf, a, b, notify_only) => {
                if !notify_only {
                    self.delete_range_cf(cf, &a, &b)
                }
            },
        }
    }

    /// Writes a batch of changes, in their order and as a whole.
    pub fn write(&mut self, modifies: Vec<Modify>)
        ensures
            final(self)@ == old(self)@.apply_all(modifies_view(modifies@)),
    {
        let ghost ms = modifies_view(modifies@);
        let mut modifies = modifies;
        let mut rest: Vec<Modify> = Vec::new();
        // Take the changes from the end, then make them from the start.
        while modifies.len() > 0
            invariant
                modifies@.len() + rest@.len() == ms.len(),
                forall|i: int| 0 <= i < modifies@.len() ==> modifies@[i]@ == ms[i],
                forall|i: int| 0 <= i < rest@.len() ==> rest@[i]@ == ms[ms.len() - 1 - i],
            decreases modifies.len(),
        {
            let m = modifies.pop().unwrap();
            rest.push(m);
        }
        let mut done: usize = 0;
        let total = rest.len();
        assert(ms.take(0) =~= Seq::empty());
        while rest.len() > 0
            invariant
                total == ms.len(),
                done + rest@.len() == total,
                forall|i: int| 0 <= i < rest@.len() ==> rest@[i]@ == ms[ms.len() - 1 - i],
                self@ == old(self)@.apply_all(ms.take(done as int)),
            decreases rest.len(),
        {
            let m = rest.pop().unwrap();
            proof {
                assert(m@ == ms[done as int]);
                assert(ms.take(done + 1).drop_last() =~= ms.take(done as int));
                assert(ms.take(done + 1).last() == ms[done as int]);
            }
            self.apply(m);
            done += 1;
        }
        assert(ms.take(ms.len() as int) =~= ms);
    }

    /// A snapshot of the store as it is now, of a region that keeps no table
    /// of pessimistic daggers and whose greatest timestamp is up to date.
    pub fn blackbrane(&self) -> (r: Snapshot)
        ensures
            r@ == (SnapshotView {
                store: self@,
                max_ts_synced: true,
                pessimistic_daggers: None,
            }),
    {
        Snapshot {
            default_cf: self.default_cf.clone(),
            dagger_cf: self.dagger_cf.clone(),
            write_cf: self.write_cf.clone(),
            ext: SnapshotExt { max_ts_synced: true, pessimistic_daggers: None },
        }
    }
}

/// The order in which a cursor is going to be moved.
#[derive(Clone, Copy, Debug, PartialEq, Eq, Structural)]
pub enum SentinelSearchMode {
    /// Towards greater keys only.
    Forward,
    /// Towards smaller keys only.
    Backward,
    /// Both ways.
    Mixed,
}

/// How a cursor is to walk a column family. The options let a store spend
/// less on a walk; none of them changes what the walk finds.
#[derive(Clone, Copy, Debug, PartialEq, Eq, Structural)]
pub struct IterOptions {
    /// Whether what is read is worth keeping in the store's cache.
    pub fill_cache: bool,
    /// Whether every seek stays within the versions of one user key.
    pub prefix_seek: bool,
    pub mutant_search_mode: SentinelSearchMode,
    /// A hint that only versions from this timestamp on are wanted.
    pub hint_min_ts: Option<TimeStamp>,
    /// A hint that only versions up to this timestamp are wanted.
    pub hint_max_ts: Option<TimeStamp>,
}

/// A place in a column family, from which its entries are read in the order
/// of their keys.
#[derive(Clone, Copy, Debug, PartialEq, Eq, Structural)]
pub struct Cursor {
    /// The index of the entry that the cursor is at; the number of entries
    /// when it is past the last.
    pub position: usize,
    pub options: IterOptions,
}

impl Cursor {
    /// A cursor with the given options, at the first entry.
    pub fn new(options: IterOptions) -> (r: Cursor)
        ensures
            r == (Cursor { position: 0, options }),
    {
        Cursor { position: 0, options }
    }

    /// Whether the cursor is at an entry of `cf`.
    pub fn valid(&self, cf: &ColumnFamily) -> (r: bool)
        ensures
            r == (self.position < cf@.len()),
    {
        self.position < cf.len()
    }

    /// Moves the cursor to the first entry whose key is not less than `key`,
    /// whatever its options are; tells whether there is one.
    pub fn seek(&mut self, cf: &ColumnFamily, key: &[u8]) -> (r: bool)
        ensures
            final(self).position == seek_spec(cf@, key@),
            final(self).options == old(self).options,
            r == (seek_spec(cf@, key@) < cf@.len()),
            sorted(cf@),
    {
        self.position = cf.seek(key);
        self.position < cf.len()
    }

    /// As `seek`, for a key that is expected near the cursor.
    pub fn near_seek(&mut self, cf: &ColumnFamily, key: &[u8]) -> (r: bool)
        ensures
            final(self).position == seek_spec(cf@, key@),
            final(self).options == old(self).options,
            r == (seek_spec(cf@, key@) < cf@.len()),
            sorted(cf@),
    {
        self.seek(cf, key)
    }

    /// Moves the cursor to the first entry; tells whether there is one.
    pub fn seek_to_first(&mut self, cf: &ColumnFamily) -> (r: bool)
        ensures
            final(self).position == 0,
            final(self).options == old(self).options,
            r == (cf@.len() > 0),
    {
        self.position = 0;
        cf.len() > 0
    }

    /// Moves the cursor to the next entry; tells whether there is one. A
    /// cursor past the last entry stays there.
    pub fn next(&mut self, cf: &ColumnFamily) -> (r: bool)
        ensures
            final(self).position == if old(self).position < cf@.len() {
                old(self).position + 1
            } else {
                old(self).position as int
            },
            final(self).options == old(self).options,
            r == (final(self).position < cf@.len()),
    {
        if self.position < cf.len() {
            self.position = self.position + 1;
        }
        self.position < cf.len()
    }

    /// The key of the entry that the cursor is at.
    pub fn key<'a>(&self, cf: &'a ColumnFamily) -> (r: &'a Vec<u8>)
        requires
            self.position < cf@.len(),
        ensures
            r@ == cf@[self.position as int].0,
    {
        cf.key_at(self.position)
    }

    /// The value of the entry that the cursor is at.
    pub fn value<'a>(&self, cf: &'a ColumnFamily) -> (r: &'a Vec<u8>)
        requires
            self.position < cf@.len(),
        ensures
            r@ == cf@[self.position as int].1,
    {
        cf.value_at(self.position)
    }
}

} // verus!
