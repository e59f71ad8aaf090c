//! Write records: one for each committed or rolled-back version of a key.

use vstd::prelude::*;
use crate::codec::{
    append_bytes, be_bytes, be_value, copy_bytes, decode_u64, decode_var_u64, encode_u64,
    encode_var_u64, var_bytes, var_u64_at,
};
use crate::dagger::DaggerType;
use crate::error::Error;
use crate::timestamp::TimeStamp;

verus! {

/// The longest value that is kept inside a record; a longer one is stored
/// under its own key.
pub const SHORT_VALUE_MAX_LEN: usize = 255;

/// The byte that introduces a short value in a record.
pub const SHORT_VALUE_PREFIX: u8 = 118;

/// The byte that stands for `WriteType::Put`.
pub const FLAG_PUT: u8 = 80;

/// The byte that stands for `WriteType::Delete`.
pub const FLAG_DELETE: u8 = 68;

/// The byte that stands for `WriteType::Dagger`.
pub const FLAG_DAGGER: u8 = 76;

/// The byte that stands for `WriteType::Rollback`.
pub const FLAG_ROLLBACK: u8 = 82;

/// The byte that marks a record as also standing for a rollback.
pub const FLAG_OVERLAPPED_ROLLBACK: u8 = 82;

/// The byte that introduces the fence of a record.
pub const GC_FENCE_PREFIX: u8 = 70;

/// The short value of a rollback record that must not be collapsed.
pub const PROTECTED_ROLLBACK_SHORT_VALUE: u8 = 112;

/// Whether a value is short enough to be kept inside a record.
pub fn is_short_value(value: &[u8]) -> (r: bool)
    ensures
        r == (value@.len() <= SHORT_VALUE_MAX_LEN),
{
    value.len() <= SHORT_VALUE_MAX_LEN
}

/// What a write record stands for.
#[derive(Clone, Copy, Debug, PartialEq, Eq, Structural)]
pub enum WriteType {
    /// The key got a value.
    Put,
    /// The key was deleted.
    Delete,
    /// The key was locked and left as it was.
    Dagger,
    /// The transaction was rolled back at this key.
    Rollback,
}

/// The write type that the byte `b` stands for.
pub open spec fn write_type_of(b: u8) -> Option<WriteType> {
    if b == FLAG_PUT {
        Some(WriteType::Put)
    } else if b == FLAG_DELETE {
        Some(WriteType::Delete)
    } else if b == FLAG_DAGGER {
        Some(WriteType::Dagger)
    } else if b == FLAG_ROLLBACK {
        Some(WriteType::Rollback)
    } else {
        None
    }
}

/// The byte that stands for the write type `t`.
pub open spec fn write_type_flag(t: WriteType) -> u8 {
    match t {
        WriteType::Put => FLAG_PUT,
        WriteType::Delete => FLAG_DELETE,
        WriteType::Dagger => FLAG_DAGGER,
        WriteType::Rollback => FLAG_ROLLBACK,
    }
}

/// The write type that a dagger of type `t` becomes when its transaction
/// commits; a pessimistic dagger becomes none.
pub open spec fn write_type_of_dagger(t: DaggerType) -> Option<WriteType> {
    match t {
        DaggerType::Put => Some(WriteType::Put),
        DaggerType::Delete => Some(WriteType::Delete),
        DaggerType::Dagger => Some(WriteType::Dagger),
        DaggerType::Pessimistic => None,
    }
}

impl WriteType {
    pub fn from_u8(b: u8) -> (r: Option<WriteType>)
        ensures
            r == write_type_of(b),
    {
        if b == FLAG_PUT {
            Some(WriteType::Put)
        } else if b == FLAG_DELETE {
            Some(WriteType::Delete)
        } else if b == FLAG_DAGGER {
            Some(WriteType::Dagger)
        } else if b == FLAG_ROLLBACK {
            Some(WriteType::Rollback)
        } else {
            None
        }
    }

    pub fn to_u8(self) -> (r: u8)
        ensures
            r == write_type_flag(self),
            write_type_of(r) == Some(self),
    {
        match self {
            WriteType::Put => FLAG_PUT,
            WriteType::Delete => FLAG_DELETE,
            WriteType::Dagger => FLAG_DAGGER,
            WriteType::Rollback => FLAG_ROLLBACK,
        }
    }

    pub fn from_dagger_type(t: DaggerType) -> (r: Option<WriteType>)
        ensures
            r == write_type_of_dagger(t),
    {
        match t {
            DaggerType::Put => Some(WriteType::Put),
            DaggerType::Delete => Some(WriteType::Delete),
            DaggerType::Dagger => Some(WriteType::Dagger),
            DaggerType::Pessimistic => None,
        }
    }
}

/// The record of one committed or rolled-back version of a key. It is stored
/// under the key's version at the commit timestamp.
#[derive(Debug, PartialEq, Eq)]
pub struct Write {
    pub write_type: WriteType,
    /// The start timestamp of the transaction that wrote the version.
    pub start_ts: TimeStamp,
    /// The value, where it is short enough to be kept in the record.
    pub short_value: Option<Vec<u8>>,
    /// Whether another transaction, which started at this record's commit
    /// timestamp, was rolled back: the record stands for that rollback too.
    pub has_overlapped_rollback: bool,
    /// The commit timestamp of the next newer version at the time the fence
    /// was set; zero while the record is the latest version. A read at or
    /// after the fence does not go by this record.
    pub gc_fence: Option<TimeStamp>,
}

/// What a write record holds.
pub struct WriteView {
    pub write_type: WriteType,
    pub start_ts: TimeStamp,
    pub short_value: Option<Seq<u8>>,
    pub has_overlapped_rollback: bool,
    pub gc_fence: Option<TimeStamp>,
}

/// What an optional byte string holds.
pub open spec fn opt_bytes_view(v: Option<Vec<u8>>) -> Option<Seq<u8>> {
    match v {
        Some(b) => Some(b@),
        None => None,
    }
}

/// A copy of an optional byte string.
pub fn copy_opt_bytes(v: &Option<Vec<u8>>) -> (r: Option<Vec<u8>>)
    ensures
        opt_bytes_view(r) == opt_bytes_view(*v),
{
    match v {
        Some(b) => Some(copy_bytes(b.as_slice())),
        None => None,
    }
}

impl View for Write {
    type V = WriteView;

    open spec fn view(&self) -> WriteView {
        WriteView {
            write_type: self.write_type,
            start_ts: self.start_ts,
            short_value: opt_bytes_view(self.short_value),
            has_overlapped_rollback: self.has_overlapped_rollback,
            gc_fence: self.gc_fence,
        }
    }
}

impl Clone for Write {
    fn clone(&self) -> (r: Self)
        ensures
            r@ == self@,
    {
        Write {
            write_type: self.write_type,
            start_ts: self.start_ts,
            short_value: copy_opt_bytes(&self.short_value),
            has_overlapped_rollback: self.has_overlapped_rollback,
            gc_fence: self.gc_fence,
        }
    }
}

impl WriteView {
    /// Whether a read at `read_ts` may go by this record: its fence is
    /// unset, zero, or not before `read_ts`.
    pub open spec fn gc_fence_allows(self, read_ts: TimeStamp) -> bool {
        match self.gc_fence {
            Some(fence) => fence@ == 0 || fence@ >= read_ts@,
            None => true,
        }
    }

    /// Whether this is a rollback record that must not be collapsed.
    pub open spec fn is_protected(self) -> bool {
        self.write_type == WriteType::Rollback && self.short_value == Some(
            seq![PROTECTED_ROLLBACK_SHORT_VALUE],
        )
    }

    /// The record of a rollback of the transaction that started at
    /// `start_ts`.
    pub open spec fn rollback(start_ts: TimeStamp, protected: bool) -> WriteView {
        WriteView {
            write_type: WriteType::Rollback,
            start_ts,
            short_value: if protected {
                Some(seq![PROTECTED_ROLLBACK_SHORT_VALUE])
            } else {
                None
            },
            has_overlapped_rollback: false,
            gc_fence: None,
        }
    }

    /// This record with the rollback mark and the fence set anew.
    pub open spec fn with_overlapped_rollback(
        self,
        has_overlapped_rollback: bool,
        gc_fence: Option<TimeStamp>,
    ) -> WriteView {
        WriteView { has_overlapped_rollback, gc_fence, ..self }
    }

    /// The bytes of the short value, where there is one: the prefix, the
    /// length in one byte, and the value.
    pub open spec fn short_value_bytes(self) -> Seq<u8> {
        match self.short_value {
            Some(v) => seq![SHORT_VALUE_PREFIX, (v.len() % 256) as u8] + v,
            None => Seq::empty(),
        }
    }

    /// The byte of the rollback mark, where it is set.
    pub open spec fn rollback_mark_bytes(self) -> Seq<u8> {
        if self.has_overlapped_rollback {
            seq![FLAG_OVERLAPPED_ROLLBACK]
        } else {
            Seq::empty()
        }
    }

    /// The bytes of the fence, where there is one: the prefix and the eight
    /// bytes of the timestamp.
    pub open spec fn gc_fence_bytes(self) -> Seq<u8> {
        match self.gc_fence {
            Some(fence) => seq![GC_FENCE_PREFIX] + be_bytes(fence@),
            None => Seq::empty(),
        }
    }

    /// The bytes under which the record is stored: the type, the start
    /// timestamp as a variable-width number, then, each only where it is
    /// set, the short value, the rollback mark, and the fence.
    pub open spec fn to_bytes(self) -> Seq<u8> {
        seq![write_type_flag(self.write_type)] + var_bytes(self.start_ts@ as nat)
            + self.short_value_bytes() + self.rollback_mark_bytes() + self.gc_fence_bytes()
    }
}

/// The record read from the fields of `b` from `at` on, given what was read
/// before. Reading ends at the end of `b` or at a byte that introduces no
/// known field; a field that is cut short makes the record malformed.
pub open spec fn parse_write_fields(b: Seq<u8>, at: int, acc: WriteView) -> Option<WriteView>
    decreases b.len() - at,
{
    if at < 0 || at >= b.len() {
        Some(acc)
    } else if b[at] == SHORT_VALUE_PREFIX {
        if at + 1 >= b.len() || at + 2 + b[at + 1] > b.len() {
            None
        } else {
            parse_write_fields(
                b,
                at + 2 + b[at + 1],
                WriteView { short_value: Some(b.subrange(at + 2, at + 2 + b[at + 1])), ..acc },
            )
        }
    } else if b[at] == FLAG_OVERLAPPED_ROLLBACK {
        parse_write_fields(b, at + 1, WriteView { has_overlapped_rollback: true, ..acc })
    } else if b[at] == GC_FENCE_PREFIX {
        if at + 9 > b.len() {
            None
        } else {
            parse_write_fields(
                b,
                at + 9,
                WriteView { gc_fence: Some(TimeStamp(be_value(b, at + 1))), ..acc },
            )
        }
    } else {
        Some(acc)
    }
}

/// The record that the bytes `b` hold; none where they are malformed.
pub open spec fn parse_write_spec(b: Seq<u8>) -> Option<WriteView> {
    if b.len() == 0 {
        None
    } else {
        match (write_type_of(b[0]), var_u64_at(b, 1, 0)) {
            (Some(write_type), Ok((start_ts, at))) => parse_write_fields(
                b,
                at,
                WriteView {
                    write_type,
                    start_ts: TimeStamp(start_ts),
                    short_value: None,
                    has_overlapped_rollback: false,
                    gc_fence: None,
                },
            ),
            _ => None,
        }
    }
}

proof fn lemma_parse_fence(before: Seq<u8>, w: WriteView)
    ensures
        parse_write_fields(
            before + w.gc_fence_bytes(),
            before.len() as int,
            WriteView { gc_fence: None, ..w },
        ) == Some(w),
{
    let b = before + w.gc_fence_bytes();
    let at = before.len() as int;
    match w.gc_fence {
        Some(fence) => {
            assert(b[at] == GC_FENCE_PREFIX);
            crate::codec::lemma_be_round_trip(fence@);
            assert(forall|i: int| 0 <= i < 8 ==> b[at + 1 + i] == be_bytes(fence@)[i]);
            assert(be_value(b, at + 1) == be_value(be_bytes(fence@), 0));
            reveal_with_fuel(parse_write_fields, 2);
        },
        None => {
            assert(b =~= before);
        },
    }
}

proof fn lemma_parse_mark(before: Seq<u8>, w: WriteView)
    ensures
        parse_write_fields(
            before + w.rollback_mark_bytes() + w.gc_fence_bytes(),
            before.len() as int,
            WriteView { has_overlapped_rollback: false, gc_fence: None, ..w },
        ) == Some(w),
{
    let b = before + w.rollback_mark_bytes() + w.gc_fence_bytes();
    let at = before.len() as int;
    if w.has_overlapped_rollback {
        assert(b[at] == FLAG_OVERLAPPED_ROLLBACK);
        lemma_parse_fence(before + w.rollback_mark_bytes(), w);
    } else {
        assert(b =~= before + w.gc_fence_bytes());
        lemma_parse_fence(before, w);
        match w.gc_fence {
            Some(_) => {
                assert(b[at] == GC_FENCE_PREFIX);
            },
            None => {},
        }
    }
}

proof fn lemma_parse_short_value(before: Seq<u8>, w: WriteView)
    requires
        w.short_value matches Some(v) ==> v.len() <= SHORT_VALUE_MAX_LEN,
    ensures
        parse_write_fields(
            before + w.short_value_bytes() + w.rollback_mark_bytes() + w.gc_fence_bytes(),
            before.len() as int,
            WriteView { short_value: None, has_overlapped_rollback: false, gc_fence: None, ..w },
        ) == Some(w),
{
    let b = before + w.short_value_bytes() + w.rollback_mark_bytes() + w.gc_fence_bytes();
    let at = before.len() as int;
    match w.short_value {
        Some(v) => {
            let next = before + w.short_value_bytes();
            assert(b[at] == SHORT_VALUE_PREFIX);
            assert(b[at + 1] == (v.len() % 256) as u8);
            assert(b.subrange(at + 2, at + 2 + v.len()) =~= v);
            assert(next.len() == at + 2 + v.len());
            lemma_parse_mark(next, w);
        },
        None => {
            assert(b =~= before + w.rollback_mark_bytes() + w.gc_fence_bytes());
            lemma_parse_mark(before, WriteView { short_value: None, ..w });
            if w.has_overlapped_rollback {
                assert(b[at] == FLAG_OVERLAPPED_ROLLBACK);
            } else {
                assert(b =~= before + w.gc_fence_bytes());
                match w.gc_fence {
                    Some(_) => {
                        assert(b[at] == GC_FENCE_PREFIX);
                    },
                    None => {
                        assert(b =~= before);
                    },
                }
            }
        },
    }
}

/// A record read from the bytes that it is stored as is the record, given
/// that its short value is short enough to be kept in it.
pub proof fn lemma_write_round_trip(w: WriteView)
    requires
        w.short_value matches Some(v) ==> v.len() <= SHORT_VALUE_MAX_LEN,
    ensures
        parse_write_spec(w.to_bytes()) == Some(w),
{
    let head = seq![write_type_flag(w.write_type)];
    let number = var_bytes(w.start_ts@ as nat);
    let tail = w.short_value_bytes() + w.rollback_mark_bytes() + w.gc_fence_bytes();
    let b = w.to_bytes();
    assert(b =~= head + number + tail);
    assert(b[0] == write_type_flag(w.write_type));
    crate::codec::lemma_var_bytes_len(w.start_ts@);
    crate::codec::lemma_var_u64_round_trip(head, w.start_ts@, tail, 0);
    assert(b =~= (head + number) + w.short_value_bytes() + w.rollback_mark_bytes()
        + w.gc_fence_bytes());
    lemma_parse_short_value(head + number, w);
}

impl Write {
    /// A record of the given type, with no rollback mark and no fence.
    pub fn new(write_type: WriteType, start_ts: TimeStamp, short_value: Option<Vec<u8>>) -> (r:
        Write)
        ensures
            r@ == (WriteView {
                write_type,
                start_ts,
                short_value: opt_bytes_view(short_value),
                has_overlapped_rollback: false,
                gc_fence: None,
            }),
    {
        Write { write_type, start_ts, short_value, has_overlapped_rollback: false, gc_fence: None }
    }

    /// The record of a rollback of the transaction that started at
    /// `start_ts`. A protected record is never collapsed into a later one.
    pub fn new_rollback(start_ts: TimeStamp, protected: bool) -> (r: Write)
        ensures
            r@ == WriteView::rollback(start_ts, protected),
    {
        let short_value = if protected {
            let mut v: Vec<u8> = Vec::new();
            v.push(PROTECTED_ROLLBACK_SHORT_VALUE);
            assert(v@ =~= seq![PROTECTED_ROLLBACK_SHORT_VALUE]);
            Some(v)
        } else {
            None
        };
        Write {
            write_type: WriteType::Rollback,
            start_ts,
            short_value,
            has_overlapped_rollback: false,
            gc_fence: None,
        }
    }

    /// This record with the rollback mark and the fence set anew.
    pub fn set_overlapped_rollback(
        self,
        has_overlapped_rollback: bool,
        gc_fence: Option<TimeStamp>,
    ) -> (r: Write)
        ensures
            r@ == self@.with_overlapped_rollback(has_overlapped_rollback, gc_fence),
    {
        Write {
            write_type: self.write_type,
            start_ts: self.start_ts,
            short_value: self.short_value,
            has_overlapped_rollback,
            gc_fence,
        }
    }

    /// Whether this is a rollback record that must not be collapsed.
    pub fn is_protected(&self) -> (r: bool)
        ensures
            r == self@.is_protected(),
    {
        match self.write_type {
            WriteType::Rollback => match &self.short_value {
                Some(v) => {
                    let r = v.len() == 1 && v[0] == PROTECTED_ROLLBACK_SHORT_VALUE;
                    proof {
                        if r {
                            assert(v@ =~= seq![PROTECTED_ROLLBACK_SHORT_VALUE]);
                        } else if v@.len() == 1 {
                            assert(seq![PROTECTED_ROLLBACK_SHORT_VALUE][0] != v@[0]);
                        }
                    }
                    r
                },
                None => false,
            },
            _ => false,
        }
    }

    /// Whether a read at `read_ts` may go by this record: its fence is
    /// unset, zero, or not before `read_ts`.
    pub fn check_gc_fence_as_latest_version(&self, read_ts: TimeStamp) -> (r: bool)
        ensures
            r == self@.gc_fence_allows(read_ts),
    {
        match self.gc_fence {
            Some(fence) => fence.into_inner() == 0 || fence.into_inner() >= read_ts.into_inner(),
            None => true,
        }
    }

    /// The bytes under which the record is stored.
    pub fn to_bytes(&self) -> (r: Vec<u8>)
        ensures
            r@ == self@.to_bytes(),
    {
        let mut out: Vec<u8> = Vec::new();
        out.push(self.write_type.to_u8());
        encode_var_u64(&mut out, self.start_ts.into_inner());
        match &self.short_value {
            Some(v) => {
                out.push(SHORT_VALUE_PREFIX);
                out.push((v.len() % 256) as u8);
                append_bytes(&mut out, v.as_slice());
            },
            None => {},
        }
        if self.has_overlapped_rollback {
            out.push(FLAG_OVERLAPPED_ROLLBACK);
        }
        match self.gc_fence {
            Some(fence) => {
                out.push(GC_FENCE_PREFIX);
                encode_u64(&mut out, fence.into_inner());
            },
            None => {},
        }
        assert(out@ =~= self@.to_bytes());
        out
    }

    /// Reads a record from the bytes it is stored under.
    pub fn parse(b: &[u8]) -> (r: Result<Write, Error>)
        ensures
            match r {
                Ok(w) => parse_write_spec(b@) == Some(w@),
                Err(e) => parse_write_spec(b@) is None && e is BadFormatWrite,
            },
    {
        if b.len() == 0 {
            return Err(Error::BadFormatWrite);
        }
        let write_type = match WriteType::from_u8(b[0]) {
            Some(t) => t,
            None => {
                return Err(Error::BadFormatWrite);
            },
        };
        let (start_ts, start) = match decode_var_u64(b, 1) {
            Ok(pair) => pair,
            Err(_) => {
                return Err(Error::BadFormatWrite);
            },
        };
        let mut w = Write::new(write_type, TimeStamp::new(start_ts), None);
        let mut at: usize = start;
        while at < b.len()
            invariant
                at <= b.len(),
                parse_write_spec(b@) == parse_write_fields(b@, at as int, w@),
            decreases b.len() - at,
        {
            let flag = b[at];
            if flag == SHORT_VALUE_PREFIX {
                if at + 1 >= b.len() {
                    return Err(Error::BadFormatWrite);
                }
                let n = b[at + 1] as usize;
                if n > b.len() - (at + 2) {
                    return Err(Error::BadFormatWrite);
                }
                let mut v: Vec<u8> = Vec::new();
                let mut i: usize = 0;
                while i < n
                    invariant
                        i <= n,
                        at + 2 + n <= b.len(),
                        v@ == b@.subrange(at + 2, at + 2 + i),
                    decreases n - i,
                {
                    v.push(b[at + 2 + i]);
                    assert(b@.subrange(at + 2, at + 2 + i).push(b@[at + 2 + i]) =~= b@.subrange(
                        at + 2,
                        at + 2 + i + 1,
                    ));
                    i += 1;
                }
                w.short_value = Some(v);
                at = at + 2 + n;
            } else if flag == FLAG_OVERLAPPED_ROLLBACK {
                w.has_overlapped_rollback = true;
                at = at + 1;
            } else if flag == GC_FENCE_PREFIX {
                if b.len() - at < 9 {
                    return Err(Error::BadFormatWrite);
                }
                w.gc_fence = Some(TimeStamp::new(decode_u64(b, at + 1)));
                at = at + 9;
            } else {
                return Ok(w);
            }
        }
        Ok(w)
    }
}

} // verus!
