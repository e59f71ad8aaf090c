//! Label sets, and the names of the parts that a causet store is made of.

use vstd::prelude::*;
use vstd::utf8::encode_utf8;
use crate::codec::{bytes_lt, compare, lemma_bytes_lt_trans, lemma_bytes_order_total, ByteOrder};

verus! {

/// What a label set holds: its labels, each a name with its value.
pub type Labels = Seq<(Seq<char>, Seq<char>)>;

/// The names of `s` ascend strictly, in the order of their bytes.
pub open spec fn labels_sorted(s: Labels) -> bool {
    forall|i: int, j: int|
        0 <= i < j < s.len() ==> bytes_lt(encode_utf8(#[trigger] s[i].0), encode_utf8(#[trigger] s[j].0))
}

/// The first index from `i` on whose name is not before `name`; the length
/// where there is none.
pub open spec fn label_position(s: Labels, name: Seq<char>, i: int) -> int
    decreases s.len() - i,
{
    if i < 0 || i >= s.len() {
        s.len() as int
    } else if !bytes_lt(encode_utf8(s[i].0), encode_utf8(name)) {
        i
    } else {
        label_position(s, name, i + 1)
    }
}

/// Whether the label at `i` has the name `name`.
pub open spec fn label_at(s: Labels, name: Seq<char>, i: int) -> bool {
    0 <= i < s.len() && encode_utf8(s[i].0) == encode_utf8(name)
}

/// The value of the label `name`.
pub open spec fn label_get(s: Labels, name: Seq<char>) -> Option<Seq<char>> {
    let i = label_position(s, name, 0);
    if label_at(s, name, i) {
        Some(s[i].1)
    } else {
        None
    }
}

/// The labels after the label `name` was given the value `value`.
pub open spec fn label_insert(s: Labels, name: Seq<char>, value: Seq<char>) -> Labels {
    let i = label_position(s, name, 0);
    if label_at(s, name, i) {
        s.update(i, (name, value))
    } else {
        s.insert(i, (name, value))
    }
}

/// The labels after the given pairs were put in, one after another: of two
/// pairs with one name the later counts.
pub open spec fn labels_from_pairs(pairs: Labels) -> Labels
    decreases pairs.len(),
{
    if pairs.len() == 0 {
        Seq::empty()
    } else {
        label_insert(labels_from_pairs(pairs.drop_last()), pairs.last().0, pairs.last().1)
    }
}

proof fn lemma_label_position(s: Labels, name: Seq<char>, i: int)
    requires
        0 <= i <= s.len(),
    ensures
        i <= label_position(s, name, i) <= s.len(),
        forall|j: int|
            i <= j < label_position(s, name, i) ==> bytes_lt(
                encode_utf8(#[trigger] s[j].0),
                encode_utf8(name),
            ),
        label_position(s, name, i) < s.len() ==> !bytes_lt(
            encode_utf8(s[label_position(s, name, i)].0),
            encode_utf8(name),
        ),
    decreases s.len() - i,
{
    if i < s.len() && bytes_lt(encode_utf8(s[i].0), encode_utf8(name)) {
        lemma_label_position(s, name, i + 1);
    }
}

/// Giving a label a value keeps the names in order.
pub proof fn lemma_label_insert_sorted(s: Labels, name: Seq<char>, value: Seq<char>)
    requires
        labels_sorted(s),
    ensures
        labels_sorted(label_insert(s, name, value)),
{
    lemma_label_position(s, name, 0);
    let i = label_position(s, name, 0);
    let t = label_insert(s, name, value);
    let nb = encode_utf8(name);
    assert forall|a: int, b: int| 0 <= a < b < t.len() implies bytes_lt(
        encode_utf8(#[trigger] t[a].0),
        encode_utf8(#[trigger] t[b].0),
    ) by {
        if label_at(s, name, i) {
            assert(encode_utf8(t[a].0) == encode_utf8(s[a].0));
            assert(encode_utf8(t[b].0) == encode_utf8(s[b].0));
        } else {
            if b < i {
                assert(t[a] == s[a] && t[b] == s[b]);
            } else if b == i {
                assert(t[a] == s[a]);
            } else if a == i {
                assert(t[b] == s[b - 1]);
                lemma_bytes_order_total(encode_utf8(s[i].0), nb);
                if b - 1 > i {
                    lemma_bytes_lt_trans(nb, encode_utf8(s[i].0), encode_utf8(s[b - 1].0));
                }
            } else if a < i {
                assert(t[a] == s[a] && t[b] == s[b - 1]);
                if a != b - 1 {
                    assert(bytes_lt(encode_utf8(s[a].0), encode_utf8(s[b - 1].0)));
                }
            } else {
                assert(t[a] == s[a - 1] && t[b] == s[b - 1]);
            }
        }
    }
}

/// A set of labels, each a name with its value, in the order of the names.
/// No name occurs twice.
#[derive(Debug, PartialEq, Eq, Hash)]
pub struct LabelSet {
    labels: Vec<(String, String)>,
}

impl View for LabelSet {
    type V = Labels;

    closed spec fn view(&self) -> Labels {
        Seq::new(self.labels@.len(), |i: int| (self.labels@[i].0@, self.labels@[i].1@))
    }
}

impl LabelSet {
    #[verifier::type_invariant]
    spec fn inv(self) -> bool {
        labels_sorted(self@)
    }

    /// An empty label set.
    pub fn new() -> (r: LabelSet)
        ensures
            r@ == Seq::<(Seq<char>, Seq<char>)>::empty(),
    {
        let labels: Vec<(String, String)> = Vec::new();
        assert(Seq::new(labels@.len(), |i: int| (labels@[i].0@, labels@[i].1@)) =~= Seq::<
            (Seq<char>, Seq<char>),
        >::empty());
        LabelSet { labels }
    }

    /// The label set of the given labels; of two with one name the later
    /// counts.
    pub fn from_labels(labels: Vec<(String, String)>) -> (r: LabelSet)
        ensures
            r@ == labels_from_pairs(pairs_view(labels@)),
    {
        LabelSet::from_pairs(labels)
    }

    /// The label set of the given pairs of name and value; of two with one
    /// name the later counts.
    pub fn from_pairs(pairs: Vec<(String, String)>) -> (r: LabelSet)
        ensures
            r@ == labels_from_pairs(pairs_view(pairs@)),
    {
        let ghost all = pairs_view(pairs@);
        let mut set = LabelSet::new();
        let mut i: usize = 0;
        assert(all.take(0) =~= Seq::empty());
        while i < pairs.len()
            invariant
                i <= pairs.len(),
                all == pairs_view(pairs@),
                set@ == labels_from_pairs(all.take(i as int)),
            decreases pairs.len() - i,
        {
            proof {
                assert(all.take(i + 1).drop_last() =~= all.take(i as int));
                assert(all.take(i + 1).last() == (pairs@[i as int].0@, pairs@[i as int].1@));
            }
            set.insert(pairs[i].0.clone(), pairs[i].1.clone());
            i += 1;
        }
        assert(all.take(all.len() as int) =~= all);
        set
    }

    /// As `from_pairs`.
    pub fn from_labels_vec(labels: Vec<(String, String)>) -> (r: LabelSet)
        ensures
            r@ == labels_from_pairs(pairs_view(labels@)),
    {
        LabelSet::from_pairs(labels)
    }

    /// The labels, in the order of their names.
    pub fn labels(&self) -> (r: &Vec<(String, String)>)
        ensures
            pairs_view(r@) == self@,
            labels_sorted(self@),
    {
        proof {
            use_type_invariant(self);
        }
        &self.labels
    }

    /// Where the label `name` is or would be, and whether it is there.
    fn position(&self, name: &str) -> (r: (usize, bool))
        ensures
            r.0 == label_position(self@, name@, 0),
            r.1 == label_at(self@, name@, r.0 as int),
            r.0 <= self@.len(),
    {
        let target = name.as_bytes();
        let mut i: usize = 0;
        while i < self.labels.len()
            invariant
                i <= self.labels.len(),
                target@ == encode_utf8(name@),
                label_position(self@, name@, i as int) == label_position(self@, name@, 0),
            decreases self.labels.len() - i,
        {
            match compare(self.labels[i].0.as_str().as_bytes(), target) {
                ByteOrder::Less => {},
                ByteOrder::Equal => {
                    proof {
                        lemma_bytes_order_total(encode_utf8(self@[i as int].0), target@);
                    }
                    return (i, true);
                },
                ByteOrder::Greater => {
                    proof {
                        lemma_bytes_order_total(encode_utf8(self@[i as int].0), target@);
                    }
                    return (i, false);
                },
            }
            i += 1;
        }
        (i, false)
    }

    /// Gives the label `name` the value `value`.
    pub fn insert(&mut self, name: String, value: String)
        ensures
            final(self)@ == label_insert(old(self)@, name@, value@),
    {
        proof {
            use_type_invariant(&*self);
        }
        let (i, found) = self.position(name.as_str());
        let ghost s = self@;
        proof {
            lemma_label_insert_sorted(s, name@, value@);
        }
        let mut labels: Vec<(String, String)> = Vec::new();
        core::mem::swap(&mut labels, &mut self.labels);
        if found {
            labels[i] = (name, value);
            assert(Seq::new(labels@.len(), |j: int| (labels@[j].0@, labels@[j].1@)) =~= s.update(
                i as int,
                (name@, value@),
            ));
        } else {
            labels.insert(i, (name, value));
            assert(Seq::new(labels@.len(), |j: int| (labels@[j].0@, labels@[j].1@)) =~= s.insert(
                i as int,
                (name@, value@),
            ));
        }
        *self = LabelSet { labels };
    }

    /// The value of the label `name`.
    pub fn get(&self, name: &str) -> (r: Option<&String>)
        ensures
            match r {
                Some(v) => label_get(self@, name@) == Some(v@),
                None => label_get(self@, name@) is None,
            },
    {
        let (i, found) = self.position(name);
        if found {
            Some(&self.labels[i].1)
        } else {
            None
        }
    }

    /// A copy of the value of the label `name`.
    pub fn get_label(&self, name: &str) -> (r: Option<String>)
        ensures
            match r {
                Some(v) => label_get(self@, name@) == Some(v@),
                None => label_get(self@, name@) is None,
            },
    {
        match self.get(name) {
            Some(v) => Some(v.clone()),
            None => None,
        }
    }

    /// A copy of the value of the label `name`; the label set stays as it
    /// is.
    pub fn get_label_mut(&mut self, name: &str) -> (r: Option<String>)
        ensures
            final(self)@ == old(self)@,
            match r {
                Some(v) => label_get(old(self)@, name@) == Some(v@),
                None => label_get(old(self)@, name@) is None,
            },
    {
        self.get_label(name)
    }
}

/// What a list of pairs of strings holds.
pub open spec fn pairs_view(v: Seq<(String, String)>) -> Labels {
    Seq::new(v.len(), |i: int| (v[i].0@, v[i].1@))
}

/// Whether a thing is a causet.
#[derive(Clone, Copy, Debug, Eq, Hash, PartialEq, Structural)]
pub enum Causet {
    Unknown,
    Causet,
}

/// The type of a causet.
#[derive(Clone, Copy, Debug, Eq, Hash, PartialEq, Structural)]
pub enum CausetType {
    Unknown,
    Causet,
}

/// Why a definition could not be read.
#[derive(Debug, PartialEq, Eq)]
pub enum Error {
    /// A file could not be read.
    Io(String),
    /// The bytes are no text.
    Utf8(String),
    /// The text is no definition.
    Syntax(String),
}

/// The definition of a causet.
#[derive(Debug, PartialEq, Eq)]
pub struct CausetDefinition {
    pub causet_id: u64,
    pub causet_type: CausetType,
    pub name: String,
    pub keyword: String,
    pub attributes: Vec<(String, String)>,
}

impl CausetDefinition {
    /// The definition of the causet `causet_id`.
    pub fn new(
        causet_id: u64,
        causet_type: CausetType,
        name: String,
        keyword: String,
        attributes: Vec<(String, String)>,
    ) -> (r: CausetDefinition)
        ensures
            r.causet_id == causet_id,
            r.causet_type == causet_type,
            r.name == name,
            r.keyword == keyword,
            r.attributes == attributes,
    {
        CausetDefinition { causet_id, causet_type, name, keyword, attributes }
    }

    pub fn get_name(&self) -> (r: &str)
        ensures
            r@ == self.name@,
    {
        self.name.as_str()
    }

    pub fn get_keyword(&self) -> (r: &str)
        ensures
            r@ == self.keyword@,
    {
        self.keyword.as_str()
    }

    pub fn get_attributes(&self) -> (r: &Vec<(String, String)>)
        ensures
            *r == self.attributes,
    {
        &self.attributes
    }
}

/// A reader of causet files of the engine that is a skeleton of an engine.
#[derive(Clone, Copy, Debug, PartialEq, Eq, Structural)]
pub struct PanicCausetReader;

/// The cursor of `PanicCausetReader`.
#[derive(Clone, Copy, Debug, PartialEq, Eq, Structural)]
pub struct PanicCausetReaderIterator;

/// A writer of causet files of the engine that is a skeleton of an engine.
#[derive(Clone, Copy, Debug, PartialEq, Eq, Structural)]
pub struct PanicCausetWriter;

/// The builder of `PanicCausetWriter`.
#[derive(Clone, Copy, Debug, PartialEq, Eq, Structural)]
pub struct PanicCausetWriterBuilder;

/// What `PanicCausetWriter` tells of a file that it has written.
#[derive(Clone, Copy, Debug, PartialEq, Eq, Structural)]
pub struct PaniclightlikeCausetFileInfo;

/// The reader of a file that `PanicCausetWriter` has written.
#[derive(Clone, Copy, Debug, PartialEq, Eq, Structural)]
pub struct PaniclightlikeCausetFileReader;

/// A store in one file, of the engine that is a skeleton of an engine.
#[derive(Clone, Copy, Debug, PartialEq, Eq, Structural)]
pub struct PanicSqlite;

/// The builder of `PanicSqlite`.
#[derive(Clone, Copy, Debug, PartialEq, Eq, Structural)]
pub struct PanicSqliteBuilder;

} // verus!
