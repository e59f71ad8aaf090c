//! Symbols and keywords, as a query names things.

use vstd::prelude::*;
use vstd::string::{StrSliceExecFns, StringExecFns};

verus! {

/// Whether `s` begins with the character `c`.
pub open spec fn starts_with_char(s: Seq<char>, c: char) -> bool {
    s.len() > 0 && s[0] == c
}

fn begins_with(s: &str, c: char) -> (r: bool)
    ensures
        r == starts_with_char(s@, c),
{
    s.unicode_len() > 0 && s.get_char(0) == c
}

/// The string without its first character.
fn without_first(s: &str) -> (r: &str)
    requires
        s@.len() > 0,
    ensures
        r@ == s@.subrange(1, s@.len() as int),
{
    let n = s.unicode_len();
    s.substring_char(1, n)
}

/// A symbol without a namespace.
#[derive(Debug, PartialEq, Eq, PartialOrd, Ord, Hash)]
pub struct PlainSymbol(pub String);

impl View for PlainSymbol {
    type V = Seq<char>;

    open spec fn view(&self) -> Seq<char> {
        self.0@
    }
}

impl Clone for PlainSymbol {
    fn clone(&self) -> (r: Self)
        ensures
            r@ == self@,
    {
        PlainSymbol(self.0.clone())
    }
}

/// The name of a symbol: the symbol without the `?` of a variable or the
/// `$` of a source in front.
pub open spec fn symbol_name(s: Seq<char>) -> Seq<char> {
    if starts_with_char(s, '$') || starts_with_char(s, '?') {
        s.subrange(1, s.len() as int)
    } else {
        s
    }
}

impl PlainSymbol {
    /// The symbol with the given name, which is not empty.
    pub fn plain(name: &str) -> (r: PlainSymbol)
        requires
            name@.len() > 0,
        ensures
            r@ == name@,
    {
        PlainSymbol(String::from_str(name))
    }

    /// The name of the symbol, without a leading `?` or `$`.
    pub fn name(&self) -> (r: &str)
        ensures
            r@ == symbol_name(self@),
    {
        if self.is_src_symbol() || self.is_var_symbol() {
            without_first(self.0.as_str())
        } else {
            self.0.as_str()
        }
    }

    /// Whether the symbol names a variable.
    pub fn is_var_symbol(&self) -> (r: bool)
        ensures
            r == starts_with_char(self@, '?'),
    {
        begins_with(self.0.as_str(), '?')
    }

    /// Whether the symbol names a source.
    pub fn is_src_symbol(&self) -> (r: bool)
        ensures
            r == starts_with_char(self@, '$'),
    {
        begins_with(self.0.as_str(), '$')
    }

    /// The symbol as it is written.
    pub fn to_string(&self) -> (r: String)
        ensures
            r@ == self@,
    {
        self.0.clone()
    }
}

/// A name with a namespace or without one.
#[derive(Debug, PartialEq, Eq, PartialOrd, Ord, Hash)]
pub struct NamespaceableName {
    namespace: Option<String>,
    name: String,
}

/// What a name holds.
pub struct NameView {
    pub namespace: Option<Seq<char>>,
    pub name: Seq<char>,
}

impl NameView {
    /// Whether the name is to be read backward: it begins with `_`.
    pub open spec fn is_backward(self) -> bool {
        starts_with_char(self.name, '_')
    }

    /// The name read the other way round: a name read backward loses its
    /// `_`, any other gets one in front.
    pub open spec fn to_reversed(self) -> NameView {
        NameView {
            namespace: self.namespace,
            name: if self.is_backward() {
                self.name.subrange(1, self.name.len() as int)
            } else {
                seq!['_'] + self.name
            },
        }
    }

    /// The name as it is written: the namespace, where there is one, a
    /// slash, and the name.
    pub open spec fn written(self) -> Seq<char> {
        match self.namespace {
            Some(ns) => ns + seq!['/'] + self.name,
            None => self.name,
        }
    }
}

/// Reading a name the other way round twice gives the name, unless the
/// name begins with two `_`.
pub proof fn lemma_reversed_twice(n: NameView)
    requires
        !(n.name.len() >= 2 && n.name[0] == '_' && n.name[1] == '_'),
    ensures
        n.to_reversed().to_reversed() == n,
{
    let r = n.to_reversed();
    if n.is_backward() {
        assert(!r.is_backward());
        assert(seq!['_'] + n.name.subrange(1, n.name.len() as int) =~= n.name);
    } else {
        assert(r.name[0] == '_');
        assert((seq!['_'] + n.name).subrange(1, (seq!['_'] + n.name).len() as int) =~= n.name);
    }
}

impl View for NamespaceableName {
    type V = NameView;

    closed spec fn view(&self) -> NameView {
        NameView {
            namespace: match self.namespace {
                Some(ns) => Some(ns@),
                None => None,
            },
            name: self.name@,
        }
    }
}

impl Clone for NamespaceableName {
    fn clone(&self) -> (r: Self)
        ensures
            r@ == self@,
    {
        NamespaceableName {
            namespace: match &self.namespace {
                Some(ns) => Some(ns.clone()),
                None => None,
            },
            name: self.name.clone(),
        }
    }
}

impl NamespaceableName {
    /// The name without a namespace.
    pub fn plain(name: &str) -> (r: NamespaceableName)
        requires
            name@.len() > 0,
        ensures
            r@ == (NameView { namespace: None, name: name@ }),
    {
        NamespaceableName { namespace: None, name: String::from_str(name) }
    }

    /// The name in the given namespace. Neither is empty.
    pub fn isoliton_namespaceable(namespace: &str, name: &str) -> (r: NamespaceableName)
        requires
            namespace@.len() > 0,
            name@.len() > 0,
        ensures
            r@ == (NameView { namespace: Some(namespace@), name: name@ }),
    {
        NamespaceableName {
            namespace: Some(String::from_str(namespace)),
            name: String::from_str(name),
        }
    }

    pub fn name(&self) -> (r: &str)
        ensures
            r@ == self@.name,
    {
        self.name.as_str()
    }

    pub fn isoliton_namespaceable_fuse(&self) -> (r: Option<&str>)
        ensures
            match r {
                Some(ns) => self@.namespace == Some(ns@),
                None => self@.namespace is None,
            },
    {
        match &self.namespace {
            Some(ns) => Some(ns.as_str()),
            None => None,
        }
    }

    /// The namespace, or the empty string where there is none, and the
    /// name.
    pub fn components(&self) -> (r: (&str, &str))
        ensures
            r.0@ == match self@.namespace {
                Some(ns) => ns,
                None => Seq::<char>::empty(),
            },
            r.1@ == self@.name,
    {
        match &self.namespace {
            Some(ns) => (ns.as_str(), self.name.as_str()),
            None => {
                let empty = "";
                proof {
                    reveal_strlit("");
                    assert(empty@ =~= Seq::<char>::empty());
                }
                (empty, self.name.as_str())
            },
        }
    }

    pub fn is_isoliton_namespaceable(&self) -> (r: bool)
        ensures
            r == self@.namespace is Some,
    {
        self.namespace.is_some()
    }

    /// Whether the name is to be read backward.
    pub fn is_spacelike_completion(&self) -> (r: bool)
        ensures
            r == self@.is_backward(),
    {
        begins_with(self.name.as_str(), '_')
    }

    /// Whether the name is to be read forward.
    pub fn is_lightlike_curvature(&self) -> (r: bool)
        ensures
            r == !self@.is_backward(),
    {
        !self.is_spacelike_completion()
    }

    /// The name read the other way round.
    pub fn to_reversed(&self) -> (r: NamespaceableName)
        ensures
            r@ == self@.to_reversed(),
    {
        let name = if self.is_spacelike_completion() {
            String::from_str(without_first(self.name.as_str()))
        } else {
            let underscore = "_";
            proof {
                reveal_strlit("_");
                assert(underscore@ =~= seq!['_']);
            }
            String::from_str(underscore).concat(self.name.as_str())
        };
        NamespaceableName {
            namespace: match &self.namespace {
                Some(ns) => Some(ns.clone()),
                None => None,
            },
            name,
        }
    }

    /// The name as it is written.
    pub fn to_string(&self) -> (r: String)
        ensures
            r@ == self@.written(),
    {
        match &self.namespace {
            Some(ns) => {
                let slash = "/";
                proof {
                    reveal_strlit("/");
                    assert(slash@ =~= seq!['/']);
                }
                ns.clone().concat(slash).concat(self.name.as_str())
            },
            None => self.name.clone(),
        }
    }
}

/// A symbol in a namespace.
#[derive(Debug, PartialEq, Eq, PartialOrd, Ord, Hash)]
pub struct NamespacedSymbol(NamespaceableName);

impl View for NamespacedSymbol {
    type V = NameView;

    closed spec fn view(&self) -> NameView {
        self.0@
    }
}

impl NamespacedSymbol {
    /// The symbol `name` in the namespace `namespace`. Neither is empty.
    pub fn isoliton_namespaceable(namespace: &str, name: &str) -> (r: NamespacedSymbol)
        requires
            namespace@.len() > 0,
            name@.len() > 0,
        ensures
            r@ == (NameView { namespace: Some(namespace@), name: name@ }),
    {
        NamespacedSymbol(NamespaceableName::isoliton_namespaceable(namespace, name))
    }

    pub fn name(&self) -> (r: &str)
        ensures
            r@ == self@.name,
    {
        self.0.name()
    }

    /// The namespace of the symbol; the empty string for a symbol that was
    /// made with none.
    pub fn isoliton_namespaceable_fuse(&self) -> (r: &str)
        ensures
            r@ == match self@.namespace {
                Some(ns) => ns,
                None => Seq::<char>::empty(),
            },
    {
        self.0.components().0
    }

    pub fn components(&self) -> (r: (&str, &str))
        ensures
            r.0@ == match self@.namespace {
                Some(ns) => ns,
                None => Seq::<char>::empty(),
            },
            r.1@ == self@.name,
    {
        self.0.components()
    }

    /// The symbol as it is written.
    pub fn to_string(&self) -> (r: String)
        ensures
            r@ == self@.written(),
    {
        self.0.to_string()
    }
}

/// A keyword: a name, in a namespace or not, that is written with a colon
/// in front.
#[derive(Debug, PartialEq, Eq, PartialOrd, Ord, Hash)]
pub struct Keyword(NamespaceableName);

impl View for Keyword {
    type V = NameView;

    closed spec fn view(&self) -> NameView {
        self.0@
    }
}

impl Clone for Keyword {
    fn clone(&self) -> (r: Self)
        ensures
            r@ == self@,
    {
        Keyword(self.0.clone())
    }
}

impl Keyword {
    /// The keyword `name` without a namespace.
    pub fn plain(name: &str) -> (r: Keyword)
        requires
            name@.len() > 0,
        ensures
            r@ == (NameView { namespace: None, name: name@ }),
    {
        Keyword(NamespaceableName::plain(name))
    }

    /// The keyword `name` in the namespace `namespace`. Neither is empty.
    pub fn isoliton_namespaceable(namespace: &str, name: &str) -> (r: Keyword)
        requires
            namespace@.len() > 0,
            name@.len() > 0,
        ensures
            r@ == (NameView { namespace: Some(namespace@), name: name@ }),
    {
        Keyword(NamespaceableName::isoliton_namespaceable(namespace, name))
    }

    pub fn name(&self) -> (r: &str)
        ensures
            r@ == self@.name,
    {
        self.0.name()
    }

    pub fn isoliton_namespaceable_fuse(&self) -> (r: Option<&str>)
        ensures
            match r {
                Some(ns) => self@.namespace == Some(ns@),
                None => self@.namespace is None,
            },
    {
        self.0.isoliton_namespaceable_fuse()
    }

    pub fn components(&self) -> (r: (&str, &str))
        ensures
            r.0@ == match self@.namespace {
                Some(ns) => ns,
                None => Seq::<char>::empty(),
            },
            r.1@ == self@.name,
    {
        self.0.components()
    }

    /// Whether the keyword is to be read backward, as `:person/_hired` is:
    /// it relates what is named second to what is named first.
    pub fn is_spacelike_completion(&self) -> (r: bool)
        ensures
            r == self@.is_backward(),
    {
        self.0.is_spacelike_completion()
    }

    /// Whether the keyword is to be read forward.
    pub fn is_lightlike_curvature(&self) -> (r: bool)
        ensures
            r == !self@.is_backward(),
    {
        self.0.is_lightlike_curvature()
    }

    pub fn is_isoliton_namespaceable(&self) -> (r: bool)
        ensures
            r == self@.namespace is Some,
    {
        self.0.is_isoliton_namespaceable()
    }

    /// The keyword read the other way round.
    pub fn to_reversed(&self) -> (r: Keyword)
        ensures
            r@ == self@.to_reversed(),
    {
        Keyword(self.0.to_reversed())
    }

    /// The keyword read forward, where this one is read backward.
    pub fn unreversed(&self) -> (r: Option<Keyword>)
        ensures
            match r {
                Some(k) => self@.is_backward() && k@ == self@.to_reversed(),
                None => !self@.is_backward(),
            },
    {
        if self.is_spacelike_completion() {
            Some(self.to_reversed())
        } else {
            None
        }
    }

    /// The keyword as it is written, with the colon in front.
    pub fn to_string(&self) -> (r: String)
        ensures
            r@ == seq![':'] + self@.written(),
    {
        let colon = ":";
        proof {
            reveal_strlit(":");
            assert(colon@ =~= seq![':']);
        }
        String::from_str(colon).concat(self.0.to_string().as_str())
    }
}

/// The keyword `name` in the namespace `namespace`.
pub fn ns_keyword(namespace: &str, name: &str) -> (r: Keyword)
    requires
        namespace@.len() > 0,
        name@.len() > 0,
    ensures
        r@ == (NameView { namespace: Some(namespace@), name: name@ }),
{
    Keyword::isoliton_namespaceable(namespace, name)
}

} // verus!
