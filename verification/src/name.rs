//! Fully-qualified target names.
//!
//! A target is known by a tag, the dotted kind it was declared under, and the
//! name its author chose. The text form is the two joined by a dot.
use vstd::prelude::*;
use crate::table::TableKey;
use crate::text::{
    chars_of, concat3, last_index, lemma_deep_view_push, lemma_last_index_upto_is, rfind_char,
    string_from_range,
    string_of,
};

verus! {

/// The model of a fully-qualified name.
pub struct NameView {
    pub tag: Seq<char>,
    pub name: Seq<char>,
}

/// The text form of a name: tag, a dot, name.
pub open spec fn name_text(n: NameView) -> Seq<char> {
    n.tag + seq!['.'] + n.name
}

/// The name that a text spells: what follows the last dot is the name, what
/// precedes it the tag. A text without a dot is a name with an empty tag.
pub open spec fn parse_name(s: Seq<char>) -> NameView {
    let dot = last_index(s, '.');
    if dot < 0 {
        NameView { tag: Seq::empty(), name: s }
    } else {
        NameView { tag: s.subrange(0, dot), name: s.subrange(dot + 1, s.len() as int) }
    }
}

/// The identity of a target: its tag and its name.
#[derive(Debug, PartialEq, Eq, Hash)]
pub struct FullyQualifiedName {
    pub tag: String,
    pub name: String,
}

impl View for FullyQualifiedName {
    type V = NameView;

    open spec fn view(&self) -> NameView {
        NameView { tag: self.tag@, name: self.name@ }
    }
}

impl DeepView for FullyQualifiedName {
    type V = NameView;

    open spec fn deep_view(&self) -> NameView {
        self@
    }
}

impl Clone for FullyQualifiedName {
    fn clone(&self) -> (r: Self)
        ensures
            r == *self,
    {
        FullyQualifiedName { tag: self.tag.clone(), name: self.name.clone() }
    }
}

impl TableKey for FullyQualifiedName {
    fn key_eq(&self, other: &Self) -> (b: bool) {
        self.tag == other.tag && self.name == other.name
    }
}

impl FullyQualifiedName {
    /// Reads a name from its text form.
    pub fn from_string(input: &str) -> (r: Self)
        ensures
            r@ == parse_name(input@),
    {
        let chars = chars_of(input);
        match rfind_char(&chars, '.', chars.len()) {
            Some(dot) => FullyQualifiedName {
                tag: string_from_range(&chars, 0, dot),
                name: string_from_range(&chars, dot + 1, chars.len()),
            },
            None => FullyQualifiedName {
                tag: String::new(),
                name: string_of(&chars),
            },
        }
    }

    /// Whether the two names are the same.
    pub fn key_eq_name(&self, other: &Self) -> (b: bool)
        ensures
            b == (self@ == other@),
    {
        self.tag == other.tag && self.name == other.name
    }

    /// The text form of the name.
    pub fn to_string(&self) -> (s: String)
        ensures
            s@ == name_text(self@),
    {
        proof {
            reveal_strlit(".");
            assert("."@ =~= seq!['.']);
        }
        concat3(self.tag.as_str(), ".", self.name.as_str())
    }
}

/// A copy of each name of `names`, in order.
pub fn clone_names(names: &Vec<FullyQualifiedName>) -> (r: Vec<FullyQualifiedName>)
    ensures
        r.deep_view() == names.deep_view(),
{
    let mut r: Vec<FullyQualifiedName> = Vec::new();
    let mut i: usize = 0;
    while i < names.len()
        invariant
            i <= names.len(),
            r.deep_view() == names.deep_view().take(i as int),
        decreases names.len() - i,
    {
        let ghost before = r;
        let item = names[i].clone();
        r.push(item);
        proof {
            lemma_deep_view_push(before, r, item);
            assert(names.deep_view().take(i as int + 1) =~= names.deep_view().take(i as int).push(
                names@[i as int]@,
            ));
        }
        i += 1;
    }
    assert(names.deep_view().take(names.len() as int) == names.deep_view());
    r
}

/// `a` followed by `b`, both copied.
pub fn concat_names(a: &Vec<FullyQualifiedName>, b: &Vec<FullyQualifiedName>) -> (r: Vec<
    FullyQualifiedName,
>)
    ensures
        r.deep_view() == a.deep_view() + b.deep_view(),
{
    let mut r = clone_names(a);
    let mut i: usize = 0;
    while i < b.len()
        invariant
            i <= b.len(),
            r.deep_view() == a.deep_view() + b.deep_view().take(i as int),
        decreases b.len() - i,
    {
        let ghost before = r;
        let item = b[i].clone();
        r.push(item);
        proof {
            lemma_deep_view_push(before, r, item);
            assert(a.deep_view() + b.deep_view().take(i as int + 1) =~= (a.deep_view()
                + b.deep_view().take(i as int)).push(b@[i as int]@));
        }
        i += 1;
    }
    assert(b.deep_view().take(b.len() as int) == b.deep_view());
    r
}

/// Reading back the text form of a name gives the name, as long as the name
/// part holds no dot.
pub proof fn lemma_parse_name_text(n: NameView)
    requires
        forall|k: int| 0 <= k < n.name.len() ==> n.name[k] != '.',
    ensures
        parse_name(name_text(n)) == n,
{
    let s = name_text(n);
    let dot = n.tag.len() as int;
    assert(s[dot] == '.');
    assert forall|k: int| dot < k < s.len() implies s[k] != '.' by {
        assert(s[k] == n.name[k - dot - 1]);
    }
    lemma_last_index_upto_is(s, '.', s.len() as int, dot);
    assert(s.subrange(0, dot) =~= n.tag);
    assert(s.subrange(dot + 1, s.len() as int) =~= n.name);
}

} // verus!
