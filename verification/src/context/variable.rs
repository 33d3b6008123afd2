//! What a placeholder refers to.
use vstd::prelude::*;
use crate::error::Error;
use crate::text::{
    chars_of, has_char, last_index, lemma_first_index_from, lemma_last_index_upto,
    range_equals, range_starts_with, rfind_char, starts_with, string_from_range, string_of,
};

verus! {

/// The model of a reference.
pub enum VariableView {
    /// A variable of the target that the text belongs to.
    Simple(Seq<char>),
    /// A key of the configuration's globals.
    Global(Seq<char>),
    /// A variable of another target: the target as written, then the key.
    Ref(Seq<char>, Seq<char>),
    /// An output of another target: the target as written, then the key.
    Output(Seq<char>, Seq<char>),
}

/// The prefix that marks a reference to the globals.
pub open spec fn globals_prefix() -> Seq<char> {
    "globals."@
}

/// The path component that marks a reference to an output.
pub open spec fn output_marker() -> Seq<char> {
    "output"@
}

/// The reference that the dotted path `s` spells.
///
/// A path without a dot is a variable of the current target. A path that
/// begins with `globals.` is a global. Of any other path the last component is
/// the key; if the component before it is `output` and more precedes that, the
/// path names an output of the target spelled by what precedes, else a
/// variable of the target spelled by all but the key.
pub open spec fn parse_variable(s: Seq<char>) -> VariableView {
    if !has_char(s, '.') {
        VariableView::Simple(s)
    } else if starts_with(s, globals_prefix()) {
        VariableView::Global(s.subrange(globals_prefix().len() as int, s.len() as int))
    } else {
        let dot = last_index(s, '.');
        let key = s.subrange(dot + 1, s.len() as int);
        let head = s.subrange(0, dot);
        let inner = last_index(head, '.');
        if inner >= 0 && head.subrange(inner + 1, head.len() as int) == output_marker() {
            VariableView::Output(head.subrange(0, inner), key)
        } else {
            VariableView::Ref(head, key)
        }
    }
}

/// What a placeholder refers to.
#[derive(Debug)]
pub enum Variable {
    /// A variable of the target that the text belongs to.
    Simple(String),
    /// A key of the configuration's globals.
    Global(String),
    /// A variable of another target: the target as written, then the key.
    Ref(String, String),
    /// An output of another target: the target as written, then the key.
    Output(String, String),
}

impl View for Variable {
    type V = VariableView;

    open spec fn view(&self) -> VariableView {
        match self {
            Variable::Simple(k) => VariableView::Simple(k@),
            Variable::Global(k) => VariableView::Global(k@),
            Variable::Ref(t, k) => VariableView::Ref(t@, k@),
            Variable::Output(t, k) => VariableView::Output(t@, k@),
        }
    }
}

impl Variable {
    /// Reads the inside of a placeholder. Every text is some reference.
    pub fn from_string(input: &str) -> (r: Result<Self, Error>)
        ensures
            r is Ok,
            r->Ok_0@ == parse_variable(input@),
    {
        let chars = chars_of(input);
        Ok(Self::from_chars(&chars))
    }

    /// Reads the inside of a placeholder from its characters.
    pub fn from_chars(chars: &Vec<char>) -> (r: Self)
        ensures
            r@ == parse_variable(chars@),
    {
        let n = chars.len();
        let ghost s = chars@;
        proof {
            lemma_first_index_from(s, '.', 0);
            lemma_last_index_upto(s, '.', s.len() as int);
            crate::text::lemma_has_char(s, '.');
            assert(s.subrange(0, s.len() as int) == s);
        }
        let globals = chars_of("globals.");
        let output = chars_of("output");
        match rfind_char(chars, '.', n) {
            None => Variable::Simple(string_of(chars)),
            Some(dot) => {
                if range_starts_with(chars, 0, &globals) {
                    Variable::Global(string_from_range(chars, globals.len(), n))
                } else {
                    let key = string_from_range(chars, dot + 1, n);
                    let ghost head = s.subrange(0, dot as int);
                    proof {
                        lemma_last_index_upto(head, '.', head.len() as int);
                        lemma_last_index_upto(s, '.', dot as int);
                        lemma_last_index_same_prefix(s, dot as int, dot as int);
                    }
                    match rfind_char(chars, '.', dot) {
                        Some(inner) => {
                            assert(head.subrange(inner + 1, head.len() as int) == s.subrange(
                                inner + 1,
                                dot as int,
                            ));
                            assert(head.subrange(0, inner as int) == s.subrange(0, inner as int));
                            if range_equals(chars, inner + 1, dot, &output) {
                                Variable::Output(string_from_range(chars, 0, inner), key)
                            } else {
                                Variable::Ref(string_from_range(chars, 0, dot), key)
                            }
                        },
                        None => Variable::Ref(string_from_range(chars, 0, dot), key),
                    }
                }
            },
        }
    }
}

/// Searching a prefix of a text backwards is searching the text backwards from the prefix's end.
pub proof fn lemma_last_index_same_prefix(s: Seq<char>, cut: int, upto: int)
    requires
        0 <= upto <= cut <= s.len(),
    ensures
        crate::text::last_index_upto(s.subrange(0, cut), '.', upto) == crate::text::last_index_upto(
            s,
            '.',
            upto,
        ),
    decreases upto,
{
    if upto > 0 {
        assert(s.subrange(0, cut)[upto - 1] == s[upto - 1]);
        if s[upto - 1] != '.' {
            lemma_last_index_same_prefix(s, cut, upto - 1);
        }
    }
}

} // verus!
