//! Placeholders in a text.
//!
//! A placeholder is an opening brace, an identifier that holds no brace, and
//! a closing brace. A text is read from left to right: a closing brace ends a
//! placeholder if an opening brace came before it since the last placeholder,
//! and the placeholder then starts at the last such opening brace. Every other
//! brace is literal text.
use vstd::prelude::*;
use crate::text::{chars_of, lemma_deep_view_push, string_from_range};

verus! {

/// The first placeholder of `s` that ends at or after `i`, as the positions
/// of its two braces, given that the last opening brace still waiting for its
/// partner stands at `open` (`-1` when none waits).
pub open spec fn scan(s: Seq<char>, i: int, open: int) -> Option<(int, int)>
    decreases s.len() - i,
{
    if i < 0 || i >= s.len() {
        None
    } else if s[i] == '{' {
        scan(s, i + 1, i)
    } else if s[i] == '}' && open >= 0 {
        Some((open, i))
    } else {
        scan(s, i + 1, open)
    }
}

/// What `scan` finds lies where it should: the opening brace is the one that
/// was waiting or a later one, the closing brace follows it, and no brace
/// stands between the two.
pub proof fn lemma_scan(s: Seq<char>, i: int, open: int)
    requires
        0 <= i <= s.len(),
        -1 <= open < i,
        open >= 0 ==> s[open] == '{',
        open >= 0 ==> forall|k: int| open < k < i ==> s[k] != '{' && s[k] != '}',
    ensures
        match scan(s, i, open) {
            Some((o, c)) => {
                &&& 0 <= o < c < s.len()
                &&& i <= c
                &&& (o == open || i <= o)
                &&& s[o] == '{'
                &&& s[c] == '}'
                &&& forall|k: int| o < k < c ==> s[k] != '{' && s[k] != '}'
            },
            None => true,
        },
    decreases s.len() - i,
{
    if i < s.len() {
        if s[i] == '{' {
            lemma_scan(s, i + 1, i);
        } else if s[i] == '}' && open >= 0 {
        } else {
            lemma_scan(s, i + 1, open);
        }
    }
}

/// A text without a closing brace from `i` on has no placeholder from `i` on.
pub proof fn lemma_scan_without_close(s: Seq<char>, i: int, open: int)
    requires
        0 <= i <= s.len(),
        forall|k: int| i <= k < s.len() ==> s[k] != '}',
    ensures
        scan(s, i, open) is None,
    decreases s.len() - i,
{
    if i < s.len() {
        if s[i] == '{' {
            lemma_scan_without_close(s, i + 1, i);
        } else {
            lemma_scan_without_close(s, i + 1, open);
        }
    }
}

/// A text without an opening brace from `i` on, read with none waiting, has
/// no placeholder from `i` on.
pub proof fn lemma_scan_without_open(s: Seq<char>, i: int)
    requires
        0 <= i <= s.len(),
        forall|k: int| i <= k < s.len() ==> s[k] != '{',
    ensures
        scan(s, i, -1) is None,
    decreases s.len() - i,
{
    if i < s.len() {
        lemma_scan_without_open(s, i + 1);
    }
}

/// Appending a text without a closing brace changes no placeholder.
pub proof fn lemma_scan_append(p: Seq<char>, t: Seq<char>, i: int, open: int)
    requires
        0 <= i <= p.len(),
        forall|k: int| 0 <= k < t.len() ==> t[k] != '}',
    ensures
        scan(p + t, i, open) == scan(p, i, open),
    decreases p.len() - i,
{
    let s = p + t;
    if i < p.len() {
        assert(s[i] == p[i]);
        if p[i] == '{' {
            lemma_scan_append(p, t, i + 1, i);
        } else if p[i] == '}' && open >= 0 {
        } else {
            lemma_scan_append(p, t, i + 1, open);
        }
    } else {
        assert forall|k: int| i <= k < s.len() implies s[k] != '}' by {
            assert(s[k] == t[k - p.len()]);
        }
        lemma_scan_without_close(s, i, open);
    }
}

/// The first placeholder of `s` that starts at or after `i`.
pub open spec fn next_placeholder(s: Seq<char>, i: int) -> Option<(int, int)> {
    scan(s, i, -1)
}

/// The identifiers of the placeholders of `s` from `i` on, in order.
pub open spec fn placeholders_from(s: Seq<char>, i: int) -> Seq<Seq<char>>
    decreases s.len() - i,
{
    match next_placeholder(s, i) {
        Some((o, c)) => if i <= c < s.len() {
            seq![s.subrange(o + 1, c)] + placeholders_from(s, c + 1)
        } else {
            Seq::empty()
        },
        None => Seq::empty(),
    }
}

/// The identifiers of the placeholders of `s`, in order.
pub open spec fn placeholders(s: Seq<char>) -> Seq<Seq<char>> {
    placeholders_from(s, 0)
}

/// `s` from `i` on with each placeholder, braces included, replaced by what
/// `f` gives for its identifier. The first identifier, from the left, that
/// `f` refuses decides the error.
pub open spec fn rewrite_from<E>(
    s: Seq<char>,
    i: int,
    f: spec_fn(Seq<char>) -> Result<Seq<char>, E>,
) -> Result<Seq<char>, E>
    decreases s.len() - i,
{
    match next_placeholder(s, i) {
        Some((o, c)) => if i <= o < c < s.len() {
            match f(s.subrange(o + 1, c)) {
                Err(e) => Err(e),
                Ok(v) => match rewrite_from(s, c + 1, f) {
                    Err(e) => Err(e),
                    Ok(rest) => Ok(s.subrange(i, o) + v + rest),
                },
            }
        } else {
            Ok(s.subrange(i, s.len() as int))
        },
        None => Ok(s.subrange(i, s.len() as int)),
    }
}

/// `s` with each placeholder replaced by what `f` gives for its identifier.
pub open spec fn rewrite<E>(s: Seq<char>, f: spec_fn(Seq<char>) -> Result<Seq<char>, E>) -> Result<
    Seq<char>,
    E,
> {
    rewrite_from(s, 0, f)
}

/// A text without an opening brace is rewritten to itself.
pub proof fn lemma_rewrite_without_open<E>(
    s: Seq<char>,
    f: spec_fn(Seq<char>) -> Result<Seq<char>, E>,
)
    requires
        forall|k: int| 0 <= k < s.len() ==> s[k] != '{',
    ensures
        rewrite(s, f) == Ok::<Seq<char>, E>(s),
        placeholders(s) == Seq::<Seq<char>>::empty(),
{
    lemma_scan_without_open(s, 0);
    assert(s.subrange(0, s.len() as int) == s);
}

/// What follows the last closing brace of a text is kept as it stands: a
/// tail without a closing brace, whatever opening braces it holds, comes out
/// of a rewrite unchanged, and the text before it is rewritten as if the tail
/// were not there.
pub proof fn lemma_rewrite_unmatched_tail<E>(
    p: Seq<char>,
    t: Seq<char>,
    i: int,
    f: spec_fn(Seq<char>) -> Result<Seq<char>, E>,
)
    requires
        0 <= i <= p.len(),
        forall|k: int| 0 <= k < t.len() ==> t[k] != '}',
    ensures
        rewrite_from(p + t, i, f) == match rewrite_from(p, i, f) {
            Ok(r) => Ok(r + t),
            Err(e) => Err(e),
        },
        placeholders_from(p + t, i) == placeholders_from(p, i),
    decreases p.len() - i,
{
    let s = p + t;
    lemma_scan_append(p, t, i, -1);
    lemma_scan(p, i, -1);
    match next_placeholder(p, i) {
        Some((o, c)) => {
            assert(s.subrange(o + 1, c) == p.subrange(o + 1, c));
            assert(s.subrange(i, o) == p.subrange(i, o));
            lemma_rewrite_unmatched_tail(p, t, c + 1, f);
            match f(p.subrange(o + 1, c)) {
                Ok(v) => match rewrite_from(p, c + 1, f) {
                    Ok(rest) => {
                        assert(p.subrange(i, o) + v + (rest + t) == p.subrange(i, o) + v + rest
                            + t);
                    },
                    Err(_) => {},
                },
                Err(_) => {},
            }
        },
        None => {
            assert(s.subrange(i, s.len() as int) == p.subrange(i, p.len() as int) + t);
        },
    }
}

/// The first placeholder of `chars` at or after `from`: the positions of its braces.
pub fn find_placeholder(chars: &Vec<char>, from: usize) -> (r: Option<(usize, usize)>)
    requires
        from <= chars.len(),
    ensures
        match r {
            Some((o, c)) => next_placeholder(chars@, from as int) == Some((o as int, c as int))
                && from <= o < c < chars.len(),
            None => next_placeholder(chars@, from as int) is None,
        },
{
    let mut open: Option<usize> = None;
    let mut i: usize = from;
    while i < chars.len()
        invariant
            from <= i <= chars.len(),
            match open {
                Some(o) => from <= o < i && chars@[o as int] == '{' && scan(
                    chars@,
                    from as int,
                    -1,
                ) == scan(chars@, i as int, o as int),
                None => scan(chars@, from as int, -1) == scan(chars@, i as int, -1),
            },
        decreases chars.len() - i,
    {
        let ch = chars[i];
        if ch == '{' {
            open = Some(i);
        } else if ch == '}' {
            if let Some(o) = open {
                return Some((o, i));
            }
        }
        i += 1;
    }
    None
}

/// The identifiers of the placeholders of `input`, in order.
pub fn extract_variables(input: &str) -> (r: Vec<String>)
    ensures
        r.deep_view() == placeholders(input@),
{
    let chars = chars_of(input);
    let mut results: Vec<String> = Vec::new();
    let mut i: usize = 0;
    assert(results.deep_view() =~= Seq::<Seq<char>>::empty());
    loop
        invariant
            i <= chars.len(),
            chars@ == input@,
            placeholders(input@) == results.deep_view() + placeholders_from(chars@, i as int),
        decreases chars.len() - i,
    {
        match find_placeholder(&chars, i) {
            None => {
                return results;
            },
            Some((o, c)) => {
                let ident = string_from_range(&chars, o + 1, c);
                let ghost before = results;
                results.push(ident);
                proof {
                    lemma_deep_view_push(before, results, ident);
                    assert(before.deep_view().push(ident@) + placeholders_from(
                        chars@,
                        c as int + 1,
                    ) =~= before.deep_view() + (seq![ident@] + placeholders_from(
                        chars@,
                        c as int + 1,
                    )));
                }
                i = c + 1;
            },
        }
    }
}

} // verus!
