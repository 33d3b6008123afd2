//! Character-level helpers for strings.
//!
//! A string is modelled by its view, a `Seq<char>`. The functions here are the
//! small vocabulary the rest of the crate is written in: searching for a
//! character, cutting a range out of a character buffer, joining pieces with a
//! separator and comparing texts.
use vstd::prelude::*;

verus! {

/// `String::push` appends one character.
pub assume_specification[ String::push ](s: &mut String, c: char)
    ensures
        final(s)@ == old(s)@.push(c),
;

/// Index of the first `c` in `s` at or after `from`; `s.len()` when there is none.
pub open spec fn first_index_from(s: Seq<char>, c: char, from: int) -> int
    decreases s.len() - from,
{
    if from >= s.len() {
        s.len() as int
    } else if from >= 0 && s[from] == c {
        from
    } else {
        first_index_from(s, c, from + 1)
    }
}

/// Index of the last `c` in `s` strictly before `upto`; `-1` when there is none.
pub open spec fn last_index_upto(s: Seq<char>, c: char, upto: int) -> int
    decreases upto,
{
    if upto <= 0 {
        -1
    } else if upto <= s.len() && s[upto - 1] == c {
        upto - 1
    } else {
        last_index_upto(s, c, upto - 1)
    }
}

/// Index of the first `c` in `s`; `s.len()` when there is none.
pub open spec fn first_index(s: Seq<char>, c: char) -> int {
    first_index_from(s, c, 0)
}

/// Index of the last `c` in `s`; `-1` when there is none.
pub open spec fn last_index(s: Seq<char>, c: char) -> int {
    last_index_upto(s, c, s.len() as int)
}

/// Whether `c` occurs in `s`.
pub open spec fn has_char(s: Seq<char>, c: char) -> bool {
    first_index(s, c) < s.len()
}

/// Whether `s` begins with `prefix`.
pub open spec fn starts_with(s: Seq<char>, prefix: Seq<char>) -> bool {
    prefix.len() <= s.len() && s.subrange(0, prefix.len() as int) == prefix
}

/// The pieces of `parts` with `sep` between each two neighbours.
pub open spec fn join(parts: Seq<Seq<char>>, sep: Seq<char>) -> Seq<char>
    decreases parts.len(),
{
    if parts.len() == 0 {
        Seq::empty()
    } else if parts.len() == 1 {
        parts[0]
    } else {
        join(parts.drop_last(), sep) + sep + parts.last()
    }
}

/// `first_index_from` is the least index at or after `from` that holds `c`.
pub proof fn lemma_first_index_from(s: Seq<char>, c: char, from: int)
    requires
        0 <= from <= s.len(),
    ensures
        from <= first_index_from(s, c, from) <= s.len(),
        first_index_from(s, c, from) < s.len() ==> s[first_index_from(s, c, from)] == c,
        forall|k: int| from <= k < first_index_from(s, c, from) ==> s[k] != c,
    decreases s.len() - from,
{
    if from < s.len() && s[from] != c {
        lemma_first_index_from(s, c, from + 1);
    }
}

/// `last_index_upto` is the greatest index before `upto` that holds `c`.
pub proof fn lemma_last_index_upto(s: Seq<char>, c: char, upto: int)
    requires
        0 <= upto <= s.len(),
    ensures
        -1 <= last_index_upto(s, c, upto) < upto,
        last_index_upto(s, c, upto) >= 0 ==> s[last_index_upto(s, c, upto)] == c,
        forall|k: int| last_index_upto(s, c, upto) < k < upto ==> s[k] != c,
    decreases upto,
{
    if upto > 0 && s[upto - 1] != c {
        lemma_last_index_upto(s, c, upto - 1);
    }
}

/// An index before `upto` that holds `c`, with no `c` after it, is `last_index_upto`.
pub proof fn lemma_last_index_upto_is(s: Seq<char>, c: char, upto: int, r: int)
    requires
        -1 <= r < upto <= s.len(),
        forall|k: int| r < k < upto ==> s[k] != c,
        r >= 0 ==> s[r] == c,
    ensures
        last_index_upto(s, c, upto) == r,
    decreases upto - r,
{
    if r < upto - 1 {
        lemma_last_index_upto_is(s, c, upto - 1, r);
    }
}

/// A text holds `c` exactly when some index of it does.
pub proof fn lemma_has_char(s: Seq<char>, c: char)
    ensures
        has_char(s, c) <==> exists|k: int| 0 <= k < s.len() && s[k] == c,
        has_char(s, c) <==> last_index(s, c) >= 0,
{
    lemma_first_index_from(s, c, 0);
    lemma_last_index_upto(s, c, s.len() as int);
    if has_char(s, c) {
        let k = first_index(s, c);
        assert(0 <= k < s.len() && s[k] == c);
    }
}

/// Pushing onto a vector pushes the element's model onto the vector's model.
pub proof fn lemma_deep_view_push<T: DeepView>(before: Vec<T>, after: Vec<T>, x: T)
    requires
        after@ == before@.push(x),
    ensures
        after.deep_view() == before.deep_view().push(x.deep_view()),
{
    assert(after.deep_view() =~= before.deep_view().push(x.deep_view()));
}

/// The model of a vector, entry by entry.
pub proof fn lemma_deep_view_index<T: DeepView>(v: Vec<T>)
    ensures
        v.deep_view().len() == v@.len(),
        forall|i: int| 0 <= i < v@.len() ==> #[trigger] v.deep_view()[i] == v@[i].deep_view(),
{
}

/// The characters of `s`, in a buffer that can be indexed.
pub fn chars_of(s: &str) -> (v: Vec<char>)
    ensures
        v@ == s@,
{
    let mut v: Vec<char> = Vec::new();
    for c in it: s.chars()
        invariant
            v@ == it.seq().take(it.index() as int),
            it.seq() == s@,
    {
        v.push(c);
    }
    v
}

/// Appends `chars[from..to]` to `out`.
pub fn push_range(out: &mut String, chars: &Vec<char>, from: usize, to: usize)
    requires
        from <= to <= chars.len(),
    ensures
        final(out)@ == old(out)@ + chars@.subrange(from as int, to as int),
{
    let mut i: usize = from;
    while i < to
        invariant
            from <= i <= to <= chars.len(),
            out@ == old(out)@ + chars@.subrange(from as int, i as int),
        decreases to - i,
    {
        out.push(chars[i]);
        i += 1;
        assert(chars@.subrange(from as int, i as int) == chars@.subrange(
            from as int,
            i as int - 1,
        ).push(chars@[i as int - 1]));
    }
}

/// The text `chars[from..to]`.
pub fn string_from_range(chars: &Vec<char>, from: usize, to: usize) -> (s: String)
    requires
        from <= to <= chars.len(),
    ensures
        s@ == chars@.subrange(from as int, to as int),
{
    let mut s = String::new();
    push_range(&mut s, chars, from, to);
    s
}

/// The text that `chars` spells.
pub fn string_of(chars: &Vec<char>) -> (s: String)
    ensures
        s@ == chars@,
{
    let s = string_from_range(chars, 0, chars.len());
    assert(chars@.subrange(0, chars@.len() as int) == chars@);
    s
}

/// Position of the last `c` before `upto`, if there is one.
pub fn rfind_char(chars: &Vec<char>, c: char, upto: usize) -> (r: Option<usize>)
    requires
        upto <= chars.len(),
    ensures
        match r {
            Some(i) => i < upto && i == last_index_upto(chars@, c, upto as int),
            None => last_index_upto(chars@, c, upto as int) == -1,
        },
{
    let mut i: usize = upto;
    while i > 0 && chars[i - 1] != c
        invariant
            i <= upto <= chars.len(),
            last_index_upto(chars@, c, upto as int) == last_index_upto(chars@, c, i as int),
        decreases i,
    {
        i -= 1;
    }
    if i == 0 {
        None
    } else {
        Some(i - 1)
    }
}

/// Whether `chars[from..]` begins with `prefix`.
pub fn range_starts_with(chars: &Vec<char>, from: usize, prefix: &Vec<char>) -> (b: bool)
    requires
        from <= chars.len(),
    ensures
        b == starts_with(chars@.subrange(from as int, chars@.len() as int), prefix@),
{
    if prefix.len() > chars.len() - from {
        return false;
    }
    let ghost rest = chars@.subrange(from as int, chars@.len() as int);
    let mut i: usize = 0;
    while i < prefix.len()
        invariant
            i <= prefix.len() <= chars.len() - from,
            rest == chars@.subrange(from as int, chars@.len() as int),
            forall|k: int| 0 <= k < i ==> rest[k] == prefix@[k],
        decreases prefix.len() - i,
    {
        if chars[from + i] != prefix[i] {
            assert(rest.subrange(0, prefix@.len() as int)[i as int] != prefix@[i as int]);
            return false;
        }
        i += 1;
    }
    assert(rest.subrange(0, prefix@.len() as int) =~= prefix@);
    true
}

/// Whether `chars[from..to]` spells `word`.
pub fn range_equals(chars: &Vec<char>, from: usize, to: usize, word: &Vec<char>) -> (b: bool)
    requires
        from <= to <= chars.len(),
    ensures
        b == (chars@.subrange(from as int, to as int) == word@),
{
    if word.len() != to - from {
        return false;
    }
    let ghost part = chars@.subrange(from as int, to as int);
    let mut i: usize = 0;
    while i < word.len()
        invariant
            i <= word.len() == to - from,
            to <= chars.len(),
            part == chars@.subrange(from as int, to as int),
            forall|k: int| 0 <= k < i ==> part[k] == word@[k],
        decreases word.len() - i,
    {
        if chars[from + i] != word[i] {
            assert(part[i as int] != word@[i as int]);
            return false;
        }
        i += 1;
    }
    assert(part =~= word@);
    true
}

/// `a` followed by `b`.
pub fn concat(a: &str, b: &str) -> (s: String)
    ensures
        s@ == a@ + b@,
{
    let mut s = String::from_str(a);
    s.append(b);
    s
}

/// `a`, `b` and `c` in a row.
pub fn concat3(a: &str, b: &str, c: &str) -> (s: String)
    ensures
        s@ == a@ + b@ + c@,
{
    let mut s = String::from_str(a);
    s.append(b);
    s.append(c);
    s
}

/// The texts of `parts` with `sep` between each two neighbours.
pub fn join_strings(parts: &Vec<String>, sep: &str) -> (s: String)
    ensures
        s@ == join(parts.deep_view(), sep@),
{
    let mut s = String::new();
    let mut i: usize = 0;
    while i < parts.len()
        invariant
            i <= parts.len(),
            s@ == join(parts.deep_view().take(i as int), sep@),
        decreases parts.len() - i,
    {
        let ghost before = parts.deep_view().take(i as int);
        let ghost after = parts.deep_view().take(i as int + 1);
        assert(after.drop_last() == before);
        assert(after.last() == parts@[i as int]@);
        if i > 0 {
            s.append(sep);
        }
        s.append(parts[i].as_str());
        i += 1;
    }
    assert(parts.deep_view().take(parts.len() as int) == parts.deep_view());
    s
}

/// A copy of a text that may be absent.
pub fn clone_option_string(s: &Option<String>) -> (r: Option<String>)
    ensures
        r.deep_view() == s.deep_view(),
{
    match s {
        None => None,
        Some(t) => Some(t.clone()),
    }
}

/// A copy of a list of texts that may be absent.
pub fn clone_option_strings(items: &Option<Vec<String>>) -> (r: Option<Vec<String>>)
    ensures
        r.deep_view() == items.deep_view(),
{
    match items {
        None => None,
        Some(l) => Some(clone_strings(l)),
    }
}

/// `a` followed by `b`, both copied.
pub fn concat_strings(a: &Vec<String>, b: &Vec<String>) -> (r: Vec<String>)
    ensures
        r.deep_view() == a.deep_view() + b.deep_view(),
{
    let mut r = clone_strings(a);
    let mut i: usize = 0;
    while i < b.len()
        invariant
            i <= b.len(),
            r.deep_view() == a.deep_view() + b.deep_view().take(i as int),
        decreases b.len() - i,
    {
        let ghost before = r;
        let item = b[i].clone();
        r.push(item);
        proof {
            lemma_deep_view_push(before, r, item);
            assert(a.deep_view() + b.deep_view().take(i as int + 1) =~= (a.deep_view()
                + b.deep_view().take(i as int)).push(b@[i as int]@));
        }
        i += 1;
    }
    assert(b.deep_view().take(b.len() as int) == b.deep_view());
    r
}

/// A copy of each text of `items`, in order.
pub fn clone_strings(items: &Vec<String>) -> (r: Vec<String>)
    ensures
        r.deep_view() == items.deep_view(),
{
    let mut r: Vec<String> = Vec::new();
    let mut i: usize = 0;
    while i < items.len()
        invariant
            i <= items.len(),
            r.deep_view() == items.deep_view().take(i as int),
        decreases items.len() - i,
    {
        let ghost before = r;
        let item = items[i].clone();
        r.push(item);
        proof {
            lemma_deep_view_push(before, r, item);
            assert(items.deep_view().take(i as int + 1) =~= items.deep_view().take(
                i as int,
            ).push(items@[i as int]@));
        }
        i += 1;
    }
    assert(items.deep_view().take(items.len() as int) == items.deep_view());
    r
}

} // verus!
