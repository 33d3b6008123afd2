//! The name registry and the rewriting of references to fully-qualified form.
//!
//! The registry maps what a user may write for a target, its short name or
//! its fully-qualified text, to the targets it may stand for. A reference
//! resolves when it stands for exactly one.
use vstd::prelude::*;
use crate::context::placeholder::{find_placeholder, rewrite, rewrite_from};
use crate::context::variable::{parse_variable, Variable, VariableView};
use crate::error::{text_result, Error, ErrorKind, ErrorView};
use crate::name::{name_text, FullyQualifiedName, NameView};
use crate::table::{lookup, with_entry, StringMap, Table};
use crate::text::{
    chars_of, concat3, join, join_strings, lemma_deep_view_push, push_range, string_from_range,
};

verus! {

/// The registry: for each text a user may write, the targets it may stand for.
pub type NameMap = Table<String, Vec<FullyQualifiedName>>;

/// The model of the registry.
pub type NameMapView = Seq<(Seq<char>, Seq<NameView>)>;

/// The text forms of `names`, in order.
pub open spec fn name_texts(names: Seq<NameView>) -> Seq<Seq<char>> {
    Seq::new(names.len(), |i: int| name_text(names[i]))
}

/// The error for a reference that stands for several targets.
pub open spec fn ambiguous_reference(reference: Seq<char>, candidates: Seq<NameView>) -> ErrorView {
    ErrorView {
        kind: ErrorKind::AmbiguousReference,
        message: "Ambiguous reference <"@ + reference + ">, could be <"@ + join(
            name_texts(candidates),
            ", "@,
        ) + ">"@,
    }
}

/// The error for a reference that stands for no target.
pub open spec fn non_existent_reference(reference: Seq<char>) -> ErrorView {
    ErrorView {
        kind: ErrorKind::NonExistentReference,
        message: "Non-existent reference <"@ + reference + ">"@,
    }
}

/// The target that `reference` stands for: the one candidate the registry
/// holds for it. No candidate and several candidates are errors.
pub open spec fn resolved_reference(names: NameMapView, reference: Seq<char>) -> Result<
    NameView,
    ErrorView,
> {
    match lookup(names, reference) {
        None => Err(non_existent_reference(reference)),
        Some(candidates) => if candidates.len() == 0 {
            Err(non_existent_reference(reference))
        } else if candidates.len() > 1 {
            Err(ambiguous_reference(reference, candidates))
        } else {
            Ok(candidates[0])
        },
    }
}

/// The targets that the references of `requires` stand for, in order. The
/// first reference that does not resolve decides the error.
pub open spec fn resolved_requires(references: Seq<Seq<char>>, names: NameMapView) -> Result<
    Seq<NameView>,
    ErrorView,
>
    decreases references.len(),
{
    if references.len() == 0 {
        Ok(Seq::empty())
    } else {
        match resolved_requires(references.drop_last(), names) {
            Err(e) => Err(e),
            Ok(front) => match resolved_reference(names, references.last()) {
                Err(e) => Err(e),
                Ok(n) => Ok(front.push(n)),
            },
        }
    }
}

/// The identifier of a placeholder with its target, if it names one, written
/// out in full. A variable of the current target and a global stay as they are.
pub open spec fn canonical_identifier(ident: Seq<char>, names: NameMapView) -> Result<
    Seq<char>,
    ErrorView,
> {
    match parse_variable(ident) {
        VariableView::Simple(_) => Ok(ident),
        VariableView::Global(_) => Ok(ident),
        VariableView::Ref(target, key) => match resolved_reference(names, target) {
            Err(e) => Err(e),
            Ok(n) => Ok(name_text(n) + "."@ + key),
        },
        VariableView::Output(target, key) => match resolved_reference(names, target) {
            Err(e) => Err(e),
            Ok(n) => Ok(name_text(n) + ".output."@ + key),
        },
    }
}

/// What a placeholder becomes when its reference is written out in full.
pub open spec fn canonical_placeholder(names: NameMapView) -> spec_fn(Seq<char>) -> Result<
    Seq<char>,
    ErrorView,
> {
    |ident: Seq<char>|
        match canonical_identifier(ident, names) {
            Err(e) => Err(e),
            Ok(full) => Ok("{"@ + full + "}"@),
        }
}

/// `s` with the target of every placeholder written out in full. The first
/// placeholder, from the left, whose target does not resolve decides the error.
pub open spec fn canonical(s: Seq<char>, names: NameMapView) -> Result<Seq<char>, ErrorView> {
    rewrite(s, canonical_placeholder(names))
}

/// `canonical` of each text of `items`, in order; the first error wins.
pub open spec fn canonical_list(items: Seq<Seq<char>>, names: NameMapView) -> Result<
    Seq<Seq<char>>,
    ErrorView,
>
    decreases items.len(),
{
    if items.len() == 0 {
        Ok(Seq::empty())
    } else {
        match canonical_list(items.drop_last(), names) {
            Err(e) => Err(e),
            Ok(front) => match canonical(items.last(), names) {
                Err(e) => Err(e),
                Ok(s) => Ok(front.push(s)),
            },
        }
    }
}

/// The table of the `canonical` keys and values of `m`, entry by entry in
/// order; where two keys become the same text, the later entry wins. The
/// first error wins, a key's before its value's.
pub open spec fn canonical_map(m: Seq<(Seq<char>, Seq<char>)>, names: NameMapView) -> Result<
    Seq<(Seq<char>, Seq<char>)>,
    ErrorView,
>
    decreases m.len(),
{
    if m.len() == 0 {
        Ok(Seq::empty())
    } else {
        match canonical_map(m.drop_last(), names) {
            Err(e) => Err(e),
            Ok(front) => match canonical(m.last().0, names) {
                Err(e) => Err(e),
                Ok(k) => match canonical(m.last().1, names) {
                    Err(e) => Err(e),
                    Ok(v) => Ok(with_entry(front, k, v)),
                },
            },
        }
    }
}

/// `canonical` of a text that may be absent.
pub open spec fn canonical_option(s: Option<Seq<char>>, names: NameMapView) -> Result<
    Option<Seq<char>>,
    ErrorView,
> {
    match s {
        None => Ok(None),
        Some(t) => match canonical(t, names) {
            Err(e) => Err(e),
            Ok(c) => Ok(Some(c)),
        },
    }
}

/// `canonical_list` of a list that may be absent.
pub open spec fn canonical_option_list(items: Option<Seq<Seq<char>>>, names: NameMapView) -> Result<
    Option<Seq<Seq<char>>>,
    ErrorView,
> {
    match items {
        None => Ok(None),
        Some(l) => match canonical_list(l, names) {
            Err(e) => Err(e),
            Ok(c) => Ok(Some(c)),
        },
    }
}

/// `canonical_map` of a table that may be absent.
pub open spec fn canonical_option_map(
    m: Option<Seq<(Seq<char>, Seq<char>)>>,
    names: NameMapView,
) -> Result<Option<Seq<(Seq<char>, Seq<char>)>>, ErrorView> {
    match m {
        None => Ok(None),
        Some(t) => match canonical_map(t, names) {
            Err(e) => Err(e),
            Ok(c) => Ok(Some(c)),
        },
    }
}

/// The text forms of `names`, in order.
pub fn name_strings(names: &Vec<FullyQualifiedName>) -> (r: Vec<String>)
    ensures
        r.deep_view() == name_texts(names.deep_view()),
{
    let mut r: Vec<String> = Vec::new();
    let mut i: usize = 0;
    while i < names.len()
        invariant
            i <= names.len(),
            r.deep_view() == name_texts(names.deep_view()).take(i as int),
        decreases names.len() - i,
    {
        let ghost before = r;
        let text = names[i].to_string();
        r.push(text);
        proof {
            lemma_deep_view_push(before, r, text);
            assert(name_texts(names.deep_view()).take(i as int + 1) =~= name_texts(
                names.deep_view(),
            ).take(i as int).push(text@));
        }
        i += 1;
    }
    assert(name_texts(names.deep_view()).take(names.len() as int) == name_texts(
        names.deep_view(),
    ));
    r
}

/// The error for a reference that stands for several targets.
pub fn ambiguous_reference_error(reference: &str, candidates: &Vec<FullyQualifiedName>) -> (e:
    Error)
    ensures
        e@ == ambiguous_reference(reference@, candidates.deep_view()),
{
    let texts = name_strings(candidates);
    let listed = join_strings(&texts, ", ");
    let mut message = concat3("Ambiguous reference <", reference, ">, could be <");
    message.append(listed.as_str());
    message.append(">");
    Error::new(ErrorKind::AmbiguousReference, message)
}

/// The error for a reference that stands for no target.
pub fn non_existent_reference_error(reference: &str) -> (e: Error)
    ensures
        e@ == non_existent_reference(reference@),
{
    Error::new(
        ErrorKind::NonExistentReference,
        concat3("Non-existent reference <", reference, ">"),
    )
}

/// The target that `reference` stands for.
pub fn resolve_reference<'a>(name_map: &'a NameMap, reference: &str) -> (r: Result<
    &'a FullyQualifiedName,
    Error,
>)
    ensures
        match r {
            Ok(n) => resolved_reference(name_map.deep_view(), reference@) == Ok::<
                NameView,
                ErrorView,
            >(n@),
            Err(e) => resolved_reference(name_map.deep_view(), reference@) == Err::<
                NameView,
                ErrorView,
            >(e@),
        },
{
    let key = String::from_str(reference);
    match name_map.get(&key) {
        None => Err(non_existent_reference_error(reference)),
        Some(candidates) => {
            if candidates.len() == 0 {
                Err(non_existent_reference_error(reference))
            } else if candidates.len() > 1 {
                Err(ambiguous_reference_error(reference, candidates))
            } else {
                Ok(&candidates[0])
            }
        },
    }
}

/// The model of a result that holds a list of names.
pub open spec fn names_result(r: Result<Vec<FullyQualifiedName>, Error>) -> Result<
    Seq<NameView>,
    ErrorView,
> {
    match r {
        Ok(v) => Ok(v.deep_view()),
        Err(e) => Err(e@),
    }
}

/// The targets that the references of `requires` stand for, in order.
pub fn resolve_requires(references: &Vec<String>, name_map: &NameMap) -> (r: Result<
    Vec<FullyQualifiedName>,
    Error,
>)
    ensures
        names_result(r) == resolved_requires(references.deep_view(), name_map.deep_view()),
{
    let mut out: Vec<FullyQualifiedName> = Vec::new();
    let mut i: usize = 0;
    let ghost reqs = references.deep_view();
    let ghost names = name_map.deep_view();
    assert(reqs.take(0) =~= Seq::<Seq<char>>::empty());
    assert(out.deep_view() =~= Seq::<NameView>::empty());
    while i < references.len()
        invariant
            i <= references.len(),
            reqs == references.deep_view(),
            names == name_map.deep_view(),
            resolved_requires(reqs.take(i as int), names) == Ok::<Seq<NameView>, ErrorView>(
                out.deep_view(),
            ),
        decreases references.len() - i,
    {
        proof {
            assert(reqs.take(i as int + 1).drop_last() == reqs.take(i as int));
            assert(reqs.take(i as int + 1).last() == references@[i as int]@);
        }
        match resolve_reference(name_map, references[i].as_str()) {
            Err(e) => {
                proof {
                    lemma_resolved_requires_error(reqs, names, i as int + 1);
                }
                return Err(e);
            },
            Ok(n) => {
                let ghost before = out;
                let owned = n.clone();
                out.push(owned);
                proof {
                    lemma_deep_view_push(before, out, owned);
                }
            },
        }
        i += 1;
    }
    assert(reqs.take(references.len() as int) == reqs);
    Ok(out)
}

/// An error among the first `n` references is the error of the whole list.
pub proof fn lemma_resolved_requires_error(references: Seq<Seq<char>>, names: NameMapView, n: int)
    requires
        0 <= n <= references.len(),
        resolved_requires(references.take(n), names) is Err,
    ensures
        resolved_requires(references, names) == resolved_requires(references.take(n), names),
    decreases references.len() - n,
{
    if n < references.len() {
        assert(references.take(n + 1).drop_last() == references.take(n));
        lemma_resolved_requires_error(references, names, n + 1);
    } else {
        assert(references.take(n) == references);
    }
}

/// An error among the first `n` texts is the error of the whole list.
pub proof fn lemma_canonical_list_error(items: Seq<Seq<char>>, names: NameMapView, n: int)
    requires
        0 <= n <= items.len(),
        canonical_list(items.take(n), names) is Err,
    ensures
        canonical_list(items, names) == canonical_list(items.take(n), names),
    decreases items.len() - n,
{
    if n < items.len() {
        assert(items.take(n + 1).drop_last() == items.take(n));
        lemma_canonical_list_error(items, names, n + 1);
    } else {
        assert(items.take(n) == items);
    }
}

/// An error among the first `n` entries is the error of the whole table.
pub proof fn lemma_canonical_map_error(
    m: Seq<(Seq<char>, Seq<char>)>,
    names: NameMapView,
    n: int,
)
    requires
        0 <= n <= m.len(),
        canonical_map(m.take(n), names) is Err,
    ensures
        canonical_map(m, names) == canonical_map(m.take(n), names),
    decreases m.len() - n,
{
    if n < m.len() {
        assert(m.take(n + 1).drop_last() == m.take(n));
        lemma_canonical_map_error(m, names, n + 1);
    } else {
        assert(m.take(n) == m);
    }
}

/// What the placeholder with the identifier `ident` becomes, braces included.
pub fn canonical_replacement(ident: &str, name_map: &NameMap) -> (r: Result<String, Error>)
    ensures
        text_result(r) == canonical_placeholder(name_map.deep_view())(ident@),
{
    let variable = Variable::from_chars(&chars_of(ident));
    match variable {
        Variable::Simple(_) => Ok(concat3("{", ident, "}")),
        Variable::Global(_) => Ok(concat3("{", ident, "}")),
        Variable::Ref(target, key) => {
            match resolve_reference(name_map, target.as_str()) {
                Err(e) => Err(e),
                Ok(n) => {
                    let text = n.to_string();
                    let mut out = concat3("{", text.as_str(), ".");
                    out.append(key.as_str());
                    out.append("}");
                    assert(out@ =~= "{"@ + (name_text(n@) + "."@ + key@) + "}"@);
                    Ok(out)
                },
            }
        },
        Variable::Output(target, key) => {
            match resolve_reference(name_map, target.as_str()) {
                Err(e) => Err(e),
                Ok(n) => {
                    let text = n.to_string();
                    let mut out = concat3("{", text.as_str(), ".output.");
                    out.append(key.as_str());
                    out.append("}");
                    assert(out@ =~= "{"@ + (name_text(n@) + ".output."@ + key@) + "}"@);
                    Ok(out)
                },
            }
        },
    }
}

/// Writes out in full the target of every placeholder of `input`:
/// `{foo.bar}` becomes `{command.exec.foo.bar}`.
pub fn resolve_target_names_in(input: &str, name_map: &NameMap) -> (r: Result<String, Error>)
    ensures
        text_result(r) == canonical(input@, name_map.deep_view()),
{
    let chars = chars_of(input);
    let ghost s = chars@;
    let ghost names = name_map.deep_view();
    let ghost f = canonical_placeholder(names);
    let mut out = String::new();
    let mut i: usize = 0;
    loop
        invariant
            i <= chars.len(),
            s == chars@,
            s == input@,
            names == name_map.deep_view(),
            f == canonical_placeholder(names),
            canonical(s, names) == match rewrite_from(s, i as int, f) {
                Ok(rest) => Ok::<Seq<char>, ErrorView>(out@ + rest),
                Err(e) => Err(e),
            },
        decreases chars.len() - i,
    {
        match find_placeholder(&chars, i) {
            None => {
                push_range(&mut out, &chars, i, chars.len());
                return Ok(out);
            },
            Some((o, c)) => {
                let ident = string_from_range(&chars, o + 1, c);
                let ghost before = out@;
                let ghost piece = s.subrange(i as int, o as int);
                let replacement = match canonical_replacement(ident.as_str(), name_map) {
                    Err(e) => {
                        return Err(e);
                    },
                    Ok(text) => text,
                };
                push_range(&mut out, &chars, i, o);
                out.append(replacement.as_str());
                proof {
                    match rewrite_from(s, c as int + 1, f) {
                        Ok(rest) => {
                            assert(before + (piece + replacement@ + rest) =~= before + piece
                                + replacement@ + rest);
                        },
                        Err(_) => {},
                    }
                }
                i = c + 1;
            },
        }
    }
}

/// The model of a result that holds a list of texts.
pub open spec fn list_result(r: Result<Vec<String>, Error>) -> Result<Seq<Seq<char>>, ErrorView> {
    match r {
        Ok(v) => Ok(v.deep_view()),
        Err(e) => Err(e@),
    }
}

/// The model of a result that holds a text table.
pub open spec fn map_result(r: Result<StringMap, Error>) -> Result<
    Seq<(Seq<char>, Seq<char>)>,
    ErrorView,
> {
    match r {
        Ok(m) => Ok(m.deep_view()),
        Err(e) => Err(e@),
    }
}

/// `resolve_target_names_in` on each text of `input`.
pub fn resolve_target_names_in_vec(input: &Vec<String>, name_map: &NameMap) -> (r: Result<
    Vec<String>,
    Error,
>)
    ensures
        list_result(r) == canonical_list(input.deep_view(), name_map.deep_view()),
{
    let mut out: Vec<String> = Vec::new();
    let mut i: usize = 0;
    let ghost items = input.deep_view();
    let ghost names = name_map.deep_view();
    assert(items.take(0) =~= Seq::<Seq<char>>::empty());
    assert(out.deep_view() =~= Seq::<Seq<char>>::empty());
    while i < input.len()
        invariant
            i <= input.len(),
            items == input.deep_view(),
            names == name_map.deep_view(),
            canonical_list(items.take(i as int), names) == Ok::<Seq<Seq<char>>, ErrorView>(
                out.deep_view(),
            ),
        decreases input.len() - i,
    {
        proof {
            assert(items.take(i as int + 1).drop_last() == items.take(i as int));
            assert(items.take(i as int + 1).last() == input@[i as int]@);
        }
        match resolve_target_names_in(input[i].as_str(), name_map) {
            Err(e) => {
                proof {
                    lemma_canonical_list_error(items, names, i as int + 1);
                }
                return Err(e);
            },
            Ok(text) => {
                let ghost before = out;
                out.push(text);
                proof {
                    lemma_deep_view_push(before, out, text);
                }
            },
        }
        i += 1;
    }
    assert(items.take(input.len() as int) == items);
    Ok(out)
}

/// `resolve_target_names_in` on each key and value of `input`.
pub fn resolve_target_names_in_map(input: &StringMap, name_map: &NameMap) -> (r: Result<
    StringMap,
    Error,
>)
    ensures
        map_result(r) == canonical_map(input.deep_view(), name_map.deep_view()),
{
    let mut out: StringMap = Table::new();
    let mut i: usize = 0;
    let ghost m = input.deep_view();
    let ghost names = name_map.deep_view();
    assert(m.take(0) =~= Seq::<(Seq<char>, Seq<char>)>::empty());
    while i < input.entries.len()
        invariant
            i <= input.entries.len(),
            m == input.deep_view(),
            names == name_map.deep_view(),
            canonical_map(m.take(i as int), names) == Ok::<
                Seq<(Seq<char>, Seq<char>)>,
                ErrorView,
            >(out.deep_view()),
        decreases input.entries.len() - i,
    {
        proof {
            assert(m.take(i as int + 1).drop_last() == m.take(i as int));
            assert(m.take(i as int + 1).last() == (
                input.entries@[i as int].0@,
                input.entries@[i as int].1@,
            ));
        }
        let key = match resolve_target_names_in(input.entries[i].0.as_str(), name_map) {
            Err(e) => {
                proof {
                    lemma_canonical_map_error(m, names, i as int + 1);
                }
                return Err(e);
            },
            Ok(k) => k,
        };
        let value = match resolve_target_names_in(input.entries[i].1.as_str(), name_map) {
            Err(e) => {
                proof {
                    lemma_canonical_map_error(m, names, i as int + 1);
                }
                return Err(e);
            },
            Ok(v) => v,
        };
        out.insert(key, value);
        i += 1;
    }
    assert(m.take(input.entries.len() as int) == m);
    Ok(out)
}

/// `resolve_target_names_in` on each key and value of `variables`.
pub fn resolve_variables(variables: &StringMap, name_map: &NameMap) -> (r: Result<StringMap, Error>)
    ensures
        map_result(r) == canonical_map(variables.deep_view(), name_map.deep_view()),
{
    resolve_target_names_in_map(variables, name_map)
}

} // verus!
