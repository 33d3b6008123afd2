//! Quoting for the shell.
use vstd::prelude::*;
use crate::config::StringMapView;
use crate::context::store::Context;
use crate::context::substitution::substituted;
use crate::error::{Error, ErrorKind, ErrorView};
use crate::name::{FullyQualifiedName, NameView};
use crate::outputs::{OutputsManager, OutputsView};
use crate::text::{concat3, has_char, join, lemma_deep_view_push};

verus! {

#[verifier::external_type_specification]
#[verifier::external_body]
pub struct ExQuoteError(shlex::QuoteError);

/// What `shlex::try_quote` makes of a text that holds no nul character: a
/// single shell word that the shell reads back as that text.
pub uninterp spec fn shell_quoted(s: Seq<char>) -> Seq<char>;

/// Calls `shlex::try_quote`. It refuses a text exactly when the text holds a
/// nul character; any other text it turns into one shell word.
#[verifier::external_body]
fn try_quote(s: &str) -> (r: Result<String, shlex::QuoteError>)
    ensures
        match r {
            Ok(q) => !has_char(s@, '\0') && q@ == shell_quoted(s@),
            Err(_) => has_char(s@, '\0'),
        },
{
    match shlex::try_quote(s) {
        Ok(q) => Ok(q.into_owned()),
        Err(e) => Err(e),
    }
}

/// Renders a `shlex::QuoteError` with its `Display`. The type has one
/// variant, for a nul character, and one text for it.
#[verifier::external_body]
fn quote_error_text(e: &shlex::QuoteError) -> (s: String)
    ensures
        s@ == quote_error_message(),
{
    e.to_string()
}

/// What the shell quoter says of a text it refuses.
pub open spec fn quote_error_message() -> Seq<char> {
    "cannot shell-quote string containing nul byte"@
}

/// The result of quoting `s` for the shell.
pub open spec fn escaped(s: Seq<char>) -> Result<Seq<char>, ErrorView> {
    if has_char(s, '\0') {
        Err(ErrorView { kind: ErrorKind::Quote, message: quote_error_message() })
    } else {
        Ok(shell_quoted(s))
    }
}

/// `s` as one shell word. Fails exactly when `s` holds a nul character.
pub fn escape_string(s: &str) -> (r: Result<String, Error>)
    ensures
        crate::error::text_result(r) == escaped(s@),
{
    match try_quote(s) {
        Ok(q) => Ok(q),
        Err(e) => Err(Error::new(ErrorKind::Quote, quote_error_text(&e))),
    }
}

/// `arg`, a space, and `value` quoted.
pub open spec fn flag_with(arg: Seq<char>, value: Seq<char>) -> Seq<char> {
    arg + " "@ + shell_quoted(value)
}

/// `flag_with(arg, v)` for each `v` of `values`.
pub open spec fn flags_with(arg: Seq<char>, values: Seq<Seq<char>>) -> Seq<Seq<char>> {
    Seq::new(values.len(), |i: int| flag_with(arg, values[i]))
}

/// Whether some text of `values` holds a nul character.
pub open spec fn any_unquotable(values: Seq<Seq<char>>) -> bool {
    exists|i: int| 0 <= i < values.len() && has_char(#[trigger] values[i], '\0')
}

/// `arg` before each value, all on one line: nothing for no list, and an
/// error if a value cannot be quoted.
pub open spec fn prepended(arg: Seq<char>, values: Option<Seq<Seq<char>>>) -> Result<
    Seq<char>,
    ErrorView,
> {
    match values {
        None => Ok(Seq::empty()),
        Some(vs) => if any_unquotable(vs) {
            Err(ErrorView { kind: ErrorKind::Quote, message: quote_error_message() })
        } else {
            Ok(join(flags_with(arg, vs), " "@))
        },
    }
}

/// `arg` before each of `value`, each value quoted for the shell: `-e a -e b`.
pub fn prepend_arguments_if_set(arg: &str, value: &Option<Vec<&str>>) -> (r: Result<String, Error>)
    ensures
        crate::error::text_result(r) == prepended(arg@, value.deep_view()),
{
    match value {
        None => Ok(String::new()),
        Some(values) => {
            let mut out = String::new();
            let mut i: usize = 0;
            let ghost vs = values.deep_view();
            while i < values.len()
                invariant
                    i <= values.len(),
                    vs == values.deep_view(),
                    value.deep_view() == Some(vs),
                    forall|k: int| 0 <= k < i ==> !has_char(#[trigger] vs[k], '\0'),
                    out@ == join(flags_with(arg@, vs).take(i as int), " "@),
                decreases values.len() - i,
            {
                match escape_string(values[i]) {
                    Err(e) => {
                        assert(has_char(vs[i as int], '\0'));
                        assert(any_unquotable(vs));
                        return Err(e);
                    },
                    Ok(q) => {
                        let ghost before = flags_with(arg@, vs).take(i as int);
                        let ghost after = flags_with(arg@, vs).take(i as int + 1);
                        assert(after.drop_last() == before);
                        assert(after.last() == flag_with(arg@, vs[i as int]));
                        if i > 0 {
                            out.append(" ");
                        }
                        let piece = concat3(arg, " ", q.as_str());
                        out.append(piece.as_str());
                    },
                }
                i += 1;
            }
            assert(flags_with(arg@, vs).take(values.len() as int) == flags_with(arg@, vs));
            Ok(out)
        },
    }
}

/// The list that holds `value` alone, if there is a value.
pub open spec fn single(value: Option<Seq<char>>) -> Option<Seq<Seq<char>>> {
    match value {
        None => None,
        Some(v) => Some(seq![v]),
    }
}

/// `arg` before `value`, the value quoted for the shell; nothing without a value.
pub fn prepend_argument_if_set(arg: &str, value: &Option<&str>) -> (r: Result<String, Error>)
    ensures
        crate::error::text_result(r) == prepended(arg@, single(value.deep_view())),
{
    match value {
        None => Ok(String::new()),
        Some(v) => {
            let mut list: Vec<&str> = Vec::new();
            list.push(*v);
            let values = Some(list);
            assert(values.deep_view() == single(value.deep_view())) by {
                assert(values.deep_view()->0 =~= seq![v@]);
            }
            prepend_arguments_if_set(arg, &values)
        },
    }
}

/// `value` expanded and then quoted behind `arg`; nothing without a value.
pub open spec fn expanded_and_prepended(
    variables: OutputsView,
    globals: StringMapView,
    outputs: OutputsView,
    this: NameView,
    arg: Seq<char>,
    value: Option<Seq<char>>,
) -> Result<Seq<char>, ErrorView> {
    match value {
        None => Ok(Seq::empty()),
        Some(v) => match substituted(v, variables, globals, outputs, this, None, None) {
            Err(e) => Err(e),
            Ok(text) => prepended(arg, Some(seq![text])),
        },
    }
}

/// Each text of `items` expanded, in order; the first error wins.
pub open spec fn substituted_list(
    items: Seq<Seq<char>>,
    variables: OutputsView,
    globals: StringMapView,
    outputs: OutputsView,
    this: NameView,
) -> Result<Seq<Seq<char>>, ErrorView>
    decreases items.len(),
{
    if items.len() == 0 {
        Ok(Seq::empty())
    } else {
        match substituted_list(items.drop_last(), variables, globals, outputs, this) {
            Err(e) => Err(e),
            Ok(front) => match substituted(
                items.last(),
                variables,
                globals,
                outputs,
                this,
                None,
                None,
            ) {
                Err(e) => Err(e),
                Ok(text) => Ok(front.push(text)),
            },
        }
    }
}

/// Each text of `value` expanded and then quoted behind `arg`; nothing without a list.
pub open spec fn expanded_and_prepended_list(
    variables: OutputsView,
    globals: StringMapView,
    outputs: OutputsView,
    this: NameView,
    arg: Seq<char>,
    value: Option<Seq<Seq<char>>>,
) -> Result<Seq<char>, ErrorView> {
    match value {
        None => Ok(Seq::empty()),
        Some(items) => match substituted_list(items, variables, globals, outputs, this) {
            Err(e) => Err(e),
            Ok(texts) => prepended(arg, Some(texts)),
        },
    }
}

/// An error among the first `n` texts is the error of the whole list.
pub proof fn lemma_substituted_list_error(
    items: Seq<Seq<char>>,
    variables: OutputsView,
    globals: StringMapView,
    outputs: OutputsView,
    this: NameView,
    n: int,
)
    requires
        0 <= n <= items.len(),
        substituted_list(items.take(n), variables, globals, outputs, this) is Err,
    ensures
        substituted_list(items, variables, globals, outputs, this) == substituted_list(
            items.take(n),
            variables,
            globals,
            outputs,
            this,
        ),
    decreases items.len() - n,
{
    if n < items.len() {
        assert(items.take(n + 1).drop_last() == items.take(n));
        lemma_substituted_list_error(items, variables, globals, outputs, this, n + 1);
    } else {
        assert(items.take(n) == items);
    }
}

/// Each text of `items` expanded for the target `target_name`.
pub fn resolve_all(
    target_name: &FullyQualifiedName,
    context: &Context,
    outputs: &OutputsManager,
    items: &Vec<String>,
) -> (r: Result<Vec<String>, Error>)
    ensures
        match r {
            Ok(v) => substituted_list(
                items.deep_view(),
                context.variables.deep_view(),
                context.globals.deep_view(),
                outputs.deep_view(),
                target_name@,
            ) == Ok::<Seq<Seq<char>>, ErrorView>(v.deep_view()),
            Err(e) => substituted_list(
                items.deep_view(),
                context.variables.deep_view(),
                context.globals.deep_view(),
                outputs.deep_view(),
                target_name@,
            ) == Err::<Seq<Seq<char>>, ErrorView>(e@),
        },
{
    let mut out: Vec<String> = Vec::new();
    let mut i: usize = 0;
    let ghost all = items.deep_view();
    let ghost variables = context.variables.deep_view();
    let ghost globals = context.globals.deep_view();
    let ghost store = outputs.deep_view();
    assert(all.take(0) =~= Seq::<Seq<char>>::empty());
    assert(out.deep_view() =~= Seq::<Seq<char>>::empty());
    while i < items.len()
        invariant
            i <= items.len(),
            all == items.deep_view(),
            variables == context.variables.deep_view(),
            globals == context.globals.deep_view(),
            store == outputs.deep_view(),
            substituted_list(all.take(i as int), variables, globals, store, target_name@) == Ok::<
                Seq<Seq<char>>,
                ErrorView,
            >(out.deep_view()),
        decreases items.len() - i,
    {
        proof {
            assert(all.take(i as int + 1).drop_last() == all.take(i as int));
            assert(all.take(i as int + 1).last() == items@[i as int]@);
        }
        match context.resolve_substitutions(items[i].as_str(), target_name, outputs) {
            Err(e) => {
                proof {
                    lemma_substituted_list_error(
                        all,
                        variables,
                        globals,
                        store,
                        target_name@,
                        i as int + 1,
                    );
                }
                return Err(e);
            },
            Ok(text) => {
                let ghost before = out;
                out.push(text);
                proof {
                    lemma_deep_view_push(before, out, text);
                }
            },
        }
        i += 1;
    }
    assert(all.take(items.len() as int) == all);
    Ok(out)
}

/// The texts of `items`, borrowed.
pub fn borrow_all<'a>(items: &'a Vec<String>) -> (r: Vec<&'a str>)
    ensures
        r.deep_view() == items.deep_view(),
{
    let mut out: Vec<&'a str> = Vec::new();
    let mut i: usize = 0;
    assert(out.deep_view() =~= items.deep_view().take(0));
    while i < items.len()
        invariant
            i <= items.len(),
            out.deep_view() == items.deep_view().take(i as int),
        decreases items.len() - i,
    {
        let ghost before = out;
        let item: &'a str = items[i].as_str();
        out.push(item);
        proof {
            lemma_deep_view_push(before, out, item);
            assert(items.deep_view().take(i as int + 1) =~= items.deep_view().take(i as int).push(
                items@[i as int]@,
            ));
        }
        i += 1;
    }
    assert(items.deep_view().take(items.len() as int) == items.deep_view());
    out
}

/// `value`, expanded for the target `target_name`, quoted behind `arg`.
pub fn escape_and_prepend(
    target_name: &FullyQualifiedName,
    context: &Context,
    outputs: &OutputsManager,
    arg: &str,
    value: &Option<String>,
) -> (r: Result<String, Error>)
    ensures
        crate::error::text_result(r) == expanded_and_prepended(
            context.variables.deep_view(),
            context.globals.deep_view(),
            outputs.deep_view(),
            target_name@,
            arg@,
            value.deep_view(),
        ),
{
    match value {
        None => Ok(String::new()),
        Some(v) => match context.resolve_substitutions(v.as_str(), target_name, outputs) {
            Err(e) => Err(e),
            Ok(text) => {
                let borrowed: Option<&str> = Some(text.as_str());
                prepend_argument_if_set(arg, &borrowed)
            },
        },
    }
}

/// Each text of `value`, expanded for the target `target_name`, quoted behind `arg`.
pub fn escape_and_prepend_vec(
    target_name: &FullyQualifiedName,
    context: &Context,
    outputs: &OutputsManager,
    arg: &str,
    value: &Option<Vec<String>>,
) -> (r: Result<String, Error>)
    ensures
        crate::error::text_result(r) == expanded_and_prepended_list(
            context.variables.deep_view(),
            context.globals.deep_view(),
            outputs.deep_view(),
            target_name@,
            arg@,
            value.deep_view(),
        ),
{
    match value {
        None => Ok(String::new()),
        Some(items) => match resolve_all(target_name, context, outputs, items) {
            Err(e) => Err(e),
            Ok(texts) => {
                let borrowed = Some(borrow_all(&texts));
                prepend_arguments_if_set(arg, &borrowed)
            },
        },
    }
}

} // verus!
