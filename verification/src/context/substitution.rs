//! Expansion of placeholders at run time.
//!
//! A text is read from left to right and each placeholder is replaced by the
//! value it refers to: a variable of the current target, a global, a variable
//! or an output of another target, or the arguments of the invocation. A
//! placeholder without a value is an error.
use vstd::prelude::*;
use crate::config::StringMapView;
use crate::context::placeholder::{
    find_placeholder, lemma_rewrite_unmatched_tail, lemma_rewrite_without_open, placeholders,
    placeholders_from, rewrite, rewrite_from,
};
use crate::context::store::Context;
use crate::context::variable::{parse_variable, Variable, VariableView};
use crate::error::{in_context, text_result, Error, ErrorKind, ErrorView};
use crate::name::{parse_name, FullyQualifiedName, NameView};
use crate::outputs::{nested_lookup, OutputsManager, OutputsView};
use crate::shell::{escape_string, escaped};
use crate::table::lookup;
use crate::text::{
    chars_of, concat3, join, join_strings, lemma_deep_view_push, push_range, string_from_range,
};

verus! {

/// What a text may refer to.
pub struct Scope {
    /// The variables of each target.
    pub variables: OutputsView,
    /// The globals.
    pub globals: StringMapView,
    /// The outputs of the targets that have run.
    pub outputs: OutputsView,
    /// The target that the text belongs to.
    pub this: NameView,
    /// The arguments of the invocation, as one text.
    pub args: Seq<char>,
}

/// The identifier that stands for the arguments of the invocation.
pub open spec fn args_identifier() -> Seq<char> {
    "args"@
}

/// The value that the identifier `ident` refers to in `scope`.
pub open spec fn variable_value(scope: Scope, ident: Seq<char>) -> Option<Seq<char>> {
    match parse_variable(ident) {
        VariableView::Simple(key) => if key == args_identifier() {
            Some(scope.args)
        } else {
            nested_lookup(scope.variables, scope.this, key)
        },
        VariableView::Global(key) => lookup(scope.globals, key),
        VariableView::Output(target, key) => nested_lookup(scope.outputs, parse_name(target), key),
        VariableView::Ref(target, key) => nested_lookup(scope.variables, parse_name(target), key),
    }
}

/// The error for a placeholder without a value.
pub open spec fn variable_not_found(ident: Seq<char>) -> ErrorView {
    ErrorView {
        kind: ErrorKind::VariableNotFound,
        message: "Variable <"@ + ident + "> not found"@,
    }
}

/// What a placeholder becomes in `scope`.
pub open spec fn expansion(scope: Scope) -> spec_fn(Seq<char>) -> Result<Seq<char>, ErrorView> {
    |ident: Seq<char>|
        match variable_value(scope, ident) {
            Some(v) => Ok(v),
            None => Err(variable_not_found(ident)),
        }
}

/// `s` with every placeholder replaced by its value in `scope`. The first
/// placeholder, from the left, without a value decides the error.
pub open spec fn expanded(s: Seq<char>, scope: Scope) -> Result<Seq<char>, ErrorView> {
    rewrite(s, expansion(scope))
}

/// How an error in quoting the argument `arg` is introduced.
pub open spec fn while_escaping(arg: Seq<char>) -> Seq<char> {
    "While escaping argument <"@ + arg + ">"@
}

/// Each argument quoted for the shell, in order. The first argument that
/// cannot be quoted decides the error.
pub open spec fn escaped_arguments(args: Seq<Seq<char>>) -> Result<Seq<Seq<char>>, ErrorView>
    decreases args.len(),
{
    if args.len() == 0 {
        Ok(Seq::empty())
    } else {
        match escaped_arguments(args.drop_last()) {
            Err(e) => Err(e),
            Ok(front) => match escaped(args.last()) {
                Err(e) => Err(in_context(while_escaping(args.last()), e)),
                Ok(q) => Ok(front.push(q)),
            },
        }
    }
}

/// The arguments of an invocation as one text: each quoted for the shell,
/// with a space between; the default arguments, if there are any, where no
/// argument was given; the empty text for an invocation that takes none.
pub open spec fn arguments_text(args: Option<Seq<Seq<char>>>, default_args: Option<Seq<char>>) -> Result<
    Seq<char>,
    ErrorView,
> {
    match args {
        None => Ok(Seq::empty()),
        Some(list) => if list.len() == 0 {
            Ok(
                match default_args {
                    Some(d) => d,
                    None => Seq::empty(),
                },
            )
        } else {
            match escaped_arguments(list) {
                Err(e) => Err(e),
                Ok(quoted) => Ok(join(quoted, " "@)),
            }
        },
    }
}

/// Whether `s` has a placeholder for the arguments.
pub open spec fn mentions_args(s: Seq<char>) -> bool {
    placeholders(s).contains(args_identifier())
}

/// `s` expanded for an invocation. Every placeholder is replaced by its
/// value, the one for the arguments by the arguments. Where the invocation
/// takes arguments and `s` has no placeholder for them, they follow the
/// expanded text after one space.
pub open spec fn substituted(
    s: Seq<char>,
    variables: OutputsView,
    globals: StringMapView,
    outputs: OutputsView,
    this: NameView,
    args: Option<Seq<Seq<char>>>,
    default_args: Option<Seq<char>>,
) -> Result<Seq<char>, ErrorView> {
    match arguments_text(args, default_args) {
        Err(e) => Err(e),
        Ok(text) => match expanded(
            s,
            Scope { variables, globals, outputs, this, args: text },
        ) {
            Err(e) => Err(e),
            Ok(out) => if args is Some && !mentions_args(s) {
                Ok(out + " "@ + text)
            } else {
                Ok(out)
            },
        },
    }
}

/// An error among the first `n` arguments is the error of the whole list.
pub proof fn lemma_escaped_arguments_error(args: Seq<Seq<char>>, n: int)
    requires
        0 <= n <= args.len(),
        escaped_arguments(args.take(n)) is Err,
    ensures
        escaped_arguments(args) == escaped_arguments(args.take(n)),
    decreases args.len() - n,
{
    if n < args.len() {
        assert(args.take(n + 1).drop_last() == args.take(n));
        lemma_escaped_arguments_error(args, n + 1);
    } else {
        assert(args.take(n) == args);
    }
}

/// The arguments of an invocation as one text.
pub fn arguments_string(args: &Option<Vec<String>>, default_args: &Option<String>) -> (r: Result<
    String,
    Error,
>)
    ensures
        text_result(r) == arguments_text(args.deep_view(), default_args.deep_view()),
{
    match args {
        None => Ok(String::new()),
        Some(list) => {
            if list.len() == 0 {
                match default_args {
                    Some(d) => Ok(d.clone()),
                    None => Ok(String::new()),
                }
            } else {
                let ghost all = list.deep_view();
                let mut quoted: Vec<String> = Vec::new();
                let mut i: usize = 0;
                assert(all.take(0) =~= Seq::<Seq<char>>::empty());
                assert(quoted.deep_view() =~= Seq::<Seq<char>>::empty());
                while i < list.len()
                    invariant
                        i <= list.len(),
                        list.len() > 0,
                        all == list.deep_view(),
                        args.deep_view() == Some(all),
                        escaped_arguments(all.take(i as int)) == Ok::<Seq<Seq<char>>, ErrorView>(
                            quoted.deep_view(),
                        ),
                    decreases list.len() - i,
                {
                    proof {
                        assert(all.take(i as int + 1).drop_last() == all.take(i as int));
                        assert(all.take(i as int + 1).last() == list@[i as int]@);
                    }
                    match escape_string(list[i].as_str()) {
                        Err(e) => {
                            let prefix = concat3("While escaping argument <", list[i].as_str(), ">");
                            proof {
                                lemma_escaped_arguments_error(all, i as int + 1);
                            }
                            return Err(e.context(prefix.as_str()));
                        },
                        Ok(q) => {
                            let ghost before = quoted;
                            quoted.push(q);
                            proof {
                                lemma_deep_view_push(before, quoted, q);
                            }
                        },
                    }
                    i += 1;
                }
                assert(all.take(list.len() as int) == all);
                Ok(join_strings(&quoted, " "))
            }
        },
    }
}

impl Context {
    /// What a text of the target `this` may refer to.
    pub open spec fn scope(&self, outputs: &OutputsManager, this: NameView, args: Seq<char>) -> Scope {
        Scope {
            variables: self.variables.deep_view(),
            globals: self.globals.deep_view(),
            outputs: outputs.deep_view(),
            this,
            args,
        }
    }

    /// The value that the placeholder with the identifier `ident` stands for.
    pub fn placeholder_value(
        &self,
        ident: &str,
        this_target_name: &FullyQualifiedName,
        outputs: &OutputsManager,
        args: &str,
    ) -> (r: Result<String, Error>)
        ensures
            text_result(r) == expansion(self.scope(outputs, this_target_name@, args@))(ident@),
    {
        let variable = Variable::from_chars(&chars_of(ident));
        let found: Option<String> = match variable {
            Variable::Simple(key) => {
                if key == String::from_str("args") {
                    Some(String::from_str(args))
                } else {
                    match self.variables.get(this_target_name) {
                        Some(own) => match own.get(&key) {
                            Some(v) => Some(v.clone()),
                            None => None,
                        },
                        None => None,
                    }
                }
            },
            Variable::Global(key) => match self.globals.get(&key) {
                Some(v) => Some(v.clone()),
                None => None,
            },
            Variable::Output(target, key) => {
                let name = FullyQualifiedName::from_string(target.as_str());
                match outputs.get(&name, key.as_str()) {
                    Some(v) => Some(v.clone()),
                    None => None,
                }
            },
            Variable::Ref(target, key) => {
                let name = FullyQualifiedName::from_string(target.as_str());
                match self.variables.get(&name) {
                    Some(other) => match other.get(&key) {
                        Some(v) => Some(v.clone()),
                        None => None,
                    },
                    None => None,
                }
            },
        };
        match found {
            Some(v) => Ok(v),
            None => Err(
                Error::new(ErrorKind::VariableNotFound, concat3("Variable <", ident, "> not found")),
            ),
        }
    }

    /// `command` with every placeholder replaced by its value, and whether
    /// one of the placeholders stood for the arguments.
    pub fn expand(
        &self,
        command: &str,
        this_target_name: &FullyQualifiedName,
        outputs: &OutputsManager,
        args: &str,
    ) -> (r: Result<(String, bool), Error>)
        ensures
            match r {
                Ok((out, mentioned)) => expanded(
                    command@,
                    self.scope(outputs, this_target_name@, args@),
                ) == Ok::<Seq<char>, ErrorView>(out@) && mentioned == mentions_args(command@),
                Err(e) => expanded(command@, self.scope(outputs, this_target_name@, args@))
                    == Err::<Seq<char>, ErrorView>(e@),
            },
    {
        let chars = chars_of(command);
        let ghost s = chars@;
        let ghost scope = self.scope(outputs, this_target_name@, args@);
        let ghost f = expansion(scope);
        let ghost mut seen: Seq<Seq<char>> = Seq::empty();
        let mut out = String::new();
        let mut mentioned = false;
        let mut i: usize = 0;
        loop
            invariant
                i <= chars.len(),
                s == chars@,
                s == command@,
                scope == self.scope(outputs, this_target_name@, args@),
                f == expansion(scope),
                placeholders(s) == seen + placeholders_from(s, i as int),
                mentioned == seen.contains(args_identifier()),
                expanded(s, scope) == match rewrite_from(s, i as int, f) {
                    Ok(rest) => Ok::<Seq<char>, ErrorView>(out@ + rest),
                    Err(e) => Err(e),
                },
            decreases chars.len() - i,
        {
            match find_placeholder(&chars, i) {
                None => {
                    push_range(&mut out, &chars, i, chars.len());
                    assert(seen + Seq::<Seq<char>>::empty() == seen);
                    return Ok((out, mentioned));
                },
                Some((o, c)) => {
                    let ident = string_from_range(&chars, o + 1, c);
                    let ghost before = out@;
                    let ghost piece = s.subrange(i as int, o as int);
                    let value = match self.placeholder_value(
                        ident.as_str(),
                        this_target_name,
                        outputs,
                        args,
                    ) {
                        Err(e) => {
                            return Err(e);
                        },
                        Ok(v) => v,
                    };
                    if ident == String::from_str("args") {
                        mentioned = true;
                    }
                    push_range(&mut out, &chars, i, o);
                    out.append(value.as_str());
                    proof {
                        match rewrite_from(s, c as int + 1, f) {
                            Ok(rest) => {
                                assert(before + (piece + value@ + rest) =~= before + piece + value@
                                    + rest);
                            },
                            Err(_) => {},
                        }
                        let next = seen.push(ident@);
                        assert(next + placeholders_from(s, c as int + 1) =~= seen + (seq![ident@]
                            + placeholders_from(s, c as int + 1)));
                        assert(next.contains(args_identifier()) == (seen.contains(
                            args_identifier(),
                        ) || ident@ == args_identifier())) by {
                            if seen.contains(args_identifier()) {
                                let k = choose|k: int|
                                    0 <= k < seen.len() && seen[k] == args_identifier();
                                assert(next[k] == args_identifier());
                            }
                            if ident@ == args_identifier() {
                                assert(next[seen.len() as int] == args_identifier());
                            }
                        }
                        seen = next;
                    }
                    i = c + 1;
                },
            }
        }
    }

    /// `command` expanded for an invocation that may take arguments.
    pub fn resolve_substitutions_inner(
        &self,
        command: &str,
        this_target_name: &FullyQualifiedName,
        outputs: &OutputsManager,
        args: Option<Vec<String>>,
        default_args: &Option<String>,
    ) -> (r: Result<String, Error>)
        ensures
            text_result(r) == substituted(
                command@,
                self.variables.deep_view(),
                self.globals.deep_view(),
                outputs.deep_view(),
                this_target_name@,
                args.deep_view(),
                default_args.deep_view(),
            ),
    {
        let text = match arguments_string(&args, default_args) {
            Err(e) => {
                return Err(e);
            },
            Ok(t) => t,
        };
        let (mut out, mentioned) = match self.expand(
            command,
            this_target_name,
            outputs,
            text.as_str(),
        ) {
            Err(e) => {
                return Err(e);
            },
            Ok(r) => r,
        };
        if !mentioned && args.is_some() {
            out.append(" ");
            out.append(text.as_str());
        }
        Ok(out)
    }

    /// `command` with every placeholder replaced by its value.
    pub fn resolve_substitutions(
        &self,
        command: &str,
        this_target_name: &FullyQualifiedName,
        outputs: &OutputsManager,
    ) -> (r: Result<String, Error>)
        ensures
            text_result(r) == substituted(
                command@,
                self.variables.deep_view(),
                self.globals.deep_view(),
                outputs.deep_view(),
                this_target_name@,
                None,
                None,
            ),
    {
        self.resolve_substitutions_inner(command, this_target_name, outputs, None, &None)
    }

    /// `command` expanded for an invocation with the arguments `args`.
    pub fn resolve_substitutions_with_args(
        &self,
        command: &str,
        this_target_name: &FullyQualifiedName,
        outputs: &OutputsManager,
        args: Vec<String>,
        default_args: &Option<String>,
    ) -> (r: Result<String, Error>)
        ensures
            text_result(r) == substituted(
                command@,
                self.variables.deep_view(),
                self.globals.deep_view(),
                outputs.deep_view(),
                this_target_name@,
                Some(args.deep_view()),
                default_args.deep_view(),
            ),
    {
        self.resolve_substitutions_inner(
            command,
            this_target_name,
            outputs,
            Some(args),
            default_args,
        )
    }
}

/// A text without an opening brace is expanded to itself.
pub proof fn lemma_expanded_without_open(s: Seq<char>, scope: Scope)
    requires
        forall|k: int| 0 <= k < s.len() ==> s[k] != '{',
    ensures
        expanded(s, scope) == Ok::<Seq<char>, ErrorView>(s),
        !mentions_args(s),
{
    lemma_rewrite_without_open(s, expansion(scope));
}

/// An opening brace with no closing brace after it stays as it is: a text
/// that ends in a tail without a closing brace expands to the expansion of
/// what precedes the tail, followed by the tail unchanged.
pub proof fn lemma_expanded_unmatched_brace(head: Seq<char>, tail: Seq<char>, scope: Scope)
    requires
        forall|k: int| 0 <= k < tail.len() ==> tail[k] != '}',
    ensures
        expanded(head + tail, scope) == match expanded(head, scope) {
            Ok(r) => Ok(r + tail),
            Err(e) => Err(e),
        },
        mentions_args(head + tail) == mentions_args(head),
{
    lemma_rewrite_unmatched_tail(head, tail, 0, expansion(scope));
}

} // verus!
