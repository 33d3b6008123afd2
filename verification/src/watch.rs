//! What to watch, and what to do when something changes.
use vstd::prelude::*;
use crate::context::load::contains_name;
use crate::context::names::{name_strings, name_texts};
use crate::context::store::Context;
use crate::error::{Error, ErrorKind, ErrorView};
use crate::graph::TargetsView;
use crate::name::{name_text, FullyQualifiedName, NameView};
use crate::table::{has_key, key_index, lemma_key_index_from, lookup};
use crate::target::{Target, TargetView};
use crate::text::{
    chars_of, clone_strings, concat3, last_index_upto, lemma_deep_view_index,
    lemma_deep_view_push, lemma_last_index_upto, range_starts_with, rfind_char, starts_with,
    string_from_range, join, join_strings,
};

verus! {

/// What `glob::Pattern::new` says against a text: nothing for a text that is
/// a glob pattern, else what is wrong with it.
pub uninterp spec fn glob_pattern_error(pattern: Seq<char>) -> Option<Seq<char>>;

/// Whether the glob pattern `pattern` matches `path`, as
/// `glob::Pattern::matches_path` decides it on a Unix system.
pub uninterp spec fn glob_matches(pattern: Seq<char>, path: Seq<char>) -> bool;

/// Compiles `pattern` with `glob::Pattern::new` and gives back the text of
/// the error, if there is one.
#[verifier::external_body]
fn pattern_error(pattern: &str) -> (r: Option<String>)
    ensures
        r.deep_view() == glob_pattern_error(pattern@),
{
    match glob::Pattern::new(pattern) {
        Ok(_) => None,
        Err(e) => Some(e.to_string()),
    }
}

/// Compiles `pattern` with `glob::Pattern::new` and asks
/// `glob::Pattern::matches_path` whether it matches `path`. A text that is
/// no pattern matches nothing.
#[verifier::external_body]
fn pattern_matches(pattern: &str, path: &str) -> (r: bool)
    ensures
        r == (glob_pattern_error(pattern@) is None && glob_matches(pattern@, path@)),
{
    match glob::Pattern::new(pattern) {
        Ok(p) => p.matches_path(std::path::Path::new(path)),
        Err(_) => false,
    }
}

/// Whether the character has a meaning in a glob pattern.
pub open spec fn is_glob_char(c: char) -> bool {
    c == '*' || c == '?' || c == '['
}

/// Whether the path component holds a character with a meaning in a glob pattern.
pub open spec fn has_glob(component: Seq<char>) -> bool {
    exists|i: int| 0 <= i < component.len() && is_glob_char(#[trigger] component[i])
}

/// Where the directory part of `pattern[..end]` ends: trailing components
/// are dropped as long as they hold a glob character. `-1` when every
/// component holds one.
pub open spec fn root_end(pattern: Seq<char>, end: int) -> int
    decreases end,
{
    let start = last_index_upto(pattern, '/', end) + 1;
    if end < 0 || end > pattern.len() {
        -1
    } else if !has_glob(pattern.subrange(start, end)) {
        end
    } else if start <= 0 || start > end {
        -1
    } else {
        root_end(pattern, start - 1)
    }
}

/// The directory to watch for `pattern`: the pattern without its trailing
/// components that hold a glob character, with a slash behind it; the
/// current directory when nothing is left.
pub open spec fn watch_root(pattern: Seq<char>) -> Seq<char> {
    let end = root_end(pattern, pattern.len() as int);
    if end < 0 {
        "./"@
    } else {
        pattern.subrange(0, end) + "/"@
    }
}

/// Whether some directory of `roots` is `dir` or lies above it.
pub open spec fn covered(roots: Seq<Seq<char>>, dir: Seq<char>) -> bool {
    exists|i: int| 0 <= i < roots.len() && starts_with(dir, #[trigger] roots[i])
}

/// The directories of `roots` that neither are `dir` nor lie below it, in order.
pub open spec fn not_below(roots: Seq<Seq<char>>, dir: Seq<char>) -> Seq<Seq<char>>
    decreases roots.len(),
{
    if roots.len() == 0 {
        Seq::empty()
    } else if starts_with(roots.last(), dir) {
        not_below(roots.drop_last(), dir)
    } else {
        not_below(roots.drop_last(), dir).push(roots.last())
    }
}

/// `roots` with `dir` taken in: unchanged where `dir` is covered already,
/// else without what lies below `dir` and with `dir` at the end.
pub open spec fn with_root(roots: Seq<Seq<char>>, dir: Seq<char>) -> Seq<Seq<char>> {
    if covered(roots, dir) {
        roots
    } else {
        not_below(roots, dir).push(dir)
    }
}

/// The directories to watch for `patterns`: the directory of each pattern
/// taken in, in order, so that none of them lies below another.
pub open spec fn minimal_roots(patterns: Seq<Seq<char>>) -> Seq<Seq<char>>
    decreases patterns.len(),
{
    if patterns.len() == 0 {
        Seq::empty()
    } else {
        with_root(minimal_roots(patterns.drop_last()), watch_root(patterns.last()))
    }
}

/// Whether `chars[from..to]` holds a glob character.
pub fn range_has_glob(chars: &Vec<char>, from: usize, to: usize) -> (b: bool)
    requires
        from <= to <= chars.len(),
    ensures
        b == has_glob(chars@.subrange(from as int, to as int)),
{
    let ghost part = chars@.subrange(from as int, to as int);
    let mut i: usize = from;
    while i < to
        invariant
            from <= i <= to <= chars.len(),
            part == chars@.subrange(from as int, to as int),
            forall|k: int| 0 <= k < i - from ==> !is_glob_char(#[trigger] part[k]),
        decreases to - i,
    {
        let c = chars[i];
        if c == '*' || c == '?' || c == '[' {
            assert(is_glob_char(part[i - from]));
            return true;
        }
        i += 1;
    }
    false
}

/// The directory to watch for `pattern`.
pub fn watch_root_of(pattern: &str) -> (r: String)
    ensures
        r@ == watch_root(pattern@),
{
    let chars = chars_of(pattern);
    let mut end: usize = chars.len();
    loop
        invariant
            end <= chars.len(),
            chars@ == pattern@,
            root_end(chars@, chars@.len() as int) == root_end(chars@, end as int),
        decreases end,
    {
        proof {
            lemma_last_index_upto(chars@, '/', end as int);
        }
        let start: usize = match rfind_char(&chars, '/', end) {
            Some(slash) => slash + 1,
            None => 0,
        };
        if !range_has_glob(&chars, start, end) {
            let mut out = string_from_range(&chars, 0, end);
            out.append("/");
            return out;
        }
        if start == 0 {
            return String::from_str("./");
        }
        end = start - 1;
    }
}

/// Whether some directory of `roots` is `dir` or lies above it.
pub fn is_covered(roots: &Vec<String>, dir: &str) -> (b: bool)
    ensures
        b == covered(roots.deep_view(), dir@),
{
    let chars = chars_of(dir);
    assert(chars@.subrange(0, chars@.len() as int) == chars@);
    let mut i: usize = 0;
    while i < roots.len()
        invariant
            i <= roots.len(),
            chars@ == dir@,
            forall|k: int| 0 <= k < i ==> !starts_with(dir@, #[trigger] roots.deep_view()[k]),
        decreases roots.len() - i,
    {
        let root = chars_of(roots[i].as_str());
        proof {
            crate::text::lemma_deep_view_index(*roots);
            assert(chars@.subrange(0, chars@.len() as int) == chars@);
        }
        if range_starts_with(&chars, 0, &root) {
            assert(starts_with(dir@, roots.deep_view()[i as int]));
            return true;
        }
        i += 1;
    }
    false
}

/// The directories of `roots` that neither are `dir` nor lie below it, in order.
pub fn roots_not_below(roots: &Vec<String>, dir: &str) -> (r: Vec<String>)
    ensures
        r.deep_view() == not_below(roots.deep_view(), dir@),
{
    let prefix = chars_of(dir);
    let mut out: Vec<String> = Vec::new();
    let mut i: usize = 0;
    let ghost all = roots.deep_view();
    assert(all.take(0) =~= Seq::<Seq<char>>::empty());
    assert(out.deep_view() =~= Seq::<Seq<char>>::empty());
    while i < roots.len()
        invariant
            i <= roots.len(),
            prefix@ == dir@,
            all == roots.deep_view(),
            out.deep_view() == not_below(all.take(i as int), dir@),
        decreases roots.len() - i,
    {
        proof {
            assert(all.take(i as int + 1).drop_last() == all.take(i as int));
            assert(all.take(i as int + 1).last() == roots@[i as int]@);
        }
        let root = chars_of(roots[i].as_str());
        assert(root@.subrange(0, root@.len() as int) == root@);
        if !range_starts_with(&root, 0, &prefix) {
            let ghost before = out;
            let kept = roots[i].clone();
            out.push(kept);
            proof {
                lemma_deep_view_push(before, out, kept);
            }
        }
        i += 1;
    }
    assert(all.take(roots.len() as int) == all);
    out
}

/// The directories to watch for `patterns`, none of them below another.
pub fn find_matching_paths(patterns: &Vec<String>) -> (r: Vec<String>)
    ensures
        r.deep_view() == minimal_roots(patterns.deep_view()),
{
    let mut result: Vec<String> = Vec::new();
    let mut i: usize = 0;
    let ghost all = patterns.deep_view();
    assert(all.take(0) =~= Seq::<Seq<char>>::empty());
    assert(result.deep_view() =~= Seq::<Seq<char>>::empty());
    while i < patterns.len()
        invariant
            i <= patterns.len(),
            all == patterns.deep_view(),
            result.deep_view() == minimal_roots(all.take(i as int)),
        decreases patterns.len() - i,
    {
        proof {
            assert(all.take(i as int + 1).drop_last() == all.take(i as int));
            assert(all.take(i as int + 1).last() == patterns@[i as int]@);
        }
        let dir = watch_root_of(patterns[i].as_str());
        if !is_covered(&result, dir.as_str()) {
            let mut kept = roots_not_below(&result, dir.as_str());
            let ghost before = kept;
            kept.push(dir);
            proof {
                lemma_deep_view_push(before, kept, dir);
            }
            result = kept;
        }
        i += 1;
    }
    assert(all.take(patterns.len() as int) == all);
    result
}

/// The model of a trigger.
pub struct WatchTriggerView {
    pub paths: Seq<Seq<char>>,
    pub target: NameView,
    pub and_then: Seq<NameView>,
}

/// A trigger: when a path that one of the patterns matches changes, the
/// target is run again, and after it the targets that require it.
#[derive(Debug)]
pub struct WatchTrigger {
    /// The glob patterns of the paths to watch.
    pub paths: Vec<String>,
    /// The target to run again.
    pub target: FullyQualifiedName,
    /// The targets to run after it.
    pub and_then: Vec<FullyQualifiedName>,
}

impl DeepView for WatchTrigger {
    type V = WatchTriggerView;

    open spec fn deep_view(&self) -> WatchTriggerView {
        WatchTriggerView {
            paths: self.paths.deep_view(),
            target: self.target@,
            and_then: self.and_then.deep_view(),
        }
    }
}

/// The patterns of the paths whose change makes a target stale: the
/// declared inputs of an artifact; none for a command.
pub open spec fn patterns_of(t: TargetView) -> Seq<Seq<char>> {
    match t {
        TargetView::Artifact(a) => match a.artifact_info().if_files_changed {
            Some(l) => l,
            None => Seq::empty(),
        },
        TargetView::Command(_) => Seq::empty(),
    }
}

/// What is wrong with the first text of `patterns`, from `i` on, that is no glob pattern.
pub open spec fn first_pattern_error(patterns: Seq<Seq<char>>, i: int) -> Option<Seq<char>>
    decreases patterns.len() - i,
{
    if i < 0 || i >= patterns.len() {
        None
    } else {
        match glob_pattern_error(patterns[i]) {
            Some(message) => Some(message),
            None => first_pattern_error(patterns, i + 1),
        }
    }
}

/// The error for a text that is no glob pattern.
pub open spec fn bad_pattern(message: Seq<char>) -> ErrorView {
    ErrorView { kind: ErrorKind::Pattern, message }
}

/// The trigger of the target `t` under the name `name`, before the targets
/// that follow it are known.
pub open spec fn one_trigger(name: NameView, t: TargetView) -> Result<WatchTriggerView, ErrorView> {
    match first_pattern_error(patterns_of(t), 0) {
        Some(message) => Err(bad_pattern(message)),
        None => Ok(WatchTriggerView { paths: patterns_of(t), target: name, and_then: Seq::empty() }),
    }
}

/// No text of a list without a first error is wrong.
pub proof fn lemma_first_pattern_error(patterns: Seq<Seq<char>>, i: int)
    requires
        0 <= i <= patterns.len(),
    ensures
        first_pattern_error(patterns, i) is None <==> forall|k: int|
            i <= k < patterns.len() ==> glob_pattern_error(#[trigger] patterns[k]) is None,
    decreases patterns.len() - i,
{
    if i < patterns.len() {
        lemma_first_pattern_error(patterns, i + 1);
    }
}

/// The target that stands under `name` when `root` is the target to watch:
/// `root` under its own name, else the target of that name.
pub open spec fn node(targets: TargetsView, root: TargetView, name: NameView) -> TargetView {
    if name == root.target_info().name {
        root
    } else {
        match lookup(targets, name) {
            Some(t) => t,
            None => root,
        }
    }
}

/// Whether a target stands under `name`.
pub open spec fn known(targets: TargetsView, root: TargetView, name: NameView) -> bool {
    name == root.target_info().name || has_key(targets, name)
}

/// Whether `path` leads from `root` along requirements: it starts at
/// `root`, and each further name is required by the target under the name
/// before it.
pub open spec fn is_path(targets: TargetsView, root: TargetView, path: Seq<NameView>) -> bool {
    &&& path.len() >= 1
    &&& path[0] == root.target_info().name
    &&& forall|i: int| 1 <= i < path.len() ==> #[trigger] is_step(targets, root, path, i)
}

/// Whether the `i`-th name of `path` is required by the target under the name before it.
pub open spec fn is_step(targets: TargetsView, root: TargetView, path: Seq<NameView>, i: int) -> bool {
    known(targets, root, path[i - 1]) && node(
        targets,
        root,
        path[i - 1],
    ).target_info().requires.contains(path[i])
}

/// Whether `name` is `root` or is required by it, directly or through others.
pub open spec fn reachable(targets: TargetsView, root: TargetView, name: NameView) -> bool {
    exists|path: Seq<NameView>| #[trigger] is_path(targets, root, path) && path.last() == name
}

/// Whether each of the first `k` names of `reqs` is in `names`.
pub open spec fn listed(names: Seq<NameView>, reqs: Seq<NameView>, k: int) -> bool {
    forall|q: int| 0 <= q < k && q < reqs.len() ==> names.contains(#[trigger] reqs[q])
}

/// Whether `names` is closed: it holds `root`, and with each name every
/// name that the target under it requires.
pub open spec fn closed(targets: TargetsView, root: TargetView, names: Seq<NameView>) -> bool {
    &&& names.contains(root.target_info().name)
    &&& forall|j: int|
        0 <= j < names.len() ==> listed(
            names,
            node(targets, root, #[trigger] names[j]).target_info().requires,
            node(targets, root, names[j]).target_info().requires.len() as int,
        )
}

/// A closed list holds every name at the end of a path from `root`.
pub proof fn lemma_closed_holds_path(
    targets: TargetsView,
    root: TargetView,
    names: Seq<NameView>,
    path: Seq<NameView>,
)
    requires
        closed(targets, root, names),
        is_path(targets, root, path),
    ensures
        names.contains(path.last()),
    decreases path.len(),
{
    if path.len() > 1 {
        let front = path.drop_last();
        assert(is_path(targets, root, front)) by {
            assert forall|i: int| 1 <= i < front.len() implies #[trigger] is_step(
                targets,
                root,
                front,
                i,
            ) by {
                assert(is_step(targets, root, path, i));
                assert(front[i] == path[i]);
                assert(front[i - 1] == path[i - 1]);
            }
        }
        lemma_closed_holds_path(targets, root, names, front);
        let prev = front.last();
        let last = path.len() - 1;
        assert(prev == path[last - 1]);
        assert(is_step(targets, root, path, last));
        assert(node(targets, root, prev).target_info().requires.contains(path[last]));
        let j = choose|j: int| 0 <= j < names.len() && names[j] == prev;
        let reqs = node(targets, root, names[j]).target_info().requires;
        let k = choose|k: int| 0 <= k < reqs.len() && reqs[k] == path[last];
        assert(names.contains(reqs[k]));
    }
}

/// A closed list holds every name that is reachable.
pub proof fn lemma_closed_holds_reachable(
    targets: TargetsView,
    root: TargetView,
    names: Seq<NameView>,
    name: NameView,
)
    requires
        closed(targets, root, names),
        reachable(targets, root, name),
    ensures
        names.contains(name),
{
    let path = choose|path: Seq<NameView>|
        #[trigger] is_path(targets, root, path) && path.last() == name;
    lemma_closed_holds_path(targets, root, names, path);
}

/// What a reachable target requires is reachable.
pub proof fn lemma_reachable_step(
    targets: TargetsView,
    root: TargetView,
    from: NameView,
    to: NameView,
)
    requires
        reachable(targets, root, from),
        known(targets, root, from),
        node(targets, root, from).target_info().requires.contains(to),
    ensures
        reachable(targets, root, to),
{
    let path = choose|path: Seq<NameView>|
        #[trigger] is_path(targets, root, path) && path.last() == from;
    let longer = path.push(to);
    assert(is_path(targets, root, longer)) by {
        assert forall|i: int| 1 <= i < longer.len() implies #[trigger] is_step(
            targets,
            root,
            longer,
            i,
        ) by {
            if i < path.len() {
                assert(is_step(targets, root, path, i));
                assert(longer[i] == path[i]);
                assert(longer[i - 1] == path[i - 1]);
            } else {
                assert(longer[i - 1] == from);
            }
        }
    }
    assert(longer.last() == to);
}

/// `root` is reachable.
pub proof fn lemma_root_reachable(targets: TargetsView, root: TargetView)
    ensures
        reachable(targets, root, root.target_info().name),
{
    let path = seq![root.target_info().name];
    assert(is_path(targets, root, path));
    assert(path.last() == root.target_info().name);
}

/// The number of entries of `seen` that are not set.
pub open spec fn unseen(seen: Seq<bool>) -> nat
    decreases seen.len(),
{
    if seen.len() == 0 {
        0
    } else {
        unseen(seen.drop_last()) + if seen.last() {
            0nat
        } else {
            1nat
        }
    }
}

/// Setting an entry that was not set leaves one entry less that is not set.
pub proof fn lemma_unseen_set(seen: Seq<bool>, p: int)
    requires
        0 <= p < seen.len(),
        !seen[p],
    ensures
        unseen(seen.update(p, true)) + 1 == unseen(seen),
    decreases seen.len(),
{
    let after = seen.update(p, true);
    if p == seen.len() - 1 {
        assert(after.drop_last() =~= seen.drop_last());
    } else {
        assert(after.drop_last() =~= seen.drop_last().update(p, true));
        lemma_unseen_set(seen.drop_last(), p);
    }
}

/// The error for a requirement that is no target.
pub open spec fn target_not_known(name: NameView) -> ErrorView {
    ErrorView {
        kind: ErrorKind::TargetNotFound,
        message: "Target <"@ + name_text(name) + "> not known"@,
    }
}

/// What holds of the names found so far: `root` comes first, no name comes
/// twice, each stands for a target and is reachable, and the names that are
/// marked as seen are the names found.
pub open spec fn search_state(
    targets: TargetsView,
    root: TargetView,
    names: Seq<NameView>,
    found: Seq<TargetView>,
    seen: Seq<bool>,
) -> bool {
    &&& seen.len() == targets.len()
    &&& names.len() == found.len()
    &&& names.len() >= 1
    &&& names[0] == root.target_info().name
    &&& forall|a: int, b: int| 0 <= a < b < names.len() ==> names[a] != names[b]
    &&& forall|j: int|
        0 <= j < names.len() ==> {
            &&& known(targets, root, #[trigger] names[j])
            &&& found[j] == node(targets, root, names[j])
            &&& reachable(targets, root, names[j])
            &&& has_key(targets, names[j]) ==> seen[key_index(targets, names[j])]
        }
    &&& forall|p: int|
        0 <= p < seen.len() && #[trigger] seen[p] ==> names.contains(targets[p].0) && key_index(
            targets,
            targets[p].0,
        ) == p
}

/// Whether what each of the first `i` names requires is among the names.
pub open spec fn processed(
    targets: TargetsView,
    root: TargetView,
    names: Seq<NameView>,
    i: int,
) -> bool {
    forall|j: int|
        0 <= j < i && j < names.len() ==> listed(
            names,
            node(targets, root, #[trigger] names[j]).target_info().requires,
            node(targets, root, names[j]).target_info().requires.len() as int,
        )
}

/// Whether `names` and `found` list `root` and what it requires, directly
/// or through others: each name once, `root` first, each with the target
/// that stands under it.
pub open spec fn is_closure(
    targets: TargetsView,
    root: TargetView,
    names: Seq<NameView>,
    found: Seq<TargetView>,
) -> bool {
    &&& names.len() == found.len()
    &&& names.len() >= 1
    &&& names[0] == root.target_info().name
    &&& forall|a: int, b: int| 0 <= a < b < names.len() ==> names[a] != names[b]
    &&& forall|j: int|
        0 <= j < names.len() ==> {
            &&& known(targets, root, #[trigger] names[j])
            &&& found[j] == node(targets, root, names[j])
            &&& reachable(targets, root, names[j])
        }
    &&& closed(targets, root, names)
}

/// Taking in a target that was not seen keeps the state of the search.
pub proof fn lemma_search_add(
    targets: TargetsView,
    root: TargetView,
    names: Seq<NameView>,
    found: Seq<TargetView>,
    seen: Seq<bool>,
    w: NameView,
    pos: int,
)
    requires
        search_state(targets, root, names, found, seen),
        pos == key_index(targets, w),
        0 <= pos < targets.len(),
        !seen[pos],
        reachable(targets, root, w),
    ensures
        search_state(
            targets,
            root,
            names.push(w),
            found.push(targets[pos].1),
            seen.update(pos, true),
        ),
        !names.contains(w),
{
    let names2 = names.push(w);
    let found2 = found.push(targets[pos].1);
    let seen2 = seen.update(pos, true);
    lemma_key_index_from(targets, w, 0);
    assert(targets[pos].0 == w);
    assert(has_key(targets, w));
    if names.contains(w) {
        let j = choose|j: int| 0 <= j < names.len() && names[j] == w;
        assert(seen[key_index(targets, names[j])]);
    }
    assert(w != root.target_info().name);
    assert forall|a: int, b: int| 0 <= a < b < names2.len() implies names2[a] != names2[b] by {
        if b == names.len() {
            assert(names2[a] == names[a]);
            assert(names.contains(names[a]));
        }
    }
    assert forall|j: int| 0 <= j < names2.len() implies {
        &&& known(targets, root, #[trigger] names2[j])
        &&& found2[j] == node(targets, root, names2[j])
        &&& reachable(targets, root, names2[j])
        &&& has_key(targets, names2[j]) ==> seen2[key_index(targets, names2[j])]
    } by {
        if j < names.len() {
            assert(names2[j] == names[j]);
            assert(found2[j] == found[j]);
            lemma_key_index_from(targets, names[j], 0);
        }
    }
    assert forall|p: int| 0 <= p < seen2.len() && #[trigger] seen2[p] implies names2.contains(
        targets[p].0,
    ) && key_index(targets, targets[p].0) == p by {
        if p == pos {
            assert(names2[names.len() as int] == w);
        } else {
            assert(seen[p]);
            let j = choose|j: int| 0 <= j < names.len() && names[j] == targets[p].0;
            assert(names2[j] == targets[p].0);
        }
    }
}

/// A name that is in a list is in the list with one more name.
pub proof fn lemma_listed_push(names: Seq<NameView>, reqs: Seq<NameView>, k: int, w: NameView)
    requires
        listed(names, reqs, k),
    ensures
        listed(names.push(w), reqs, k),
{
    assert forall|q: int| 0 <= q < k && q < reqs.len() implies names.push(w).contains(
        #[trigger] reqs[q],
    ) by {
        let j = choose|j: int| 0 <= j < names.len() && names[j] == reqs[q];
        assert(names.push(w)[j] == reqs[q]);
    }
}

/// What was processed stays processed when a name is taken in.
pub proof fn lemma_processed_push(
    targets: TargetsView,
    root: TargetView,
    names: Seq<NameView>,
    i: int,
    w: NameView,
)
    requires
        processed(targets, root, names, i),
        i <= names.len(),
    ensures
        processed(targets, root, names.push(w), i),
{
    let names2 = names.push(w);
    assert forall|j: int| 0 <= j < i && j < names2.len() implies listed(
        names2,
        node(targets, root, #[trigger] names2[j]).target_info().requires,
        node(targets, root, names2[j]).target_info().requires.len() as int,
    ) by {
        assert(names2[j] == names[j]);
        lemma_listed_push(
            names,
            node(targets, root, names[j]).target_info().requires,
            node(targets, root, names[j]).target_info().requires.len() as int,
            w,
        );
    }
}

/// A finished search has found the closure.
pub proof fn lemma_search_done(
    targets: TargetsView,
    root: TargetView,
    names: Seq<NameView>,
    found: Seq<TargetView>,
    seen: Seq<bool>,
)
    requires
        search_state(targets, root, names, found, seen),
        processed(targets, root, names, names.len() as int),
    ensures
        is_closure(targets, root, names, found),
{
    assert(names[0] == root.target_info().name);
    assert(names.contains(root.target_info().name));
}

/// One step of the search: the requirement `wanted` of the target that is
/// being processed is taken in, unless it is there.
fn visit<'a>(
    context: &'a Context,
    root_name: &FullyQualifiedName,
    wanted: &FullyQualifiedName,
    names: &mut Vec<FullyQualifiedName>,
    found: &mut Vec<&'a Target>,
    seen: &mut Vec<bool>,
    Ghost(root): Ghost<TargetView>,
) -> (r: Result<(), Error>)
    requires
        search_state(
            context.targets.deep_view(),
            root,
            old(names).deep_view(),
            old(found).deep_view(),
            old(seen)@,
        ),
        root_name@ == root.target_info().name,
        reachable(context.targets.deep_view(), root, wanted@),
    ensures
        match r {
            Ok(_) => {
                &&& search_state(
                    context.targets.deep_view(),
                    root,
                    final(names).deep_view(),
                    final(found).deep_view(),
                    final(seen)@,
                )
                &&& final(names).deep_view().contains(wanted@)
                &&& (final(names).deep_view() == old(names).deep_view() && final(seen)@ == old(
                    seen,
                )@) || (final(names).deep_view() == old(names).deep_view().push(wanted@)
                    && unseen(final(seen)@) + 1 == unseen(old(seen)@))
            },
            Err(e) => {
                &&& !known(context.targets.deep_view(), root, wanted@)
                &&& e@ == target_not_known(wanted@)
                &&& *final(names) == *old(names)
                &&& *final(found) == *old(found)
                &&& *final(seen) == *old(seen)
            },
        },
{
    let ghost model = context.targets.deep_view();
    let n = context.targets.len();
    proof {
        lemma_key_index_from(model, wanted@, 0);
        lemma_deep_view_index(*names);
    }
    let pos = context.targets.position(wanted);
    if pos == n {
        if wanted.key_eq_name(root_name) {
            assert(names.deep_view()[0] == wanted@);
            Ok(())
        } else {
            let text = wanted.to_string();
            Err(
                Error::new(
                    ErrorKind::TargetNotFound,
                    concat3("Target <", text.as_str(), "> not known"),
                ),
            )
        }
    } else if !seen[pos] {
        let ghost before_names = *names;
        let ghost before_found = *found;
        proof {
            lemma_unseen_set(seen@, pos as int);
            lemma_deep_view_index(context.targets.entries);
            lemma_search_add(
                model,
                root,
                names.deep_view(),
                found.deep_view(),
                seen@,
                wanted@,
                pos as int,
            );
        }
        seen.set(pos, true);
        let owned = wanted.clone();
        names.push(owned);
        let target: &'a Target = &context.targets.entries[pos].1;
        found.push(target);
        proof {
            lemma_deep_view_push(before_names, *names, owned);
            lemma_deep_view_push(before_found, *found, target);
            let last = names.deep_view().len() - 1;
            assert(names.deep_view()[last] == wanted@);
        }
        Ok(())
    } else {
        proof {
            assert(model[pos as int].0 == wanted@);
        }
        Ok(())
    }
}

/// `root` and what it requires, directly or through others: the names, and
/// the target under each. Fails if a target that is required does not exist.
pub fn closure<'a>(target: &'a Target, context: &'a Context) -> (r: Result<
    (Vec<FullyQualifiedName>, Vec<&'a Target>),
    Error,
>)
    ensures
        match r {
            Ok((names, found)) => is_closure(
                context.targets.deep_view(),
                target.deep_view(),
                names.deep_view(),
                found.deep_view(),
            ),
            Err(e) => exists|missing: NameView|
                {
                    &&& #[trigger] reachable(context.targets.deep_view(), target.deep_view(), missing)
                    &&& !known(context.targets.deep_view(), target.deep_view(), missing)
                    &&& e@ == target_not_known(missing)
                },
        },
{
    let ghost model = context.targets.deep_view();
    let ghost root = target.deep_view();
    let n = context.targets.len();
    let root_name = target.target_info().name.clone();
    let mut seen: Vec<bool> = Vec::new();
    let mut fill: usize = 0;
    while fill < n
        invariant
            fill <= n,
            seen@.len() == fill,
            forall|p: int| 0 <= p < fill ==> !seen@[p],
        decreases n - fill,
    {
        seen.push(false);
        fill += 1;
    }
    let root_pos = context.targets.position(&root_name);
    proof {
        lemma_key_index_from(model, root_name@, 0);
    }
    if root_pos < n {
        seen.set(root_pos, true);
    }
    let mut names: Vec<FullyQualifiedName> = Vec::new();
    let mut found: Vec<&'a Target> = Vec::new();
    names.push(root_name.clone());
    found.push(target);
    proof {
        lemma_deep_view_index(names);
        lemma_deep_view_index(found);
        lemma_root_reachable(model, root);
        assert(names.deep_view()[0] == root_name@);
        assert forall|p: int| 0 <= p < seen@.len() && #[trigger] seen@[p] implies names.deep_view().contains(
            model[p].0,
        ) && key_index(model, model[p].0) == p by {
            assert(p == root_pos);
            assert(model[p].0 == root_name@);
        }
        assert(search_state(model, root, names.deep_view(), found.deep_view(), seen@));
    }
    let mut i: usize = 0;
    while i < names.len()
        invariant
            i <= names.len(),
            model == context.targets.deep_view(),
            root == target.deep_view(),
            root_name@ == root.target_info().name,
            names.deep_view().len() == names@.len(),
            search_state(model, root, names.deep_view(), found.deep_view(), seen@),
            processed(model, root, names.deep_view(), i as int),
        decreases unseen(seen@), names@.len() - i,
    {
        proof {
            lemma_deep_view_index(names);
            lemma_deep_view_index(found);
        }
        let current: &'a Target = found[i];
        let reqs = &current.target_info().requires;
        let ghost current_name = names.deep_view()[i as int];
        let ghost start_unseen = unseen(seen@);
        let ghost start_len = names@.len();
        let mut k: usize = 0;
        while k < reqs.len()
            invariant
                k <= reqs.len(),
                i < names@.len(),
                model == context.targets.deep_view(),
                root == target.deep_view(),
                root_name@ == root.target_info().name,
                names.deep_view().len() == names@.len(),
                current_name == names.deep_view()[i as int],
                known(model, root, current_name),
                reachable(model, root, current_name),
                reqs.deep_view() == node(model, root, current_name).target_info().requires,
                reqs.deep_view().len() == reqs@.len(),
                search_state(model, root, names.deep_view(), found.deep_view(), seen@),
                processed(model, root, names.deep_view(), i as int),
                listed(names.deep_view(), reqs.deep_view(), k as int),
                unseen(seen@) + names@.len() == start_unseen + start_len,
                names@.len() >= start_len,
            decreases reqs.len() - k,
        {
            let wanted = &reqs[k];
            let ghost before = names.deep_view();
            proof {
                lemma_deep_view_index(*reqs);
                assert(reqs.deep_view()[k as int] == wanted@);
                assert(reqs.deep_view().contains(wanted@));
                lemma_reachable_step(model, root, current_name, wanted@);
            }
            match visit(context, &root_name, wanted, &mut names, &mut found, &mut seen, Ghost(root)) {
                Err(e) => {
                    return Err(e);
                },
                Ok(_) => {},
            }
            proof {
                lemma_deep_view_index(names);
                if names.deep_view() != before {
                    lemma_listed_push(before, reqs.deep_view(), k as int, wanted@);
                    lemma_processed_push(model, root, before, i as int, wanted@);
                }
                assert(names.deep_view()[i as int] == current_name);
            }
            k += 1;
        }
        proof {
            assert(processed(model, root, names.deep_view(), i as int + 1)) by {
                assert forall|j: int| 0 <= j < i + 1 && j < names.deep_view().len() implies listed(
                    names.deep_view(),
                    node(model, root, #[trigger] names.deep_view()[j]).target_info().requires,
                    node(model, root, names.deep_view()[j]).target_info().requires.len() as int,
                ) by {
                    if j == i {
                    }
                }
            }
        }
        i += 1;
    }
    proof {
        lemma_search_done(model, root, names.deep_view(), found.deep_view(), seen@);
    }
    Ok((names, found))
}

/// The names among the first `m` of `names` whose target requires `x`, in order.
pub open spec fn consumers(
    targets: TargetsView,
    root: TargetView,
    names: Seq<NameView>,
    x: NameView,
    m: int,
) -> Seq<NameView>
    decreases m,
{
    if m <= 0 || m > names.len() {
        Seq::empty()
    } else {
        let front = consumers(targets, root, names, x, m - 1);
        if node(targets, root, names[m - 1]).target_info().requires.contains(x) {
            front.push(names[m - 1])
        } else {
            front
        }
    }
}

/// The trigger of the `j`-th of `names`: the patterns of its target, and
/// after it the targets among `names` that require it.
pub open spec fn trigger_at(
    targets: TargetsView,
    root: TargetView,
    names: Seq<NameView>,
    j: int,
) -> WatchTriggerView {
    WatchTriggerView {
        paths: patterns_of(node(targets, root, names[j])),
        target: names[j],
        and_then: consumers(targets, root, names, names[j], names.len() as int),
    }
}

/// The targets of `triggers`, in order.
pub open spec fn trigger_targets(triggers: Seq<WatchTriggerView>) -> Seq<NameView> {
    Seq::new(triggers.len(), |j: int| triggers[j].target)
}

/// Whether `triggers` are the triggers for watching `root`: one for `root`
/// and one for each target it requires, directly or through others, `root`
/// first and none twice; each with the patterns of its target, all of them
/// glob patterns, and followed by the targets among them that require it.
pub open spec fn is_trigger_set(
    targets: TargetsView,
    root: TargetView,
    triggers: Seq<WatchTriggerView>,
) -> bool {
    let names = trigger_targets(triggers);
    &&& is_closure(
        targets,
        root,
        names,
        Seq::new(names.len(), |j: int| node(targets, root, names[j])),
    )
    &&& forall|j: int|
        0 <= j < triggers.len() ==> {
            &&& #[trigger] triggers[j] == trigger_at(targets, root, names, j)
            &&& first_pattern_error(triggers[j].paths, 0) is None
        }
}

/// Why no triggers can be made for watching `root`: a target that is
/// required does not exist, or a pattern of a target is no glob pattern.
pub open spec fn trigger_failure(targets: TargetsView, root: TargetView, e: ErrorView) -> bool {
    ||| exists|missing: NameView|
        {
            &&& #[trigger] reachable(targets, root, missing)
            &&& !known(targets, root, missing)
            &&& e == target_not_known(missing)
        }
    ||| exists|name: NameView|
        {
            &&& #[trigger] reachable(targets, root, name)
            &&& known(targets, root, name)
            &&& one_trigger(name, node(targets, root, name)) == Err::<WatchTriggerView, ErrorView>(
                e,
            )
        }
}

/// Triggers can be made exactly when nothing stands against it: where
/// there are triggers for watching `root`, every target that `root`
/// requires, directly or through others, exists, and every pattern of
/// theirs is a glob pattern.
pub proof fn lemma_trigger_set_excludes_failure(
    targets: TargetsView,
    root: TargetView,
    triggers: Seq<WatchTriggerView>,
    e: ErrorView,
)
    requires
        is_trigger_set(targets, root, triggers),
    ensures
        !trigger_failure(targets, root, e),
{
    let names = trigger_targets(triggers);
    if exists|missing: NameView|
        {
            &&& #[trigger] reachable(targets, root, missing)
            &&& !known(targets, root, missing)
            &&& e == target_not_known(missing)
        } {
        let missing = choose|missing: NameView|
            {
                &&& #[trigger] reachable(targets, root, missing)
                &&& !known(targets, root, missing)
                &&& e == target_not_known(missing)
            };
        lemma_closed_holds_reachable(targets, root, names, missing);
        let j = choose|j: int| 0 <= j < names.len() && names[j] == missing;
        assert(known(targets, root, names[j]));
    }
    if exists|name: NameView|
        {
            &&& #[trigger] reachable(targets, root, name)
            &&& known(targets, root, name)
            &&& one_trigger(name, node(targets, root, name)) == Err::<WatchTriggerView, ErrorView>(
                e,
            )
        } {
        let name = choose|name: NameView|
            {
                &&& #[trigger] reachable(targets, root, name)
                &&& known(targets, root, name)
                &&& one_trigger(name, node(targets, root, name)) == Err::<
                    WatchTriggerView,
                    ErrorView,
                >(e)
            };
        lemma_closed_holds_reachable(targets, root, names, name);
        let j = choose|j: int| 0 <= j < names.len() && names[j] == name;
        assert(triggers[j] == trigger_at(targets, root, names, j));
        assert(triggers[j].paths == patterns_of(node(targets, root, name)));
    }
}

/// Whether the pattern matches the path.
pub open spec fn matches_path(pattern: Seq<char>, path: Seq<char>) -> bool {
    glob_pattern_error(pattern) is None && glob_matches(pattern, path)
}

/// Whether one of `patterns` matches one of `paths`.
pub open spec fn any_match(patterns: Seq<Seq<char>>, paths: Seq<Seq<char>>) -> bool {
    exists|i: int, j: int|
        0 <= i < patterns.len() && 0 <= j < paths.len() && #[trigger] matches_path(
            patterns[i],
            paths[j],
        )
}

/// The targets to run again when `changed` changed, given the first `m`
/// triggers: for each trigger with a pattern that matches a changed path,
/// in order, its target and then the targets that follow it.
pub open spec fn dispatched(triggers: Seq<WatchTriggerView>, changed: Seq<Seq<char>>, m: int) -> Seq<
    NameView,
>
    decreases m,
{
    if m <= 0 || m > triggers.len() {
        Seq::empty()
    } else {
        let front = dispatched(triggers, changed, m - 1);
        if any_match(triggers[m - 1].paths, changed) {
            front.push(triggers[m - 1].target) + triggers[m - 1].and_then
        } else {
            front
        }
    }
}

/// The patterns of the first `m` triggers, in order.
pub open spec fn all_patterns(triggers: Seq<WatchTriggerView>, m: int) -> Seq<Seq<char>>
    decreases m,
{
    if m <= 0 || m > triggers.len() {
        Seq::empty()
    } else {
        all_patterns(triggers, m - 1) + triggers[m - 1].paths
    }
}

/// The patterns of the paths whose change makes `target` stale.
pub fn target_patterns(target: &Target) -> (r: Vec<String>)
    ensures
        r.deep_view() == patterns_of(target.deep_view()),
{
    let none: Vec<String> = Vec::new();
    assert(none.deep_view() =~= Seq::<Seq<char>>::empty());
    match target {
        Target::Artifact(a) => match &a.artifact_info().if_files_changed {
            Some(l) => clone_strings(l),
            None => none,
        },
        Target::Command(_) => none,
    }
}

/// What is wrong with the first of `patterns` that is no glob pattern.
pub fn find_pattern_error(patterns: &Vec<String>) -> (r: Option<String>)
    ensures
        r.deep_view() == first_pattern_error(patterns.deep_view(), 0),
{
    let mut i: usize = 0;
    while i < patterns.len()
        invariant
            i <= patterns.len(),
            first_pattern_error(patterns.deep_view(), 0) == first_pattern_error(
                patterns.deep_view(),
                i as int,
            ),
        decreases patterns.len() - i,
    {
        proof {
            lemma_deep_view_index(*patterns);
        }
        match pattern_error(patterns[i].as_str()) {
            Some(message) => {
                return Some(message);
            },
            None => {},
        }
        i += 1;
    }
    None
}

/// The trigger of `target` under the name `name`, before the targets that
/// follow it are known.
pub fn trigger_for(name: FullyQualifiedName, target: &Target) -> (r: Result<WatchTrigger, Error>)
    ensures
        match r {
            Ok(t) => one_trigger(name@, target.deep_view()) == Ok::<WatchTriggerView, ErrorView>(
                t.deep_view(),
            ),
            Err(e) => one_trigger(name@, target.deep_view()) == Err::<WatchTriggerView, ErrorView>(
                e@,
            ),
        },
{
    let paths = target_patterns(target);
    match find_pattern_error(&paths) {
        Some(message) => Err(Error::new(ErrorKind::Pattern, message)),
        None => {
            let and_then: Vec<FullyQualifiedName> = Vec::new();
            assert(and_then.deep_view() =~= Seq::<NameView>::empty());
            Ok(WatchTrigger { paths, target: name, and_then })
        },
    }
}

/// The names among `names` whose target requires `x`, in order.
fn consumers_of(
    names: &Vec<FullyQualifiedName>,
    found: &Vec<&Target>,
    x: &FullyQualifiedName,
    Ghost(targets): Ghost<TargetsView>,
    Ghost(root): Ghost<TargetView>,
) -> (r: Vec<FullyQualifiedName>)
    requires
        names@.len() == found@.len(),
        forall|j: int|
            0 <= j < names@.len() ==> (#[trigger] found.deep_view()[j]) == node(
                targets,
                root,
                names.deep_view()[j],
            ),
    ensures
        r.deep_view() == consumers(targets, root, names.deep_view(), x@, names@.len() as int),
{
    let mut out: Vec<FullyQualifiedName> = Vec::new();
    let mut m: usize = 0;
    assert(out.deep_view() =~= Seq::<NameView>::empty());
    while m < names.len()
        invariant
            m <= names.len(),
            names@.len() == found@.len(),
            names.deep_view().len() == names@.len(),
            forall|j: int|
                0 <= j < names@.len() ==> (#[trigger] found.deep_view()[j]) == node(
                    targets,
                    root,
                    names.deep_view()[j],
                ),
            out.deep_view() == consumers(targets, root, names.deep_view(), x@, m as int),
        decreases names.len() - m,
    {
        proof {
            lemma_deep_view_index(*names);
            lemma_deep_view_index(*found);
            assert(found.deep_view()[m as int] == node(targets, root, names.deep_view()[m as int]));
        }
        if contains_name(&found[m].target_info().requires, x) {
            let ghost before = out;
            let owned = names[m].clone();
            out.push(owned);
            proof {
                lemma_deep_view_push(before, out, owned);
            }
        }
        m += 1;
    }
    out
}

impl WatchTrigger {
    /// The trigger of `target` alone.
    pub fn get_one(target: &Target) -> (r: Result<WatchTrigger, Error>)
        ensures
            match r {
                Ok(t) => one_trigger(target.deep_view().target_info().name, target.deep_view())
                    == Ok::<WatchTriggerView, ErrorView>(t.deep_view()),
                Err(e) => one_trigger(target.deep_view().target_info().name, target.deep_view())
                    == Err::<WatchTriggerView, ErrorView>(e@),
            },
    {
        trigger_for(target.target_info().name.clone(), target)
    }

    /// The triggers for watching `target`: one for it and one for each
    /// target it requires, directly or through others.
    pub fn get_all(target: &Target, context: &Context) -> (r: Result<Vec<WatchTrigger>, Error>)
        ensures
            match r {
                Ok(triggers) => is_trigger_set(
                    context.targets.deep_view(),
                    target.deep_view(),
                    triggers.deep_view(),
                ),
                Err(e) => trigger_failure(context.targets.deep_view(), target.deep_view(), e@),
            },
    {
        let ghost model = context.targets.deep_view();
        let ghost root = target.deep_view();
        let (names, found) = match closure(target, context) {
            Err(e) => {
                return Err(e);
            },
            Ok(pair) => pair,
        };
        let ghost ns = names.deep_view();
        let mut triggers: Vec<WatchTrigger> = Vec::new();
        let mut j: usize = 0;
        proof {
            lemma_deep_view_index(names);
            lemma_deep_view_index(found);
        }
        while j < names.len()
            invariant
                j <= names.len(),
                model == context.targets.deep_view(),
                root == target.deep_view(),
                ns == names.deep_view(),
                ns.len() == names@.len(),
                is_closure(model, root, ns, found.deep_view()),
                triggers@.len() == j,
                triggers.deep_view().len() == j,
                forall|t: int|
                    0 <= t < j ==> {
                        &&& (#[trigger] triggers.deep_view()[t]) == trigger_at(model, root, ns, t)
                        &&& first_pattern_error(triggers.deep_view()[t].paths, 0) is None
                    },
            decreases names.len() - j,
        {
            proof {
                lemma_deep_view_index(names);
                lemma_deep_view_index(found);
            }
            let mut trigger = match trigger_for(names[j].clone(), found[j]) {
                Err(e) => {
                    assert(reachable(model, root, ns[j as int]));
                    return Err(e);
                },
                Ok(t) => t,
            };
            trigger.and_then = consumers_of(&names, &found, &names[j], Ghost(model), Ghost(root));
            let ghost before = triggers;
            triggers.push(trigger);
            proof {
                lemma_deep_view_push(before, triggers, trigger);
                assert forall|t: int| 0 <= t < j + 1 implies {
                    &&& (#[trigger] triggers.deep_view()[t]) == trigger_at(model, root, ns, t)
                    &&& first_pattern_error(triggers.deep_view()[t].paths, 0) is None
                } by {
                    if t < j {
                        assert(triggers.deep_view()[t] == before.deep_view()[t]);
                    }
                }
            }
            j += 1;
        }
        proof {
            let ts = triggers.deep_view();
            assert(trigger_targets(ts) =~= ns);
            assert(Seq::new(ns.len(), |j: int| node(model, root, ns[j])) =~= found.deep_view());
        }
        Ok(triggers)
    }

    /// Whether one of the patterns matches one of `test_paths`.
    pub fn matches(&self, test_paths: &Vec<String>) -> (b: bool)
        ensures
            b == any_match(self.paths.deep_view(), test_paths.deep_view()),
    {
        let mut i: usize = 0;
        while i < self.paths.len()
            invariant
                i <= self.paths.len(),
                forall|a: int, c: int|
                    0 <= a < i && 0 <= c < test_paths.deep_view().len() ==> !#[trigger] matches_path(
                        self.paths.deep_view()[a],
                        test_paths.deep_view()[c],
                    ),
            decreases self.paths.len() - i,
        {
            let mut j: usize = 0;
            while j < test_paths.len()
                invariant
                    i < self.paths.len(),
                    j <= test_paths.len(),
                    forall|a: int, c: int|
                        0 <= a < i && 0 <= c < test_paths.deep_view().len()
                            ==> !#[trigger] matches_path(
                            self.paths.deep_view()[a],
                            test_paths.deep_view()[c],
                        ),
                    forall|c: int|
                        0 <= c < j ==> !#[trigger] matches_path(
                            self.paths.deep_view()[i as int],
                            test_paths.deep_view()[c],
                        ),
                decreases test_paths.len() - j,
            {
                proof {
                    lemma_deep_view_index(self.paths);
                    lemma_deep_view_index(*test_paths);
                }
                if pattern_matches(self.paths[i].as_str(), test_paths[j].as_str()) {
                    assert(matches_path(
                        self.paths.deep_view()[i as int],
                        test_paths.deep_view()[j as int],
                    ));
                    return true;
                }
                j += 1;
            }
            proof {
                lemma_deep_view_index(*test_paths);
            }
            i += 1;
        }
        proof {
            lemma_deep_view_index(self.paths);
        }
        false
    }

    /// The directories to watch for `watches`, none of them below another.
    pub fn find_minimal_watches(watches: &Vec<WatchTrigger>) -> (r: Vec<String>)
        ensures
            r.deep_view() == minimal_roots(
                all_patterns(watches.deep_view(), watches@.len() as int),
            ),
    {
        let mut patterns: Vec<String> = Vec::new();
        let mut i: usize = 0;
        assert(patterns.deep_view() =~= Seq::<Seq<char>>::empty());
        while i < watches.len()
            invariant
                i <= watches.len(),
                watches.deep_view().len() == watches@.len(),
                patterns.deep_view() == all_patterns(watches.deep_view(), i as int),
            decreases watches.len() - i,
        {
            proof {
                lemma_deep_view_index(*watches);
            }
            patterns = crate::text::concat_strings(&patterns, &watches[i].paths);
            i += 1;
        }
        find_matching_paths(&patterns)
    }

    /// The targets to run again, in order, when the paths `changed` changed.
    pub fn dispatch(triggers: &Vec<WatchTrigger>, changed: &Vec<String>) -> (r: Vec<
        FullyQualifiedName,
    >)
        ensures
            r.deep_view() == dispatched(
                triggers.deep_view(),
                changed.deep_view(),
                triggers@.len() as int,
            ),
    {
        let mut out: Vec<FullyQualifiedName> = Vec::new();
        let mut i: usize = 0;
        assert(out.deep_view() =~= Seq::<NameView>::empty());
        while i < triggers.len()
            invariant
                i <= triggers.len(),
                triggers.deep_view().len() == triggers@.len(),
                out.deep_view() == dispatched(triggers.deep_view(), changed.deep_view(), i as int),
            decreases triggers.len() - i,
        {
            proof {
                lemma_deep_view_index(*triggers);
            }
            if triggers[i].matches(changed) {
                let ghost before = out;
                let first = triggers[i].target.clone();
                out.push(first);
                proof {
                    lemma_deep_view_push(before, out, first);
                }
                out = crate::name::concat_names(&out, &triggers[i].and_then);
            }
            i += 1;
        }
        out
    }
}

/// Each text of `items` between double quotes.
pub open spec fn in_quotes(items: Seq<Seq<char>>) -> Seq<Seq<char>> {
    Seq::new(items.len(), |i: int| "\""@ + items[i] + "\""@)
}

/// A trigger written out for a person to read: its patterns, its target
/// and the targets that follow it, each text between double quotes.
pub open spec fn description(t: WatchTriggerView) -> Seq<char> {
    "WatchTrigger { paths: ["@ + join(in_quotes(t.paths), ", "@) + "], target: \""@ + name_text(
        t.target,
    ) + "\", and_then: ["@ + join(in_quotes(name_texts(t.and_then)), ", "@) + "] }"@
}

/// Each text of `items` between double quotes.
pub fn quote_all(items: &Vec<String>) -> (r: Vec<String>)
    ensures
        r.deep_view() == in_quotes(items.deep_view()),
{
    let mut out: Vec<String> = Vec::new();
    let mut i: usize = 0;
    let ghost all = in_quotes(items.deep_view());
    assert(out.deep_view() =~= all.take(0));
    while i < items.len()
        invariant
            i <= items.len(),
            all == in_quotes(items.deep_view()),
            out.deep_view() == all.take(i as int),
        decreases items.len() - i,
    {
        let ghost before = out;
        let text = concat3("\"", items[i].as_str(), "\"");
        out.push(text);
        proof {
            lemma_deep_view_index(*items);
            lemma_deep_view_push(before, out, text);
            assert(all.take(i as int + 1) =~= all.take(i as int).push(all[i as int]));
        }
        i += 1;
    }
    proof {
        lemma_deep_view_index(*items);
        assert(all.take(items.len() as int) =~= all);
    }
    out
}

impl WatchTrigger {
    /// The trigger written out for a person to read.
    pub fn describe(&self) -> (s: String)
        ensures
            s@ == description(self.deep_view()),
    {
        let paths = join_strings(&quote_all(&self.paths), ", ");
        let target = self.target.to_string();
        let followers = join_strings(&quote_all(&name_strings(&self.and_then)), ", ");
        let mut s = concat3("WatchTrigger { paths: [", paths.as_str(), "], target: \"");
        s.append(target.as_str());
        s.append("\", and_then: [");
        s.append(followers.as_str());
        s.append("] }");
        s
    }
}

} // verus!
