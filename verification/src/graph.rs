//! The graph that `requires` draws between targets.
use vstd::prelude::*;
use crate::error::{Error, ErrorKind, ErrorView};
use crate::name::{name_text, FullyQualifiedName, NameView};
use crate::table::{lookup, Table};
use crate::target::{Target, TargetView};
use crate::text::{concat3, lemma_deep_view_index};

verus! {

/// The model of the targets of a context.
pub type TargetsView = Seq<(NameView, TargetView)>;

/// The targets that `name` requires, in the order it lists them; none for a
/// name that is no target.
pub open spec fn requirements(targets: TargetsView, name: NameView) -> Seq<NameView> {
    match lookup(targets, name) {
        Some(t) => t.target_info().requires,
        None => Seq::empty(),
    }
}

/// Whether every chain of requirements that starts at a name of `names`
/// is at most `fuel` targets long.
pub open spec fn chains_within(targets: TargetsView, names: Seq<NameView>, fuel: nat) -> bool
    decreases fuel, names.len(),
{
    if names.len() == 0 {
        true
    } else if fuel == 0 {
        false
    } else {
        chains_within(targets, names.drop_last(), fuel) && chains_within(
            targets,
            requirements(targets, names.last()),
            (fuel - 1) as nat,
        )
    }
}

/// Whether the requirements of `name` lead back into themselves: a chain of
/// requirements longer than the number of targets passes some target twice.
pub open spec fn in_requires_cycle(targets: TargetsView, name: NameView) -> bool {
    !chains_within(targets, seq![name], targets.len())
}

/// A chain that fits in less fuel fits in more.
pub proof fn lemma_chains_within_more(targets: TargetsView, names: Seq<NameView>, fuel: nat, more: nat)
    requires
        chains_within(targets, names, fuel),
        fuel <= more,
    ensures
        chains_within(targets, names, more),
    decreases fuel, names.len(),
{
    if names.len() > 0 {
        lemma_chains_within_more(targets, names.drop_last(), fuel, more);
        lemma_chains_within_more(
            targets,
            requirements(targets, names.last()),
            (fuel - 1) as nat,
            (more - 1) as nat,
        );
    }
}

/// The chains of a list fit exactly when the chains of each of its names fit.
pub proof fn lemma_chains_within_each(targets: TargetsView, names: Seq<NameView>, fuel: nat)
    ensures
        chains_within(targets, names, fuel) <==> forall|i: int|
            0 <= i < names.len() ==> chains_within(targets, seq![#[trigger] names[i]], fuel),
    decreases names.len(),
{
    if names.len() > 0 {
        let front = names.drop_last();
        lemma_chains_within_each(targets, front, fuel);
        let last = names.last();
        assert(seq![last].drop_last() =~= Seq::<NameView>::empty());
        assert(seq![last].last() == last);
        assert(chains_within(targets, Seq::<NameView>::empty(), fuel));
        if fuel > 0 {
            assert(chains_within(targets, seq![last], fuel) == chains_within(
                targets,
                requirements(targets, last),
                (fuel - 1) as nat,
            ));
        }
        if chains_within(targets, names, fuel) {
            assert forall|i: int| 0 <= i < names.len() implies chains_within(
                targets,
                seq![#[trigger] names[i]],
                fuel,
            ) by {
                if i < front.len() {
                    assert(front[i] == names[i]);
                }
            }
        } else if forall|i: int|
            0 <= i < names.len() ==> chains_within(targets, seq![#[trigger] names[i]], fuel) {
            assert forall|i: int| 0 <= i < front.len() implies chains_within(
                targets,
                seq![#[trigger] front[i]],
                fuel,
            ) by {
                assert(front[i] == names[i]);
            }
            assert(chains_within(targets, seq![names[names.len() - 1]], fuel));
        }
    }
}

/// Whether every chain of requirements that starts at a name of `names`
/// is at most `fuel` targets long.
pub fn check_chains(
    targets: &Table<FullyQualifiedName, Target>,
    names: &Vec<FullyQualifiedName>,
    fuel: usize,
) -> (r: bool)
    ensures
        r == chains_within(targets.deep_view(), names.deep_view(), fuel as nat),
    decreases fuel, names.len(),
{
    if names.len() == 0 {
        return true;
    }
    if fuel == 0 {
        return false;
    }
    let ghost all = names.deep_view();
    let ghost model = targets.deep_view();
    let mut i: usize = 0;
    assert(all.take(0) =~= Seq::<NameView>::empty());
    while i < names.len()
        invariant
            i <= names.len(),
            fuel > 0,
            all == names.deep_view(),
            model == targets.deep_view(),
            chains_within(model, all.take(i as int), fuel as nat),
        decreases names.len() - i,
    {
        proof {
            lemma_deep_view_index(*names);
            assert(all.take(i as int + 1).drop_last() == all.take(i as int));
            assert(all.take(i as int + 1).last() == names@[i as int]@);
        }
        let empty: Vec<FullyQualifiedName> = Vec::new();
        assert(empty.deep_view() =~= Seq::<NameView>::empty());
        let next: &Vec<FullyQualifiedName> = match targets.get(&names[i]) {
            Some(t) => &t.target_info().requires,
            None => &empty,
        };
        if !check_chains(targets, next, fuel - 1) {
            proof {
                lemma_chains_within_prefix(model, all, i as int + 1, fuel as nat);
            }
            return false;
        }
        i += 1;
    }
    assert(all.take(names.len() as int) == all);
    true
}

/// A list whose front does not fit does not fit.
pub proof fn lemma_chains_within_prefix(targets: TargetsView, names: Seq<NameView>, n: int, fuel: nat)
    requires
        0 <= n <= names.len(),
        !chains_within(targets, names.take(n), fuel),
    ensures
        !chains_within(targets, names, fuel),
    decreases names.len() - n,
{
    if n < names.len() {
        assert(names.take(n + 1).drop_last() == names.take(n));
        lemma_chains_within_prefix(targets, names, n + 1, fuel);
    } else {
        assert(names.take(n) == names);
    }
}

/// The error for a target whose requirements lead back into themselves.
pub open spec fn requires_cycle(name: NameView) -> ErrorView {
    ErrorView {
        kind: ErrorKind::RequiresCycle,
        message: "Target <"@ + name_text(name) + "> requires itself, directly or through others"@,
    }
}

/// The error for a target whose requirements lead back into themselves.
pub fn requires_cycle_error(name: &FullyQualifiedName) -> (e: Error)
    ensures
        e@ == requires_cycle(name@),
{
    let text = name.to_string();
    Error::new(
        ErrorKind::RequiresCycle,
        concat3("Target <", text.as_str(), "> requires itself, directly or through others"),
    )
}

/// The first of the first `n` targets whose requirements lead back into
/// themselves, if there is one.
pub open spec fn first_cycle(targets: TargetsView, n: nat) -> Option<NameView>
    decreases n,
{
    if n == 0 {
        None
    } else {
        match first_cycle(targets, (n - 1) as nat) {
            Some(name) => Some(name),
            None => if n <= targets.len() && in_requires_cycle(targets, targets[n - 1].0) {
                Some(targets[n - 1].0)
            } else {
                None
            },
        }
    }
}

/// Once a cycle is found among the first targets, looking further finds the same one.
pub proof fn lemma_first_cycle_stays(targets: TargetsView, n: nat, more: nat)
    requires
        first_cycle(targets, n) is Some,
        n <= more,
    ensures
        first_cycle(targets, more) == first_cycle(targets, n),
    decreases more - n,
{
    if n < more {
        lemma_first_cycle_stays(targets, n, (more - 1) as nat);
    }
}

/// The first target whose requirements lead back into themselves, if there is one.
pub fn find_cycle(targets: &Table<FullyQualifiedName, Target>) -> (r: Option<FullyQualifiedName>)
    ensures
        r.deep_view() == first_cycle(targets.deep_view(), targets.deep_view().len()),
{
    let n = targets.len();
    let mut i: usize = 0;
    while i < n
        invariant
            i <= n,
            n == targets.deep_view().len(),
            n == targets.entries@.len(),
            first_cycle(targets.deep_view(), i as nat) is None,
        decreases n - i,
    {
        let mut single: Vec<FullyQualifiedName> = Vec::new();
        single.push(targets.entries[i].0.clone());
        assert(single.deep_view() =~= seq![targets.deep_view()[i as int].0]);
        if !check_chains(targets, &single, n) {
            proof {
                lemma_first_cycle_stays(targets.deep_view(), i as nat + 1, n as nat);
            }
            return Some(targets.entries[i].0.clone());
        }
        i += 1;
    }
    None
}

} // verus!
