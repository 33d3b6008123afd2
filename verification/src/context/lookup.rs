//! Finding the target that a user names.
//!
//! A text with a dot is a fully-qualified name and stands for the target of
//! that name. A text without a dot is a short name and stands for the one
//! target that has it; if several have it the text is ambiguous, and the
//! candidates are reported, in order, for the user to choose from.
use vstd::prelude::*;
use crate::context::load::contains_name;
use crate::context::names::{name_strings, name_texts};
use crate::context::store::Context;
use crate::graph::TargetsView;
use crate::name::{name_text, parse_name, FullyQualifiedName, NameView};
use crate::order::{sort_strings, sorted};
use crate::table::{has_key, lemma_key_index_from, lookup};
use crate::target::Target;
use crate::text::{
    chars_of, has_char, lemma_deep_view_index, lemma_deep_view_push, lemma_has_char, rfind_char,
};

verus! {

/// What a name given by the user stands for.
#[derive(Debug)]
pub enum CommandLookupResult<'a> {
    /// No target.
    NotFound,
    /// This target.
    Found(&'a Target),
    /// One of several targets: their fully-qualified names, in order.
    Duplicates(Vec<String>),
}

/// The names among the first `n` targets whose short name is `short`, each
/// once, in the order of the targets.
pub open spec fn matching_names(targets: TargetsView, short: Seq<char>, n: nat) -> Seq<NameView>
    decreases n,
{
    if n == 0 || n > targets.len() {
        Seq::empty()
    } else {
        let front = matching_names(targets, short, (n - 1) as nat);
        let key = targets[n - 1].0;
        if key.name == short && !front.contains(key) {
            front.push(key)
        } else {
            front
        }
    }
}

/// The targets that the short name `short` may stand for.
pub open spec fn candidates(targets: TargetsView, short: Seq<char>) -> Seq<NameView> {
    matching_names(targets, short, targets.len())
}

/// What `name` stands for among `targets`, as far as `r` says.
pub open spec fn lookup_agrees(targets: TargetsView, name: Seq<char>, r: CommandLookupResult) -> bool {
    if has_char(name, '.') {
        match r {
            CommandLookupResult::Found(t) => lookup(targets, parse_name(name)) == Some(
                t.deep_view(),
            ),
            CommandLookupResult::NotFound => lookup(targets, parse_name(name)) is None,
            CommandLookupResult::Duplicates(_) => false,
        }
    } else {
        let found = candidates(targets, name);
        match r {
            CommandLookupResult::NotFound => found.len() == 0,
            CommandLookupResult::Found(t) => found.len() == 1 && lookup(targets, found[0]) == Some(
                t.deep_view(),
            ),
            CommandLookupResult::Duplicates(d) => {
                &&& found.len() >= 2
                &&& sorted(d.deep_view())
                &&& d.deep_view().to_multiset() == name_texts(found).to_multiset()
            },
        }
    }
}

/// Each candidate is the name of a target, has the short name asked for,
/// and occurs once.
pub proof fn lemma_matching_names(targets: TargetsView, short: Seq<char>, n: nat)
    requires
        n <= targets.len(),
    ensures
        forall|i: int|
            0 <= i < matching_names(targets, short, n).len() ==> {
                &&& (#[trigger] matching_names(targets, short, n)[i]).name == short
                &&& has_key(targets, matching_names(targets, short, n)[i])
            },
        forall|i: int, j: int|
            0 <= i < j < matching_names(targets, short, n).len() ==> matching_names(
                targets,
                short,
                n,
            )[i] != matching_names(targets, short, n)[j],
    decreases n,
{
    if n > 0 {
        lemma_matching_names(targets, short, (n - 1) as nat);
        let front = matching_names(targets, short, (n - 1) as nat);
        let key = targets[n - 1].0;
        lemma_key_index_from(targets, key, 0);
        let all = matching_names(targets, short, n);
        assert forall|i: int| 0 <= i < all.len() implies ((#[trigger] all[i]).name == short
            && has_key(targets, all[i])) by {
            if i < front.len() {
                assert(all[i] == front[i]);
            }
        }
        assert forall|i: int, j: int| 0 <= i < j < all.len() implies all[i] != all[j] by {
            if j < front.len() {
                assert(all[i] == front[i] && all[j] == front[j]);
            } else {
                assert(all[i] == front[i]);
                assert(front.contains(front[i]));
            }
        }
    }
}

/// Whether `text` is the fully-qualified text of a target whose short name is `short`.
pub open spec fn names_target(targets: TargetsView, short: Seq<char>, text: Seq<char>) -> bool {
    exists|n: NameView| #[trigger] name_text(n) == text && n.name == short && has_key(targets, n)
}

/// An ambiguous name has at least two candidates; each candidate that is
/// reported is the text of a different target whose short name is the name
/// that was asked for.
pub proof fn lemma_duplicates_are_distinct_targets(
    targets: TargetsView,
    name: Seq<char>,
    r: CommandLookupResult,
)
    requires
        lookup_agrees(targets, name, r),
        r is Duplicates,
    ensures
        r->Duplicates_0.deep_view().len() >= 2,
        forall|i: int|
            0 <= i < r->Duplicates_0.deep_view().len() ==> names_target(
                targets,
                name,
                #[trigger] r->Duplicates_0.deep_view()[i],
            ),
        forall|i: int, j: int|
            0 <= i < j < r->Duplicates_0.deep_view().len() ==> r->Duplicates_0.deep_view()[i]
                != r->Duplicates_0.deep_view()[j],
{
    let d = r->Duplicates_0.deep_view();
    let found = candidates(targets, name);
    let texts = name_texts(found);
    lemma_matching_names(targets, name, targets.len());
    d.to_multiset_ensures();
    texts.to_multiset_ensures();
    assert(d.len() == texts.len());
    assert forall|i: int| 0 <= i < d.len() implies names_target(targets, name, #[trigger] d[i]) by {
        assert(d.contains(d[i]));
        assert(texts.to_multiset().count(d[i]) > 0);
        assert(texts.contains(d[i]));
        let k = choose|k: int| 0 <= k < texts.len() && texts[k] == d[i];
        assert(name_text(found[k]) == d[i]);
    }
    assert(texts.no_duplicates()) by {
        assert forall|i: int, j: int| 0 <= i < texts.len() && 0 <= j < texts.len() && i
            != j implies texts[i] != texts[j] by {
            lemma_name_text_distinct(found[i], found[j]);
        }
    }
    texts.lemma_multiset_has_no_duplicates();
    assert forall|i: int, j: int| 0 <= i < j < d.len() implies d[i] != d[j] by {
        if d[i] == d[j] {
            let once = d.remove(j);
            vstd::seq_lib::to_multiset_remove(d, j);
            once.to_multiset_ensures();
            assert(once[i] == d[i]);
            assert(once.contains(d[i]));
            assert(once.to_multiset().count(d[i]) > 0);
            assert(d.to_multiset().count(d[i]) >= 2);
            assert(texts.to_multiset().contains(d[i]));
        }
    }
}

/// Two names with the same short name and the same text are the same name.
pub proof fn lemma_name_text_distinct(a: NameView, b: NameView)
    requires
        a.name == b.name,
        a != b,
    ensures
        name_text(a) != name_text(b),
{
    if name_text(a) == name_text(b) {
        let s = name_text(a);
        assert(a.tag.len() + 1 + a.name.len() == s.len());
        assert(b.tag.len() + 1 + b.name.len() == s.len());
        assert(a.tag =~= s.subrange(0, a.tag.len() as int));
        assert(b.tag =~= s.subrange(0, b.tag.len() as int));
    }
}

impl Context {
    /// The target that `name` stands for.
    pub fn get_target<'a>(&'a self, name: &str) -> (r: CommandLookupResult<'a>)
        ensures
            lookup_agrees(self.targets.deep_view(), name@, r),
    {
        let chars = chars_of(name);
        proof {
            lemma_has_char(chars@, '.');
        }
        if rfind_char(&chars, '.', chars.len()).is_some() {
            let full = FullyQualifiedName::from_string(name);
            return match self.targets.get(&full) {
                Some(t) => CommandLookupResult::Found(t),
                None => CommandLookupResult::NotFound,
            };
        }
        let short = String::from_str(name);
        let ghost model = self.targets.deep_view();
        let n = self.targets.len();
        let mut found: Vec<FullyQualifiedName> = Vec::new();
        let mut i: usize = 0;
        assert(found.deep_view() =~= Seq::<NameView>::empty());
        while i < n
            invariant
                i <= n,
                n == model.len(),
                n == self.targets.entries@.len(),
                model == self.targets.deep_view(),
                short@ == name@,
                found.deep_view() == matching_names(model, name@, i as nat),
            decreases n - i,
        {
            proof {
                lemma_deep_view_index(self.targets.entries);
            }
            let key = &self.targets.entries[i].0;
            if key.name == short && !contains_name(&found, key) {
                let ghost before = found;
                let owned = key.clone();
                found.push(owned);
                proof {
                    lemma_deep_view_push(before, found, owned);
                }
            }
            i += 1;
        }
        proof {
            lemma_matching_names(model, name@, n as nat);
            lemma_deep_view_index(found);
        }
        if found.len() > 1 {
            let texts = name_strings(&found);
            CommandLookupResult::Duplicates(sort_strings(texts))
        } else if found.len() == 1 {
            match self.targets.get(&found[0]) {
                Some(t) => CommandLookupResult::Found(t),
                None => CommandLookupResult::NotFound,
            }
        } else {
            CommandLookupResult::NotFound
        }
    }
}

} // verus!
