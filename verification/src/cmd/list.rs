//! The subcommand `list`.
use vstd::prelude::*;
use crate::cmd::execute::{Execute, Work, WorkView};
use crate::context::store::Context;
use crate::error::{Error, ErrorView};
use crate::graph::TargetsView;
use crate::name::name_text;
use crate::order::{sort_strings, sorted};
use crate::text::{concat3, lemma_deep_view_index, lemma_deep_view_push};

verus! {

/// List the targets with their descriptions.
#[derive(Debug)]
pub struct ListCommand {}

/// The line for the `i`-th target: its name, a hyphen, its description.
pub open spec fn listing_line(targets: TargetsView, i: int) -> Seq<char> {
    name_text(targets[i].0) + " - "@ + match targets[i].1.target_info().description {
        Some(d) => d,
        None => Seq::empty(),
    }
}

/// The lines for all targets, in the order of the targets.
pub open spec fn listing(targets: TargetsView) -> Seq<Seq<char>> {
    Seq::new(targets.len(), |i: int| listing_line(targets, i))
}

impl Execute for ListCommand {
    open spec fn executes(&self, context: &Context, r: Result<WorkView, ErrorView>) -> bool {
        match r {
            Ok(WorkView::Print(lines)) => sorted(lines) && lines.to_multiset() == listing(
                context.targets.deep_view(),
            ).to_multiset(),
            _ => false,
        }
    }

    fn execute(&self, context: &Context) -> (r: Result<Work, Error>) {
        let mut lines: Vec<String> = Vec::new();
        let mut i: usize = 0;
        let ghost all = listing(context.targets.deep_view());
        assert(lines.deep_view() =~= all.take(0));
        while i < context.targets.entries.len()
            invariant
                i <= context.targets.entries.len(),
                all == listing(context.targets.deep_view()),
                all.len() == context.targets.entries@.len(),
                lines.deep_view() == all.take(i as int),
            decreases context.targets.entries.len() - i,
        {
            proof {
                lemma_deep_view_index(context.targets.entries);
            }
            let name = context.targets.entries[i].0.to_string();
            let line = match &context.targets.entries[i].1.target_info().description {
                Some(d) => concat3(name.as_str(), " - ", d.as_str()),
                None => {
                    let l = crate::text::concat(name.as_str(), " - ");
                    assert(l@ =~= name@ + " - "@ + Seq::<char>::empty());
                    l
                },
            };
            let ghost before = lines;
            lines.push(line);
            proof {
                lemma_deep_view_push(before, lines, line);
                assert(line@ =~= all[i as int]);
                assert(all.take(i as int + 1) =~= all.take(i as int).push(all[i as int]));
            }
            i += 1;
        }
        proof {
            lemma_deep_view_index(context.targets.entries);
            assert(all.take(all.len() as int) =~= all);
        }
        Ok(Work::Print(sort_strings(lines)))
    }
}

} // verus!
