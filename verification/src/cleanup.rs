//! What must be undone when the invocation is interrupted.
//!
//! The stack holds commands, each under a name. Who sets something up
//! pushes the command that takes it down, and pops it once it has taken it
//! down itself. On an interrupt the stack is drained: the commands come off
//! last in, first out, each once, and are run by the caller.
use vstd::prelude::*;
use crate::text::{lemma_deep_view_index, lemma_deep_view_push};

verus! {

/// The model of the stack: names and commands, the oldest first.
pub type CleanupsView = Seq<(Seq<char>, Seq<char>)>;

/// The stack of deferred commands.
#[derive(Debug)]
pub struct CleanupManager {
    pub cleanups: Vec<(String, String)>,
}

impl DeepView for CleanupManager {
    type V = CleanupsView;

    open spec fn deep_view(&self) -> CleanupsView {
        self.cleanups.deep_view()
    }
}

impl Default for CleanupManager {
    fn default() -> (r: Self)
        ensures
            r.deep_view() == Seq::<(Seq<char>, Seq<char>)>::empty(),
    {
        CleanupManager::new()
    }
}

impl CleanupManager {
    /// The empty stack.
    pub fn new() -> (r: Self)
        ensures
            r.deep_view() == Seq::<(Seq<char>, Seq<char>)>::empty(),
    {
        let r = CleanupManager { cleanups: Vec::new() };
        assert(r.deep_view() =~= Seq::<(Seq<char>, Seq<char>)>::empty());
        r
    }

    /// Puts the command `cleanup` on the stack under `name`.
    pub fn push_cleanup(&mut self, name: String, cleanup: String)
        ensures
            final(self).deep_view() == old(self).deep_view().push((name@, cleanup@)),
    {
        let ghost before = self.cleanups;
        let entry = (name, cleanup);
        self.cleanups.push(entry);
        proof {
            lemma_deep_view_push(before, self.cleanups, entry);
        }
    }

    /// Takes the newest command off the stack, if there is one.
    pub fn pop_cleanup(&mut self)
        ensures
            final(self).deep_view() == if old(self).deep_view().len() == 0 {
                old(self).deep_view()
            } else {
                old(self).deep_view().drop_last()
            },
    {
        proof {
            lemma_deep_view_index(self.cleanups);
        }
        let ghost before = self.cleanups;
        let _ = self.cleanups.pop();
        proof {
            lemma_deep_view_index(self.cleanups);
            if before@.len() > 0 {
                assert(self.deep_view() =~= before.deep_view().drop_last());
            } else {
                assert(self.deep_view() =~= before.deep_view());
            }
        }
    }

    /// Drains the stack: the commands to run, the newest first. Each command
    /// that was on the stack comes out once, and the stack is empty after.
    pub fn run_cleanups(&mut self) -> (r: Vec<(String, String)>)
        ensures
            final(self).deep_view() == Seq::<(Seq<char>, Seq<char>)>::empty(),
            r.deep_view() == old(self).deep_view().reverse(),
    {
        let mut out: Vec<(String, String)> = Vec::new();
        let ghost all = self.cleanups.deep_view();
        proof {
            lemma_deep_view_index(self.cleanups);
            assert(out.deep_view() =~= all.subrange(all.len() as int, all.len() as int).reverse());
            assert(self.cleanups.deep_view() =~= all.subrange(0, all.len() as int));
        }
        while self.cleanups.len() > 0
            invariant
                self.cleanups@.len() <= all.len(),
                self.cleanups.deep_view() == all.subrange(0, self.cleanups@.len() as int),
                out.deep_view() == all.subrange(
                    self.cleanups@.len() as int,
                    all.len() as int,
                ).reverse(),
            decreases self.cleanups@.len(),
        {
            let ghost before = self.cleanups;
            let ghost before_out = out;
            proof {
                lemma_deep_view_index(self.cleanups);
            }
            let entry = self.cleanups.pop().unwrap();
            out.push(entry);
            proof {
                lemma_deep_view_index(self.cleanups);
                lemma_deep_view_push(before_out, out, entry);
                let n = self.cleanups@.len() as int;
                lemma_deep_view_index(before);
                assert(before.deep_view()[n] == all.subrange(0, n + 1)[n]);
                assert(entry == before@[n]);
                assert(self.cleanups.deep_view() =~= all.subrange(0, n));
                assert(entry.0@ == all[n].0 && entry.1@ == all[n].1);
                assert(all.subrange(n, all.len() as int).reverse() =~= all.subrange(
                    n + 1,
                    all.len() as int,
                ).reverse().push(all[n]));
            }
        }
        proof {
            assert(all.subrange(0, all.len() as int) =~= all);
            assert(self.deep_view() =~= Seq::<(Seq<char>, Seq<char>)>::empty());
        }
        out
    }
}

} // verus!
