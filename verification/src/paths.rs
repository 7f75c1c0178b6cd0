//! The path model of the pipeline.
//!
//! Every file or directory the pipeline reasons about is a sequence of plain
//! name components from some anchor (the filesystem root or the working
//! directory).  The host driver converts between this model and its native
//! path type; inside the library a path is nothing but its components, so
//! prefix tests, joins and relativization are ordinary verified code.

use vstd::prelude::*;

verus! {

/// A filesystem path as a sequence of name components.
#[derive(Debug)]
pub struct PathSteps {
    pub steps: Vec<String>,
}

/// `p` names `q` itself or a directory above `q`.
pub open spec fn is_path_prefix(p: Seq<Seq<char>>, q: Seq<Seq<char>>) -> bool {
    p.len() <= q.len() && q.take(p.len() as int) == p
}

impl View for PathSteps {
    type V = Seq<Seq<char>>;

    open spec fn view(&self) -> Seq<Seq<char>> {
        self.steps.deep_view()
    }
}

impl Clone for PathSteps {
    fn clone(&self) -> (r: Self)
        ensures
            r@ == self@,
    {
        let mut copied: Vec<String> = Vec::new();
        let mut i: usize = 0;
        while i < self.steps.len()
            invariant
                i <= self.steps.len(),
                copied.deep_view() == self.steps.deep_view().take(i as int),
            decreases self.steps.len() - i,
        {
            let ghost pre = copied.deep_view();
            copied.push(self.steps[i].clone());
            proof {
                assert(copied.deep_view() =~= pre.push(self.steps.deep_view()[i as int]));
                assert(copied.deep_view() =~= self.steps.deep_view().take((i + 1) as int));
            }
            i = i + 1;
        }
        proof {
            assert(copied.deep_view() =~= self.steps.deep_view());
        }
        PathSteps { steps: copied }
    }
}

impl PathSteps {
    /// The path with no components: the anchor itself.
    pub fn empty() -> (r: Self)
        ensures
            r@ == Seq::<Seq<char>>::empty(),
    {
        let r = PathSteps { steps: Vec::new() };
        proof {
            assert(r@ =~= Seq::<Seq<char>>::empty());
        }
        r
    }

    pub fn from_steps(steps: Vec<String>) -> (r: Self)
        ensures
            r@ == steps.deep_view(),
    {
        PathSteps { steps }
    }

    pub fn push_step(&mut self, s: String)
        ensures
            final(self)@ == old(self)@.push(s@),
    {
        let ghost before = self@;
        self.steps.push(s);
        proof {
            assert(self@ =~= before.push(s@));
        }
    }

    /// The path that names `rel` resolved under `self`.
    pub fn join(&self, rel: &PathSteps) -> (r: Self)
        ensures
            r@ == self@ + rel@,
    {
        let mut joined = self.clone();
        let mut i: usize = 0;
        while i < rel.steps.len()
            invariant
                i <= rel.steps.len(),
                joined@ == self@ + rel@.take(i as int),
            decreases rel.steps.len() - i,
        {
            let ghost before = joined@;
            joined.steps.push(rel.steps[i].clone());
            proof {
                assert(joined@ =~= before.push(rel@[i as int]));
                assert(joined@ =~= self@ + rel@.take(i + 1 as int));
            }
            i = i + 1;
        }
        proof {
            assert(rel@.take(rel@.len() as int) =~= rel@);
        }
        joined
    }

    /// The directory above `self`, or `None` at the anchor.
    pub fn parent(&self) -> (r: Option<Self>)
        ensures
            match r {
                Option::Some(p) => self@.len() > 0 && p@ == self@.drop_last(),
                Option::None => self@.len() == 0,
            },
    {
        if self.steps.len() == 0 {
            Option::None
        } else {
            let mut p = self.clone();
            let ghost before = p@;
            p.steps.pop();
            proof {
                assert(p@ =~= before.drop_last());
            }
            Option::Some(p)
        }
    }

    /// Whether `prefix` names `self` itself or a directory above it.
    pub fn starts_with(&self, prefix: &PathSteps) -> (r: bool)
        ensures
            r == is_path_prefix(prefix@, self@),
    {
        if prefix.steps.len() > self.steps.len() {
            return false;
        }
        let mut i: usize = 0;
        while i < prefix.steps.len()
            invariant
                i <= prefix.steps.len() <= self.steps.len(),
                forall|j: int| 0 <= j < i ==> self@[j] == prefix@[j],
            decreases prefix.steps.len() - i,
        {
            if !self.steps[i].eq(&prefix.steps[i]) {
                proof {
                    assert(self@.take(prefix@.len() as int)[i as int] != prefix@[i as int]);
                }
                return false;
            }
            i = i + 1;
        }
        proof {
            assert(self@.take(prefix@.len() as int) =~= prefix@);
        }
        true
    }

    /// `self` relative to `root`: the components left after the prefix, or
    /// `None` when `self` does not lie under `root`.
    pub fn strip_prefix(&self, root: &PathSteps) -> (r: Option<Self>)
        ensures
            match r {
                Option::Some(rel) => is_path_prefix(root@, self@) && rel@ == self@.skip(
                    root@.len() as int,
                ),
                Option::None => !is_path_prefix(root@, self@),
            },
    {
        if !self.starts_with(root) {
            return Option::None;
        }
        let mut rest: Vec<String> = Vec::new();
        let mut i: usize = root.steps.len();
        while i < self.steps.len()
            invariant
                root.steps.len() <= i <= self.steps.len(),
                rest.deep_view() == self@.subrange(root@.len() as int, i as int),
            decreases self.steps.len() - i,
        {
            let ghost pre = rest.deep_view();
            rest.push(self.steps[i].clone());
            proof {
                assert(rest.deep_view() =~= pre.push(self@[i as int]));
                assert(rest.deep_view() =~= self@.subrange(root@.len() as int, (i + 1) as int));
            }
            i = i + 1;
        }
        proof {
            assert(rest.deep_view() =~= self@.skip(root@.len() as int));
        }
        Option::Some(PathSteps { steps: rest })
    }

    /// Component-wise equality of two paths.
    pub fn path_eq(&self, other: &PathSteps) -> (r: bool)
        ensures
            r == (self@ == other@),
    {
        if self.steps.len() != other.steps.len() {
            proof {
                assert(self@.len() != other@.len());
            }
            return false;
        }
        let answer = self.starts_with(other);
        proof {
            assert(self@.take(other@.len() as int) =~= self@);
        }
        answer
    }
}

/// A write under a sandbox directory can never land under the original
/// package root, as long as neither directory lies under the other.  This is
/// the isolation fact behind every mutant materialization: the host acquires
/// a fresh temporary directory disjoint from the checkout, and every path the
/// sandbox plan tells it to touch extends that directory.
pub proof fn lemma_disjoint_dirs_isolate(
    root: Seq<Seq<char>>,
    sandbox: Seq<Seq<char>>,
    rel: Seq<Seq<char>>,
)
    requires
        !is_path_prefix(root, sandbox),
        !is_path_prefix(sandbox, root),
    ensures
        !is_path_prefix(root, sandbox + rel),
{
    if is_path_prefix(root, sandbox + rel) {
        if root.len() <= sandbox.len() {
            assert(sandbox.take(root.len() as int) =~= (sandbox + rel).take(root.len() as int));
            assert(is_path_prefix(root, sandbox));
        } else {
            assert(root.take(sandbox.len() as int) =~= (sandbox + rel).take(root.len() as int).take(
                sandbox.len() as int,
            ));
            assert((sandbox + rel).take(root.len() as int).take(sandbox.len() as int) =~= (sandbox
                + rel).take(sandbox.len() as int));
            assert((sandbox + rel).take(sandbox.len() as int) =~= sandbox);
            assert(is_path_prefix(sandbox, root));
        }
    }
}

} // verus!
