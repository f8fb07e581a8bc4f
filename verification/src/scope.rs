//! Hierarchical, idempotent cancellation scopes.  A scope is addressed by
//! identifier inside a `ScopeSet`; cancelling a scope also cancels every
//! scope below it, cancellation is monotonic, and cancelling twice is the
//! same as cancelling once.

use vstd::prelude::*;

verus! {

/// One scope: its parent (if any) and whether it was cancelled directly.
#[derive(Clone, Copy, Debug, PartialEq, Eq)]
pub struct ScopeNode {
    pub parent: Option<usize>,
    pub flagged: bool,
}

/// A forest of cancellation scopes.
#[derive(Debug)]
pub struct ScopeSet {
    nodes: Vec<ScopeNode>,
}

impl View for ScopeSet {
    type V = Seq<ScopeNode>;

    closed spec fn view(&self) -> Seq<ScopeNode> {
        self.nodes@
    }
}

/// Parents precede their children.
pub open spec fn scopes_wf(s: Seq<ScopeNode>) -> bool {
    forall|i: int|
        0 <= i < s.len() ==> match (#[trigger] s[i]).parent {
            Some(p) => p < i,
            None => true,
        }
}

/// A scope is cancelled when it or any scope above it was cancelled.
pub open spec fn spec_cancelled(s: Seq<ScopeNode>, i: int) -> bool
    recommends
        scopes_wf(s),
        0 <= i < s.len(),
    decreases i when 0 <= i < s.len()
{
    s[i].flagged || match s[i].parent {
        Some(p) => if 0 <= p < i {
            spec_cancelled(s, p as int)
        } else {
            false
        },
        None => false,
    }
}

/// The state after cancelling scope `i`.
pub open spec fn spec_cancel(s: Seq<ScopeNode>, i: int) -> Seq<ScopeNode> {
    s.update(i, ScopeNode { parent: s[i].parent, flagged: true })
}

impl ScopeSet {
    pub fn new() -> (r: ScopeSet)
        ensures
            r@ == Seq::<ScopeNode>::empty(),
            scopes_wf(r@),
    {
        ScopeSet { nodes: Vec::new() }
    }

    /// Opens a new root scope and returns its identifier.
    pub fn new_scope(&mut self) -> (id: usize)
        ensures
            final(self)@ == old(self)@.push(ScopeNode { parent: None, flagged: false }),
            id == old(self)@.len(),
            scopes_wf(old(self)@) ==> scopes_wf(final(self)@),
    {
        let id = self.nodes.len();
        self.nodes.push(ScopeNode { parent: None, flagged: false });
        proof {
            if scopes_wf(old(self)@) {
                assert(forall|i: int|
                    0 <= i < old(self)@.len() ==> final(self)@[i] == old(self)@[i]);
            }
        }
        id
    }

    /// Opens a scope below `parent` and returns its identifier.
    pub fn child(&mut self, parent: usize) -> (id: usize)
        requires
            parent < old(self)@.len(),
        ensures
            final(self)@ == old(self)@.push(ScopeNode { parent: Some(parent), flagged: false }),
            id == old(self)@.len(),
            scopes_wf(old(self)@) ==> scopes_wf(final(self)@),
    {
        let id = self.nodes.len();
        self.nodes.push(ScopeNode { parent: Some(parent), flagged: false });
        proof {
            if scopes_wf(old(self)@) {
                assert(forall|i: int|
                    0 <= i < old(self)@.len() ==> final(self)@[i] == old(self)@[i]);
            }
        }
        id
    }

    /// Cancels scope `id`.  Cancelling an already-cancelled scope leaves
    /// the whole set unchanged.
    pub fn cancel(&mut self, id: usize)
        requires
            id < old(self)@.len(),
        ensures
            final(self)@ == spec_cancel(old(self)@, id as int),
            old(self)@[id as int].flagged ==> final(self)@ == old(self)@,
            scopes_wf(old(self)@) ==> scopes_wf(final(self)@),
    {
        let parent = self.nodes[id].parent;
        self.nodes.set(id, ScopeNode { parent, flagged: true });
        proof {
            if old(self)@[id as int].flagged {
                assert(final(self)@ =~= old(self)@);
            }
            if scopes_wf(old(self)@) {
                assert(forall|i: int|
                    0 <= i < final(self)@.len() ==> (#[trigger] final(self)@[i]).parent
                        == old(self)@[i].parent);
            }
        }
    }

    /// Whether scope `id` or any scope above it was cancelled.
    pub fn is_cancelled(&self, id: usize) -> (b: bool)
        requires
            id < self@.len(),
            scopes_wf(self@),
        ensures
            b == spec_cancelled(self@, id as int),
    {
        let mut cur = id;
        loop
            invariant
                cur < self@.len(),
                scopes_wf(self@),
                spec_cancelled(self@, id as int) == spec_cancelled(self@, cur as int),
            decreases cur,
        {
            let node = self.nodes[cur];
            if node.flagged {
                return true;
            }
            match node.parent {
                Some(p) => {
                    cur = p;
                },
                None => {
                    return false;
                },
            }
        }
    }

    /// The number of scopes opened so far.
    pub fn len(&self) -> (n: usize)
        ensures
            n == self@.len(),
    {
        self.nodes.len()
    }
}

/// Cancellation is idempotent: cancelling a scope a second time changes
/// nothing, so it has no further effect on any scope.
pub proof fn lemma_cancel_idempotent(s: Seq<ScopeNode>, i: int)
    requires
        0 <= i < s.len(),
    ensures
        spec_cancel(spec_cancel(s, i), i) == spec_cancel(s, i),
{
    assert(spec_cancel(spec_cancel(s, i), i) =~= spec_cancel(s, i));
}

/// Cancellation is monotonic: cancelling one scope never un-cancels
/// another, and a cancelled scope stays cancelled.
pub proof fn lemma_cancel_monotonic(s: Seq<ScopeNode>, i: int, j: int)
    requires
        scopes_wf(s),
        0 <= i < s.len(),
        0 <= j < s.len(),
        spec_cancelled(s, j),
    ensures
        spec_cancelled(spec_cancel(s, i), j),
    decreases j,
{
    if s[j].flagged {
    } else {
        match s[j].parent {
            Some(p) => {
                lemma_cancel_monotonic(s, i, p as int);
            },
            None => {},
        }
    }
}

/// Cancelling a scope cancels every scope below it.
pub proof fn lemma_cancel_descends(s: Seq<ScopeNode>, i: int, j: int)
    requires
        scopes_wf(s),
        0 <= i < s.len(),
        0 <= j < s.len(),
        spec_reaches(s, j, i),
    ensures
        spec_cancelled(spec_cancel(s, i), j),
    decreases j,
{
    if j == i {
    } else {
        match s[j].parent {
            Some(p) => {
                lemma_cancel_descends(s, i, p as int);
            },
            None => {},
        }
    }
}

/// Scope `j` is scope `i` or lies below it.
pub open spec fn spec_reaches(s: Seq<ScopeNode>, j: int, i: int) -> bool
    recommends
        scopes_wf(s),
        0 <= j < s.len(),
    decreases j when 0 <= j < s.len()
{
    j == i || match s[j].parent {
        Some(p) => if 0 <= p < j {
            spec_reaches(s, p as int, i)
        } else {
            false
        },
        None => false,
    }
}

} // verus!
