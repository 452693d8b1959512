//! The selection set: the catalogue positions the user has marked for a
//! batch action. Membership survives re-filtering and is cleared only by
//! explicit action. The set is kept as a strictly ascending list, so
//! iterating it for a batch action is deterministic and duplicate-free.

use vstd::prelude::*;

verus! {

/// A set of catalogue positions, stored in strictly ascending order.
#[derive(PartialEq, Eq, Debug, Clone)]
pub struct SelSet {
    items: Vec<usize>,
}

/// A position set after one position is toggled.
pub open spec fn toggle_spec(s: Set<usize>, pos: usize) -> Set<usize> {
    if s.contains(pos) {
        s.remove(pos)
    } else {
        s.insert(pos)
    }
}

/// Toggling the same position twice returns the set to its original state.
pub proof fn lemma_toggle_twice(s: Set<usize>, pos: usize)
    ensures
        toggle_spec(toggle_spec(s, pos), pos) =~= s,
{
}

impl SelSet {
    /// The positions as a set.
    pub closed spec fn view(&self) -> Set<usize> {
        self.items@.to_set()
    }

    /// The positions in ascending order.
    pub closed spec fn seq_view(&self) -> Seq<usize> {
        self.items@
    }

    /// The list is strictly ascending (an invariant every method keeps).
    pub closed spec fn wf(&self) -> bool {
        forall|i: int, j: int|
            0 <= i < j < self.items@.len() ==> self.items@[i] < self.items@[j]
    }

    /// An empty selection.
    pub fn new() -> (r: SelSet)
        ensures
            r@ == Set::<usize>::empty(),
            r.wf(),
            r.seq_view() == Seq::<usize>::empty(),
    {
        let r = SelSet { items: Vec::new() };
        proof {
            assert(r.items@.to_set() =~= Set::<usize>::empty());
        }
        r
    }

    /// How many positions are selected.
    pub fn len(&self) -> (r: usize)
        ensures
            r == self.seq_view().len(),
    {
        self.items.len()
    }

    /// Whether nothing is selected.
    pub fn is_empty(&self) -> (r: bool)
        ensures
            r == (self@ =~= Set::<usize>::empty()),
    {
        let r = self.items.len() == 0;
        proof {
            if self.items@.len() == 0 {
                assert(self.items@.to_set() =~= Set::<usize>::empty());
            } else {
                assert(self.items@.to_set().contains(self.items@[0]));
            }
        }
        r
    }

    /// The position at rank `i` of the ascending order.
    pub fn at(&self, i: usize) -> (r: usize)
        requires
            i < self.seq_view().len(),
        ensures
            r == self.seq_view()[i as int],
    {
        self.items[i]
    }

    /// Whether `pos` is selected.
    pub fn contains(&self, pos: usize) -> (r: bool)
        ensures
            r == self@.contains(pos),
    {
        let n = self.items.len();
        let mut i: usize = 0;
        while i < n
            invariant
                n == self.items@.len(),
                0 <= i <= n,
                forall|t: int| 0 <= t < i ==> self.items@[t] != pos,
            decreases n - i,
        {
            if self.items[i] == pos {
                proof {
                    assert(self.items@.contains(pos));
                }
                return true;
            }
            i = i + 1;
        }
        proof {
            if self.items@.to_set().contains(pos) {
                assert(self.items@.contains(pos));
            }
        }
        false
    }

    /// Toggles `pos`: removes it when selected, adds it otherwise.
    pub fn toggle(&mut self, pos: usize)
        requires
            old(self).wf(),
        ensures
            final(self).wf(),
            final(self)@ == toggle_spec(old(self)@, pos),
    {
        let n = self.items.len();
        let mut i: usize = 0;
        while i < n && self.items[i] < pos
            invariant
                n == self.items@.len(),
                0 <= i <= n,
                self.wf(),
                forall|t: int| 0 <= t < i ==> self.items@[t] < pos,
            decreases n - i,
        {
            i = i + 1;
        }
        if i < n && self.items[i] == pos {
            let ghost pre = self.items@;
            self.items.remove(i);
            proof {
                assert(pre.contains(pos));
                assert(self.items@ =~= pre.subrange(0, i as int) + pre.subrange(
                    i + 1,
                    pre.len() as int,
                ));
                assert forall|p: usize| self.items@.to_set().contains(p) <==> (
                pre.to_set().remove(pos).contains(p)) by {
                    lemma_remove_members(pre, self.items@, i as int, pos);
                }
                assert(self.items@.to_set() =~= pre.to_set().remove(pos));
            }
        } else {
            let ghost pre = self.items@;
            self.items.insert(i, pos);
            proof {
                assert(self.items@ =~= pre.subrange(0, i as int) + seq![pos] + pre.subrange(
                    i as int,
                    pre.len() as int,
                ));
                assert(!pre.to_set().contains(pos)) by {
                    if pre.to_set().contains(pos) {
                        let t = choose|t: int| 0 <= t < pre.len() && pre[t] == pos;
                        assert(t >= i);
                        if i < pre.len() {
                            assert(pre[i as int] > pos || pre[i as int] == pos);
                            if t > i {
                                assert(pre[i as int] < pre[t]);
                            }
                        }
                    }
                }
                assert forall|p: usize| self.items@.to_set().contains(p) <==> (
                pre.to_set().insert(pos).contains(p)) by {
                    lemma_insert_members(pre, self.items@, i as int, pos);
                }
                assert(self.items@.to_set() =~= pre.to_set().insert(pos));
                assert forall|a: int, b: int|
                    0 <= a < b < self.items@.len() implies self.items@[a] < self.items@[b] by {
                    if i < pre.len() {
                        assert(pre[i as int] != pos);
                        assert(pre[i as int] > pos);
                    }
                }
            }
        }
    }

    /// Clears the selection.
    pub fn clear(&mut self)
        ensures
            final(self)@ == Set::<usize>::empty(),
            final(self).wf(),
            final(self).seq_view() == Seq::<usize>::empty(),
    {
        self.items.clear();
        proof {
            assert(self.items@.to_set() =~= Set::<usize>::empty());
        }
    }
}

proof fn lemma_remove_members(pre: Seq<usize>, post: Seq<usize>, i: int, pos: usize)
    requires
        0 <= i < pre.len(),
        pre[i] == pos,
        forall|a: int, b: int| 0 <= a < b < pre.len() ==> pre[a] < pre[b],
        post == pre.subrange(0, i) + pre.subrange(i + 1, pre.len() as int),
    ensures
        forall|p: usize| post.to_set().contains(p) <==> pre.to_set().remove(pos).contains(p),
{
    assert forall|p: usize| post.to_set().contains(p) implies pre.to_set().remove(pos).contains(
        p,
    ) by {
        let t = choose|t: int| 0 <= t < post.len() && post[t] == p;
        if t < i {
            assert(pre[t] == p);
            assert(pre.to_set().contains(p));
            assert(pre[t] < pre[i]);
        } else {
            assert(pre[t + 1] == p);
            assert(pre.to_set().contains(p));
            assert(pre[i] < pre[t + 1]);
        }
    }
    assert forall|p: usize| pre.to_set().remove(pos).contains(p) implies post.to_set().contains(
        p,
    ) by {
        let t = choose|t: int| 0 <= t < pre.len() && pre[t] == p;
        assert(t != i);
        if t < i {
            assert(post[t] == p);
        } else {
            assert(post[t - 1] == p);
        }
        assert(post.contains(p));
    }
}

proof fn lemma_insert_members(pre: Seq<usize>, post: Seq<usize>, i: int, pos: usize)
    requires
        0 <= i <= pre.len(),
        post == pre.subrange(0, i) + seq![pos] + pre.subrange(i, pre.len() as int),
    ensures
        forall|p: usize| post.to_set().contains(p) <==> pre.to_set().insert(pos).contains(p),
{
    assert forall|p: usize| post.to_set().contains(p) implies pre.to_set().insert(pos).contains(
        p,
    ) by {
        let t = choose|t: int| 0 <= t < post.len() && post[t] == p;
        if t < i {
            assert(pre[t] == p);
            assert(pre.contains(p));
        } else if t > i {
            assert(pre[t - 1] == p);
            assert(pre.contains(p));
        }
    }
    assert forall|p: usize| pre.to_set().insert(pos).contains(p) implies post.to_set().contains(
        p,
    ) by {
        if p == pos {
            assert(post[i] == p);
            assert(post.contains(p));
        } else {
            let t = choose|t: int| 0 <= t < pre.len() && pre[t] == p;
            if t < i {
                assert(post[t] == p);
            } else {
                assert(post[t + 1] == p);
            }
            assert(post.contains(p));
        }
    }
}

} // verus!
