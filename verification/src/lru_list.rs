//! A least-recently-used ordering over slots that never move: each pushed item
//! keeps its index for good, and the list records, from most to least
//! recently used, the order in which the indices were last touched.
use vstd::prelude::*;

verus! {

struct LruListNode<T> {
    data: T,
    next_index: Option<usize>,
    prev_index: Option<usize>,
}

/// Items in stable slots, linked from the most recently used (head) to the
/// least recently used (tail).
pub struct LruList<T> {
    nodes: Vec<LruListNode<T>>,
    head_index: Option<usize>,
    tail_index: Option<usize>,
    order: Ghost<Seq<usize>>,
}

/// `order` lists each of the indices `0..n` exactly once.
pub open spec fn is_permutation_of_indices(order: Seq<usize>, n: nat) -> bool {
    &&& order.len() == n
    &&& forall|p: int| 0 <= p < order.len() ==> (#[trigger] order[p]) < n
    &&& forall|p: int, q: int| 0 <= p < order.len() && 0 <= q < order.len() && p != q ==> order[p] != order[q]
    &&& forall|i: usize| i < n ==> #[trigger] order.contains(i)
}

/// `order` after index `i` was moved to its front.
pub open spec fn move_to_front(order: Seq<usize>, i: usize) -> Seq<usize> {
    seq![i] + order.remove(order.index_of(i))
}

/// Moving an index to the front keeps a permutation, puts that index first,
/// and, when there are at least two indices, takes it away from the back.
pub proof fn lemma_promoted_is_not_oldest(order: Seq<usize>, n: nat, i: usize)
    requires
        is_permutation_of_indices(order, n),
        i < n,
    ensures
        is_permutation_of_indices(move_to_front(order, i), n),
        move_to_front(order, i)[0] == i,
        n > 1 ==> move_to_front(order, i).last() != i,
{
    assert(order.contains(i));
    let pos = order.index_of(i);
    let m = move_to_front(order, i);
    assert(m.len() == n);
    assert forall|q: int| 0 <= q < n implies #[trigger] m[q] == (if q == 0 { i } else if q <= pos { order[q - 1] } else { order[q] }) by {}
    assert forall|p: int| 0 <= p < m.len() implies (#[trigger] m[p]) < n by {}
    assert forall|p: int, q: int| 0 <= p < m.len() && 0 <= q < m.len() && p != q implies m[p] != m[q] by {}
    assert forall|j: usize| j < n implies #[trigger] m.contains(j) by {
        assert(order.contains(j));
        let p = order.index_of(j);
        if p == pos {
            assert(m[0] == j);
        } else if p < pos {
            assert(m[p + 1] == j);
        } else {
            assert(m[p] == j);
        }
    }
    if n > 1 {
        assert(m[n - 1] != m[0]);
    }
}

impl<T> LruList<T> {
    /// The indices from most recently used to least recently used.
    pub closed spec fn order(&self) -> Seq<usize> {
        self.order@
    }

    /// The item stored in each slot.
    pub closed spec fn items(&self) -> Seq<T> {
        self.nodes@.map_values(|n: LruListNode<T>| n.data)
    }

    /// The links agree with the recorded order.
    pub closed spec fn wf(&self) -> bool {
        let order = self.order@;
        let n = self.nodes@.len();
        &&& is_permutation_of_indices(order, n)
        &&& self.head_index == (if n == 0 { None } else { Some(order[0]) })
        &&& self.tail_index == (if n == 0 { None } else { Some(order[n - 1]) })
        &&& forall|p: int| #![trigger order[p]] 0 <= p < n ==> {
            &&& self.nodes@[order[p] as int].prev_index == (if p == 0 { None } else { Some(order[p - 1]) })
            &&& self.nodes@[order[p] as int].next_index == (if p == n - 1 { None } else { Some(order[p + 1]) })
        }
    }

    /// The recorded order lists every slot exactly once, and the slots can be
    /// counted in a `usize`.
    pub proof fn lemma_order_is_permutation(&self)
        requires
            self.wf(),
        ensures
            is_permutation_of_indices(self.order(), self.items().len()),
            self.items().len() <= usize::MAX,
    {
        assert(self.nodes.len() == self.nodes@.len());
    }

    /// An empty list.
    pub fn new() -> (r: Self)
        ensures
            r.wf(),
            r.items() == Seq::<T>::empty(),
            r.order() == Seq::<usize>::empty(),
    {
        let r = LruList { nodes: Vec::new(), head_index: None, tail_index: None, order: Ghost(Seq::empty()) };
        proof {
            assert(r.items() =~= Seq::<T>::empty());
        }
        r
    }

    /// An empty list with room for `initial_capacity` items.
    pub fn with_capacity(initial_capacity: usize) -> (r: Self)
        ensures
            r.wf(),
            r.items() == Seq::<T>::empty(),
            r.order() == Seq::<usize>::empty(),
    {
        let r = LruList {
            nodes: Vec::with_capacity(initial_capacity),
            head_index: None,
            tail_index: None,
            order: Ghost(Seq::empty()),
        };
        proof {
            assert(r.items() =~= Seq::<T>::empty());
        }
        r
    }

    /// The number of items.
    pub fn len(&self) -> (r: usize)
        ensures
            r == self.items().len(),
    {
        self.nodes.len()
    }

    /// Marks `index` as the most recently used; false where it already was.
    pub fn promote(&mut self, index: usize) -> (r: bool)
        requires
            old(self).wf(),
            index < old(self).items().len(),
        ensures
            final(self).wf(),
            final(self).items() == old(self).items(),
            r == (old(self).order()[0] != index),
            final(self).order() == move_to_front(old(self).order(), index),
    {
        let ghost order = self.order@;
        let ghost n = self.nodes@.len() as int;
        proof {
            assert(order.contains(index));
        }
        let ghost pos = order.index_of(index);
        if Some(index) == self.head_index {
            proof {
                assert(pos == 0);
                assert(move_to_front(order, index) =~= order);
            }
            return false;
        }
        let ghost old_nodes = self.nodes@;
        let ghost items0 = self.items();
        proof {
            assert(pos > 0);
            assert(old_nodes[index as int].prev_index == Some(order[pos - 1]));
        }
        let prev_of_index = self.nodes[index].prev_index;
        let next_of_index = self.nodes[index].next_index;
        let head = self.head_index;
        // splice the neighbours of `index` together
        if let Some(prev_index) = prev_of_index {
            self.nodes[prev_index].next_index = next_of_index;
        }
        if let Some(next_index) = next_of_index {
            self.nodes[next_index].prev_index = prev_of_index;
        }
        // connect to the head
        self.nodes[index].next_index = head;
        if let Some(head_index) = head {
            self.nodes[head_index].prev_index = Some(index);
        }
        self.head_index = Some(index);
        // disconnect from the tail
        if self.tail_index == Some(index) {
            self.tail_index = prev_of_index;
        }
        self.nodes[index].prev_index = None;
        let ghost new_order = seq![index] + order.remove(pos);
        self.order = Ghost(new_order);
        proof {
            assert(new_order.len() == n);
            assert forall|q: int| 0 <= q < n implies #[trigger] new_order[q] == (if q == 0 { index } else if q <= pos { order[q - 1] } else { order[q] }) by {}
            assert forall|p: int| 0 <= p < new_order.len() implies (#[trigger] new_order[p]) < n by {}
            assert forall|p: int, q: int| 0 <= p < new_order.len() && 0 <= q < new_order.len() && p != q
                implies new_order[p] != new_order[q] by {}
            assert forall|i: usize| i < n implies #[trigger] new_order.contains(i) by {
                assert(order.contains(i));
                let p = order.index_of(i);
                if p == pos {
                    assert(new_order[0] == i);
                } else if p < pos {
                    assert(new_order[p + 1] == i);
                } else {
                    assert(new_order[p] == i);
                }
            }
            assert(self.items() =~= items0);
        }
        true
    }

    /// A mutable reference to the item in slot `index`.
    pub fn get_mut_data(&mut self, index: usize) -> (r: &mut T)
        requires
            index < old(self).items().len(),
        ensures
            *r == old(self).items()[index as int],
            final(self).items() == old(self).items().update(index as int, *final(r)),
            final(self).order() == old(self).order(),
            old(self).wf() ==> final(self).wf(),
    {
        &mut self.nodes[index].data
    }

    /// The item in slot `index`.
    pub fn get_data(&self, index: usize) -> (r: &T)
        requires
            index < self.items().len(),
        ensures
            *r == self.items()[index as int],
    {
        &self.nodes[index].data
    }

    /// The least recently used index, or `None` for an empty list.
    pub fn get_oldest(&self) -> (r: Option<usize>)
        requires
            self.wf(),
        ensures
            r == (if self.order().len() == 0 { None } else { Some(self.order().last()) }),
    {
        self.tail_index
    }

    /// Stores a copy of `data` in a new slot, marks it most recently used and
    /// returns its index.
    pub fn push(&mut self, data: &T) -> (r: usize)
        where T: Copy
        requires
            old(self).wf(),
        ensures
            final(self).wf(),
            r == old(self).items().len(),
            final(self).items() == old(self).items().push(*data),
            final(self).order() == seq![r] + old(self).order(),
    {
        let ghost order = self.order@;
        let ghost items0 = self.items();
        let index = self.nodes.len();
        let head = self.head_index;
        self.nodes.push(LruListNode { data: *data, prev_index: None, next_index: head });
        if let Some(head_index) = head {
            self.nodes[head_index].prev_index = Some(index);
        }
        self.head_index = Some(index);
        if self.tail_index.is_none() {
            self.tail_index = Some(index);
        }
        let ghost new_order = seq![index] + order;
        self.order = Ghost(new_order);
        proof {
            let n = index as int;
            assert forall|q: int| 0 <= q < n + 1 implies #[trigger] new_order[q] == (if q == 0 { index } else { order[q - 1] }) by {}
            assert forall|i: usize| i < n + 1 implies #[trigger] new_order.contains(i) by {
                if i == index {
                    assert(new_order[0] == i);
                } else {
                    assert(order.contains(i));
                    let p = order.index_of(i);
                    assert(new_order[p + 1] == i);
                }
            }
            assert forall|p: int| 0 <= p < new_order.len() implies (#[trigger] new_order[p]) < n + 1 by {}
            assert(self.items() =~= items0.push(*data));
        }
        index
    }
}

} // verus!
