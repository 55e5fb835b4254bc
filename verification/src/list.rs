//! Ordered lists of kernel objects (`LOS_DL_LIST`).
//!
//! A LiteOS-M list is a circular doubly linked list threaded through the
//! objects it holds and closed by a sentinel head.  Here a list is the
//! sequence of the ids of its members, first to last, so that the order the
//! links give is kept and no link can dangle.
use vstd::prelude::*;

verus! {

/// A list head: the ids of the members, in link order from the head.
pub struct LOS_DL_LIST {
    items: Vec<u32>,
}

impl View for LOS_DL_LIST {
    type V = Seq<u32>;

    closed spec fn view(&self) -> Seq<u32> {
        self.items@
    }
}

/// A list head that links nothing.
pub fn empty_list_node() -> (r: LOS_DL_LIST)
    ensures
        r@ == Seq::<u32>::empty(),
{
    LOS_DL_LIST { items: Vec::new() }
}

impl LOS_DL_LIST {
    /// Makes the list empty (`LOS_ListInit`).
    pub fn LOS_ListInit(&mut self)
        ensures
            final(self)@ == Seq::<u32>::empty(),
    {
        self.items.clear();
    }

    /// Whether the list has no member (`LOS_ListEmpty`).
    pub fn LOS_ListEmpty(&self) -> (r: bool)
        ensures
            r <==> self@.len() == 0,
    {
        self.items.len() == 0
    }

    /// Number of members.
    pub fn len(&self) -> (r: usize)
        ensures
            r == self@.len(),
    {
        self.items.len()
    }

    /// The member at position `i` from the head.
    pub fn get(&self, i: usize) -> (r: u32)
        requires
            i < self@.len(),
        ensures
            r == self@[i as int],
    {
        self.items[i]
    }

    /// The first member, if any (`LOS_DL_LIST_FIRST`).
    pub fn LOS_DL_LIST_FIRST(&self) -> (r: Option<u32>)
        ensures
            self@.len() == 0 ==> r is None,
            self@.len() > 0 ==> r == Some(self@[0]),
    {
        if self.items.len() == 0 {
            None
        } else {
            Some(self.items[0])
        }
    }

    /// Links `node` right after the head (`LOS_ListAdd` on the head).
    pub fn LOS_ListAdd(&mut self, node: u32)
        ensures
            final(self)@ == seq![node] + old(self)@,
    {
        self.items.insert(0, node);
        proof {
            assert(self@ =~= seq![node] + old(self)@);
        }
    }

    /// Links `node` right before the head, as the last member
    /// (`LOS_ListTailInsert`).
    pub fn LOS_ListTailInsert(&mut self, node: u32)
        ensures
            final(self)@ == old(self)@.push(node),
    {
        self.items.push(node);
    }

    /// Position of the first occurrence of `node`, if it is a member.
    pub fn find(&self, node: u32) -> (r: Option<usize>)
        ensures
            match r {
                Some(i) => i < self@.len() && self@[i as int] == node && forall|j: int|
                    0 <= j < i ==> self@[j] != node,
                None => !self@.contains(node),
            },
    {
        let mut i: usize = 0;
        while i < self.items.len()
            invariant
                i <= self@.len(),
                forall|j: int| 0 <= j < i ==> self@[j] != node,
            decreases self@.len() - i,
        {
            if self.items[i] == node {
                return Some(i);
            }
            i = i + 1;
        }
        None
    }

    /// Unlinks `node` from the list (`LOS_ListDelete`); the list is
    /// unchanged when `node` is not a member.
    pub fn LOS_ListDelete(&mut self, node: u32)
        ensures
            final(self)@ == old(self)@.remove_value(node),
    {
        match self.find(node) {
            Some(i) => {
                proof {
                    let s = old(self)@;
                    assert(s.index_of_first(node) == Some(i as int)) by {
                        s.index_of_first_ensures(node);
                    }
                }
                self.items.remove(i);
            },
            None => {
                proof {
                    old(self)@.index_of_first_ensures(node);
                }
            },
        }
    }
}


/// Unlinking the first member of a list leaves the members after it.
pub proof fn lemma_remove_first(s: Seq<u32>)
    requires
        s.len() > 0,
    ensures
        s.remove_value(s[0]) == s.subrange(1, s.len() as int),
{
    s.index_of_first_ensures(s[0]);
    assert(s.remove_value(s[0]) =~= s.subrange(1, s.len() as int));
}

} // verus!
