//! A binary tree read in order, into which elements are placed before or
//! after a node.
use vstd::prelude::*;

verus! {

#[derive(Debug)]
pub struct Tree<T> {
    elem: T,
    left: Option<Box<Tree<T>>>,
    right: Option<Box<Tree<T>>>,
}

pub closed spec fn side_view<T>(t: Option<Box<Tree<T>>>) -> Seq<T>
    decreases t,
{
    match t {
        Some(b) => side_view(b.left) + seq![b.elem] + side_view(b.right),
        None => seq![],
    }
}

impl<T> View for Tree<T> {
    type V = Seq<T>;

    /// The elements in order: left subtree, this node, right subtree.
    closed spec fn view(&self) -> Seq<T> {
        side_view(self.left) + seq![self.elem] + side_view(self.right)
    }
}

impl<T> Tree<T> {
    pub closed spec fn left_view(&self) -> Seq<T> {
        side_view(self.left)
    }

    pub closed spec fn node(&self) -> T {
        self.elem
    }

    pub closed spec fn right_view(&self) -> Seq<T> {
        side_view(self.right)
    }

    pub proof fn lemma_parts(&self)
        ensures
            self@ == self.left_view() + seq![self.node()] + self.right_view(),
    {
    }

    pub fn new(elem: T) -> (r: Tree<T>)
        ensures
            r@ == seq![elem],
            r.left_view() == Seq::<T>::empty(),
            r.right_view() == Seq::<T>::empty(),
    {
        let r = Tree { elem, left: None, right: None };
        assert(r@ =~= seq![elem]);
        r
    }

    pub fn add(elem: T) -> (r: Box<Tree<T>>)
        ensures
            r@ == seq![elem],
            r.left_view() == Seq::<T>::empty(),
            r.right_view() == Seq::<T>::empty(),
    {
        Box::new(Tree::new(elem))
    }

    /// Places `elem` first of all; the returned node holds it alone, and
    /// whatever it grows into stands before the rest.
    pub fn insert_before(&mut self, elem: T) -> (r: &mut Tree<T>)
        ensures
            r@ == seq![elem],
            r.left_view() == Seq::<T>::empty(),
            r.right_view() == Seq::<T>::empty(),
            final(self)@ == final(r)@ + old(self)@,
        decreases old(self)@.len(),
    {
        if self.left.is_none() {
            let b = self.left.insert(Tree::add(elem));
            &mut **b
        } else {
            let b = self.left.as_mut().unwrap();
            (**b).insert_before(elem)
        }
    }

    /// Places `elem` last of all.
    pub fn insert_after(&mut self, elem: T) -> (r: &mut Tree<T>)
        ensures
            r@ == seq![elem],
            r.left_view() == Seq::<T>::empty(),
            r.right_view() == Seq::<T>::empty(),
            final(self)@ == old(self)@ + final(r)@,
        decreases old(self)@.len(),
    {
        if self.right.is_none() {
            let b = self.right.insert(Tree::add(elem));
            &mut **b
        } else {
            let b = self.right.as_mut().unwrap();
            (**b).insert_after(elem)
        }
    }

    /// Places `elem` just before this node.
    pub fn insert_just_before(&mut self, elem: T) -> (r: &mut Tree<T>)
        ensures
            r@ == seq![elem],
            r.left_view() == Seq::<T>::empty(),
            r.right_view() == Seq::<T>::empty(),
            final(self).node() == old(self).node(),
            final(self)@ == old(self).left_view() + final(r)@ + seq![old(self).node()]
                + old(self).right_view(),
    {
        if self.left.is_none() {
            let b = self.left.insert(Tree::add(elem));
            &mut **b
        } else {
            let b = self.left.as_mut().unwrap();
            (**b).insert_after(elem)
        }
    }

    /// Places `elem` just after this node.
    pub fn insert_just_after(&mut self, elem: T) -> (r: &mut Tree<T>)
        ensures
            r@ == seq![elem],
            r.left_view() == Seq::<T>::empty(),
            r.right_view() == Seq::<T>::empty(),
            final(self).node() == old(self).node(),
            final(self)@ == old(self).left_view() + seq![old(self).node()] + final(r)@
                + old(self).right_view(),
    {
        if self.right.is_none() {
            let b = self.right.insert(Tree::add(elem));
            &mut **b
        } else {
            let b = self.right.as_mut().unwrap();
            (**b).insert_before(elem)
        }
    }
}

impl<T: Clone> Tree<T> {
    /// Appends a copy of each element, in order.
    pub fn traverse(&self, out: &mut Vec<T>)
        ensures
            final(out)@.len() == old(out)@.len() + self@.len(),
            forall|i: int| 0 <= i < old(out)@.len() ==> final(out)@[i] == old(out)@[i],
            forall|i: int|
                0 <= i < self@.len() ==> cloned(self@[i], #[trigger] final(out)@[old(out)@.len() + i]),
        decreases self,
    {
        let ghost o = out@;
        match &self.left {
            Some(l) => l.traverse(out),
            None => {},
        }
        let ghost o1 = out@;
        out.push(self.elem.clone());
        let ghost o2 = out@;
        match &self.right {
            Some(r) => r.traverse(out),
            None => {},
        }
        proof {
            let lv = side_view(self.left);
            let rv = side_view(self.right);
            assert(self@ == lv + seq![self.elem] + rv);
            assert(o1.len() == o.len() + lv.len());
            assert forall|i: int| 0 <= i < self@.len() implies cloned(self@[i], #[trigger] out@[o.len() + i]) by {
                if i < lv.len() {
                    assert(self@[i] == lv[i]);
                    assert(out@[o.len() + i] == o1[o.len() + i]);
                } else if i == lv.len() {
                    assert(out@[o.len() + i] == o2[o1.len() as int]);
                } else {
                    assert(self@[i] == rv[i - lv.len() - 1]);
                    assert(o.len() + i == o2.len() + (i - lv.len() - 1));
                }
            }
        }
    }

    /// A copy of each element, in order.
    pub fn collect(&self) -> (r: Vec<T>)
        ensures
            r@.len() == self@.len(),
            forall|i: int| 0 <= i < self@.len() ==> cloned(self@[i], #[trigger] r@[i]),
    {
        let mut out: Vec<T> = Vec::new();
        self.traverse(&mut out);
        assert forall|i: int| 0 <= i < self@.len() implies cloned(self@[i], #[trigger] out@[i]) by {
            assert(out@[0 + i] == out@[i]);
        }
        out
    }
}

} // verus!
