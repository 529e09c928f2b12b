//! A tree node that keeps at most one child.
use vstd::prelude::*;

verus! {

/// A node holding an item and at most one child node.
#[derive(Debug)]
pub struct TreeNode<T> {
    /// The item held by this node.
    pub item: T,
    /// The child node, if any.
    pub child: Option<Box<TreeNode<T>>>,
}

impl<T> TreeNode<T> {
    /// How many nodes hang below this one, following child links.
    pub open spec fn line_len(self) -> nat
        decreases self,
    {
        match self.child {
            Some(c) => 1 + c.line_len(),
            None => 0,
        }
    }

    /// Makes a node without a child.
    pub fn new(item: T) -> (r: TreeNode<T>)
        ensures
            r.item == item,
            r.child is None,
    {
        TreeNode { item, child: None }
    }

    /// Returns the item held by this node.
    pub fn into_inner(self) -> (r: T)
        ensures
            r == self.item,
    {
        self.item
    }

    /// Returns the child node, if there is one.
    pub fn into_child(self) -> (r: Option<TreeNode<T>>)
        ensures
            r == (match self.child {
                Some(c) => Some(*c),
                None => None::<TreeNode<T>>,
            }),
    {
        match self.child {
            Some(c) => Some(*c),
            None => None,
        }
    }

    /// Puts `new_child` in place of the child node; a child that was there
    /// before is dropped.
    pub fn replace_child(&mut self, new_child: TreeNode<T>)
        ensures
            final(self).item == old(self).item,
            final(self).child == Some(Box::new(new_child)),
    {
        self.child = Some(Box::new(new_child));
    }
}

impl<T> core::ops::Deref for TreeNode<T> {
    type Target = T;

    fn deref(&self) -> (r: &T)
        ensures
            *r == self.item,
    {
        &self.item
    }
}

impl<T> core::ops::DerefMut for TreeNode<T> {
    fn deref_mut(&mut self) -> (r: &mut T)
        ensures
            *r == old(self).item,
    {
        &mut self.item
    }
}

} // verus!
