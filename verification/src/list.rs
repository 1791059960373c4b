//! A singly linked stack.

use vstd::prelude::*;

verus! {

/// One cell of a list: an element and the cells behind it.
pub struct Node<T> {
    elem: T,
    next: Option<Box<Node<T>>>,
}

impl<T> Node<T> {
    /// The element of this cell, then those of the cells behind it.
    pub closed spec fn elems(&self) -> Seq<T> {
        seq![self.elem] + link_view(self.next)
    }
}

/// A last-in, first-out list. Its view is the sequence of its elements, the
/// most recently pushed one first.
pub struct List<T> {
    head: Option<Box<Node<T>>>,
}

spec fn link_view<T>(link: Option<Box<Node<T>>>) -> Seq<T>
    decreases link,
{
    match link {
        None => Seq::empty(),
        Some(node) => seq![node.elem] + link_view(node.next),
    }
}

proof fn lemma_front_update<T>(before: T, after: T, rest: Seq<T>)
    ensures
        seq![after] + rest == (seq![before] + rest).update(0, after),
{
    assert(seq![after] + rest =~= (seq![before] + rest).update(0, after));
}

fn node_of<T>(link: &Option<Box<Node<T>>>) -> (node: Option<&Node<T>>)
    ensures
        *link is None ==> node is None,
        *link matches Some(boxed) ==> node == Some(&*boxed),
{
    match link {
        None => None,
        Some(boxed) => Some(&**boxed),
    }
}

impl<T> View for List<T> {
    type V = Seq<T>;

    closed spec fn view(&self) -> Seq<T> {
        link_view(self.head)
    }
}

impl<T> Default for List<T> {
    /// The empty list.
    fn default() -> (list: Self)
        ensures
            list@ == Seq::<T>::empty(),
    {
        List { head: None }
    }
}

impl<T> List<T> {
    /// The empty list.
    pub fn new() -> (list: Self)
        ensures
            list@ == Seq::<T>::empty(),
    {
        List { head: None }
    }

    /// Puts `elem` in front of the others.
    pub fn push(&mut self, elem: T)
        ensures
            final(self)@ == seq![elem] + old(self)@,
    {
        let next = self.head.take();
        self.head = Some(Box::new(Node { elem, next }));
    }

    /// Takes the front element off, if there is one.
    pub fn pop(&mut self) -> (front: Option<T>)
        ensures
            old(self)@.len() == 0 ==> front is None && final(self)@ == old(self)@,
            old(self)@.len() > 0 ==> front == Some(old(self)@[0]) && final(self)@ == old(
                self,
            )@.drop_first(),
    {
        match self.head.take() {
            None => None,
            Some(node) => {
                let Node { elem, next } = *node;
                self.head = next;
                proof {
                    assert((seq![elem] + link_view(next)).drop_first() =~= link_view(next));
                }
                Some(elem)
            },
        }
    }

    /// The front element, if there is one.
    pub fn peek(&self) -> (front: Option<&T>)
        ensures
            self@.len() == 0 ==> front is None,
            self@.len() > 0 ==> front == Some(&self@[0]),
    {
        match &self.head {
            None => None,
            Some(node) => Some(&node.elem),
        }
    }

    /// The front element, open to change, if there is one. The list afterwards
    /// is the old one with the front element as the caller left it.
    pub fn peek_mut(&mut self) -> (front: Option<&mut T>)
        ensures
            old(self)@.len() == 0 ==> front is None && final(self)@ == old(self)@,
            old(self)@.len() > 0 ==> front is Some && *front->0 == old(self)@[0] && final(self)@
                == old(self)@.update(0, *final(front->0)),
    {
        match &mut self.head {
            None => None,
            Some(node) => {
                proof {
                    lemma_front_update(node.elem, final(node).elem, link_view(node.next));
                }
                Some(&mut node.elem)
            },
        }
    }

    /// Hands the elements out by value, front first.
    pub fn into_iter(self) -> (iter: IntoIter<T>)
        ensures
            iter@ == self@,
    {
        IntoIter(self)
    }

    /// Hands out references to the elements, front first.
    pub fn iter(&self) -> (iter: Iter<'_, T>)
        ensures
            iter@ == self@,
    {
        Iter { next: node_of(&self.head) }
    }
}

/// Walks a list by reference. Its view is what is still to come.
pub struct Iter<'a, T> {
    next: Option<&'a Node<T>>,
}

impl<'a, T> View for Iter<'a, T> {
    type V = Seq<T>;

    closed spec fn view(&self) -> Seq<T> {
        match self.next {
            None => Seq::empty(),
            Some(node) => seq![node.elem] + link_view(node.next),
        }
    }
}

impl<'a, T> Iter<'a, T> {
    /// The next element, if one is left.
    pub fn next(&mut self) -> (item: Option<&'a T>)
        ensures
            old(self)@.len() == 0 ==> item is None && final(self)@ == old(self)@,
            old(self)@.len() > 0 ==> item == Some(&old(self)@[0]) && final(self)@ == old(
                self,
            )@.drop_first(),
    {
        match self.next {
            None => None,
            Some(node) => {
                self.next = node_of(&node.next);
                proof {
                    assert((seq![node.elem] + link_view(node.next)).drop_first() =~= link_view(
                        node.next,
                    ));
                }
                Some(&node.elem)
            },
        }
    }
}

/// Walks a list by value. Its view is what is still to come.
pub struct IntoIter<T>(List<T>);

impl<T> View for IntoIter<T> {
    type V = Seq<T>;

    closed spec fn view(&self) -> Seq<T> {
        self.0@
    }
}

impl<T> IntoIter<T> {
    /// The next element, if one is left.
    pub fn next(&mut self) -> (item: Option<T>)
        ensures
            old(self)@.len() == 0 ==> item is None && final(self)@ == old(self)@,
            old(self)@.len() > 0 ==> item == Some(old(self)@[0]) && final(self)@ == old(
                self,
            )@.drop_first(),
    {
        self.0.pop()
    }
}

/// Walks a list by mutable reference. Its view is what is still to come, as it
/// stands now.
pub struct IterMut<'a, T> {
    next: Option<&'a mut Node<T>>,
}

impl<'a, T> View for IterMut<'a, T> {
    type V = Seq<T>;

    closed spec fn view(&self) -> Seq<T> {
        match self.next {
            None => Seq::empty(),
            Some(node) => seq![node.elem] + link_view(node.next),
        }
    }
}

impl<'a, T> IterMut<'a, T> {
    /// The node that the walk stands on, if any is left.
    pub closed spec fn cursor(&self) -> Option<&'a mut Node<T>> {
        self.next
    }

    /// The next element, open to change, if one is left. What the walk had
    /// still to come settles to the element as the caller leaves it, followed
    /// by what the rest of the walk settles to.
    pub fn next(&mut self) -> (item: Option<&'a mut T>)
        ensures
            old(self)@.len() == 0 ==> item is None && final(self)@ == old(self)@,
            old(self)@.len() > 0 ==> item is Some && *item->0 == old(self)@[0] && final(self)@
                == old(self)@.drop_first(),
            final(self).cursor() is None <==> final(self)@.len() == 0,
            old(self)@.len() > 0 ==> (old(self).cursor() matches Some(cur) && item matches Some(
                elem,
            ) && final(cur).elems() == seq![*final(elem)] + (match final(self).cursor() {
                None => Seq::empty(),
                Some(rest) => final(rest).elems(),
            })),
    {
        match self.next.take() {
            None => None,
            Some(node) => {
                proof {
                    assert((seq![node.elem] + link_view(node.next)).drop_first() =~= link_view(
                        node.next,
                    ));
                }
                self.next = match &mut node.next {
                    None => None,
                    Some(boxed) => Some(&mut **boxed),
                };
                Some(&mut node.elem)
            },
        }
    }
}

impl<T> List<T> {
    /// Hands out mutable references to the elements, front first. The list
    /// afterwards holds what the walk settles to.
    pub fn iter_mut(&mut self) -> (iter: IterMut<'_, T>)
        ensures
            iter@ == old(self)@,
            iter.cursor() is None <==> iter@.len() == 0,
            final(self)@ == (match iter.cursor() {
                None => Seq::empty(),
                Some(node) => final(node).elems(),
            }),
    {
        IterMut {
            next: match &mut self.head {
                None => None,
                Some(boxed) => Some(&mut **boxed),
            },
        }
    }
}

impl<T> Drop for List<T> {
    /// Takes the cells apart one by one, so that a long list is not dropped
    /// by a chain of nested calls.
    fn drop(&mut self)
        ensures
            final(self)@ == Seq::<T>::empty(),
        opens_invariants none
        no_unwind
    {
        let mut link: Option<Box<Node<T>>> = None;
        core::mem::swap(&mut link, &mut self.head);
        loop
            invariant
                self.head is None,
            decreases link_view(link).len(),
        {
            match link {
                None => {
                    break ;
                },
                Some(mut node) => {
                    let mut next: Option<Box<Node<T>>> = None;
                    core::mem::swap(&mut next, &mut node.next);
                    link = next;
                },
            }
        }
    }
}

} // verus!
