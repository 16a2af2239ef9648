//! A singly linked, last-in-first-out list built from individually owned nodes.
//!
//! Each node owns its successor, so a chain is never shared and never cyclic.
//! The list is modelled by the sequence of its elements, front first.

use vstd::prelude::*;

verus! {

/// An owning reference to the next node, or `None` at the end of a chain.
pub type Link<T> = Option<Box<Node<T>>>;

/// One element together with the rest of the chain behind it.
#[derive(Debug)]
pub struct Node<T> {
    pub element: T,
    pub next: Link<T>,
}

/// A last-in-first-out list. `head` owns the first node; `None` means empty.
pub struct LinkedList<T> {
    pub head: Link<T>,
}

/// The elements reachable from `link`, front first.
pub open spec fn chain<T>(link: Link<T>) -> Seq<T>
    decreases link,
{
    match link {
        None => Seq::empty(),
        Some(node) => seq![node.element] + chain(node.next),
    }
}

impl<T> View for LinkedList<T> {
    type V = Seq<T>;

    open spec fn view(&self) -> Seq<T> {
        chain(self.head)
    }
}

impl<T> LinkedList<T> {
    /// A list without elements.
    pub fn empty() -> (list: Self)
        ensures
            list.head is None,
            list@ == Seq::<T>::empty(),
    {
        Self { head: None }
    }

    /// A list holding exactly `element`, in a single node.
    pub fn new(element: T) -> (list: Self)
        ensures
            list.head == Some(Box::new((Node { element, next: None }))),
            list@ == seq![element],
    {
        proof {
            reveal_with_fuel(chain, 2);
        }
        Self { head: Some(Box::new(Node { element, next: None })) }
    }

    /// Puts `element` in front of everything already in the list. Only the
    /// head is touched: the chain that was there becomes, as it is, what
    /// follows the new node.
    pub fn push(&mut self, element: T)
        ensures
            final(self).head == Some(Box::new((Node { element, next: old(self).head }))),
            final(self)@ == pushed(old(self)@, element),
    {
        let old_head = self.head.take();
        let new_head = Box::new(Node { element, next: old_head });
        self.head = Some(new_head);
    }

    /// Removes the front element and returns it; what followed it becomes
    /// the whole list. On an empty list it returns `None` and changes nothing.
    pub fn pop(&mut self) -> (front: Option<T>)
        ensures
            match old(self).head {
                Some(node) => front == Some(node.element) && final(self).head == node.next,
                None => front is None && final(self).head is None,
            },
            front == popped(old(self)@).0,
            final(self)@ == popped(old(self)@).1,
    {
        match self.head.take() {
            None => None,
            Some(node) => {
                let node = *node;
                self.head = node.next;
                Some(node.element)
            },
        }
    }

    /// A shared reference to the front element, or `None` when the list is
    /// empty. The list is left as it is.
    pub fn peek(&self) -> (front: Option<&T>)
        ensures
            match (front, self.head) {
                (Some(element), Some(node)) => *element == node.element,
                (None, None) => true,
                _ => false,
            },
            match front {
                Some(element) => peeked(self@) == Some(*element),
                None => peeked(self@) is None,
            },
    {
        match &self.head {
            Some(node) => Some(&node.element),
            None => None,
        }
    }
}

/// The sequence after `element` has been pushed onto `s`.
pub open spec fn pushed<T>(s: Seq<T>, element: T) -> Seq<T> {
    seq![element] + s
}

/// What a pop on `s` returns, and what it leaves behind.
pub open spec fn popped<T>(s: Seq<T>) -> (Option<T>, Seq<T>) {
    if s.len() == 0 {
        (None, s)
    } else {
        (Some(s[0]), s.drop_first())
    }
}

/// What a peek at `s` shows.
pub open spec fn peeked<T>(s: Seq<T>) -> Option<T> {
    if s.len() == 0 {
        None
    } else {
        Some(s[0])
    }
}

/// The sequence after each of `items` has been pushed onto `s`, `items[0]` first.
pub open spec fn pushed_all<T>(s: Seq<T>, items: Seq<T>) -> Seq<T>
    decreases items.len(),
{
    if items.len() == 0 {
        s
    } else {
        pushed_all(pushed(s, items[0]), items.drop_first())
    }
}

/// What `n` successive pops on `s` return, in the order they are made.
pub open spec fn popped_values<T>(s: Seq<T>, n: nat) -> Seq<Option<T>>
    decreases n,
{
    if n == 0 {
        Seq::empty()
    } else {
        seq![popped(s).0] + popped_values(popped(s).1, (n - 1) as nat)
    }
}

/// What `n` successive pops on `s` leave behind.
pub open spec fn popped_rest<T>(s: Seq<T>, n: nat) -> Seq<T>
    decreases n,
{
    if n == 0 {
        s
    } else {
        popped_rest(popped(s).1, (n - 1) as nat)
    }
}

/// Pushing `items` in order puts them in front of `s`, last pushed first.
pub proof fn lemma_pushed_all_is_reverse_in_front<T>(s: Seq<T>, items: Seq<T>)
    ensures
        pushed_all(s, items) == items.reverse() + s,
    decreases items.len(),
{
    if items.len() > 0 {
        lemma_pushed_all_is_reverse_in_front(pushed(s, items[0]), items.drop_first());
    }
}

/// Popping as many times as `front` is long, from a list that starts with
/// `front`, returns the elements of `front` in order and leaves what followed.
pub proof fn lemma_pops_take_the_front<T>(front: Seq<T>, s: Seq<T>)
    ensures
        popped_values(front + s, front.len()) == front.map_values(|x: T| Some(x)),
        popped_rest(front + s, front.len()) == s,
    decreases front.len(),
{
    if front.len() > 0 {
        let tail = front.drop_first();
        assert((front + s).drop_first() =~= tail + s);
        lemma_pops_take_the_front(tail, s);
    }
}

/// Last in, first out: after `items` are pushed in order onto any list, the
/// same number of pops returns them in exactly the reverse order, each as
/// `Some`, and leaves the list as it was before the pushes.
pub proof fn lemma_last_in_first_out<T>(s: Seq<T>, items: Seq<T>)
    ensures
        popped_values(pushed_all(s, items), items.len()).len() == items.len(),
        forall|i: int|
            0 <= i < items.len() ==> #[trigger] popped_values(
                pushed_all(s, items),
                items.len(),
            )[i] == Some(items[items.len() - 1 - i]),
        popped_rest(pushed_all(s, items), items.len()) == s,
{
    lemma_pushed_all_is_reverse_in_front(s, items);
    lemma_pops_take_the_front(items.reverse(), s);
}

/// A list whose head is `None`, as `empty` creates it, holds no elements:
/// a pop on it returns `None` and leaves it as it is, and so does a peek.
pub proof fn lemma_pop_on_new_empty_list<T>(list: LinkedList<T>)
    requires
        list.head is None,
    ensures
        list@ == Seq::<T>::empty(),
        popped(list@) == (None::<T>, list@),
        peeked(list@) is None,
{
}

/// On any list, a peek right after `push(x)` shows `x`, and the pop that
/// follows returns `x` and restores the list from before the push.
pub proof fn lemma_peek_and_pop_after_push<T>(s: Seq<T>, x: T)
    ensures
        peeked(pushed(s, x)) == Some(x),
        popped(pushed(s, x)) == (Some(x), s),
{
}

/// Popping until nothing is left returns every element, front first, and
/// ends in the empty list: the next pop and the next peek return `None`.
pub proof fn lemma_drained_list_is_empty<T>(s: Seq<T>)
    ensures
        popped_values(s, s.len()) == s.map_values(|x: T| Some(x)),
        popped_rest(s, s.len()) == Seq::<T>::empty(),
        popped(popped_rest(s, s.len())).0 is None,
        peeked(popped_rest(s, s.len())) is None,
{
    lemma_pops_take_the_front(s, Seq::<T>::empty());
}

/// A list that was drained is the very list that `empty` creates.
pub proof fn lemma_drained_list_is_the_empty_list<T>(list: LinkedList<T>, drained: LinkedList<T>)
    requires
        drained@ == popped_rest(list@, list@.len()),
    ensures
        drained == (LinkedList::<T> { head: None }),
{
    lemma_drained_list_is_empty(list@);
    lemma_same_elements_same_list(drained, LinkedList::<T> { head: None });
}

/// An empty list stays empty: any number of pops on it return `None` each
/// time and change nothing.
pub proof fn lemma_pops_on_empty_list<T>(n: nat)
    ensures
        popped_values(Seq::<T>::empty(), n).len() == n,
        forall|i: int| 0 <= i < n ==> #[trigger] popped_values(Seq::<T>::empty(), n)[i] is None,
        popped_rest(Seq::<T>::empty(), n) == Seq::<T>::empty(),
    decreases n,
{
    if n > 0 {
        lemma_pops_on_empty_list::<T>((n - 1) as nat);
    }
}

/// Two lists with the same elements in the same order are the same list:
/// the model leaves nothing of a chain out.
pub proof fn lemma_same_elements_same_list<T>(a: LinkedList<T>, b: LinkedList<T>)
    requires
        a@ == b@,
    ensures
        a == b,
{
    lemma_same_chain_same_link(a.head, b.head);
}

/// Two links that reach the same elements in the same order are equal.
pub proof fn lemma_same_chain_same_link<T>(a: Link<T>, b: Link<T>)
    requires
        chain(a) == chain(b),
    ensures
        a == b,
    decreases a,
{
    match (a, b) {
        (Some(x), Some(y)) => {
            assert(chain(a)[0] == x.element);
            assert(chain(b)[0] == y.element);
            assert(chain(a).drop_first() =~= chain(x.next));
            assert(chain(b).drop_first() =~= chain(y.next));
            lemma_same_chain_same_link(x.next, y.next);
        },
        _ => {},
    }
}

} // verus!
