use std::cell::RefCell;
use std::rc::{Rc, Weak};

use primer::linked_list::LinkedList;

enum RcList {
    Cons(i32, Rc<RcList>),
    Nil,
}

#[derive(Debug)]
struct TreeNode {
    value: i32,
    parent: RefCell<Weak<TreeNode>>,
    children: RefCell<Vec<Rc<TreeNode>>>,
}

#[test]
fn box_dereferencing() {
    let x = 5;
    let y = Box::new(x);
    assert_eq!(x, 5);
    assert_eq!(*y, 5);
}

#[test]
#[allow(unused_variables)]
fn ref_counts() {
    let a = Rc::new(RcList::Cons(2, Rc::new(RcList::Nil)));
    // Reference count is now 1
    assert_eq!(Rc::strong_count(&a), 1);

    let b = RcList::Cons(3, Rc::clone(&a));
    // Reference count is now 2
    assert_eq!(Rc::strong_count(&a), 2);

    {
        let c = RcList::Cons(4, Rc::clone(&a));
        // Reference count is now 3, but only for as long as this scope!
        assert_eq!(Rc::strong_count(&a), 3);
    }

    // Reference count is back down to 2
    assert_eq!(Rc::strong_count(&a), 2);
}

#[test]
fn tree_with_weak_refs() {
    let leaf = Rc::new(TreeNode {
        value: 3,
        parent: RefCell::new(Weak::new()),
        children: RefCell::new(vec![]),
    });

    println!(
        "leaf strong = {}, weak = {}",
        Rc::strong_count(&leaf),
        Rc::weak_count(&leaf),
    );

    {
        let branch = Rc::new(TreeNode {
            value: 5,
            parent: RefCell::new(Weak::new()),
            children: RefCell::new(vec![Rc::clone(&leaf)]),
        });

        *leaf.parent.borrow_mut() = Rc::downgrade(&branch);

        println!(
            "branch strong = {}, weak = {}",
            Rc::strong_count(&branch),
            Rc::weak_count(&branch),
        );

        println!(
            "leaf strong = {}, weak = {}",
            Rc::strong_count(&leaf),
            Rc::weak_count(&leaf),
        );
    }

    println!("leaf parent = {:?}", leaf.parent.borrow().upgrade());
    println!(
        "leaf strong = {}, weak = {}",
        Rc::strong_count(&leaf),
        Rc::weak_count(&leaf),
    );
}

#[test]
fn list_nodes_are_released_with_the_list() {
    let shared = Rc::new(7);
    let mut list = LinkedList::empty();
    list.push(Rc::clone(&shared));
    list.push(Rc::clone(&shared));
    list.push(Rc::clone(&shared));
    assert_eq!(Rc::strong_count(&shared), 4);
    let popped = list.pop();
    assert_eq!(Rc::strong_count(&shared), 4);
    drop(popped);
    assert_eq!(Rc::strong_count(&shared), 3);
    drop(list);
    assert_eq!(Rc::strong_count(&shared), 1);
}
