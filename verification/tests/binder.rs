use std::cell::RefCell;
use std::rc::Rc;

use xynok_std::BinderInner;

#[test]
fn binder_notifies_listeners_in_order_with_new_value()
{
    let seen = Rc::new(RefCell::new(Vec::new()));
    let s1 = seen.clone();
    let s2 = seen.clone();
    let mut b = BinderInner::new(1u32);
    assert_eq!(b.get(), 1);
    let id1 = b.add_listener(Box::new(move |v: &u32| s1.borrow_mut().push(("first", *v))) as Box<dyn Fn(&u32)>);
    let id2 = b.add_listener(Box::new(move |v: &u32| s2.borrow_mut().push(("second", *v))) as Box<dyn Fn(&u32)>);
    assert_eq!((id1, id2), (0, 1));
    assert_eq!(b.next_id(), 2);
    b.set(42);
    assert_eq!(b.get(), 42);
    assert_eq!(*seen.borrow(), vec![("first", 42), ("second", 42)]);
}

#[test]
fn binder_removed_listener_is_not_notified()
{
    let count = Rc::new(RefCell::new(0u32));
    let c1 = count.clone();
    let c2 = count.clone();
    let mut b = BinderInner::new(0i64);
    let id = b.add_listener(Box::new(move |_: &i64| *c1.borrow_mut() += 1) as Box<dyn Fn(&i64)>);
    b.add_listener(Box::new(move |_: &i64| *c2.borrow_mut() += 10) as Box<dyn Fn(&i64)>);
    b.remove_listener(id);
    b.set(5);
    assert_eq!(*count.borrow(), 10);
    // ids are never reused
    b.remove_all_listeners();
    assert_eq!(b.next_id(), 2);
    b.notify();
    assert_eq!(*count.borrow(), 10);
}
