use std::cell::RefCell;
use std::sync::atomic::AtomicU32;
use std::sync::atomic::Ordering::Relaxed;
use xynok_std::{Action, Action0, CallbackLifeTime};

#[test]
fn static_fn_called_twice()
{
    static N: AtomicU32 = AtomicU32::new(0);
    fn h(_: &i32)
    {
        N.fetch_add(1, Relaxed);
    }
    let mut a: Action<i32> = Action::new();
    a.add_fn(h);
    a.invoke(&0);
    a.invoke(&0);
    assert_eq!(N.load(Relaxed), 2);
}

#[test]
fn static_fn_no_duplicate()
{
    static N: AtomicU32 = AtomicU32::new(0);
    fn h(_: &i32)
    {
        N.fetch_add(1, Relaxed);
    }
    let mut a: Action<i32> = Action::new();
    a.add_fn(h);
    a.add_fn(h);
    assert_eq!(a.len(), 1);
    a.invoke(&0);
    assert_eq!(N.load(Relaxed), 1);
}

#[test]
fn static_fn_remove()
{
    static N: AtomicU32 = AtomicU32::new(0);
    fn h(_: &i32)
    {
        N.fetch_add(1, Relaxed);
    }
    let mut a: Action<i32> = Action::new();
    a.add_fn(h);
    a.remove_fn(h);
    assert!(a.is_empty());
    a.invoke(&0);
    assert_eq!(N.load(Relaxed), 0);
}

#[test]
fn clear_resets_all()
{
    static N: AtomicU32 = AtomicU32::new(0);
    fn h(_: &i32)
    {
        N.fetch_add(1, Relaxed);
    }
    let mut a: Action<i32> = Action::new();
    a.add_fn(h);
    a.clear();
    assert!(a.is_empty());
    a.invoke(&0);
    assert_eq!(N.load(Relaxed), 0);
}

#[test]
fn once_static_fires_exactly_once()
{
    static N: AtomicU32 = AtomicU32::new(0);
    fn h(_: &i32)
    {
        N.fetch_add(1, Relaxed);
    }
    let mut a: Action<i32> = Action::new();
    a.add_fn_once(h);
    a.invoke(&0); // fires, then removed
    a.invoke(&0); // slot gone — no call
    a.invoke(&0);
    assert_eq!(N.load(Relaxed), 1);
}

#[test]
fn once_static_removes_itself_from_slot_list()
{
    static N: AtomicU32 = AtomicU32::new(0);
    fn h(_: &i32)
    {
        N.fetch_add(1, Relaxed);
    }
    let mut a: Action<i32> = Action::new();
    a.add_fn_once(h);
    assert_eq!(a.len(), 1);
    a.invoke(&0);
    assert_eq!(a.len(), 0);
}

#[test]
fn persistent_and_once_coexist()
{
    static P: AtomicU32 = AtomicU32::new(0);
    static O: AtomicU32 = AtomicU32::new(0);
    fn persistent(_: &i32)
    {
        P.fetch_add(1, Relaxed);
    }
    fn once_fn(_: &i32)
    {
        O.fetch_add(1, Relaxed);
    }

    let mut a: Action<i32> = Action::new();
    a.add_fn(persistent);
    a.add_fn_once(once_fn);

    a.invoke(&0); // both fire
    a.invoke(&0); // only persistent fires
    a.invoke(&0);

    assert_eq!(P.load(Relaxed), 3);
    assert_eq!(O.load(Relaxed), 1);
}

#[test]
fn once_no_duplicate_with_persistent()
{
    // Registering the same fn a second time (even with a different mode) is ignored.
    static N: AtomicU32 = AtomicU32::new(0);
    fn h(_: &i32)
    {
        N.fetch_add(1, Relaxed);
    }
    let mut a: Action<i32> = Action::new();
    a.add_fn(h);
    a.add_fn_once(h); // duplicate key — ignored
    assert_eq!(a.len(), 1);
    a.invoke(&0);
    a.invoke(&0);
    // Persistent slot stays; called twice.
    assert_eq!(N.load(Relaxed), 2);
}

#[test]
fn with_mode_explicit_persistent()
{
    static N: AtomicU32 = AtomicU32::new(0);
    fn h(_: &i32)
    {
        N.fetch_add(1, Relaxed);
    }
    let mut a: Action<i32> = Action::new();
    a.add_fn_with_mode(h, CallbackLifeTime::Persistent);
    a.invoke(&0);
    a.invoke(&0);
    assert_eq!(N.load(Relaxed), 2);
}

#[test]
fn with_mode_explicit_once()
{
    static N: AtomicU32 = AtomicU32::new(0);
    fn h(_: &i32)
    {
        N.fetch_add(1, Relaxed);
    }
    let mut a: Action<i32> = Action::new();
    a.add_fn_with_mode(h, CallbackLifeTime::Once);
    a.invoke(&0);
    a.invoke(&0);
    assert_eq!(N.load(Relaxed), 1);
}

// ── Action0 — original persistent behaviour ────────────────────────────

#[test]
fn action0_static_fn()
{
    static N: AtomicU32 = AtomicU32::new(0);
    fn f()
    {
        N.fetch_add(1, Relaxed);
    }
    let mut a: Action0 = Action0::new();
    a.add_fn(f);
    a.invoke();
    assert_eq!(N.load(Relaxed), 1);
}

#[test]
fn action0_remove_static()
{
    static N: AtomicU32 = AtomicU32::new(0);
    fn f()
    {
        N.fetch_add(1, Relaxed);
    }
    let mut a: Action0 = Action0::new();
    a.add_fn(f);
    a.remove_fn(f);
    a.invoke();
    assert_eq!(N.load(Relaxed), 0);
}

#[test]
fn action0_once_static_fires_once()
{
    static N: AtomicU32 = AtomicU32::new(0);
    fn f()
    {
        N.fetch_add(1, Relaxed);
    }
    let mut a: Action0 = Action0::new();
    a.add_fn_once(f);
    a.invoke();
    a.invoke();
    a.invoke();
    assert_eq!(N.load(Relaxed), 1);
}

#[test]
fn action0_persistent_and_once_coexist()
{
    static P: AtomicU32 = AtomicU32::new(0);
    static O: AtomicU32 = AtomicU32::new(0);
    fn persistent()
    {
        P.fetch_add(1, Relaxed);
    }
    fn once_fn()
    {
        O.fetch_add(1, Relaxed);
    }
    let mut a: Action0 = Action0::new();
    a.add_fn(persistent);
    a.add_fn_once(once_fn);
    a.invoke();
    a.invoke();
    a.invoke();
    assert_eq!(P.load(Relaxed), 3);
    assert_eq!(O.load(Relaxed), 1);
}

#[test]
fn keyed_registrations_dedupe_and_remove_by_key()
{
    fn h1(_: &i32) {}
    fn h2(_: &i32) {}
    let mut a: Action<i32> = Action::new();
    assert!(a.add_keyed((10, 20), h1, CallbackLifeTime::Persistent));
    // same key, other handler and mode: a duplicate
    assert!(!a.add_keyed((10, 20), h2, CallbackLifeTime::Once));
    assert!(a.add_keyed((10, 21), h1, CallbackLifeTime::Once));
    // a plain registration of h1 is not the keyed one
    a.add_fn(h1);
    assert_eq!(a.len(), 3);
    a.remove_keyed((10, 20));
    assert_eq!(a.len(), 2);
    a.remove_fn(h1);
    assert_eq!(a.len(), 1);
    a.remove_keyed((10, 21));
    assert!(a.is_empty());
}

#[test]
fn invoke_with_hands_handlers_over_in_order_then_drops_once()
{
    fn h1(_: &i32) {}
    fn h2(_: &i32) {}
    let mut a: Action<i32> = Action::new();
    a.add_keyed((1, 0), h1, CallbackLifeTime::Once);
    a.add_keyed((2, 0), h2, CallbackLifeTime::Persistent);
    let log = RefCell::new(Vec::new());
    a.invoke_with(&7, |h: &fn(&i32), arg: &i32| log.borrow_mut().push((*h as usize, *arg)));
    assert_eq!(*log.borrow(), vec![(h1 as fn(&i32) as usize, 7), (h2 as fn(&i32) as usize, 7)]);
    assert_eq!(a.len(), 1);
    a.invoke_with(&8, |h: &fn(&i32), arg: &i32| log.borrow_mut().push((*h as usize, *arg)));
    assert_eq!(log.borrow().len(), 3);
}

#[test]
fn action0_keyed_registrations()
{
    static N: AtomicU32 = AtomicU32::new(0);
    fn f()
    {
        N.fetch_add(1, Relaxed);
    }
    let mut a: Action0 = Action0::new();
    assert!(a.add_keyed((5, 6), f, CallbackLifeTime::Once));
    assert!(!a.add_keyed((5, 6), f, CallbackLifeTime::Persistent));
    a.invoke();
    a.invoke();
    assert_eq!(N.load(Relaxed), 1);
    assert!(a.is_empty());
}
