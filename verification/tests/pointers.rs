use handrolled::boxed::MyBox;
use handrolled::max_value::MaxValue;
use handrolled::smart_pointers::cell::MyCell;
use handrolled::smart_pointers::rc::count_after_clone;
use handrolled::smart_pointers::rc::count_after_drop;
use handrolled::smart_pointers::rc::MyRc;
use handrolled::smart_pointers::refcell::MyRefCell;
use handrolled::smart_pointers::refcell::RefState;
use std::sync::Arc;

#[test]
fn bad() {
    let x = Arc::new(MyCell::new(42));
    let _x1 = Arc::clone(&x);
}

#[test]
fn rc_bad() {}

#[test]
fn test_max_value() {
    assert_eq!(<u16 as MaxValue>::max_value(), u16::MAX);
    assert_eq!(<u32 as MaxValue>::max_value(), u32::MAX);
    assert_eq!(<u64 as MaxValue>::max_value(), u64::MAX);
}

#[test]
fn cell_gives_back_what_was_set() {
    let c = MyCell::new(42);
    assert_eq!(c.get(), 42);
    c.set(43);
    assert_eq!(c.get(), 43);
    let shared = &c;
    shared.set(44);
    assert_eq!(c.get(), 44);
}

#[test]
fn box_holds_and_changes_its_value() {
    let x = 42;
    let mut b = MyBox::new(x);
    assert_eq!(*b, 42);
    *b += 1;
    assert_eq!(*b, 43);
    let s = MyBox::new(String::from("hello"));
    assert_eq!(s.len(), 5);
}

#[test]
fn refcell_many_readers() {
    let cell = MyRefCell::new(5);
    let a = cell.borrow().unwrap();
    let b = cell.borrow().unwrap();
    assert_eq!(*a, 5);
    assert_eq!(*b, 5);
    assert!(cell.borrow_mut().is_none());
    drop(a);
    assert!(cell.borrow_mut().is_none());
    drop(b);
    assert!(cell.borrow_mut().is_some());
}

#[test]
fn refcell_one_writer() {
    let cell = MyRefCell::new(String::from("v"));
    let w = cell.borrow_mut().unwrap();
    assert_eq!(*w, "v");
    assert!(cell.borrow().is_none());
    assert!(cell.borrow_mut().is_none());
    drop(w);
    assert!(cell.borrow().is_some());
    // the reader above is gone again
    assert!(cell.borrow_mut().is_some());
}

#[test]
fn borrow_states() {
    assert_eq!(RefState::Unshared.share(), Some(RefState::Shared(1)));
    assert_eq!(RefState::Shared(1).share(), Some(RefState::Shared(2)));
    assert_eq!(RefState::Shared(usize::MAX).share(), None);
    assert_eq!(RefState::Exclusive.share(), None);
    assert_eq!(RefState::Unshared.claim(), Some(RefState::Exclusive));
    assert_eq!(RefState::Shared(3).claim(), None);
    assert_eq!(RefState::Exclusive.claim(), None);
    assert_eq!(RefState::Shared(1).unshare(), RefState::Unshared);
    assert_eq!(RefState::Shared(2).unshare(), RefState::Shared(1));
    assert_eq!(RefState::Shared(0).unshare(), RefState::Unshared);
    assert_eq!(RefState::Unshared.unshare(), RefState::Unshared);
    assert_eq!(RefState::Exclusive.unshare(), RefState::Exclusive);
    assert_eq!(RefState::Exclusive.unclaim(), RefState::Unshared);
    assert_eq!(RefState::Shared(2).unclaim(), RefState::Shared(2));
    assert_eq!(RefState::Unshared.unclaim(), RefState::Unshared);
}

#[test]
fn rc_counts_its_owners() {
    let x = MyRc::new(1);
    assert_eq!(x.owners(), 1);
    let y = x.clone();
    let z = y.clone();
    assert_eq!(x.owners(), 3);
    assert_eq!(*y, 1);
    assert_eq!(*z, 1);
    drop(y);
    assert_eq!(x.owners(), 2);
    drop(x);
    assert_eq!(z.owners(), 1);
    assert_eq!(*z, 1);
}

#[test]
fn owner_counts() {
    assert_eq!(count_after_clone(1), 2);
    assert_eq!(count_after_clone(usize::MAX), usize::MAX);
    assert_eq!(count_after_drop(3), (2, false));
    assert_eq!(count_after_drop(2), (1, false));
    assert_eq!(count_after_drop(1), (0, true));
    assert_eq!(count_after_drop(0), (0, true));
}
