use std::cell::RefCell;
use std::rc::Rc;

use metaref::boxed::Box;
use metaref::mutex::Mutex;
use metaref::owned_slice::OwnedSlice;
use metaref::owning_handle::OwningHandle;

fn move_it<T>(t: T) -> T {
    t
}

#[test]
fn handle_survives_moves() {
    let oh = OwningHandle::mapped(vec![1, 2, 3], |v: &Vec<i32>| v[1]);
    let oh = move_it(oh);
    let moved = move_it(oh);
    assert_eq!(*moved.as_ref(), 2);
    assert_eq!(moved.owner(), &vec![1, 2, 3]);
}

#[test]
fn handle_can_be_changed_in_place() {
    let mut oh = OwningHandle::mapped(String::from("abc"), |s: &String| s.len());
    *oh.as_mut() += 1;
    assert_eq!(*oh.as_ref(), 4);
    assert_eq!(oh.owner(), "abc");
}

struct Noisy {
    name: &'static str,
    log: Rc<RefCell<Vec<&'static str>>>,
}

impl Drop for Noisy {
    fn drop(&mut self) {
        self.log.borrow_mut().push(self.name);
    }
}

#[test]
fn handle_is_dropped_before_owner() {
    let log = Rc::new(RefCell::new(Vec::new()));
    let owner = Noisy { name: "owner", log: Rc::clone(&log) };
    let oh = OwningHandle::mapped(owner, |o: &Noisy| Noisy { name: "handle", log: Rc::clone(&o.log) });
    let oh = move_it(oh);
    drop(oh);
    assert_eq!(*log.borrow(), vec!["handle", "owner"]);
}

#[test]
fn box_holds_and_changes_its_value() {
    let mut b = Box::new(42);
    assert_eq!(*b, 42);
    assert_eq!(*b.get(), 42);
    *b = 5;
    assert_eq!(*b, 5);
    *b.get_mut() += 1;
    assert_eq!(*b.get(), 6);
}

#[test]
fn mutex_gives_access_through_its_guard() {
    let mut m = Mutex::new(42);
    assert_eq!(*m.lock().get(), 42);
    *m.lock().get_mut() = 5;
    assert_eq!(*m.lock().get(), 5);
}

#[test]
fn owned_slice_covers_its_range() {
    let s = OwnedSlice::from_vec(vec![1, 2, 3, 4], 1..3);
    assert_eq!(s.slice(), &[2, 3]);
    let empty = OwnedSlice::from_vec(vec![1, 2], 2..2);
    assert!(empty.slice().is_empty());
    let whole = OwnedSlice::from_vec(vec![7], 0..1);
    assert_eq!(whole.slice(), &[7]);
}
