use std::borrow::Borrow;
use std::rc::Rc;
use std::sync::Arc;

use rpds::utils::container::{Container, Owned};

#[test]
fn arc_container_holds_its_value() {
    let c: Arc<i32> = Container::new(5);
    assert_eq!(*c.get(), 5);
    let d = c.duplicate();
    assert_eq!(*d, 5);
    assert!(Arc::ptr_eq(&c, &d));
}

#[test]
fn rc_container_holds_its_value() {
    let c: Rc<String> = Container::new(String::from("x"));
    assert_eq!(c.get(), "x");
    let d = c.duplicate();
    assert!(Rc::ptr_eq(&c, &d));
}

#[test]
fn owned_container_derefs_to_its_value() {
    let mut o: Owned<i32> = Container::new(3);
    assert_eq!(*o, 3);
    assert_eq!(*o.get(), 3);
    let b: &i32 = o.borrow();
    assert_eq!(*b, 3);
    *o = 4;
    assert_eq!(*o, 4);
    let d = o.duplicate();
    assert_eq!(*d, 4);
    let c = o.clone();
    assert_eq!(*c, 4);
    let s: Owned<String> = Container::new(String::from("kept"));
    let t = s.duplicate();
    assert_eq!(t.get(), "kept");
}
