//! Rust language behaviour that the library's design leans on: method receivers,
//! lifetime subtyping, drop checking, and auto traits through `PhantomData`.

use std::fmt::Debug;
use std::marker::PhantomData;
use std::rc::Rc;
use std::sync::Arc;

trait AsciiIncr {
    /// Increments `self` by one unit. (Only works for 7-bit ASCII characters though.)
    fn incr(&mut self);
}

impl AsciiIncr for char {
    fn incr(&mut self) {
        *self = (*self as u8 + 1) as char
    }
}

trait Receiver {
    fn by_ref(&self);
    fn by_mut(&mut self);
    fn by_val(self)
    where
        Self: Sized;
}

impl Receiver for [char; 2] {
    fn by_ref(&self) {
        println!("ref: {:?}", self[0]);
    }
    fn by_mut(&mut self) {
        println!("mut: {:?}", self[0]);
        self[1].incr();
    }
    fn by_val(mut self) {
        println!("val: {:?}", self[0]);
        self[1].incr();
    }
}

#[test]
fn check_ascii_incr() {
    let mut c: char = 'a';
    c.incr();
    assert_eq!(c, 'b');
}

#[test]
fn demo_obvious_cases() {
    let a = ['a', '1'];
    let b = &['b', '4'];
    let c = &mut ['c', '7'];
    println!();

    a.by_val();
    b.by_ref();
    c.by_mut();
    println!("obvious: (a,b,c): {:?}", (a, b, c));
}

#[test]
fn demo_interesting_cases() {
    let mut a = ['a', '1'];
    let b = &['b', '4'];
    let c = &mut ['c', '7'];
    a.by_val();
    b.by_val();
    c.by_val();
    a.by_ref();
    b.by_ref();
    c.by_ref();
    a.by_mut();
    c.by_mut();

    println!("interesting: (a,b,c): {:?}", (a, b, c));
}

/// Picks either `x` or `y`, based on some internal choice.
fn pick<'a>(x: &'a i32, y: &'static i32) -> &'a i32 {
    if *x > 0 { x } else { y }
}

const GLOBAL: i32 = 100;

#[test]
fn pick_test() {
    let temp: i32 = 200;
    let r = pick(&temp, &GLOBAL);

    assert_eq!(r, &200);
}

struct TouchDrop<T: Debug>(T);

impl<T: Debug> Drop for TouchDrop<T> {
    fn drop(&mut self) {
        println!("Touch drop! {:?}", self.0);
    }
}

#[test]
fn ex2_newtype_drop_impl_rustc_error() {
    let x = String::new();

    // TouchDrop borrows a reference to x here, so x cannot be dropped before z.
    let z = vec![TouchDrop(&x)];
    assert_eq!(z.len(), 1);
}

#[test]
fn ex2_newtype_drop_impl() {
    let x = String::new();

    // Vec only runs the drop code of its items, and `&String` has none.
    let z = vec![&x];
    assert_eq!(z.len(), 1);
    drop(x);
}

#[test]
fn ex1_no_problemo() {
    let x = String::new();
    let z = vec![&x];
    assert_eq!(z.len(), 1);

    // x is never used beyond this point, so it's ok to drop it.
    drop(x);
}

#[test]
fn ex1_cannot_drop_holding_borrow() {
    let x = String::new();
    let z = vec![&x];
    assert_eq!(z.len(), 1);
    drop(x);
}

fn strtok<'a, 'b>(s: &'a mut &'b str, delimiter: char) -> &'b str {
    if let Some(i) = s.find(delimiter) {
        let prefix = &s[..i];
        let suffix = &s[(i + delimiter.len_utf8())..];
        *s = suffix;
        prefix
    } else {
        let prefix = *s;
        *s = "";
        prefix
    }
}

#[test]
fn it_works() {
    let mut x = "hello rust";
    let hello = strtok(&mut x, ' ');
    assert_eq!(hello, "hello");
    assert_eq!(x, "rust");
}

// A non-Send type as Rc<T> is NOT Send
struct NotSend(Rc<u8>);

struct CanSend(Arc<u8>);

fn assert_send<T: Send>() {}

struct WrapperFn<T> {
    _marker: PhantomData<fn() -> T>,
}

/// `PhantomData<fn() -> T>` does not take on `T`'s missing `Send`.
#[test]
fn non_send_type_prevented() {
    assert_send::<WrapperFn<NotSend>>();
}

#[test]
fn subtyping_variance_send_type_ok() {
    assert_send::<WrapperFn<CanSend>>();
}

struct Id<T> {
    inner: i32,
    _marker: PhantomData<fn() -> T>,
}

impl<T> Id<T> {
    pub const fn new(inner: i32) -> Self {
        Self { inner, _marker: PhantomData }
    }
}

struct UserWallet {
    pub id: Id<UserWallet>,
}

#[test]
fn subtyping_variance_do_it() {
    let id = Id::new(0_i32);
    let wallet = UserWallet { id };
    assert_eq!(wallet.id.inner, 0);
}
