//! Reactive cells: a `Signal<T>` is a copyable handle to one shared value that
//! every holder reads and writes. A widget keeps handles, not values, so a write
//! made anywhere is seen by the next read everywhere.

use vstd::prelude::*;
use std::cell::RefCell;

verus! {

#[verifier::external_type_specification]
#[verifier::external_body]
#[verifier::reject_recursive_types(T)]
pub struct ExRefCell<T: ?Sized>(RefCell<T>);

/// `RefCell::new`: a fresh cell holding `v`. The cell is opaque here, so nothing
/// about its content is stated.
#[verifier::external_body]
fn cell_new<T>(v: T) -> RefCell<T> {
    RefCell::new(v)
}

/// `Box::leak`: the boxed value, now borrowed for the rest of the program.
#[verifier::external_body]
fn box_leak<T>(b: Box<T>) -> (r: &'static T)
    ensures
        *r == *b,
{
    Box::leak(b)
}

/// `<RefCell<T> as Clone>::clone`: a new cell holding a clone of the current
/// content. What the content is depends on earlier writes through other handles,
/// so nothing about it is stated. The library never keeps a borrow of a cell
/// across a call (the only mutable borrow is inside `RefCell::replace`, which
/// runs no other code), so the clone's borrow always succeeds.
#[verifier::external_body]
fn cell_snapshot<T: Clone>(c: &RefCell<T>) -> RefCell<T> {
    c.clone()
}

/// `RefCell::into_inner`: the content of a cell that is owned by value. The cell
/// is opaque here, so nothing about the content is stated.
#[verifier::external_body]
fn cell_into_inner<T>(c: RefCell<T>) -> T {
    c.into_inner()
}

/// `RefCell::replace`: stores `v` and hands back the previous content, about
/// which nothing is stated. The library holds no borrow of a cell when it calls
/// this; a borrow could be live only if a value's own `Clone` wrote to the very
/// signal it is being read from, and no type of this library does.
#[verifier::external_body]
fn cell_replace<T>(c: &RefCell<T>, v: T) -> T {
    c.replace(v)
}

/// A copyable handle to a shared, mutable value.
#[verifier::reject_recursive_types(T)]
pub struct Signal<T: 'static> {
    cell: &'static RefCell<T>,
}

impl<T> Clone for Signal<T> {
    fn clone(&self) -> (r: Self)
        ensures
            r == *self,
    {
        *self
    }
}

impl<T> Copy for Signal<T> {
}

/// Creates a signal holding `v`.
pub fn signal<T>(v: T) -> Signal<T> {
    Signal { cell: box_leak(Box::new(cell_new(v))) }
}

impl<T> Signal<T> {
    /// The current value (a clone).
    pub fn get(&self) -> T where T: Clone {
        cell_into_inner(cell_snapshot(self.cell))
    }

    /// Replaces the value; every handle to this signal reads `v` from now on.
    pub fn set(&self, v: T) {
        let _old = cell_replace(self.cell, v);
    }

}

} // verus!
