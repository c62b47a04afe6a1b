//! A single-hart cell whose value the kernel reads and replaces with
//! interrupts masked.
use vstd::prelude::*;

verus! {

pub struct IrqCell<T> {
    pub inner: T,
}

impl<T> IrqCell<T> {
    pub fn new(value: T) -> (r: Self)
        ensures
            r.inner == value,
    {
        Self { inner: value }
    }
}

} // verus!
