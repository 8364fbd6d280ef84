//! Copies that keep the view: what a verified caller may rely on where `Clone`
//! promises nothing.

use vstd::prelude::*;
use crate::bytes::copy_bytes;

verus! {

/// A value that can be copied into a new value with the same view.
pub trait Duplicate: View + Sized {
    fn duplicate(&self) -> (copy: Self)
        ensures
            copy@ == self@,
    ;
}

impl Duplicate for u64 {
    fn duplicate(&self) -> (copy: Self) {
        *self
    }
}

impl Duplicate for Vec<u8> {
    fn duplicate(&self) -> (copy: Self) {
        copy_bytes(self)
    }
}

} // verus!
