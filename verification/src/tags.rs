//! The product tag record.

use vstd::prelude::*;

verus! {

/// A product tag.
#[derive(Clone, Copy, Debug, PartialEq, Eq, Structural)]
pub struct Tag {
    pub id: i32,
}

} // verus!
