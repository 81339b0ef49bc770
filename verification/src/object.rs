//! The closed set of runtime values the evaluator produces and consumes.

use vstd::prelude::*;

verus! {

/// A runtime value: pure data, copied as needed.
#[derive(Debug, Clone, Copy, PartialEq, Eq, Structural)]
pub enum Object {
    Integer(i32),
    Boolean(bool),
}

} // verus!
