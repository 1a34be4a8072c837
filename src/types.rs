//! Small value types shared by the task model.
use vstd::prelude::*;

verus! {

/// How important a task is.
#[derive(Clone, Copy, Debug, PartialEq, Eq, Structural)]
pub enum Priority {
    Low,
    Medium,
    High,
}

} // verus!
