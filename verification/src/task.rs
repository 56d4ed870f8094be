//! Scheduled tasks: what they are called and where they are listed.

use vstd::prelude::*;

verus! {

/// The group a task is listed under.
#[derive(Clone, Copy, Debug, PartialEq, Eq, Structural)]
pub enum TaskCategory {
    Library,
}

} // verus!
