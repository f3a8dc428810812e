//! The project a task belongs to.

use vstd::prelude::*;

verus! {

/// A project name, typically of the dot-hierarchical form
/// `project.subproject.subsubproject`; the codec carries it opaquely.
pub type Project = String;

} // verus!
