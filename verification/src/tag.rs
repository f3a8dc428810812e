//! Tags of a task.

use vstd::prelude::*;

verus! {

/// A tag is a free-form string; the codec carries it opaquely.
pub type Tag = String;

} // verus!
