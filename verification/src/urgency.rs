//! The urgency score of a task.

use vstd::prelude::*;

verus! {

/// An urgency score as computed by the external tool: a JSON number the
/// codec carries opaquely, without interpreting it.
pub type Urgency = crate::json::Num;

} // verus!
