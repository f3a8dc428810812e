//! The `TaskPriority` type and its wire-token codec.

use vstd::prelude::*;

verus! {

/// Priority of a task. The wire representation is a single letter; any
/// other token is rejected by the decoder. Absence of the field means "no
/// priority" and is not a variant.
#[derive(Clone, Copy, Debug, PartialEq, Eq, Structural)]
pub enum TaskPriority {
    /// Low priority, wire token `L`.
    Low,
    /// Medium priority, wire token `M`.
    Medium,
    /// High priority, wire token `H`.
    High,
}

/// The priority encoded by a wire token, if the token is one of the three
/// recognized letters.
pub open spec fn priority_of_token(s: Seq<char>) -> Option<TaskPriority> {
    if s == "L"@ {
        Some(TaskPriority::Low)
    } else if s == "M"@ {
        Some(TaskPriority::Medium)
    } else if s == "H"@ {
        Some(TaskPriority::High)
    } else {
        None
    }
}

/// The wire token of a priority.
pub open spec fn priority_token(p: TaskPriority) -> Seq<char> {
    match p {
        TaskPriority::Low => "L"@,
        TaskPriority::Medium => "M"@,
        TaskPriority::High => "H"@,
    }
}

/// Every priority round-trips through its wire token.
pub proof fn lemma_priority_token_round_trip(p: TaskPriority)
    ensures
        priority_of_token(priority_token(p)) == Some(p),
{
    reveal_strlit("L");
    reveal_strlit("M");
    reveal_strlit("H");
    match p {
        TaskPriority::Low => {
        },
        TaskPriority::Medium => {
            assert("M"@[0] != "L"@[0]);
        },
        TaskPriority::High => {
            assert("H"@[0] != "L"@[0]);
            assert("H"@[0] != "M"@[0]);
        },
    }
}

impl TaskPriority {
    /// The wire token of this priority.
    pub fn token(&self) -> (r: &'static str)
        ensures
            r@ == priority_token(*self),
    {
        match self {
            TaskPriority::Low => "L",
            TaskPriority::Medium => "M",
            TaskPriority::High => "H",
        }
    }
}

} // verus!
