//! The `TaskStatus` type and its wire-token codec.

use vstd::prelude::*;

verus! {

/// Status of a task. The wire representation is a lowercase word; any other
/// token is rejected by the decoder.
#[derive(Clone, Copy, Debug, PartialEq, Eq, Structural)]
pub enum TaskStatus {
    /// The task is pending.
    Pending,
    /// The task is deleted.
    Deleted,
    /// The task is completed.
    Completed,
    /// The task is waiting.
    Waiting,
    /// The task recurs.
    Recurring,
}

/// The status encoded by a wire token, if the token is one of the five
/// recognized words.
pub open spec fn status_of_token(s: Seq<char>) -> Option<TaskStatus> {
    if s == "pending"@ {
        Some(TaskStatus::Pending)
    } else if s == "deleted"@ {
        Some(TaskStatus::Deleted)
    } else if s == "completed"@ {
        Some(TaskStatus::Completed)
    } else if s == "waiting"@ {
        Some(TaskStatus::Waiting)
    } else if s == "recurring"@ {
        Some(TaskStatus::Recurring)
    } else {
        None
    }
}

/// The wire token of a status.
pub open spec fn status_token(s: TaskStatus) -> Seq<char> {
    match s {
        TaskStatus::Pending => "pending"@,
        TaskStatus::Deleted => "deleted"@,
        TaskStatus::Completed => "completed"@,
        TaskStatus::Waiting => "waiting"@,
        TaskStatus::Recurring => "recurring"@,
    }
}

/// Every status round-trips through its wire token.
pub proof fn lemma_status_token_round_trip(s: TaskStatus)
    ensures
        status_of_token(status_token(s)) == Some(s),
{
    reveal_strlit("pending");
    reveal_strlit("deleted");
    reveal_strlit("completed");
    reveal_strlit("waiting");
    reveal_strlit("recurring");
    match s {
        TaskStatus::Pending => {
            assert(status_token(s) == "pending"@);
        }
        TaskStatus::Deleted => {
            assert(status_token(s) != "pending"@) by {
                assert("deleted"@[0] != "pending"@[0]);
            }
        }
        TaskStatus::Completed => {
            assert(status_token(s) != "pending"@) by {
                assert("completed"@.len() != "pending"@.len());
            }
            assert(status_token(s) != "deleted"@) by {
                assert("completed"@.len() != "deleted"@.len());
            }
        }
        TaskStatus::Waiting => {
            assert(status_token(s) != "pending"@) by {
                assert("waiting"@[0] != "pending"@[0]);
            }
            assert(status_token(s) != "deleted"@) by {
                assert("waiting"@[0] != "deleted"@[0]);
            }
            assert(status_token(s) != "completed"@) by {
                assert("waiting"@.len() != "completed"@.len());
            }
        }
        TaskStatus::Recurring => {
            assert(status_token(s) != "pending"@) by {
                assert("recurring"@[0] != "pending"@[0]);
            }
            assert(status_token(s) != "deleted"@) by {
                assert("recurring"@[0] != "deleted"@[0]);
            }
            assert(status_token(s) != "completed"@) by {
                assert("recurring"@[0] != "completed"@[0]);
            }
            assert(status_token(s) != "waiting"@) by {
                assert("recurring"@[0] != "waiting"@[0]);
            }
        }
    }
}

/// The human-readable, capitalized name of a status.
pub open spec fn status_display_name(s: TaskStatus) -> Seq<char> {
    match s {
        TaskStatus::Pending => "Pending"@,
        TaskStatus::Deleted => "Deleted"@,
        TaskStatus::Completed => "Completed"@,
        TaskStatus::Waiting => "Waiting"@,
        TaskStatus::Recurring => "Recurring"@,
    }
}

impl TaskStatus {
    /// The human-readable, capitalized name of this status.
    pub fn display_name(&self) -> (r: &'static str)
        ensures
            r@ == status_display_name(*self),
    {
        match self {
            TaskStatus::Pending => "Pending",
            TaskStatus::Deleted => "Deleted",
            TaskStatus::Completed => "Completed",
            TaskStatus::Waiting => "Waiting",
            TaskStatus::Recurring => "Recurring",
        }
    }

    /// The wire token of this status.
    pub fn token(&self) -> (r: &'static str)
        ensures
            r@ == status_token(*self),
    {
        match self {
            TaskStatus::Pending => "pending",
            TaskStatus::Deleted => "deleted",
            TaskStatus::Completed => "completed",
            TaskStatus::Waiting => "waiting",
            TaskStatus::Recurring => "recurring",
        }
    }
}

} // verus!
