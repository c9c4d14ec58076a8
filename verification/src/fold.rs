//! The status fold: one pure function decides every shown status, and a sort bucket per
//! status puts attention-needing sessions first.
use vstd::prelude::*;

use crate::discovery::{NativeStatus, NativeStatusView};

verus! {

/// Busy with no transcript append for longer than this → `Stalled`.
pub const STALL_AFTER_SECS: u64 = 300;

/// The shown status vocabulary.
#[derive(Debug, Clone, Copy, PartialEq, Eq, Structural)]
pub enum Status {
    /// A pending question — the maintainer's answer is blocking the session.
    NeedsAnswer,
    /// Native `waiting` — blocked on input the transcript can't show.
    Waiting,
    /// Busy but the transcript stopped growing.
    Stalled,
    /// A native status string this build doesn't know — parser drift.
    Unknown,
    /// Processing, and the transcript is moving.
    Working,
    /// Waiting at the prompt.
    Idle,
    /// The user dropped to shell mode.
    Shell,
}

/// The fold table, first match wins: a pending question beats everything; a busy session whose
/// transcript has been silent for more than `STALL_AFTER_SECS` is stalled.
pub open spec fn status_spec(native: NativeStatusView, pending_question: bool, age: Option<u64>) -> Status {
    if pending_question {
        Status::NeedsAnswer
    } else {
        match native {
            NativeStatusView::Busy => match age {
                Some(a) => if a > STALL_AFTER_SECS {
                    Status::Stalled
                } else {
                    Status::Working
                },
                None => Status::Working,
            },
            NativeStatusView::Idle => Status::Idle,
            NativeStatusView::Shell => Status::Shell,
            NativeStatusView::Waiting => Status::Waiting,
            NativeStatusView::Other(_) => Status::Unknown,
        }
    }
}

/// Fold (native status × pending question × transcript age) into the shown status.
pub fn status(native: &NativeStatus, pending_question: bool, secs_since_append: Option<u64>) -> (r:
    Status)
    ensures
        r == status_spec(native@, pending_question, secs_since_append),
{
    if pending_question {
        return Status::NeedsAnswer;
    }
    match native {
        NativeStatus::Busy => match secs_since_append {
            Some(age) => if age > STALL_AFTER_SECS {
                Status::Stalled
            } else {
                Status::Working
            },
            None => Status::Working,
        },
        NativeStatus::Idle => Status::Idle,
        NativeStatus::Shell => Status::Shell,
        NativeStatus::Waiting => Status::Waiting,
        NativeStatus::Other(_) => Status::Unknown,
    }
}

/// Sort bucket of a status: lower is higher on the board.
pub open spec fn sort_key_spec(s: Status) -> u8 {
    match s {
        Status::NeedsAnswer => 0,
        Status::Waiting => 1,
        Status::Stalled => 2,
        Status::Unknown => 3,
        Status::Working => 4,
        Status::Idle => 5,
        Status::Shell => 6,
    }
}

/// Sort bucket: lower = higher on the board.
pub fn sort_key(status: Status) -> (r: u8)
    ensures
        r == sort_key_spec(status),
{
    match status {
        Status::NeedsAnswer => 0,
        Status::Waiting => 1,
        Status::Stalled => 2,
        Status::Unknown => 3,
        Status::Working => 4,
        Status::Idle => 5,
        Status::Shell => 6,
    }
}

/// The variant name of a status (the snapshot's `status` field).
pub open spec fn status_name_spec(s: Status) -> Seq<char> {
    match s {
        Status::NeedsAnswer => "NeedsAnswer"@,
        Status::Waiting => "Waiting"@,
        Status::Stalled => "Stalled"@,
        Status::Unknown => "Unknown"@,
        Status::Working => "Working"@,
        Status::Idle => "Idle"@,
        Status::Shell => "Shell"@,
    }
}

impl Status {
    /// The exact variant name.
    pub fn name(&self) -> (r: &'static str)
        ensures
            r@ == status_name_spec(*self),
    {
        match self {
            Status::NeedsAnswer => "NeedsAnswer",
            Status::Waiting => "Waiting",
            Status::Stalled => "Stalled",
            Status::Unknown => "Unknown",
            Status::Working => "Working",
            Status::Idle => "Idle",
            Status::Shell => "Shell",
        }
    }
}

/// Every status has its own snapshot name, the variant's identifier: distinct statuses never
/// share one.
pub proof fn status_names_are_distinct(a: Status, b: Status)
    ensures
        status_name_spec(a) == status_name_spec(b) ==> a == b,
        status_name_spec(a) == match a {
            Status::NeedsAnswer => "NeedsAnswer"@,
            Status::Waiting => "Waiting"@,
            Status::Stalled => "Stalled"@,
            Status::Unknown => "Unknown"@,
            Status::Working => "Working"@,
            Status::Idle => "Idle"@,
            Status::Shell => "Shell"@,
        },
{
    reveal_strlit("NeedsAnswer");
    reveal_strlit("Waiting");
    reveal_strlit("Stalled");
    reveal_strlit("Unknown");
    reveal_strlit("Working");
    reveal_strlit("Idle");
    reveal_strlit("Shell");
    let x = status_name_spec(a);
    let y = status_name_spec(b);
    if x == y {
        assert(x.len() == y.len());
        assert(x[0] == y[0]);
        assert(x[1] == y[1]);
    }
}

/// Distinct statuses sort into distinct buckets, so the bucket order is a total order on
/// statuses.
pub proof fn sort_key_is_injective(a: Status, b: Status)
    ensures
        sort_key_spec(a) == sort_key_spec(b) <==> a == b,
{
}

/// The buckets run in attention order: needs-answer, waiting, stalled, unknown, working, idle,
/// shell.
pub proof fn sort_key_orders_attention_first()
    ensures
        sort_key_spec(Status::NeedsAnswer) < sort_key_spec(Status::Waiting),
        sort_key_spec(Status::Waiting) < sort_key_spec(Status::Stalled),
        sort_key_spec(Status::Stalled) < sort_key_spec(Status::Unknown),
        sort_key_spec(Status::Unknown) < sort_key_spec(Status::Working),
        sort_key_spec(Status::Working) < sort_key_spec(Status::Idle),
        sort_key_spec(Status::Idle) < sort_key_spec(Status::Shell),
{
}

/// A pending question is shown as `NeedsAnswer` whatever the native status and transcript age.
pub proof fn pending_question_wins(native: NativeStatusView, age: Option<u64>)
    ensures
        status_spec(native, true, age) == Status::NeedsAnswer,
{
}

/// Without a pending question, a busy session is `Stalled` exactly when its transcript has been
/// silent for more than `STALL_AFTER_SECS`, and `Working` otherwise (also with no transcript).
pub proof fn busy_stalls_only_past_the_window(age: Option<u64>)
    ensures
        status_spec(NativeStatusView::Busy, false, age) == (if age matches Some(a) && a
            > STALL_AFTER_SECS {
            Status::Stalled
        } else {
            Status::Working
        }),
{
}

/// An unknown native status is never hidden: without a pending question it shows as `Unknown`.
pub proof fn unknown_native_status_is_surfaced(other: Seq<char>, age: Option<u64>)
    ensures
        status_spec(NativeStatusView::Other(other), false, age) == Status::Unknown,
{
}

} // verus!
