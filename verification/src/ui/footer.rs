//! The footer: operations in progress and recently finished.

use vstd::prelude::*;
use crate::files::file_ops::{kind_label, FileOperation, OperationStatus};
use crate::paths::{file_name_or_default, file_name_or_empty};
use crate::text::{concat, concat3};

verus! {

/// The icon of an operation's status.
pub open spec fn status_icon_text(s: OperationStatus) -> Seq<char> {
    match s {
        OperationStatus::Pending => "⏳"@,
        OperationStatus::InProgress => "⚡"@,
        OperationStatus::Completed => "✅"@,
        OperationStatus::Failed => "❌"@,
        OperationStatus::Cancelled => "🚫"@,
    }
}

/// The icon of an operation's status.
pub fn status_icon(status: OperationStatus) -> (r: &'static str)
    ensures
        r@ == status_icon_text(status),
{
    match status {
        OperationStatus::Pending => "⏳",
        OperationStatus::InProgress => "⚡",
        OperationStatus::Completed => "✅",
        OperationStatus::Failed => "❌",
        OperationStatus::Cancelled => "🚫",
    }
}

/// The line shown for an active operation: icon, kind and the source's file name.
pub fn operation_line(op: &FileOperation) -> (r: String)
    ensures
        r@ == status_icon_text(op.status) + " "@ + kind_label(op.kind) + " "@ + file_name_or_empty(
            op.source@,
        ),
{
    let head = concat3(status_icon(op.status), " ", op.kind.label());
    concat3(head.as_str(), " ", file_name_or_default(op.source.as_str()).as_str())
}

/// The line shown for a recently completed operation.
pub fn recent_line(op: &FileOperation) -> (r: String)
    ensures
        r@ == "✓ "@ + kind_label(op.kind) + " "@ + file_name_or_empty(op.source@),
{
    let head = concat("✓ ", op.kind.label());
    concat3(head.as_str(), " ", file_name_or_default(op.source.as_str()).as_str())
}

/// Shown when nothing is running and nothing finished recently.
pub fn idle_label() -> (r: &'static str)
    ensures
        r@ == "Pronto"@,
{
    "Pronto"
}

/// How many completed operations the footer lists.
pub const RECENT_SHOWN: usize = 3;

} // verus!
