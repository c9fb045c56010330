//! File operations in progress or finished, and the bounded history of them.

use vstd::prelude::*;
use crate::navigation::bounded_push;
use crate::stamps::{new_uuid, now_micros};

verus! {

/// What an operation does.
#[derive(Debug, Clone, Copy, PartialEq, Eq, Structural)]
pub enum OperationKind {
    Copy,
    Move,
    Delete,
    Rename,
    Compress,
    Extract,
}

/// The display name of an operation kind.
pub open spec fn kind_label(k: OperationKind) -> Seq<char> {
    match k {
        OperationKind::Copy => "Copiar"@,
        OperationKind::Move => "Mover"@,
        OperationKind::Delete => "Excluir"@,
        OperationKind::Rename => "Renomear"@,
        OperationKind::Compress => "Comprimir"@,
        OperationKind::Extract => "Extrair"@,
    }
}

impl OperationKind {
    /// The display name.
    pub fn label(&self) -> (r: &'static str)
        ensures
            r@ == kind_label(*self),
    {
        match self {
            OperationKind::Copy => "Copiar",
            OperationKind::Move => "Mover",
            OperationKind::Delete => "Excluir",
            OperationKind::Rename => "Renomear",
            OperationKind::Compress => "Comprimir",
            OperationKind::Extract => "Extrair",
        }
    }
}

/// Where an operation stands.
#[derive(Debug, Clone, Copy, PartialEq, Eq, Structural)]
pub enum OperationStatus {
    Pending,
    InProgress,
    Completed,
    Failed,
    Cancelled,
}

/// Progress is kept in millionths: this is done.
pub const PROGRESS_DONE: u32 = 1_000_000;

/// An operation on a file.
pub struct FileOperation {
    /// Random identifier.
    pub id: u128,
    pub kind: OperationKind,
    pub source: String,
    pub destination: Option<String>,
    pub status: OperationStatus,
    /// Progress in millionths, from 0 to `PROGRESS_DONE`.
    pub progress: u32,
    /// Start time, in microseconds since the Unix epoch.
    pub started_at: i64,
    /// End time, in microseconds since the Unix epoch.
    pub finished_at: Option<i64>,
    pub error: Option<String>,
}

/// `p` clamped into the range of progress values.
pub open spec fn clamped_progress(p: int) -> int {
    if p < 0 {
        0
    } else if p > PROGRESS_DONE {
        PROGRESS_DONE as int
    } else {
        p
    }
}

impl FileOperation {
    /// A pending operation, started now, with a fresh identifier.
    pub fn new(kind: OperationKind, source: String, destination: Option<String>) -> (op: Self)
        ensures
            op.kind == kind,
            op.source == source,
            op.destination == destination,
            op.status == OperationStatus::Pending,
            op.progress == 0,
            op.finished_at is None,
            op.error is None,
    {
        FileOperation {
            id: new_uuid(),
            kind,
            source,
            destination,
            status: OperationStatus::Pending,
            progress: 0,
            started_at: now_micros(),
            finished_at: None,
            error: None,
        }
    }

    /// Marks the operation as running.
    pub fn mark_in_progress(&mut self)
        ensures
            *final(self) == (FileOperation { status: OperationStatus::InProgress, ..*old(self) }),
    {
        self.status = OperationStatus::InProgress;
    }

    /// Sets the progress (in millionths), clamped into `0..=PROGRESS_DONE`.
    pub fn update_progress(&mut self, progress: i64)
        ensures
            *final(self) == (FileOperation {
                progress: clamped_progress(progress as int) as u32,
                ..*old(self)
            }),
    {
        self.progress = if progress < 0 {
            0
        } else if progress > PROGRESS_DONE as i64 {
            PROGRESS_DONE
        } else {
            progress as u32
        };
    }

    /// Marks the operation as done, now.
    pub fn mark_completed(&mut self)
        ensures
            final(self).status == OperationStatus::Completed,
            final(self).progress == PROGRESS_DONE,
            final(self).finished_at is Some,
            final(self).id == old(self).id,
            final(self).kind == old(self).kind,
            final(self).source == old(self).source,
            final(self).destination == old(self).destination,
            final(self).started_at == old(self).started_at,
            final(self).error == old(self).error,
    {
        self.status = OperationStatus::Completed;
        self.progress = PROGRESS_DONE;
        self.finished_at = Some(now_micros());
    }

    /// Marks the operation as failed, now, with the error.
    pub fn mark_failed(&mut self, error: String)
        ensures
            final(self).status == OperationStatus::Failed,
            final(self).finished_at is Some,
            final(self).error == Some(error),
            final(self).id == old(self).id,
            final(self).kind == old(self).kind,
            final(self).source == old(self).source,
            final(self).destination == old(self).destination,
            final(self).started_at == old(self).started_at,
            final(self).progress == old(self).progress,
    {
        self.status = OperationStatus::Failed;
        self.finished_at = Some(now_micros());
        self.error = Some(error);
    }
}

/// The operation is still to be done or running.
pub open spec fn is_active(op: FileOperation) -> bool {
    op.status == OperationStatus::Pending || op.status == OperationStatus::InProgress
}

/// The active operations of `s`, in order.
pub open spec fn active_of(s: Seq<FileOperation>) -> Seq<FileOperation>
    decreases s.len(),
{
    if s.len() == 0 {
        s
    } else if is_active(s.last()) {
        active_of(s.drop_last()).push(s.last())
    } else {
        active_of(s.drop_last())
    }
}

/// At most `count` completed operations of `s`, newest first.
pub open spec fn recent_completed_of(s: Seq<FileOperation>, count: nat) -> Seq<FileOperation>
    decreases s.len(),
{
    if count == 0 || s.len() == 0 {
        Seq::empty()
    } else if s.last().status == OperationStatus::Completed {
        seq![s.last()] + recent_completed_of(s.drop_last(), (count - 1) as nat)
    } else {
        recent_completed_of(s.drop_last(), count)
    }
}

/// Recent operations, oldest first, at most `max_history` of them.
pub struct OperationHistory {
    pub operations: Vec<FileOperation>,
    pub max_history: usize,
}

impl OperationHistory {
    /// An empty history keeping at most `max_history` operations.
    pub fn new(max_history: usize) -> (h: Self)
        ensures
            h.operations@ == Seq::<FileOperation>::empty(),
            h.max_history == max_history,
    {
        OperationHistory { operations: Vec::new(), max_history }
    }

    /// Records an operation; the oldest is dropped when there are too many.
    pub fn add(&mut self, op: FileOperation)
        ensures
            final(self).operations@ == bounded_push(
                old(self).operations@,
                op,
                old(self).max_history as nat,
            ),
            final(self).max_history == old(self).max_history,
    {
        self.operations.push(op);
        if self.operations.len() > self.max_history {
            self.operations.remove(0);
            proof {
                assert(self.operations@ =~= bounded_push(
                    old(self).operations@,
                    op,
                    old(self).max_history as nat,
                ));
            }
        }
    }

    /// The pending and running operations, in order.
    pub fn active_operations(&self) -> (r: Vec<&FileOperation>)
        ensures
            r@.len() == active_of(self.operations@).len(),
            forall|i: int| 0 <= i < r@.len() ==> *r@[i] == active_of(self.operations@)[i],
    {
        let mut r: Vec<&FileOperation> = Vec::new();
        let mut i: usize = 0;
        while i < self.operations.len()
            invariant
                i <= self.operations@.len(),
                r@.len() == active_of(self.operations@.subrange(0, i as int)).len(),
                forall|j: int|
                    0 <= j < r@.len() ==> *r@[j] == active_of(self.operations@.subrange(0, i as int))[j],
            decreases self.operations@.len() - i,
        {
            let op = &self.operations[i];
            proof {
                assert(self.operations@.subrange(0, i + 1).drop_last() =~= self.operations@.subrange(
                    0,
                    i as int,
                ));
            }
            if op.status == OperationStatus::Pending || op.status == OperationStatus::InProgress {
                r.push(op);
            }
            i = i + 1;
        }
        proof {
            assert(self.operations@.subrange(0, self.operations@.len() as int) =~= self.operations@);
        }
        r
    }

    /// The `count` most recent completed operations, newest first.
    pub fn recent_completed(&self, count: usize) -> (r: Vec<&FileOperation>)
        ensures
            r@.len() == recent_completed_of(self.operations@, count as nat).len(),
            forall|i: int|
                0 <= i < r@.len() ==> *r@[i] == recent_completed_of(self.operations@, count as nat)[i],
    {
        let mut r: Vec<&FileOperation> = Vec::new();
        let mut i: usize = self.operations.len();
        let mut left: usize = count;
        proof {
            assert(self.operations@.subrange(0, i as int) =~= self.operations@);
        }
        while i > 0 && left > 0
            invariant
                i <= self.operations@.len(),
                left <= count,
                r@.len() + recent_completed_of(self.operations@.subrange(0, i as int), left as nat).len()
                    == recent_completed_of(self.operations@, count as nat).len(),
                forall|j: int|
                    0 <= j < r@.len() ==> *r@[j] == recent_completed_of(
                        self.operations@,
                        count as nat,
                    )[j],
                forall|j: int|
                    0 <= j < recent_completed_of(self.operations@.subrange(0, i as int), left as nat).len()
                        ==> recent_completed_of(self.operations@.subrange(0, i as int), left as nat)[j]
                        == recent_completed_of(self.operations@, count as nat)[r@.len() + j],
            decreases i,
        {
            let ghost pre = self.operations@.subrange(0, i as int);
            let op = &self.operations[i - 1];
            proof {
                assert(pre.drop_last() =~= self.operations@.subrange(0, i - 1));
                assert(pre.last() == *op);
            }
            if op.status == OperationStatus::Completed {
                proof {
                    let rest = recent_completed_of(pre.drop_last(), (left - 1) as nat);
                    assert(recent_completed_of(pre, left as nat) =~= seq![*op] + rest);
                    assert forall|j: int| 0 <= j < rest.len() implies rest[j] == recent_completed_of(
                        self.operations@,
                        count as nat,
                    )[r@.len() + 1 + j] by {
                        assert(recent_completed_of(pre, left as nat)[j + 1] == rest[j]);
                    }
                    assert(recent_completed_of(pre, left as nat)[0] == *op);
                }
                r.push(op);
                left = left - 1;
            }
            i = i - 1;
        }
        proof {
            assert(recent_completed_of(self.operations@.subrange(0, i as int), left as nat).len() == 0);
        }
        r
    }
}

impl Default for OperationHistory {
    fn default() -> (h: Self)
        ensures
            h.operations@ == Seq::<FileOperation>::empty(),
            h.max_history == 0,
    {
        OperationHistory::new(0)
    }
}

/// Every listed active operation is pending or running, and every pending or
/// running operation of the history is listed.
pub proof fn law_active_operations_exact(s: Seq<FileOperation>)
    ensures
        forall|i: int| 0 <= i < active_of(s).len() ==> is_active(#[trigger] active_of(s)[i]),
        forall|i: int| 0 <= i < s.len() && is_active(#[trigger] s[i]) ==> active_of(s).contains(s[i]),
    decreases s.len(),
{
    if s.len() > 0 {
        let t = s.drop_last();
        law_active_operations_exact(t);
        assert forall|i: int| 0 <= i < s.len() && is_active(#[trigger] s[i]) implies active_of(
            s,
        ).contains(s[i]) by {
            if i < t.len() {
                assert(s[i] == t[i]);
                let j = choose|j: int| 0 <= j < active_of(t).len() && active_of(t)[j] == t[i];
                if is_active(s.last()) {
                    assert(active_of(s)[j] == t[i]);
                }
            } else {
                assert(active_of(s)[active_of(s).len() - 1] == s[i]);
            }
        }
    }
}

/// At most `count` recent completed operations are listed, all completed.
pub proof fn law_recent_completed_bounded(s: Seq<FileOperation>, count: nat)
    ensures
        recent_completed_of(s, count).len() <= count,
        forall|i: int|
            0 <= i < recent_completed_of(s, count).len() ==> (#[trigger] recent_completed_of(
                s,
                count,
            )[i]).status == OperationStatus::Completed,
    decreases s.len(),
{
    if count > 0 && s.len() > 0 {
        if s.last().status == OperationStatus::Completed {
            law_recent_completed_bounded(s.drop_last(), (count - 1) as nat);
            let rest = recent_completed_of(s.drop_last(), (count - 1) as nat);
            assert forall|i: int| 0 <= i < recent_completed_of(s, count).len() implies (
            #[trigger] recent_completed_of(s, count)[i]).status == OperationStatus::Completed by {
                if i > 0 {
                    assert(recent_completed_of(s, count)[i] == rest[i - 1]);
                }
            }
        } else {
            law_recent_completed_bounded(s.drop_last(), count);
        }
    }
}

} // verus!
