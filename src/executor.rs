//! The decisions of one virtual user: which step runs next, how much time it
//! may take, and what the user's status becomes after each step.
use vstd::prelude::*;

use crate::flow::StepKind;
use crate::status::{FunctionStatus, TaskOutcome};

verus! {

/// How a dispatched step ended.
#[derive(Clone, Copy, Debug, PartialEq, Eq, Structural)]
pub enum StepResult {
    /// The step completed and passed.
    Passed,
    /// The step completed and reported failure (an HTTP transport error).
    Failed,
    /// The step could not run: a script, parse or interpolation error.
    Error,
}

/// The status of a user whose steps so far ended as in `h`.
pub open spec fn user_status(h: Seq<StepResult>) -> FunctionStatus {
    if forall|i: int| 0 <= i < h.len() ==> h[i] == StepResult::Passed {
        FunctionStatus::Passed
    } else {
        FunctionStatus::Failed
    }
}

/// Milliseconds in `secs` seconds, saturating at the largest `u64`.
pub open spec fn millis_of(secs: u64) -> int {
    if secs * 1000 <= u64::MAX {
        secs * 1000
    } else {
        u64::MAX as int
    }
}

/// Converts seconds to milliseconds, saturating.
pub fn secs_to_millis(secs: u64) -> (r: u64)
    ensures
        r == millis_of(secs),
{
    if secs <= u64::MAX / 1000 {
        secs * 1000
    } else {
        u64::MAX
    }
}

/// Time left before `deadline_ms` at `now_ms`; none once it has passed.
pub fn remaining_ms(deadline_ms: u64, now_ms: u64) -> (r: Option<u64>)
    ensures
        now_ms < deadline_ms ==> r == Some((deadline_ms - now_ms) as u64),
        now_ms >= deadline_ms ==> r.is_none(),
{
    if now_ms < deadline_ms {
        Some(deadline_ms - now_ms)
    } else {
        None
    }
}

/// Whether a virtual user may run a step of this kind. A load generator
/// inside a user's steps is refused: the user ends with an error there.
pub fn runs_in_user(kind: StepKind) -> (r: bool)
    ensures
        r == (kind != StepKind::LoadGen),
{
    match kind {
        StepKind::LoadGen => false,
        _ => true,
    }
}

/// What the user does next.
#[derive(Clone, Copy, Debug, PartialEq, Eq, Structural)]
pub enum NextStep {
    /// Run the step at `index`, which may take at most `remaining_ms`.
    Run { index: usize, remaining_ms: u64 },
    /// Stop, with this status.
    Finish(FunctionStatus),
}

/// The progress of one virtual user through its steps. Times are
/// milliseconds since the user started.
pub struct UserRun {
    pub steps: usize,
    pub next: usize,
    pub deadline_ms: u64,
    pub status: FunctionStatus,
    pub stopped: bool,
    /// How each step that ran ended, in order.
    pub history: Ghost<Seq<StepResult>>,
}

impl UserRun {
    pub open spec fn wf(&self) -> bool {
        &&& self.next <= self.steps
        &&& self.history@.len() == self.next
        &&& self.status == user_status(self.history@)
        &&& self.stopped <==> self.status == FunctionStatus::Failed
    }

    /// A user with `steps` steps to run within `timeout_secs` seconds.
    pub fn new(steps: usize, timeout_secs: u64) -> (r: UserRun)
        ensures
            r.wf(),
            r.steps == steps,
            r.next == 0,
            r.deadline_ms == millis_of(timeout_secs),
            r.status == FunctionStatus::Passed,
    {
        UserRun {
            steps,
            next: 0,
            deadline_ms: secs_to_millis(timeout_secs),
            status: FunctionStatus::Passed,
            stopped: false,
            history: Ghost(Seq::empty()),
        }
    }

    /// Decides at `now_ms` whether another step starts. None starts once
    /// the deadline has come, after a failure, or when the steps are done.
    pub fn next_action(&self, now_ms: u64) -> (r: NextStep)
        requires
            self.wf(),
        ensures
            match r {
                NextStep::Run { index, remaining_ms } => {
                    &&& now_ms < self.deadline_ms
                    &&& !self.stopped
                    &&& index == self.next < self.steps
                    &&& remaining_ms == self.deadline_ms - now_ms
                },
                NextStep::Finish(s) => {
                    &&& s == self.status
                    &&& (self.stopped || self.next >= self.steps || now_ms >= self.deadline_ms)
                },
            },
    {
        if self.stopped || self.next >= self.steps || now_ms >= self.deadline_ms {
            NextStep::Finish(self.status)
        } else {
            NextStep::Run { index: self.next, remaining_ms: self.deadline_ms - now_ms }
        }
    }

    /// Records how the step that was started ended.
    pub fn record(&mut self, result: StepResult)
        requires
            old(self).wf(),
            !old(self).stopped,
            old(self).next < old(self).steps,
        ensures
            final(self).wf(),
            final(self).steps == old(self).steps,
            final(self).deadline_ms == old(self).deadline_ms,
            final(self).next == old(self).next + 1,
            final(self).history@ == old(self).history@.push(result),
            final(self).stopped == (result != StepResult::Passed),
    {
        let ghost h = self.history@.push(result);
        self.next = self.next + 1;
        self.history = Ghost(h);
        match result {
            StepResult::Passed => {
                assert forall|i: int| 0 <= i < h.len() implies h[i] == StepResult::Passed by {
                    if i < h.len() - 1 {
                        assert(old(self).history@[i] == h[i]);
                    }
                }
            },
            _ => {
                self.status = FunctionStatus::Failed;
                self.stopped = true;
                assert(h[h.len() - 1] != StepResult::Passed);
            },
        }
    }
}

/// A load generator run passes exactly when every step of every user
/// passed: one failed step anywhere makes the whole run fail.
pub proof fn lemma_status_monotonicity(users: Seq<UserRun>, outcomes: Seq<TaskOutcome>)
    requires
        users.len() == outcomes.len(),
        forall|i: int| 0 <= i < users.len() ==> #[trigger] users[i].wf(),
        forall|i: int|
            0 <= i < users.len() ==> #[trigger] outcomes[i] == TaskOutcome::Finished(
                users[i].status,
            ),
    ensures
        (forall|i: int| 0 <= i < outcomes.len() ==> #[trigger] outcomes[i].passed()) <==> (forall|
            i: int,
            j: int,
        | 0 <= i < users.len() && 0 <= j < users[i].history@.len() ==> #[trigger] users[i].history@[j]
            == StepResult::Passed),
{
    if forall|i: int| 0 <= i < outcomes.len() ==> #[trigger] outcomes[i].passed() {
        assert forall|i: int, j: int|
            0 <= i < users.len() && 0 <= j < users[i].history@.len() implies #[trigger] users[i].history@[j]
            == StepResult::Passed by {
            assert(outcomes[i].passed());
            assert(users[i].wf());
        }
    }
    if forall|i: int, j: int|
        0 <= i < users.len() && 0 <= j < users[i].history@.len() ==> #[trigger] users[i].history@[j]
            == StepResult::Passed {
        assert forall|i: int| 0 <= i < outcomes.len() implies #[trigger] outcomes[i].passed() by {
            assert(users[i].wf());
            assert forall|j: int| 0 <= j < users[i].history@.len() implies users[i].history@[j]
                == StepResult::Passed by {
                assert(users[i].history@[j] == StepResult::Passed);
            }
        }
    }
}

} // verus!
