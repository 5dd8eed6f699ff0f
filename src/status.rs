use vstd::prelude::*;

verus! {

/// The result of running a step, a virtual user or a load generator block.
#[derive(Clone, Copy, Debug, PartialEq, Eq, Structural)]
pub enum FunctionStatus {
    Passed,
    Failed,
}

/// How one spawned virtual-user task ended, as seen when it is joined.
#[derive(Clone, Copy, Debug, PartialEq, Eq, Structural)]
pub enum TaskOutcome {
    /// The user ran and reported a status.
    Finished(FunctionStatus),
    /// The user stopped with an error instead of a status.
    Errored,
    /// The task could not be joined.
    JoinFailed,
}

impl TaskOutcome {
    pub open spec fn passed(self) -> bool {
        self == TaskOutcome::Finished(FunctionStatus::Passed)
    }
}

/// Number of tasks among the first `n` outcomes that passed.
pub open spec fn count_passed(s: Seq<TaskOutcome>, n: int) -> nat
    decreases n,
{
    if n <= 0 {
        0
    } else {
        count_passed(s, n - 1) + if s[n - 1].passed() {
            1nat
        } else {
            0nat
        }
    }
}

/// Totals printed at the end of a load generator run, with its status.
#[derive(Clone, Copy, Debug, PartialEq, Eq, Structural)]
pub struct RunSummary {
    pub total: u64,
    pub passed: u64,
    pub failed: u64,
    pub status: FunctionStatus,
}

pub proof fn lemma_count_passed_bounds(s: Seq<TaskOutcome>, n: int)
    requires
        0 <= n <= s.len(),
    ensures
        count_passed(s, n) <= n,
        count_passed(s, n) == n <==> forall|i: int| 0 <= i < n ==> #[trigger] s[i].passed(),
    decreases n,
{
    if n > 0 {
        lemma_count_passed_bounds(s, n - 1);
        if count_passed(s, n) == n {
            assert forall|i: int| 0 <= i < n implies #[trigger] s[i].passed() by {
                if i < n - 1 {
                }
            }
        }
    }
}

/// Joins the outcomes of all virtual users of a run: every outcome is
/// counted, and the run passes exactly when every user passed.
pub fn summarize(outcomes: &Vec<TaskOutcome>) -> (r: RunSummary)
    requires
        outcomes.len() <= u64::MAX,
    ensures
        r.total == outcomes.len(),
        r.passed == count_passed(outcomes@, outcomes.len() as int),
        r.failed == r.total - r.passed,
        (r.status == FunctionStatus::Passed) <==> (forall|i: int|
            0 <= i < outcomes.len() ==> #[trigger] outcomes@[i].passed()),
{
    let mut passed: u64 = 0;
    let mut failed: u64 = 0;
    let mut status = FunctionStatus::Passed;
    let mut i: usize = 0;
    while i < outcomes.len()
        invariant
            i <= outcomes.len() <= u64::MAX,
            passed == count_passed(outcomes@, i as int),
            passed + failed == i,
            (status == FunctionStatus::Passed) <==> (forall|j: int|
                0 <= j < i ==> #[trigger] outcomes@[j].passed()),
        decreases outcomes.len() - i,
    {
        proof {
            lemma_count_passed_bounds(outcomes@, i as int);
        }
        match outcomes[i] {
            TaskOutcome::Finished(FunctionStatus::Passed) => {
                passed = passed + 1;
            },
            _ => {
                failed = failed + 1;
                status = FunctionStatus::Failed;
            },
        }
        i = i + 1;
    }
    RunSummary { total: i as u64, passed, failed, status }
}

} // verus!
