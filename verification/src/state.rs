//! The persisted state of a run: where the run and each of its steps
//! stand, how an event moves a status, and how a run is rewound.

use vstd::prelude::*;
use vstd::string::*;
use crate::error::OrchestratorError;
use crate::text::str_equal;

verus! {

/// Where a run, or one step of it, stands.
#[derive(Clone, Copy, Debug, PartialEq, Eq, Structural)]
pub enum WorkflowStatus {
    Pending,
    InProgress,
    Completed,
    Failed,
}

/// What happens to a run or a step.
#[derive(Clone, Copy, Debug, PartialEq, Eq, Structural)]
pub enum RunEvent {
    /// Its worker was started.
    Started,
    /// Its worker ended.
    Finished { success: bool },
    /// The run was rewound to this step or to an earlier one.
    Reset,
}

/// The state machine of a run: pending, then in progress, then completed or
/// failed; a reset leads back to pending from anywhere. `None` where the
/// event has no place in the state.
pub open spec fn status_after(status: WorkflowStatus, event: RunEvent) -> Option<WorkflowStatus> {
    match event {
        RunEvent::Reset => Some(WorkflowStatus::Pending),
        RunEvent::Started => if status == WorkflowStatus::Pending {
            Some(WorkflowStatus::InProgress)
        } else {
            None
        },
        RunEvent::Finished { success } => if status == WorkflowStatus::InProgress {
            Some(
                if success {
                    WorkflowStatus::Completed
                } else {
                    WorkflowStatus::Failed
                },
            )
        } else {
            None
        },
    }
}

/// The message for a stored word that is no status.
pub open spec fn unknown_status_text(word: Seq<char>) -> Seq<char> {
    "Unknown workflow status '"@ + word + "'"@
}

impl WorkflowStatus {
    /// The word under which the status is stored.
    pub open spec fn text(self) -> Seq<char> {
        match self {
            WorkflowStatus::Pending => "pending"@,
            WorkflowStatus::InProgress => "in_progress"@,
            WorkflowStatus::Completed => "completed"@,
            WorkflowStatus::Failed => "failed"@,
        }
    }

    /// The word under which the status is stored.
    pub fn as_str(self) -> (r: &'static str)
        ensures
            r@ == self.text(),
    {
        match self {
            WorkflowStatus::Pending => "pending",
            WorkflowStatus::InProgress => "in_progress",
            WorkflowStatus::Completed => "completed",
            WorkflowStatus::Failed => "failed",
        }
    }

    /// The status that is stored under the word `word`.
    pub fn parse(word: &str) -> (r: Option<WorkflowStatus>)
        ensures
            match r {
                Some(status) => status.text() == word@,
                None => forall|status: WorkflowStatus| status.text() != word@,
            },
    {
        if str_equal(word, "pending") {
            Some(WorkflowStatus::Pending)
        } else if str_equal(word, "in_progress") {
            Some(WorkflowStatus::InProgress)
        } else if str_equal(word, "completed") {
            Some(WorkflowStatus::Completed)
        } else if str_equal(word, "failed") {
            Some(WorkflowStatus::Failed)
        } else {
            None
        }
    }

    /// The status that the store holds under `word`, or the failure of a
    /// store that holds a word which is no status.
    pub fn from_stored(word: &str) -> (r: Result<WorkflowStatus, OrchestratorError>)
        ensures
            match r {
                Ok(status) => status.text() == word@,
                Err(e) => (forall|status: WorkflowStatus| status.text() != word@) && (e
                    matches OrchestratorError::PersistenceError { reason } && reason@
                    == unknown_status_text(word@)),
            },
    {
        match WorkflowStatus::parse(word) {
            Some(status) => Ok(status),
            None => {
                let mut reason = String::from_str("Unknown workflow status '");
                reason.append(word);
                reason.append("'");
                Err(OrchestratorError::PersistenceError { reason })
            },
        }
    }

    /// The status after `event`, by the state machine of a run.
    pub fn advance(self, event: RunEvent) -> (r: Option<WorkflowStatus>)
        ensures
            r == status_after(self, event),
    {
        match event {
            RunEvent::Reset => Some(WorkflowStatus::Pending),
            RunEvent::Started => match self {
                WorkflowStatus::Pending => Some(WorkflowStatus::InProgress),
                _ => None,
            },
            RunEvent::Finished { success } => match self {
                WorkflowStatus::InProgress => if success {
                    Some(WorkflowStatus::Completed)
                } else {
                    Some(WorkflowStatus::Failed)
                },
                _ => None,
            },
        }
    }
}

/// The status that a worker's end gives its step.
pub open spec fn finished_status(success: bool) -> WorkflowStatus {
    if success {
        WorkflowStatus::Completed
    } else {
        WorkflowStatus::Failed
    }
}

/// The persisted record of one run.
#[derive(Debug)]
pub struct WorkflowRun {
    pub skill_name: String,
    pub domain: String,
    pub current_step: i64,
    pub status: WorkflowStatus,
}

/// The persisted status of one step of a run.
#[derive(Clone, Copy, Debug, PartialEq, Eq, Structural)]
pub struct StepStatusUpdate {
    pub step_id: i64,
    pub status: WorkflowStatus,
}

/// What is persisted of one skill: its run, where there is one, and the
/// status of its steps, one row for each step id.
#[derive(Debug)]
pub struct WorkflowStateResponse {
    pub run: Option<WorkflowRun>,
    pub steps: Vec<StepStatusUpdate>,
}

/// The rows with the status of the step `step_id` set to `status`: in the
/// row of that step where there is one, else in a new last row.
pub open spec fn rows_with(rows: Seq<StepStatusUpdate>, step_id: i64, status: WorkflowStatus) -> Seq<
    StepStatusUpdate,
>
    decreases rows.len(),
{
    if rows.len() == 0 {
        seq![StepStatusUpdate { step_id, status }]
    } else if rows[0].step_id == step_id {
        seq![StepStatusUpdate { step_id, status }] + rows.drop_first()
    } else {
        seq![rows[0]] + rows_with(rows.drop_first(), step_id, status)
    }
}

/// Stores the status of one step.
pub fn save_workflow_step(steps: &mut Vec<StepStatusUpdate>, step_id: i64, status: WorkflowStatus)
    ensures
        final(steps)@ == rows_with(old(steps)@, step_id, status),
{
    let mut i: usize = 0;
    proof {
        assert(steps@.subrange(0, steps@.len() as int) =~= steps@);
        assert(steps@.subrange(0, 0) + rows_with(steps@, step_id, status) =~= rows_with(
            steps@,
            step_id,
            status,
        ));
    }
    while i < steps.len()
        invariant
            i <= steps.len(),
            steps@ == old(steps)@,
            forall|k: int| 0 <= k < i ==> steps@[k].step_id != step_id,
            rows_with(old(steps)@, step_id, status) == old(steps)@.subrange(0, i as int) + rows_with(
                old(steps)@.subrange(i as int, old(steps)@.len() as int),
                step_id,
                status,
            ),
        decreases steps.len() - i,
    {
        let ghost rest = old(steps)@.subrange(i as int, old(steps)@.len() as int);
        if steps[i].step_id == step_id {
            steps.set(i, StepStatusUpdate { step_id, status });
            proof {
                assert(rest[0] == old(steps)@[i as int]);
                assert(rest.drop_first() =~= old(steps)@.subrange(
                    i + 1,
                    old(steps)@.len() as int,
                ));
                assert(steps@ =~= old(steps)@.subrange(0, i as int) + (seq![
                    StepStatusUpdate { step_id, status },
                ] + rest.drop_first()));
            }
            return ;
        }
        proof {
            assert(rest[0] == old(steps)@[i as int]);
            assert(rest.drop_first() =~= old(steps)@.subrange(i + 1, old(steps)@.len() as int));
            assert(old(steps)@.subrange(0, i + 1) =~= old(steps)@.subrange(0, i as int) + seq![
                rest[0],
            ]);
            assert(old(steps)@.subrange(0, i as int) + (seq![rest[0]] + rows_with(
                rest.drop_first(),
                step_id,
                status,
            )) =~= old(steps)@.subrange(0, i + 1) + rows_with(
                rest.drop_first(),
                step_id,
                status,
            ));
        }
        i = i + 1;
    }
    proof {
        assert(old(steps)@.subrange(i as int, old(steps)@.len() as int) =~= Seq::empty());
        assert(old(steps)@.subrange(0, i as int) =~= old(steps)@);
    }
    steps.push(StepStatusUpdate { step_id, status });
    assert(steps@ =~= old(steps)@ + seq![StepStatusUpdate { step_id, status }]);
}

/// The rows after each update of `updates` was stored, in order.
pub open spec fn rows_after(rows: Seq<StepStatusUpdate>, updates: Seq<StepStatusUpdate>) -> Seq<
    StepStatusUpdate,
>
    decreases updates.len(),
{
    if updates.len() == 0 {
        rows
    } else {
        rows_with(
            rows_after(rows, updates.drop_last()),
            updates.last().step_id,
            updates.last().status,
        )
    }
}

/// Stores a run and the status of some of its steps.
pub fn save_workflow_state(
    state: &mut WorkflowStateResponse,
    skill_name: String,
    domain: String,
    current_step: i64,
    status: WorkflowStatus,
    step_statuses: &Vec<StepStatusUpdate>,
)
    ensures
        final(state).run matches Some(run) && run.skill_name == skill_name && run.domain == domain
            && run.current_step == current_step && run.status == status,
        final(state).steps@ == rows_after(old(state).steps@, step_statuses@),
{
    state.run = Some(WorkflowRun { skill_name, domain, current_step, status });
    let mut i: usize = 0;
    while i < step_statuses.len()
        invariant
            i <= step_statuses.len(),
            state.run matches Some(run) && run.skill_name == skill_name && run.domain == domain
                && run.current_step == current_step && run.status == status,
            state.steps@ == rows_after(old(state).steps@, step_statuses@.subrange(0, i as int)),
        decreases step_statuses.len() - i,
    {
        proof {
            let grown = step_statuses@.subrange(0, i + 1);
            assert(grown.drop_last() =~= step_statuses@.subrange(0, i as int));
            assert(grown.last() == step_statuses@[i as int]);
        }
        save_workflow_step(&mut state.steps, step_statuses[i].step_id, step_statuses[i].status);
        i = i + 1;
    }
    assert(step_statuses@.subrange(0, step_statuses.len() as int) =~= step_statuses@);
}

/// The status of the step `step_id` by its row, pending where it has none.
pub open spec fn step_status(rows: Seq<StepStatusUpdate>, step_id: i64) -> WorkflowStatus
    decreases rows.len(),
{
    if rows.len() == 0 {
        WorkflowStatus::Pending
    } else if rows[0].step_id == step_id {
        rows[0].status
    } else {
        step_status(rows.drop_first(), step_id)
    }
}

/// Reads the status of one step.
pub fn get_step_status(steps: &Vec<StepStatusUpdate>, step_id: i64) -> (r: WorkflowStatus)
    ensures
        r == step_status(steps@, step_id),
{
    let mut i: usize = 0;
    assert(steps@.subrange(0, steps@.len() as int) =~= steps@);
    while i < steps.len()
        invariant
            i <= steps.len(),
            step_status(steps@, step_id) == step_status(
                steps@.subrange(i as int, steps@.len() as int),
                step_id,
            ),
        decreases steps.len() - i,
    {
        let ghost rest = steps@.subrange(i as int, steps@.len() as int);
        assert(rest[0] == steps@[i as int]);
        if steps[i].step_id == step_id {
            return steps[i].status;
        }
        assert(rest.drop_first() =~= steps@.subrange(i + 1, steps@.len() as int));
        i = i + 1;
    }
    WorkflowStatus::Pending
}

/// A status that was stored for a step is the status that is read for it,
/// and the status of every other step is as it was.
pub proof fn lemma_stored_status_reads_back(
    rows: Seq<StepStatusUpdate>,
    step_id: i64,
    status: WorkflowStatus,
    other: i64,
)
    ensures
        step_status(rows_with(rows, step_id, status), step_id) == status,
        other != step_id ==> step_status(rows_with(rows, step_id, status), other) == step_status(
            rows,
            other,
        ),
    decreases rows.len(),
{
    let stored = rows_with(rows, step_id, status);
    if rows.len() == 0 {
        assert(stored[0].step_id == step_id);
        assert(stored.drop_first() =~= Seq::<StepStatusUpdate>::empty());
        assert(step_status(stored.drop_first(), other) == WorkflowStatus::Pending);
    } else if rows[0].step_id == step_id {
        assert(stored[0].step_id == step_id);
        assert(stored.drop_first() =~= rows.drop_first());
    } else {
        lemma_stored_status_reads_back(rows.drop_first(), step_id, status, other);
        assert(stored[0] == rows[0]);
        assert(stored.drop_first() =~= rows_with(rows.drop_first(), step_id, status));
    }
}

/// What a worker tells of its step: that it was started, or how it ended.
pub open spec fn progress_event(finished: Option<bool>) -> RunEvent {
    match finished {
        None => RunEvent::Started,
        Some(success) => RunEvent::Finished { success },
    }
}

/// Records that the worker of the step `step_id` was started (`finished`
/// is `None`) or how it ended. The step moves by the state machine of a run,
/// and the run, where one is stored, stands at that step with the same
/// status. A report that has no place in the state of the step is refused,
/// and nothing changes.
pub fn record_step_progress(
    state: &mut WorkflowStateResponse,
    step_id: i64,
    finished: Option<bool>,
) -> (accepted: bool)
    ensures
        accepted == status_after(
            step_status(old(state).steps@, step_id),
            progress_event(finished),
        ) is Some,
        !accepted ==> *final(state) == *old(state),
        accepted ==> ({
            let status = status_after(
                step_status(old(state).steps@, step_id),
                progress_event(finished),
            )->0;
            &&& final(state).steps@ == rows_with(old(state).steps@, step_id, status)
            &&& match old(state).run {
                Some(before) => final(state).run matches Some(run) && run.skill_name
                    == before.skill_name && run.domain == before.domain && run.current_step
                    == step_id && run.status == status,
                None => final(state).run is None,
            }
        }),
{
    let event = match finished {
        None => RunEvent::Started,
        Some(success) => RunEvent::Finished { success },
    };
    let status = match get_step_status(&state.steps, step_id).advance(event) {
        Some(status) => status,
        None => {
            return false;
        },
    };
    save_workflow_step(&mut state.steps, step_id, status);
    let mut run: Option<WorkflowRun> = None;
    std::mem::swap(&mut run, &mut state.run);
    state.run = match run {
        Some(before) => Some(
            WorkflowRun {
                skill_name: before.skill_name,
                domain: before.domain,
                current_step: step_id,
                status,
            },
        ),
        None => None,
    };
    true
}

/// The rows with every step from `from` on set back to pending.
pub open spec fn rows_reset_from(rows: Seq<StepStatusUpdate>, from: int) -> Seq<StepStatusUpdate> {
    Seq::new(
        rows.len(),
        |i: int|
            if rows[i].step_id >= from {
                StepStatusUpdate { step_id: rows[i].step_id, status: WorkflowStatus::Pending }
            } else {
                rows[i]
            },
    )
}

/// Sets the status of every step from `from_step_id` on back to pending.
pub fn reset_workflow_steps_from(steps: &mut Vec<StepStatusUpdate>, from_step_id: i64)
    ensures
        final(steps)@ == rows_reset_from(old(steps)@, from_step_id as int),
{
    let mut i: usize = 0;
    while i < steps.len()
        invariant
            i <= steps.len(),
            steps@.len() == old(steps)@.len(),
            forall|k: int|
                0 <= k < i ==> steps@[k] == rows_reset_from(old(steps)@, from_step_id as int)[k],
            forall|k: int| i <= k < steps@.len() ==> steps@[k] == old(steps)@[k],
        decreases steps.len() - i,
    {
        if steps[i].step_id >= from_step_id {
            let step_id = steps[i].step_id;
            steps.set(i, StepStatusUpdate { step_id, status: WorkflowStatus::Pending });
        }
        i = i + 1;
    }
    assert(steps@ =~= rows_reset_from(old(steps)@, from_step_id as int));
}

/// Rewinds what is persisted of a skill to the step `from_step_id`: every
/// step from there on is pending again, and so is the run, which stands at
/// that step. Where no run is stored, none is made.
pub fn reset_workflow_step(state: &mut WorkflowStateResponse, from_step_id: u32)
    ensures
        final(state).steps@ == rows_reset_from(old(state).steps@, from_step_id as int),
        match old(state).run {
            Some(before) => final(state).run matches Some(run) && run.skill_name
                == before.skill_name && run.domain == before.domain && run.current_step
                == from_step_id && run.status == WorkflowStatus::Pending,
            None => final(state).run is None,
        },
{
    reset_workflow_steps_from(&mut state.steps, from_step_id as i64);
    let mut run: Option<WorkflowRun> = None;
    std::mem::swap(&mut run, &mut state.run);
    state.run = match run {
        Some(before) => Some(
            WorkflowRun {
                skill_name: before.skill_name,
                domain: before.domain,
                current_step: from_step_id as i64,
                status: WorkflowStatus::Pending,
            },
        ),
        None => None,
    };
}

} // verus!
