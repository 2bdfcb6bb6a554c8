//! Tasks, their lifecycle status, and the outcome of one attempt at a task.

use vstd::prelude::*;
use crate::errors::CrewAIError;
use crate::errors::ErrorView;
use crate::text::append_decimal;
use crate::text::decimal;

verus! {

/// Where a task stands in its lifecycle. Normal progression is
/// `Pending`, then `Running`, then `Completed` or `Failed`.
#[derive(Debug, Clone, PartialEq, Eq)]
pub enum TaskStatus {
    Pending,
    Running,
    Completed,
    Failed(String),
}

/// Mathematical model of a [`TaskStatus`].
pub enum StatusView {
    Pending,
    Running,
    Completed,
    Failed(Seq<char>),
}

impl View for TaskStatus {
    type V = StatusView;

    open spec fn view(&self) -> StatusView {
        match *self {
            TaskStatus::Pending => StatusView::Pending,
            TaskStatus::Running => StatusView::Running,
            TaskStatus::Completed => StatusView::Completed,
            TaskStatus::Failed(reason) => StatusView::Failed(reason@),
        }
    }
}

impl StatusView {
    /// The status rendered as text.
    pub open spec fn text(self) -> Seq<char> {
        match self {
            StatusView::Pending => "Pending"@,
            StatusView::Running => "Running"@,
            StatusView::Completed => "Completed"@,
            StatusView::Failed(reason) => "Failed: "@ + reason,
        }
    }

    /// No transition leaves a terminal status.
    pub open spec fn is_terminal(self) -> bool {
        self is Completed || self is Failed
    }
}

impl Default for TaskStatus {
    fn default() -> (status: TaskStatus)
        ensures
            status == TaskStatus::Pending,
    {
        TaskStatus::Pending
    }
}

impl TaskStatus {
    /// Renders the status as text.
    pub fn describe(&self) -> (text: String)
        ensures
            text@ == self@.text(),
    {
        match self {
            TaskStatus::Pending => String::from_str("Pending"),
            TaskStatus::Running => String::from_str("Running"),
            TaskStatus::Completed => String::from_str("Completed"),
            TaskStatus::Failed(reason) => {
                let mut text = String::from_str("Failed: ");
                text.append(reason.as_str());
                text
            },
        }
    }

    pub fn is_pending(&self) -> (b: bool)
        ensures
            b == (self@ is Pending),
    {
        match self {
            TaskStatus::Pending => true,
            _ => false,
        }
    }

    pub fn is_running(&self) -> (b: bool)
        ensures
            b == (self@ is Running),
    {
        match self {
            TaskStatus::Running => true,
            _ => false,
        }
    }

    pub fn is_completed(&self) -> (b: bool)
        ensures
            b == (self@ is Completed),
    {
        match self {
            TaskStatus::Completed => true,
            _ => false,
        }
    }

    pub fn is_failed(&self) -> (b: bool)
        ensures
            b == (self@ is Failed),
    {
        match self {
            TaskStatus::Failed(_) => true,
            _ => false,
        }
    }

    /// The recorded failure text, for a failed status only.
    pub fn get_error(&self) -> (reason: Option<String>)
        ensures
            match reason {
                Some(text) => self@ == StatusView::Failed(text@),
                None => !(self@ is Failed),
            },
    {
        match self {
            TaskStatus::Failed(reason) => Some(reason.clone()),
            _ => None,
        }
    }
}

/// What one attempt at a task came to.
#[derive(Debug, Clone, PartialEq, Eq)]
pub enum TaskOutcome {
    /// The operation returned success.
    Succeeded,
    /// The operation reported failure, with its reason.
    Failed(String),
    /// The activity that ran the operation aborted; the text says how.
    Panicked(String),
}

/// Mathematical model of a [`TaskOutcome`].
pub enum OutcomeView {
    Succeeded,
    Failed(Seq<char>),
    Panicked(Seq<char>),
}

impl View for TaskOutcome {
    type V = OutcomeView;

    open spec fn view(&self) -> OutcomeView {
        match *self {
            TaskOutcome::Succeeded => OutcomeView::Succeeded,
            TaskOutcome::Failed(reason) => OutcomeView::Failed(reason@),
            TaskOutcome::Panicked(detail) => OutcomeView::Panicked(detail@),
        }
    }
}

/// The message recorded for task `id` when its operation fails with `reason`.
pub open spec fn failure_message(id: u32, reason: Seq<char>) -> Seq<char> {
    "Task "@ + decimal(id as nat) + " failed: "@ + reason
}

/// The message recorded when the activity running a task aborts.
pub open spec fn panic_message(detail: Seq<char>) -> Seq<char> {
    "Task panicked: "@ + detail
}

/// Writes the message recorded for task `id` when its operation fails with
/// `reason`.
pub fn failure_text(id: u32, reason: &str) -> (text: String)
    ensures
        text@ == failure_message(id, reason@),
{
    let mut text = String::from_str("Task ");
    append_decimal(&mut text, id as u64);
    text.append(" failed: ");
    text.append(reason);
    assert(text@ =~= failure_message(id, reason@));
    text
}

impl OutcomeView {
    /// The outcome of an operation that returned `result`.
    pub open spec fn of_result(result: Result<(), String>) -> OutcomeView {
        match result {
            Ok(_) => OutcomeView::Succeeded,
            Err(reason) => OutcomeView::Failed(reason@),
        }
    }

    /// The failure message that this outcome leaves on task `id`, if any.
    pub open spec fn message(self, id: u32) -> Option<Seq<char>> {
        match self {
            OutcomeView::Succeeded => None,
            OutcomeView::Failed(reason) => Some(failure_message(id, reason)),
            OutcomeView::Panicked(detail) => Some(panic_message(detail)),
        }
    }

    /// The terminal status that this outcome leaves on task `id`.
    pub open spec fn status(self, id: u32) -> StatusView {
        match self.message(id) {
            None => StatusView::Completed,
            Some(text) => StatusView::Failed(text),
        }
    }
}

impl TaskOutcome {
    /// Turns the result of a task operation into an outcome.
    pub fn from_result(result: Result<(), String>) -> (outcome: TaskOutcome)
        ensures
            outcome@ == OutcomeView::of_result(result),
    {
        match result {
            Ok(_) => TaskOutcome::Succeeded,
            Err(reason) => TaskOutcome::Failed(reason),
        }
    }

    /// The failure message that this outcome leaves on task `id`, if any.
    pub fn message(&self, id: u32) -> (text: Option<String>)
        ensures
            match text {
                Some(written) => self@.message(id) == Some(written@),
                None => self@.message(id) is None,
            },
    {
        match self {
            TaskOutcome::Succeeded => None,
            TaskOutcome::Failed(reason) => Some(failure_text(id, reason.as_str())),
            TaskOutcome::Panicked(detail) => {
                let mut text = String::from_str("Task panicked: ");
                text.append(detail.as_str());
                Some(text)
            },
        }
    }
}

/// One unit of work. `agent_name` refers to an agent by name only; whether
/// such an agent exists is settled when the owning crew is validated.
#[derive(Debug, Clone)]
pub struct Task {
    pub id: u32,
    pub description: String,
    pub expected_output: String,
    pub agent_name: Option<String>,
    pub status: TaskStatus,
}

impl Task {
    /// The error that construction from these strings gives, if any.
    pub open spec fn construction_error(
        description: Seq<char>,
        expected_output: Seq<char>,
    ) -> Option<ErrorView> {
        if description.len() == 0 {
            Some(ErrorView::MissingField("Task description cannot be empty"@))
        } else if expected_output.len() == 0 {
            Some(ErrorView::MissingField("Task expected output cannot be empty"@))
        } else {
            None
        }
    }

    /// The same task with its status replaced.
    pub open spec fn with_status(self, status: TaskStatus) -> Task {
        Task { status, ..self }
    }

    /// The task as handed to its operation: marked as running.
    pub open spec fn started(self) -> Task {
        self.with_status(TaskStatus::Running)
    }

    /// `self` differs from `before` in its status at most.
    pub open spec fn same_work_as(self, before: Task) -> bool {
        self == before.with_status(self.status)
    }

    /// Builds a pending task; an empty description or expected output is
    /// rejected, the description first.
    pub fn new(
        id: u32,
        description: String,
        expected_output: String,
        agent_name: Option<String>,
    ) -> (made: Result<Task, CrewAIError>)
        ensures
            match made {
                Ok(task) => {
                    &&& Task::construction_error(description@, expected_output@) is None
                    &&& task.id == id
                    &&& task.description == description
                    &&& task.expected_output == expected_output
                    &&& task.agent_name == agent_name
                    &&& task.status == TaskStatus::Pending
                },
                Err(e) => Task::construction_error(description@, expected_output@) == Some(e@),
            },
    {
        if description.as_str().is_empty() {
            return Err(
                CrewAIError::MissingField(String::from_str("Task description cannot be empty")),
            );
        }
        if expected_output.as_str().is_empty() {
            return Err(
                CrewAIError::MissingField(
                    String::from_str("Task expected output cannot be empty"),
                ),
            );
        }
        Ok(Task { id, description, expected_output, agent_name, status: TaskStatus::Pending })
    }

    /// Replaces the status; nothing else changes.
    pub fn set_status(&mut self, status: TaskStatus)
        ensures
            *final(self) == old(self).with_status(status),
    {
        self.status = status;
    }

    pub fn get_status(&self) -> (status: &TaskStatus)
        ensures
            *status == self.status,
    {
        &self.status
    }

    /// Replaces the description unless the new one is empty.
    pub fn set_description(&mut self, description: String) -> (r: Result<(), CrewAIError>)
        ensures
            match r {
                Ok(_) => description@.len() > 0 && *final(self) == (Task {
                    description,
                    ..*old(self)
                }),
                Err(e) => {
                    &&& description@.len() == 0
                    &&& e@ == ErrorView::MissingField("Task description cannot be empty"@)
                    &&& *final(self) == *old(self)
                },
            },
    {
        if description.as_str().is_empty() {
            return Err(
                CrewAIError::MissingField(String::from_str("Task description cannot be empty")),
            );
        }
        self.description = description;
        Ok(())
    }

    /// Replaces the expected output unless the new one is empty.
    pub fn set_expected_output(&mut self, expected_output: String) -> (r: Result<
        (),
        CrewAIError,
    >)
        ensures
            match r {
                Ok(_) => expected_output@.len() > 0 && *final(self) == (Task {
                    expected_output,
                    ..*old(self)
                }),
                Err(e) => {
                    &&& expected_output@.len() == 0
                    &&& e@ == ErrorView::MissingField("Task expected output cannot be empty"@)
                    &&& *final(self) == *old(self)
                },
            },
    {
        if expected_output.as_str().is_empty() {
            return Err(
                CrewAIError::MissingField(
                    String::from_str("Task expected output cannot be empty"),
                ),
            );
        }
        self.expected_output = expected_output;
        Ok(())
    }
}

} // verus!
