//! Crews: the aggregate of agents, tasks and a chosen execution discipline.

use vstd::prelude::*;
use crate::agents::Agent;
use crate::errors::CrewAIError;
use crate::errors::ErrorView;
use crate::execution::can_perform;
use crate::execution::execute_tasks_rayon;
use crate::execution::execute_tasks_sequentially;
use crate::execution::launch_all;
use crate::execution::launched;
use crate::execution::outcome_views;
use crate::execution::ran_in_parallel;
use crate::execution::ran_sequentially;
use crate::execution::reports;
use crate::execution::settle_concurrent;
use crate::execution::settled_concurrently;
use crate::tasks::Task;
use crate::tasks::TaskOutcome;

verus! {

/// The closed choice of execution discipline.
#[derive(Debug, Clone, Copy, PartialEq, Eq)]
pub enum ProcessKind {
    /// One task after another, stopping at the first failure.
    Sequential,
    /// All tasks on a worker pool.
    Parallel,
    /// All tasks as cooperative activities.
    Async,
}

impl ProcessKind {
    /// The discipline that a process name stands for, if it stands for one.
    pub open spec fn named(process: Seq<char>) -> Option<ProcessKind> {
        if process == "sequential"@ {
            Some(ProcessKind::Sequential)
        } else if process == "parallel"@ {
            Some(ProcessKind::Parallel)
        } else if process == "async"@ {
            Some(ProcessKind::Async)
        } else {
            None
        }
    }

    /// Reads a process name.
    pub fn parse(process: &String) -> (kind: Option<ProcessKind>)
        ensures
            kind == ProcessKind::named(process@),
    {
        if *process == String::from_str("sequential") {
            Some(ProcessKind::Sequential)
        } else if *process == String::from_str("parallel") {
            Some(ProcessKind::Parallel)
        } else if *process == String::from_str("async") {
            Some(ProcessKind::Async)
        } else {
            None
        }
    }
}

/// Each of the three process names stands for its own discipline.
pub proof fn lemma_process_names()
    ensures
        ProcessKind::named("sequential"@) == Some(ProcessKind::Sequential),
        ProcessKind::named("parallel"@) == Some(ProcessKind::Parallel),
        ProcessKind::named("async"@) == Some(ProcessKind::Async),
{
    reveal_strlit("sequential");
    reveal_strlit("parallel");
    reveal_strlit("async");
    assert("parallel"@[0] != "sequential"@[0]);
    assert("async"@[0] != "sequential"@[0]);
    assert("async"@[0] != "parallel"@[0]);
}

/// Some agent of `agents` bears `name`.
pub open spec fn has_agent(agents: Seq<Agent>, name: Seq<char>) -> bool {
    exists|i: int| 0 <= i < agents.len() && (#[trigger] agents[i]).name@ == name
}

/// `task` names an agent that `agents` does not hold.
pub open spec fn dangling(agents: Seq<Agent>, task: Task) -> bool {
    task.agent_name matches Some(name) && !has_agent(agents, name@)
}

/// The place of the first task, in list order, that names a missing agent.
pub open spec fn first_dangling(agents: Seq<Agent>, tasks: Seq<Task>) -> Option<int>
    decreases tasks.len(),
{
    if tasks.len() == 0 {
        None
    } else {
        match first_dangling(agents, tasks.drop_last()) {
            Some(k) => Some(k),
            None => if dangling(agents, tasks.last()) {
                Some(tasks.len() - 1)
            } else {
                None
            },
        }
    }
}

/// The detail of the error for a task that names the missing agent `name`.
pub open spec fn dangling_message(name: Seq<char>) -> Seq<char> {
    "Task references agent '"@ + name + "' which doesn't exist in the crew"@
}

/// The first violation of a crew's invariants, checked in this order: no
/// agents, no tasks, then each task's agent reference in list order.
pub open spec fn violation(agents: Seq<Agent>, tasks: Seq<Task>) -> Option<ErrorView> {
    if agents.len() == 0 {
        Some(ErrorView::InvalidConfig("Crew must have at least one agent"@))
    } else if tasks.len() == 0 {
        Some(ErrorView::InvalidConfig("Crew must have at least one task"@))
    } else {
        match first_dangling(agents, tasks) {
            Some(k) => Some(
                ErrorView::InvalidConfig(dangling_message(tasks[k].agent_name->0@)),
            ),
            None => None,
        }
    }
}

/// A crew's invariants: at least one agent, at least one task, and every
/// agent that a task names is present.
pub open spec fn well_formed(agents: Seq<Agent>, tasks: Seq<Task>) -> bool {
    &&& agents.len() >= 1
    &&& tasks.len() >= 1
    &&& forall|k: int| 0 <= k < tasks.len() ==> !dangling(agents, #[trigger] tasks[k])
}

/// `first_dangling` finds the least place that dangles, and finds none only
/// where none dangles.
pub proof fn lemma_first_dangling(agents: Seq<Agent>, tasks: Seq<Task>)
    ensures
        match first_dangling(agents, tasks) {
            Some(k) => {
                &&& 0 <= k < tasks.len()
                &&& dangling(agents, tasks[k])
                &&& forall|j: int| 0 <= j < k ==> !dangling(agents, #[trigger] tasks[j])
            },
            None => forall|j: int| 0 <= j < tasks.len() ==> !dangling(agents, #[trigger] tasks[j]),
        },
    decreases tasks.len(),
{
    if tasks.len() > 0 {
        lemma_first_dangling(agents, tasks.drop_last());
        assert forall|j: int| 0 <= j < tasks.len() - 1 implies tasks.drop_last()[j]
            == #[trigger] tasks[j] by {}
    }
}

/// Validation finds no violation exactly on well-formed crews.
pub proof fn lemma_no_violation_iff_well_formed(agents: Seq<Agent>, tasks: Seq<Task>)
    ensures
        violation(agents, tasks) is None <==> well_formed(agents, tasks),
{
    lemma_first_dangling(agents, tasks);
}

/// A named group of agents and tasks together with the name of the
/// discipline under which the tasks are to be carried out. Agents and tasks
/// stay in the order in which they were added.
#[derive(Debug, Clone)]
pub struct Crew {
    pub name: String,
    pub agents: Vec<Agent>,
    pub tasks: Vec<Task>,
    pub process: String,
}

/// The detail of the error for a process name outside the closed choice.
pub open spec fn invalid_process_message(process: Seq<char>) -> Seq<char> {
    "Invalid process type: "@ + process + ". Must be 'sequential', 'parallel', or 'async'"@
}

/// The detail of the error for running a crew whose process name stands for
/// no discipline.
pub open spec fn unknown_process_message(process: Seq<char>) -> Seq<char> {
    "Unknown process type: "@ + process
}

/// The detail of the error for running an `async` crew synchronously.
pub open spec fn wrong_entry_message() -> Seq<char> {
    "Cannot execute async process synchronously. Use execute_async() instead."@
}

impl Crew {
    /// The error that construction from these strings gives, if any.
    pub open spec fn construction_error(name: Seq<char>, process: Seq<char>) -> Option<ErrorView> {
        if name.len() == 0 {
            Some(ErrorView::MissingField("Crew name cannot be empty"@))
        } else if ProcessKind::named(process) is None {
            Some(ErrorView::InvalidConfig(invalid_process_message(process)))
        } else {
            None
        }
    }

    /// The first violation of this crew's invariants, if any.
    pub open spec fn violation(self) -> Option<ErrorView> {
        violation(self.agents@, self.tasks@)
    }

    /// This crew's invariants hold.
    pub open spec fn well_formed(self) -> bool {
        well_formed(self.agents@, self.tasks@)
    }

    /// `self` differs from `before` in the statuses of its tasks at most.
    pub open spec fn same_crew_as(self, before: Crew) -> bool {
        &&& self.name == before.name
        &&& self.agents == before.agents
        &&& self.process == before.process
        &&& self.tasks.len() == before.tasks.len()
        &&& forall|i: int|
            0 <= i < before.tasks.len() ==> (#[trigger] self.tasks[i]).same_work_as(before.tasks[i])
    }

    /// Builds an empty crew; an empty name is rejected, then a process name
    /// other than `sequential`, `parallel` or `async`.
    pub fn new(name: String, process: String) -> (made: Result<Crew, CrewAIError>)
        ensures
            match made {
                Ok(crew) => {
                    &&& Crew::construction_error(name@, process@) is None
                    &&& crew.name == name
                    &&& crew.process == process
                    &&& crew.agents@ == Seq::<Agent>::empty()
                    &&& crew.tasks@ == Seq::<Task>::empty()
                },
                Err(e) => Crew::construction_error(name@, process@) == Some(e@),
            },
    {
        if name.as_str().is_empty() {
            return Err(CrewAIError::MissingField(String::from_str("Crew name cannot be empty")));
        }
        if ProcessKind::parse(&process).is_none() {
            let mut detail = String::from_str("Invalid process type: ");
            detail.append(process.as_str());
            detail.append(". Must be 'sequential', 'parallel', or 'async'");
            return Err(CrewAIError::InvalidConfig(detail));
        }
        Ok(Crew { name, agents: Vec::new(), tasks: Vec::new(), process })
    }

    /// Adds an agent after those already present.
    pub fn add_agent(&mut self, agent: Agent)
        ensures
            final(self).agents@ == old(self).agents@.push(agent),
            final(self).name == old(self).name,
            final(self).tasks == old(self).tasks,
            final(self).process == old(self).process,
    {
        self.agents.push(agent);
    }

    /// Adds a task after those already present.
    pub fn add_task(&mut self, task: Task)
        ensures
            final(self).tasks@ == old(self).tasks@.push(task),
            final(self).name == old(self).name,
            final(self).agents == old(self).agents,
            final(self).process == old(self).process,
    {
        self.tasks.push(task);
    }

    /// The place of the first agent that bears `name`.
    fn find_agent(&self, name: &String) -> (place: Option<usize>)
        ensures
            match place {
                Some(i) => {
                    &&& i < self.agents.len()
                    &&& self.agents[i as int].name@ == name@
                    &&& forall|j: int| 0 <= j < i ==> (#[trigger] self.agents[j]).name@ != name@
                },
                None => !has_agent(self.agents@, name@),
            },
    {
        let mut i: usize = 0;
        while i < self.agents.len()
            invariant
                i <= self.agents.len(),
                forall|j: int| 0 <= j < i ==> (#[trigger] self.agents[j]).name@ != name@,
            decreases self.agents.len() - i,
        {
            if self.agents[i].name == *name {
                return Some(i);
            }
            i = i + 1;
        }
        None
    }

    /// The first agent, in order of addition, that bears `name`.
    pub fn get_agent_by_name(&self, name: &str) -> (found: Option<&Agent>)
        ensures
            match found {
                Some(agent) => exists|i: int|
                    {
                        &&& 0 <= i < self.agents.len()
                        &&& *agent == #[trigger] self.agents[i]
                        &&& agent.name@ == name@
                        &&& forall|j: int| 0 <= j < i ==> (#[trigger] self.agents[j]).name@ != name@
                    },
                None => !has_agent(self.agents@, name@),
            },
    {
        let wanted = String::from_str(name);
        match self.find_agent(&wanted) {
            Some(i) => Some(&self.agents[i]),
            None => None,
        }
    }

    /// Checks the crew's invariants and reports the first violation: no
    /// agents, then no tasks, then the first task, in list order, that names
    /// an agent the crew does not hold.
    pub fn validate(&self) -> (result: Result<(), CrewAIError>)
        ensures
            reports(result, self.violation()),
            result is Ok <==> self.well_formed(),
    {
        proof {
            lemma_no_violation_iff_well_formed(self.agents@, self.tasks@);
        }
        if self.agents.len() == 0 {
            return Err(
                CrewAIError::InvalidConfig(String::from_str("Crew must have at least one agent")),
            );
        }
        if self.tasks.len() == 0 {
            return Err(
                CrewAIError::InvalidConfig(String::from_str("Crew must have at least one task")),
            );
        }
        let mut k: usize = 0;
        while k < self.tasks.len()
            invariant
                k <= self.tasks.len(),
                self.agents.len() > 0,
                first_dangling(self.agents@, self.tasks@.take(k as int)) is None,
            decreases self.tasks.len() - k,
        {
            proof {
                assert(self.tasks@.take(k + 1).drop_last() =~= self.tasks@.take(k as int));
                assert(self.tasks@.take(k + 1).last() == self.tasks@[k as int]);
            }
            match &self.tasks[k].agent_name {
                Some(name) => {
                    if self.find_agent(name).is_none() {
                        let mut detail = String::from_str("Task references agent '");
                        detail.append(name.as_str());
                        detail.append("' which doesn't exist in the crew");
                        proof {
                            assert(detail@ =~= dangling_message(name@));
                            assert(dangling(self.agents@, self.tasks@[k as int]));
                            assert(first_dangling(self.agents@, self.tasks@.take(k + 1)) == Some(
                                k as int,
                            ));
                            lemma_first_dangling_prefix(self.agents@, self.tasks@, k + 1);
                        }
                        return Err(CrewAIError::InvalidConfig(detail));
                    }
                },
                None => {},
            }
            k = k + 1;
        }
        proof {
            assert(self.tasks@.take(self.tasks.len() as int) =~= self.tasks@);
        }
        Ok(())
    }
}

/// What running `before` under the sequential discipline leaves behind: an
/// ill-formed crew is rejected untouched with its first violation; otherwise
/// the tasks are carried out one after another.
pub open spec fn executed_sequentially<F: Fn(&Task) -> Result<(), String>>(
    before: Crew,
    after: Crew,
    result: Result<(), CrewAIError>,
    perform: F,
) -> bool {
    match before.violation() {
        Some(error) => after == before && reports(result, Some(error)),
        None => {
            &&& after.same_crew_as(before)
            &&& ran_sequentially(before.tasks@, after.tasks@, result, perform)
        },
    }
}

/// What running `before` under the parallel discipline leaves behind: an
/// ill-formed crew is rejected untouched with its first violation; otherwise
/// all tasks are carried out on the worker pool.
pub open spec fn executed_in_parallel<F: Fn(&Task) -> Result<(), String>>(
    before: Crew,
    after: Crew,
    result: Result<(), CrewAIError>,
    perform: F,
) -> bool {
    match before.violation() {
        Some(error) => after == before && reports(result, Some(error)),
        None => {
            &&& after.same_crew_as(before)
            &&& ran_in_parallel(before.tasks@, after.tasks@, result, perform)
        },
    }
}

/// The strategy chosen for a crew: its first violation if it is ill-formed,
/// else the discipline that its process name stands for, else the complaint
/// that the name stands for none.
pub open spec fn selection(crew: Crew) -> Result<ProcessKind, ErrorView> {
    match crew.violation() {
        Some(error) => Err(error),
        None => match ProcessKind::named(crew.process@) {
            Some(kind) => Ok(kind),
            None => Err(ErrorView::InvalidConfig(unknown_process_message(crew.process@))),
        },
    }
}

/// What the synchronous entry point leaves behind. The crew is validated
/// first; a well-formed crew is then run under the discipline that its
/// process name stands for. An ill-formed crew, an `async` crew and a crew
/// whose process name stands for nothing are rejected untouched.
pub open spec fn executed<F: Fn(&Task) -> Result<(), String>>(
    before: Crew,
    after: Crew,
    result: Result<(), CrewAIError>,
    perform: F,
) -> bool {
    match selection(before) {
        Ok(ProcessKind::Sequential) => {
            &&& after.same_crew_as(before)
            &&& ran_sequentially(before.tasks@, after.tasks@, result, perform)
        },
        Ok(ProcessKind::Parallel) => {
            &&& after.same_crew_as(before)
            &&& ran_in_parallel(before.tasks@, after.tasks@, result, perform)
        },
        Ok(ProcessKind::Async) => {
            &&& after == before
            &&& reports(result, Some(ErrorView::InvalidConfig(wrong_entry_message())))
        },
        Err(error) => after == before && reports(result, Some(error)),
    }
}

/// What the asynchronous entry point has done after its first step.
#[derive(Debug, PartialEq, Eq)]
pub enum AsyncStep {
    /// The run is over, with this result.
    Finished(Result<(), CrewAIError>),
    /// Every task has been launched: the caller carries out the activities
    /// and closes the run with their outcomes.
    AwaitOutcomes,
}

/// What the first step of the asynchronous entry point leaves behind. The
/// crew is validated first. A well-formed `sequential` or `parallel` crew is
/// run to its end on the spot; a well-formed `async` crew has every task
/// launched and awaits the outcomes; any other crew is rejected untouched.
pub open spec fn began_async<F: Fn(&Task) -> Result<(), String>>(
    before: Crew,
    after: Crew,
    step: AsyncStep,
    perform: F,
) -> bool {
    match selection(before) {
        Ok(ProcessKind::Sequential) => {
            &&& after.same_crew_as(before)
            &&& step matches AsyncStep::Finished(result)
            &&& ran_sequentially(before.tasks@, after.tasks@, result, perform)
        },
        Ok(ProcessKind::Parallel) => {
            &&& after.same_crew_as(before)
            &&& step matches AsyncStep::Finished(result)
            &&& ran_in_parallel(before.tasks@, after.tasks@, result, perform)
        },
        Ok(ProcessKind::Async) => {
            &&& after.same_crew_as(before)
            &&& step is AwaitOutcomes
            &&& launched(before.tasks@, after.tasks@)
        },
        Err(error) => {
            &&& after == before
            &&& step matches AsyncStep::Finished(result)
            &&& reports(result, Some(error))
        },
    }
}

impl Crew {
    /// The discipline that this crew's process name stands for.
    pub fn process_kind(&self) -> (kind: Result<ProcessKind, CrewAIError>)
        ensures
            match kind {
                Ok(k) => ProcessKind::named(self.process@) == Some(k),
                Err(e) => {
                    &&& ProcessKind::named(self.process@) is None
                    &&& e@ == ErrorView::InvalidConfig(unknown_process_message(self.process@))
                },
            },
    {
        match ProcessKind::parse(&self.process) {
            Some(kind) => Ok(kind),
            None => {
                let mut detail = String::from_str("Unknown process type: ");
                detail.append(self.process.as_str());
                Err(CrewAIError::InvalidConfig(detail))
            },
        }
    }

    /// Validates the crew, then carries out its tasks one after another.
    pub fn execute_sequential<F>(&mut self, perform: F) -> (result: Result<
        (),
        CrewAIError,
    >) where F: Fn(&Task) -> Result<(), String>
        requires
            can_perform(old(self).tasks@, perform),
        ensures
            executed_sequentially(*old(self), *final(self), result, perform),
    {
        match self.validate() {
            Err(error) => Err(error),
            Ok(_) => execute_tasks_sequentially(&mut self.tasks, perform),
        }
    }

    /// Validates the crew, then carries out its tasks on the worker pool.
    pub fn execute_parallel_rayon<F>(&mut self, perform: F) -> (result: Result<
        (),
        CrewAIError,
    >) where F: Fn(&Task) -> Result<(), String> + Sync
        requires
            can_perform(old(self).tasks@, perform),
        ensures
            executed_in_parallel(*old(self), *final(self), result, perform),
    {
        match self.validate() {
            Err(error) => Err(error),
            Ok(_) => {
                let result = execute_tasks_rayon(&mut self.tasks, perform);
                proof {
                    lemma_parallel_keeps_work(old(self).tasks@, self.tasks@, result, perform);
                }
                result
            },
        }
    }

    /// Validates the crew and reads the discipline that its process name
    /// stands for: the step that precedes every run.
    pub fn select_strategy(&self) -> (kind: Result<ProcessKind, CrewAIError>)
        ensures
            match kind {
                Ok(k) => selection(*self) == Ok::<ProcessKind, ErrorView>(k),
                Err(e) => selection(*self) == Err::<ProcessKind, ErrorView>(e@),
            },
    {
        match self.validate() {
            Err(error) => Err(error),
            Ok(_) => self.process_kind(),
        }
    }

    /// The synchronous entry point: validates the crew, then runs it under
    /// the discipline that its process name stands for. An `async` crew
    /// cannot be run here.
    ///
    /// Whenever the crew is ill-formed, or its process is `async` or
    /// unknown, the call fails with a configuration error and leaves the
    /// crew as it was.
    pub fn execute<F>(&mut self, perform: F) -> (result: Result<(), CrewAIError>) where
        F: Fn(&Task) -> Result<(), String> + Sync,

        requires
            can_perform(old(self).tasks@, perform),
        ensures
            executed(*old(self), *final(self), result, perform),
            final(self).same_crew_as(*old(self)),
            !old(self).well_formed() ==> result is Err && *final(self) == *old(self),
            old(self).process@ == "async"@ ==> *final(self) == *old(self) && (result matches Err(e)
                && e@ is InvalidConfig),
    {
        proof {
            lemma_no_violation_iff_well_formed(self.agents@, self.tasks@);
            lemma_process_names();
        }
        match self.select_strategy() {
            Ok(ProcessKind::Sequential) => execute_tasks_sequentially(&mut self.tasks, perform),
            Ok(ProcessKind::Parallel) => {
                let result = execute_tasks_rayon(&mut self.tasks, perform);
                proof {
                    lemma_parallel_keeps_work(old(self).tasks@, self.tasks@, result, perform);
                }
                result
            },
            Ok(ProcessKind::Async) => Err(
                CrewAIError::InvalidConfig(
                    String::from_str(
                        "Cannot execute async process synchronously. Use execute_async() instead.",
                    ),
                ),
            ),
            Err(error) => Err(error),
        }
    }

    /// The first step of the asynchronous entry point: validates the crew,
    /// then runs a `sequential` or `parallel` crew to its end, or launches
    /// every task of an `async` crew and leaves the activities to the caller,
    /// who closes the run with [`Crew::finish_concurrent`].
    pub fn begin_async<F>(&mut self, perform: F) -> (step: AsyncStep) where
        F: Fn(&Task) -> Result<(), String> + Sync,

        requires
            can_perform(old(self).tasks@, perform),
        ensures
            began_async(*old(self), *final(self), step, perform),
    {
        match self.select_strategy() {
            Ok(ProcessKind::Sequential) => AsyncStep::Finished(
                execute_tasks_sequentially(&mut self.tasks, perform),
            ),
            Ok(ProcessKind::Parallel) => {
                let result = execute_tasks_rayon(&mut self.tasks, perform);
                proof {
                    lemma_parallel_keeps_work(old(self).tasks@, self.tasks@, result, perform);
                }
                AsyncStep::Finished(result)
            },
            Ok(ProcessKind::Async) => {
                launch_all(&mut self.tasks);
                AsyncStep::AwaitOutcomes
            },
            Err(error) => AsyncStep::Finished(Err(error)),
        }
    }

    /// Opens a concurrent run: validates the crew and, if it is well-formed,
    /// marks every task as running. An ill-formed crew is left as it was.
    pub fn begin_concurrent(&mut self) -> (result: Result<(), CrewAIError>)
        ensures
            reports(result, old(self).violation()),
            final(self).same_crew_as(*old(self)),
            match result {
                Ok(_) => launched(old(self).tasks@, final(self).tasks@),
                Err(_) => *final(self) == *old(self),
            },
    {
        match self.validate() {
            Err(error) => Err(error),
            Ok(_) => {
                launch_all(&mut self.tasks);
                Ok(())
            },
        }
    }

    /// Closes a concurrent run: `outcomes` holds, in list order, what became
    /// of the activity launched for each task.
    pub fn finish_concurrent(&mut self, outcomes: &Vec<TaskOutcome>) -> (result: Result<
        (),
        CrewAIError,
    >)
        ensures
            final(self).same_crew_as(*old(self)),
            settled_concurrently(
                old(self).tasks@,
                outcome_views(outcomes@),
                final(self).tasks@,
                result,
            ),
    {
        settle_concurrent(&mut self.tasks, outcomes)
    }
}

/// A parallel run changes the statuses of the tasks at most.
pub proof fn lemma_parallel_keeps_work<F: Fn(&Task) -> Result<(), String>>(
    before: Seq<Task>,
    after: Seq<Task>,
    result: Result<(), CrewAIError>,
    perform: F,
)
    requires
        ran_in_parallel(before, after, result, perform),
    ensures
        after.len() == before.len(),
        forall|i: int| 0 <= i < before.len() ==> (#[trigger] after[i]).same_work_as(before[i]),
{
}

/// What `first_dangling` finds among the first `n` tasks it finds among all.
pub proof fn lemma_first_dangling_prefix(agents: Seq<Agent>, tasks: Seq<Task>, n: int)
    requires
        0 <= n <= tasks.len(),
        first_dangling(agents, tasks.take(n)) is Some,
    ensures
        first_dangling(agents, tasks) == first_dangling(agents, tasks.take(n)),
    decreases tasks.len() - n,
{
    if n < tasks.len() {
        assert(tasks.take(n + 1).drop_last() =~= tasks.take(n));
        lemma_first_dangling_prefix(agents, tasks, n + 1);
    } else {
        assert(tasks.take(n) =~= tasks);
    }
}

/// The synchronous entry point rejects every ill-formed crew, whatever its
/// process name, and leaves it as it was: no task changes its status.
pub proof fn lemma_ill_formed_crew_is_rejected<F: Fn(&Task) -> Result<(), String>>(
    before: Crew,
    after: Crew,
    result: Result<(), CrewAIError>,
    perform: F,
)
    requires
        executed(before, after, result, perform),
        !before.well_formed(),
    ensures
        result is Err,
        after == before,
{
    lemma_no_violation_iff_well_formed(before.agents@, before.tasks@);
}

/// The synchronous entry point refuses an `async` crew with a configuration
/// error and leaves it as it was: no task is attempted.
pub proof fn lemma_async_crew_is_refused<F: Fn(&Task) -> Result<(), String>>(
    before: Crew,
    after: Crew,
    result: Result<(), CrewAIError>,
    perform: F,
)
    requires
        executed(before, after, result, perform),
        before.process@ == "async"@,
    ensures
        result matches Err(e) && e@ is InvalidConfig,
        before.well_formed() ==> result->Err_0@ == ErrorView::InvalidConfig(wrong_entry_message()),
        after == before,
{
    lemma_process_names();
    lemma_no_violation_iff_well_formed(before.agents@, before.tasks@);
}

/// The asynchronous entry point takes a well-formed `async` crew down the
/// concurrent path: every task is launched and the outcomes are awaited.
pub proof fn lemma_async_crew_is_launched<F: Fn(&Task) -> Result<(), String>>(
    before: Crew,
    after: Crew,
    step: AsyncStep,
    perform: F,
)
    requires
        began_async(before, after, step, perform),
        before.well_formed(),
        before.process@ == "async"@,
    ensures
        step is AwaitOutcomes,
        launched(before.tasks@, after.tasks@),
{
    lemma_process_names();
    lemma_no_violation_iff_well_formed(before.agents@, before.tasks@);
}

/// Validation is repeatable: two validations of an unchanged crew agree, in
/// success and in the error they report.
pub proof fn lemma_validate_repeatable(
    crew: Crew,
    first: Result<(), CrewAIError>,
    second: Result<(), CrewAIError>,
)
    requires
        reports(first, crew.violation()),
        reports(second, crew.violation()),
    ensures
        first is Ok <==> second is Ok,
        first is Err ==> first->Err_0@ == second->Err_0@,
{
}

/// `items` pushed one by one, in order, after `start`.
pub open spec fn pushed_in_turn<T>(start: Seq<T>, items: Seq<T>) -> Seq<T>
    decreases items.len(),
{
    if items.len() == 0 {
        start
    } else {
        pushed_in_turn(start, items.drop_last()).push(items.last())
    }
}

/// Pushing one by one onto an empty list rebuilds the list pushed.
pub proof fn lemma_pushed_in_turn<T>(items: Seq<T>)
    ensures
        pushed_in_turn(Seq::<T>::empty(), items) == items,
    decreases items.len(),
{
    if items.len() > 0 {
        lemma_pushed_in_turn(items.drop_last());
        assert(items.drop_last().push(items.last()) =~= items);
    }
}

/// Round trip: a crew that starts empty and has `agents` and then `tasks`
/// added one by one passes validation exactly if there is at least one
/// agent, at least one task, and every agent name set on a task is the name
/// of one of the agents added.
pub proof fn lemma_built_crew_validates(agents: Seq<Agent>, tasks: Seq<Task>)
    ensures
        violation(
            pushed_in_turn(Seq::<Agent>::empty(), agents),
            pushed_in_turn(Seq::<Task>::empty(), tasks),
        ) is None <==> {
            &&& agents.len() >= 1
            &&& tasks.len() >= 1
            &&& forall|k: int|
                0 <= k < tasks.len() ==> ((#[trigger] tasks[k]).agent_name matches Some(name)
                    ==> exists|i: int|
                    0 <= i < agents.len() && (#[trigger] agents[i]).name@ == name@)
        },
{
    lemma_pushed_in_turn(agents);
    lemma_pushed_in_turn(tasks);
    lemma_no_violation_iff_well_formed(agents, tasks);
    if well_formed(agents, tasks) {
        assert forall|k: int| 0 <= k < tasks.len() implies ((#[trigger] tasks[k]).agent_name matches Some(
            name,
        ) ==> exists|i: int| 0 <= i < agents.len() && (#[trigger] agents[i]).name@ == name@) by {
            assert(!dangling(agents, tasks[k]));
        }
    }
    if agents.len() >= 1 && tasks.len() >= 1 && (forall|k: int|
        0 <= k < tasks.len() ==> ((#[trigger] tasks[k]).agent_name matches Some(name)
            ==> exists|i: int| 0 <= i < agents.len() && (#[trigger] agents[i]).name@ == name@)) {
        assert forall|k: int| 0 <= k < tasks.len() implies !dangling(
            agents,
            #[trigger] tasks[k],
        ) by {
            if tasks[k].agent_name is Some {
                let name = tasks[k].agent_name->0;
                assert(exists|i: int| 0 <= i < agents.len() && (#[trigger] agents[i]).name@ == name@);
            }
        }
    }
}

} // verus!
