//! The execution engine: three disciplines for carrying out a task list.
//!
//! The work behind a task is supplied by the caller as an operation from a
//! task to success or a reason for failure. The engine decides how many
//! operations run, in which order, what each leaves on its task, and how
//! failures are reported.

use vstd::prelude::*;
use rayon::iter::IntoParallelRefIterator;
use rayon::iter::ParallelIterator;
use crate::errors::CrewAIError;
use crate::errors::ErrorView;
use crate::tasks::failure_message;
use crate::tasks::failure_text;
use crate::tasks::OutcomeView;
use crate::tasks::StatusView;
use crate::tasks::Task;
use crate::tasks::TaskOutcome;
use crate::tasks::TaskStatus;
use crate::text::append_decimal;
use crate::text::decimal;
use crate::text::join;
use crate::text::joined;
use crate::text::texts;

verus! {

/// The detail of the error that ends a sequential run at task `id`.
pub open spec fn sequential_error_message(id: u32, reason: Seq<char>) -> Seq<char> {
    "Failed to execute task "@ + decimal(id as nat) + ": "@ + reason
}

/// What precedes the joined failure messages of a parallel run.
pub open spec fn parallel_prefix() -> Seq<char> {
    "Multiple task execution failures: "@
}

/// What precedes the joined failure messages of a concurrent run.
pub open spec fn concurrent_prefix() -> Seq<char> {
    "Multiple async task failures: "@
}

/// The detail of the error given when a concurrent run hands back a number
/// of outcomes other than the number of tasks.
pub open spec fn outcome_count_message(tasks: nat, outcomes: nat) -> Seq<char> {
    "Expected "@ + decimal(tasks) + " task outcomes, got "@ + decimal(outcomes)
}

/// The views of a sequence of outcomes.
pub open spec fn outcome_views(outcomes: Seq<TaskOutcome>) -> Seq<OutcomeView> {
    Seq::new(outcomes.len(), |i: int| outcomes[i]@)
}

/// The outcomes that stand for a sequence of operation results.
pub open spec fn result_views(results: Seq<Result<(), String>>) -> Seq<OutcomeView> {
    Seq::new(results.len(), |i: int| OutcomeView::of_result(results[i]))
}

/// Every task of `after` is the task of `before` at the same place, marked
/// as running.
pub open spec fn launched(before: Seq<Task>, after: Seq<Task>) -> bool {
    &&& after.len() == before.len()
    &&& forall|i: int| 0 <= i < before.len() ==> #[trigger] after[i] == before[i].started()
}

/// Every task of `after` is the task of `before` at the same place with the
/// terminal status that its outcome calls for.
pub open spec fn settled(before: Seq<Task>, outcomes: Seq<OutcomeView>, after: Seq<Task>) -> bool {
    &&& after.len() == before.len()
    &&& forall|i: int|
        0 <= i < before.len() ==> {
            &&& (#[trigger] after[i]).same_work_as(before[i])
            &&& after[i].status@ == outcomes[i].status(before[i].id)
        }
}

/// The failure messages that `outcomes` leave on the first `outcomes.len()`
/// tasks, in list order.
pub open spec fn failure_messages(tasks: Seq<Task>, outcomes: Seq<OutcomeView>) -> Seq<Seq<char>>
    decreases outcomes.len(),
{
    if outcomes.len() == 0 {
        Seq::empty()
    } else {
        let earlier = failure_messages(tasks, outcomes.drop_last());
        match outcomes.last().message(tasks[outcomes.len() - 1].id) {
            None => earlier,
            Some(text) => earlier.push(text),
        }
    }
}

/// The single error that reports every failure among `outcomes`, or `None`
/// where no task failed.
pub open spec fn aggregate(tasks: Seq<Task>, outcomes: Seq<OutcomeView>, prefix: Seq<char>) -> Option<
    ErrorView,
> {
    let messages = failure_messages(tasks, outcomes);
    if messages.len() == 0 {
        None
    } else {
        Some(ErrorView::ExecutionError(prefix + joined(messages, ", "@)))
    }
}

/// `result` is success where `expected` is `None`, and otherwise an error
/// whose view is the expected one.
pub open spec fn reports(result: Result<(), CrewAIError>, expected: Option<ErrorView>) -> bool {
    match result {
        Ok(_) => expected is None,
        Err(e) => expected == Some(e@),
    }
}

/// A sequential run stopped at task `k`, whose operation failed with `reason`.
pub open spec fn stopped_at<F: Fn(&Task) -> Result<(), String>>(
    before: Seq<Task>,
    after: Seq<Task>,
    error: ErrorView,
    perform: F,
    k: int,
    reason: String,
) -> bool {
    &&& 0 <= k < before.len()
    &&& forall|i: int|
        0 <= i < k ==> {
            &&& (#[trigger] after[i]).status == TaskStatus::Completed
            &&& call_ensures(perform, (&before[i].started(),), Ok(()))
        }
    &&& call_ensures(perform, (&before[k].started(),), Err(reason))
    &&& after[k].status@ == StatusView::Failed(failure_message(before[k].id, reason@))
    &&& forall|i: int| k < i < before.len() ==> #[trigger] after[i] == before[i]
    &&& error == ErrorView::ExecutionError(sequential_error_message(before[k].id, reason@))
}

/// What a sequential run of `perform` over `before` leaves behind.
///
/// On success every operation returned success, in list order, and every
/// task is completed. On failure the run stopped at the first operation that
/// failed: earlier tasks are completed, that task is failed, later tasks are
/// untouched, and the error names that task alone.
pub open spec fn ran_sequentially<F: Fn(&Task) -> Result<(), String>>(
    before: Seq<Task>,
    after: Seq<Task>,
    result: Result<(), CrewAIError>,
    perform: F,
) -> bool {
    &&& after.len() == before.len()
    &&& forall|i: int| 0 <= i < before.len() ==> (#[trigger] after[i]).same_work_as(before[i])
    &&& match result {
        Ok(_) => forall|i: int|
            0 <= i < before.len() ==> {
                &&& (#[trigger] after[i]).status == TaskStatus::Completed
                &&& call_ensures(perform, (&before[i].started(),), Ok(()))
            },
        Err(e) => exists|k: int, reason: String| stopped_at(before, after, e@, perform, k, reason),
    }
}

/// `results` holds, place by place, what `perform` returned on the tasks of
/// `before` marked as running.
pub open spec fn performed<F: Fn(&Task) -> Result<(), String>>(
    before: Seq<Task>,
    results: Seq<Result<(), String>>,
    perform: F,
) -> bool {
    &&& results.len() == before.len()
    &&& forall|i: int|
        0 <= i < before.len() ==> call_ensures(
            perform,
            (&before[i].started(),),
            #[trigger] results[i],
        )
}

/// What a parallel run of `perform` over `before` leaves behind: every
/// operation ran, every task carries the status its result calls for, and
/// the failures are reported together in list order.
pub open spec fn ran_in_parallel<F: Fn(&Task) -> Result<(), String>>(
    before: Seq<Task>,
    after: Seq<Task>,
    result: Result<(), CrewAIError>,
    perform: F,
) -> bool {
    exists|results: Seq<Result<(), String>>|
        {
            &&& #[trigger] performed(before, results, perform)
            &&& settled(before, result_views(results), after)
            &&& reports(result, aggregate(before, result_views(results), parallel_prefix()))
        }
}

/// `perform` accepts every task of `tasks` once it is marked as running.
pub open spec fn can_perform<F: Fn(&Task) -> Result<(), String>>(
    tasks: Seq<Task>,
    perform: F,
) -> bool {
    forall|i: int| 0 <= i < tasks.len() ==> call_requires(perform, (&(#[trigger] tasks[i]).started(),))
}

/// Carries out the tasks one after another, in list order, and stops at the
/// first that fails.
pub fn execute_tasks_sequentially<F>(tasks: &mut Vec<Task>, perform: F) -> (result: Result<
    (),
    CrewAIError,
>) where F: Fn(&Task) -> Result<(), String>
    requires
        can_perform(old(tasks)@, perform),
    ensures
        ran_sequentially(old(tasks)@, final(tasks)@, result, perform),
{
    let mut i: usize = 0;
    while i < tasks.len()
        invariant
            i <= tasks.len(),
            tasks.len() == old(tasks).len(),
            can_perform(old(tasks)@, perform),
            forall|j: int| 0 <= j < i ==> (#[trigger] tasks[j]).same_work_as(old(tasks)[j]),
            forall|j: int|
                0 <= j < i ==> {
                    &&& (#[trigger] tasks[j]).status == TaskStatus::Completed
                    &&& call_ensures(perform, (&old(tasks)[j].started(),), Ok(()))
                },
            forall|j: int| i <= j < tasks.len() ==> #[trigger] tasks[j] == old(tasks)[j],
        decreases tasks.len() - i,
    {
        tasks[i].status = TaskStatus::Running;
        assert(tasks[i as int] == old(tasks)[i as int].started());
        let attempt = perform(&tasks[i]);
        assert(call_ensures(perform, (&old(tasks)[i as int].started(),), attempt));
        match attempt {
            Ok(_) => {
                assert(attempt->Ok_0 == ());
                tasks[i].status = TaskStatus::Completed;
            },
            Err(reason) => {
                let id: u32 = tasks[i].id;
                let mut detail = String::from_str("Failed to execute task ");
                append_decimal(&mut detail, id as u64);
                detail.append(": ");
                detail.append(reason.as_str());
                tasks[i].status = TaskStatus::Failed(failure_text(id, reason.as_str()));
                let error = CrewAIError::ExecutionError(detail);
                proof {
                    assert(detail@ =~= sequential_error_message(id, reason@));
                    assert(stopped_at(old(tasks)@, tasks@, error@, perform, i as int, reason));
                }
                return Err(error);
            },
        }
        i = i + 1;
    }
    Ok(())
}

/// Marks every task as running: the fan-out that precedes a parallel or
/// concurrent run.
pub fn launch_all(tasks: &mut Vec<Task>)
    ensures
        launched(old(tasks)@, final(tasks)@),
{
    let mut i: usize = 0;
    while i < tasks.len()
        invariant
            i <= tasks.len(),
            tasks.len() == old(tasks).len(),
            forall|j: int| 0 <= j < i ==> #[trigger] tasks[j] == old(tasks)[j].started(),
            forall|j: int| i <= j < tasks.len() ==> #[trigger] tasks[j] == old(tasks)[j],
        decreases tasks.len() - i,
    {
        tasks[i].status = TaskStatus::Running;
        i = i + 1;
    }
}

/// Records on each task the terminal status that its outcome calls for and
/// gathers the failure messages in list order.
fn settle(tasks: &mut Vec<Task>, outcomes: &Vec<TaskOutcome>) -> (messages: Vec<String>)
    requires
        outcomes.len() == old(tasks).len(),
    ensures
        settled(old(tasks)@, outcome_views(outcomes@), final(tasks)@),
        texts(messages@) == failure_messages(old(tasks)@, outcome_views(outcomes@)),
{
    let mut messages: Vec<String> = Vec::new();
    let mut i: usize = 0;
    let ghost views = outcome_views(outcomes@);
    proof {
        assert(texts(messages@) =~= failure_messages(old(tasks)@, views.take(0)));
    }
    while i < tasks.len()
        invariant
            i <= tasks.len(),
            tasks.len() == old(tasks).len(),
            outcomes.len() == tasks.len(),
            views == outcome_views(outcomes@),
            forall|j: int|
                0 <= j < i ==> {
                    &&& (#[trigger] tasks[j]).same_work_as(old(tasks)[j])
                    &&& tasks[j].status@ == views[j].status(old(tasks)[j].id)
                },
            forall|j: int| i <= j < tasks.len() ==> #[trigger] tasks[j] == old(tasks)[j],
            texts(messages@) == failure_messages(old(tasks)@, views.take(i as int)),
        decreases tasks.len() - i,
    {
        let ghost earlier = texts(messages@);
        proof {
            assert(views.take(i + 1).drop_last() =~= views.take(i as int));
            assert(views.take(i + 1).last() == outcomes@[i as int]@);
        }
        match outcomes[i].message(tasks[i].id) {
            None => {
                tasks[i].status = TaskStatus::Completed;
            },
            Some(text) => {
                messages.push(text.clone());
                tasks[i].status = TaskStatus::Failed(text);
                proof {
                    assert(texts(messages@) =~= earlier.push(text@));
                }
            },
        }
        i = i + 1;
    }
    proof {
        assert(views.take(tasks.len() as int) =~= views);
    }
    messages
}

/// Folds the failure messages of a run into its result.
fn report(messages: &Vec<String>, prefix: &str) -> (result: Result<(), CrewAIError>)
    ensures
        match result {
            Ok(_) => messages.len() == 0,
            Err(e) => messages.len() > 0 && e@ == ErrorView::ExecutionError(
                prefix@ + joined(texts(messages@), ", "@),
            ),
        },
{
    if messages.len() == 0 {
        return Ok(());
    }
    let mut detail = String::from_str(prefix);
    detail.append(join(messages, ", ").as_str());
    Err(CrewAIError::ExecutionError(detail))
}

/// The outcomes that stand for the results of a task operation.
fn outcomes_of(results: &Vec<Result<(), String>>) -> (outcomes: Vec<TaskOutcome>)
    ensures
        outcomes.len() == results.len(),
        outcome_views(outcomes@) == result_views(results@),
{
    let mut outcomes: Vec<TaskOutcome> = Vec::new();
    let mut i: usize = 0;
    while i < results.len()
        invariant
            i <= results.len(),
            outcomes.len() == i,
            forall|j: int|
                0 <= j < i ==> (#[trigger] outcomes[j])@ == OutcomeView::of_result(results[j]),
        decreases results.len() - i,
    {
        let outcome = match &results[i] {
            Ok(_) => TaskOutcome::Succeeded,
            Err(reason) => TaskOutcome::Failed(reason.clone()),
        };
        outcomes.push(outcome);
        i = i + 1;
    }
    assert(outcome_views(outcomes@) =~= result_views(results@));
    outcomes
}

/// Hands every task to `perform` through rayon's
/// `par_iter().map(..).collect()` on the task vector. Trusted: rayon applies
/// the operation once to each element and collects the results into a vector
/// in the order of the elements, so the result at each place is one that the
/// operation returned for the task at that place.
#[verifier::external_body]
fn perform_on_pool<F>(tasks: &Vec<Task>, perform: &F) -> (results: Vec<Result<(), String>>) where
    F: Fn(&Task) -> Result<(), String> + Sync,

    requires
        forall|i: int| 0 <= i < tasks.len() ==> call_requires(*perform, (&#[trigger] tasks[i],)),
    ensures
        results.len() == tasks.len(),
        forall|i: int|
            0 <= i < tasks.len() ==> call_ensures(*perform, (&tasks[i],), #[trigger] results[i]),
{
    tasks.par_iter().map(perform).collect()
}

/// Carries out all tasks on a worker pool. Every task is attempted whatever
/// becomes of the others; failures are reported together, in list order.
pub fn execute_tasks_rayon<F>(tasks: &mut Vec<Task>, perform: F) -> (result: Result<
    (),
    CrewAIError,
>) where F: Fn(&Task) -> Result<(), String> + Sync
    requires
        can_perform(old(tasks)@, perform),
    ensures
        ran_in_parallel(old(tasks)@, final(tasks)@, result, perform),
{
    launch_all(tasks);
    let ghost running = tasks@;
    let results = perform_on_pool(tasks, &perform);
    let outcomes = outcomes_of(&results);
    let messages = settle(tasks, &outcomes);
    let result = report(&messages, "Multiple task execution failures: ");
    proof {
        let views = result_views(results@);
        assert(performed(old(tasks)@, results@, perform));
        lemma_failure_messages_ignore_status(old(tasks)@, running, views);
        assert(settled(old(tasks)@, views, tasks@)) by {
            assert forall|j: int| 0 <= j < tasks.len() implies {
                &&& (#[trigger] tasks[j]).same_work_as(old(tasks)[j])
                &&& tasks[j].status@ == views[j].status(old(tasks)[j].id)
            } by {
                assert(tasks[j].same_work_as(running[j]));
                assert(running[j] == old(tasks)[j].started());
            }
        }
    }
    result
}

/// Failure messages depend on the tasks' identifiers alone.
pub proof fn lemma_failure_messages_ignore_status(
    before: Seq<Task>,
    after: Seq<Task>,
    outcomes: Seq<OutcomeView>,
)
    requires
        after.len() == before.len(),
        outcomes.len() <= before.len(),
        forall|i: int| 0 <= i < before.len() ==> (#[trigger] after[i]).id == before[i].id,
    ensures
        failure_messages(after, outcomes) == failure_messages(before, outcomes),
    decreases outcomes.len(),
{
    if outcomes.len() > 0 {
        lemma_failure_messages_ignore_status(before, after, outcomes.drop_last());
    }
}

/// What settling a concurrent run with `outcomes` leaves behind.
///
/// With one outcome per task, every task carries the status its outcome
/// calls for and the failures are reported together in list order. With any
/// other number of outcomes nothing is touched and the mismatch is reported
/// as a scheduler failure.
pub open spec fn settled_concurrently(
    before: Seq<Task>,
    outcomes: Seq<OutcomeView>,
    after: Seq<Task>,
    result: Result<(), CrewAIError>,
) -> bool {
    if outcomes.len() == before.len() {
        &&& settled(before, outcomes, after)
        &&& reports(result, aggregate(before, outcomes, concurrent_prefix()))
    } else {
        &&& after == before
        &&& reports(
            result,
            Some(
                ErrorView::AsyncRuntimeError(outcome_count_message(before.len(), outcomes.len())),
            ),
        )
    }
}

/// Closes a concurrent run: `outcomes` holds, in list order, what became of
/// the activity launched for each task.
pub fn settle_concurrent(tasks: &mut Vec<Task>, outcomes: &Vec<TaskOutcome>) -> (result: Result<
    (),
    CrewAIError,
>)
    ensures
        settled_concurrently(old(tasks)@, outcome_views(outcomes@), final(tasks)@, result),
{
    if outcomes.len() != tasks.len() {
        let mut detail = String::from_str("Expected ");
        append_decimal(&mut detail, tasks.len() as u64);
        detail.append(" task outcomes, got ");
        append_decimal(&mut detail, outcomes.len() as u64);
        proof {
            assert(detail@ =~= outcome_count_message(tasks.len() as nat, outcomes.len() as nat));
        }
        return Err(CrewAIError::AsyncRuntimeError(detail));
    }
    let messages = settle(tasks, outcomes);
    report(&messages, "Multiple async task failures: ")
}

/// A sequential run is fail-fast. Over tasks that were all pending, a failed
/// run leaves exactly one failed task: those before it are completed, those
/// after it are still pending, and the error names that task alone.
pub proof fn lemma_sequential_stops_at_first_failure<F: Fn(&Task) -> Result<(), String>>(
    before: Seq<Task>,
    after: Seq<Task>,
    result: Result<(), CrewAIError>,
    perform: F,
)
    requires
        ran_sequentially(before, after, result, perform),
        forall|i: int| 0 <= i < before.len() ==> (#[trigger] before[i]).status@ is Pending,
        result is Err,
    ensures
        exists|k: int, reason: String|
            {
                &&& 0 <= k < before.len()
                &&& forall|i: int| 0 <= i < k ==> (#[trigger] after[i]).status@ is Completed
                &&& after[k].status@ == StatusView::Failed(failure_message(before[k].id, reason@))
                &&& forall|i: int| k < i < before.len() ==> (#[trigger] after[i]).status@ is Pending
                &&& #[trigger] call_ensures(perform, (&before[k].started(),), Err(reason))
                &&& result->Err_0@ == ErrorView::ExecutionError(
                    sequential_error_message(before[k].id, reason@),
                )
            },
{
    let error = result->Err_0@;
    let (k, reason) = choose|k: int, reason: String|
        stopped_at(before, after, error, perform, k, reason);
    assert(stopped_at(before, after, error, perform, k, reason));
    assert forall|i: int| k < i < before.len() implies (#[trigger] after[i]).status@ is Pending by {
        assert(after[i] == before[i]);
    }
    assert(call_ensures(perform, (&before[k].started(),), Err(reason)));
}

/// Where the operation cannot fail, a sequential run succeeds and completes
/// every task.
pub proof fn lemma_sequential_all_succeed<F: Fn(&Task) -> Result<(), String>>(
    before: Seq<Task>,
    after: Seq<Task>,
    result: Result<(), CrewAIError>,
    perform: F,
)
    requires
        ran_sequentially(before, after, result, perform),
        forall|i: int, r: Result<(), String>|
            0 <= i < before.len() && #[trigger] call_ensures(perform, (&before[i].started(),), r)
                ==> r is Ok,
    ensures
        result is Ok,
        forall|i: int| 0 <= i < before.len() ==> (#[trigger] after[i]).status@ is Completed,
{
    if result is Err {
        let error = result->Err_0@;
        let (k, reason) = choose|k: int, reason: String|
            stopped_at(before, after, error, perform, k, reason);
        assert(stopped_at(before, after, error, perform, k, reason));
        assert(call_ensures(perform, (&before[k].started(),), Err(reason)));
    }
}

/// Fanning out is not fail-fast: once a run is settled every task is in a
/// terminal status, failed exactly where its own outcome was not a success.
pub proof fn lemma_settled_every_task(
    before: Seq<Task>,
    outcomes: Seq<OutcomeView>,
    after: Seq<Task>,
)
    requires
        settled(before, outcomes, after),
    ensures
        forall|i: int|
            0 <= i < before.len() ==> {
                &&& (#[trigger] after[i]).status@.is_terminal()
                &&& after[i].status@ is Completed <==> outcomes[i] is Succeeded
            },
{
}

/// The failure messages of a run are exactly the messages of the outcomes
/// that were not a success.
pub proof fn lemma_failure_messages_exact(
    tasks: Seq<Task>,
    outcomes: Seq<OutcomeView>,
    text: Seq<char>,
)
    ensures
        failure_messages(tasks, outcomes).contains(text) <==> exists|i: int|
            0 <= i < outcomes.len() && (#[trigger] outcomes[i]).message(tasks[i].id) == Some(text),
    decreases outcomes.len(),
{
    let messages = failure_messages(tasks, outcomes);
    if outcomes.len() > 0 {
        let shorter = outcomes.drop_last();
        let earlier = failure_messages(tasks, shorter);
        let n = outcomes.len() - 1;
        lemma_failure_messages_exact(tasks, shorter, text);
        if messages.contains(text) {
            let at = choose|j: int| 0 <= j < messages.len() && messages[j] == text;
            if at < earlier.len() {
                assert(earlier[at] == text);
                assert(earlier.contains(text));
                let i = choose|i: int|
                    0 <= i < shorter.len() && (#[trigger] shorter[i]).message(tasks[i].id) == Some(
                        text,
                    );
                assert(outcomes[i].message(tasks[i].id) == Some(text));
            } else {
                assert(outcomes[n].message(tasks[n].id) == Some(text));
            }
        }
        if exists|i: int|
            0 <= i < outcomes.len() && (#[trigger] outcomes[i]).message(tasks[i].id) == Some(text) {
            let i = choose|i: int|
                0 <= i < outcomes.len() && (#[trigger] outcomes[i]).message(tasks[i].id) == Some(
                    text,
                );
            if i < n {
                assert(shorter[i].message(tasks[i].id) == Some(text));
                assert(earlier.contains(text));
                let at = choose|j: int| 0 <= j < earlier.len() && earlier[j] == text;
                assert(messages[at] == text);
            } else {
                assert(messages[messages.len() - 1] == text);
            }
        }
    }
}

/// A settled run reports success exactly where every outcome was a success.
pub proof fn lemma_aggregate_none_iff_all_succeeded(
    tasks: Seq<Task>,
    outcomes: Seq<OutcomeView>,
    prefix: Seq<char>,
)
    ensures
        aggregate(tasks, outcomes, prefix) is None <==> forall|i: int|
            0 <= i < outcomes.len() ==> #[trigger] outcomes[i] is Succeeded,
    decreases outcomes.len(),
{
    if outcomes.len() > 0 {
        let shorter = outcomes.drop_last();
        lemma_aggregate_none_iff_all_succeeded(tasks, shorter, prefix);
        if forall|i: int| 0 <= i < outcomes.len() ==> #[trigger] outcomes[i] is Succeeded {
            assert forall|i: int| 0 <= i < shorter.len() implies #[trigger] shorter[i]
                is Succeeded by {
                assert(outcomes[i] is Succeeded);
            }
        }
        if aggregate(tasks, outcomes, prefix) is None {
            assert forall|i: int| 0 <= i < outcomes.len() implies #[trigger] outcomes[i]
                is Succeeded by {
                if i < shorter.len() {
                    assert(shorter[i] is Succeeded);
                }
            }
        }
    }
}

/// Where the operation cannot fail, a parallel run succeeds and completes
/// every task.
pub proof fn lemma_parallel_all_succeed<F: Fn(&Task) -> Result<(), String>>(
    before: Seq<Task>,
    after: Seq<Task>,
    result: Result<(), CrewAIError>,
    perform: F,
)
    requires
        ran_in_parallel(before, after, result, perform),
        forall|i: int, r: Result<(), String>|
            0 <= i < before.len() && #[trigger] call_ensures(perform, (&before[i].started(),), r)
                ==> r is Ok,
    ensures
        result is Ok,
        forall|i: int| 0 <= i < before.len() ==> (#[trigger] after[i]).status@ is Completed,
{
    let results = choose|results: Seq<Result<(), String>>|
        {
            &&& #[trigger] performed(before, results, perform)
            &&& settled(before, result_views(results), after)
            &&& reports(result, aggregate(before, result_views(results), parallel_prefix()))
        };
    let views = result_views(results);
    assert forall|i: int| 0 <= i < views.len() implies #[trigger] views[i] is Succeeded by {
        assert(call_ensures(perform, (&before[i].started(),), results[i]));
    }
    lemma_aggregate_none_iff_all_succeeded(before, views, parallel_prefix());
    lemma_settled_every_task(before, views, after);
}

/// Where every activity succeeded, closing a concurrent run succeeds and
/// completes every task.
pub proof fn lemma_concurrent_all_succeed(
    before: Seq<Task>,
    outcomes: Seq<OutcomeView>,
    after: Seq<Task>,
    result: Result<(), CrewAIError>,
)
    requires
        settled_concurrently(before, outcomes, after, result),
        outcomes.len() == before.len(),
        forall|i: int| 0 <= i < outcomes.len() ==> #[trigger] outcomes[i] is Succeeded,
    ensures
        result is Ok,
        forall|i: int| 0 <= i < before.len() ==> (#[trigger] after[i]).status@ is Completed,
{
    lemma_aggregate_none_iff_all_succeeded(before, outcomes, concurrent_prefix());
    lemma_settled_every_task(before, outcomes, after);
}

} // verus!
