use crewai_core::errors::ExceptionKind;
use crewai_core::text::{append_decimal, join};
use crewai_core::{Agent, CrewAIError, Task, TaskOutcome, TaskStatus};

fn decimal_of(n: u64) -> String {
    let mut out = String::new();
    append_decimal(&mut out, n);
    out
}

#[test]
fn decimal_of_single_digits() {
    assert_eq!(decimal_of(0), "0");
    assert_eq!(decimal_of(7), "7");
    assert_eq!(decimal_of(9), "9");
}

#[test]
fn decimal_of_larger_numbers() {
    assert_eq!(decimal_of(10), "10");
    assert_eq!(decimal_of(1203), "1203");
    assert_eq!(decimal_of(4294967295), "4294967295");
    assert_eq!(decimal_of(u64::MAX), "18446744073709551615");
}

#[test]
fn decimal_is_appended_after_existing_text() {
    let mut out = "id=".to_string();
    append_decimal(&mut out, 42);
    assert_eq!(out, "id=42");
}

#[test]
fn join_of_nothing_is_empty() {
    assert_eq!(join(&vec![], ", "), "");
}

#[test]
fn join_of_one_part_has_no_separator() {
    assert_eq!(join(&vec!["a".to_string()], ", "), "a");
}

#[test]
fn join_puts_separator_between_neighbours() {
    let parts = vec!["a".to_string(), "".to_string(), "c".to_string()];
    assert_eq!(join(&parts, ", "), "a, , c");
    assert_eq!(join(&parts, ""), "ac");
}

#[test]
fn describe_role_with_expertise() {
    let agent = Agent::new(
        "Ada".to_string(),
        "Analyst".to_string(),
        Some("numbers".to_string()),
    )
    .unwrap();
    assert_eq!(
        agent.describe_role(),
        "Agent 'Ada' with role 'Analyst' and expertise in 'numbers'"
    );
}

#[test]
fn describe_role_without_expertise() {
    let agent = Agent::new("Ada".to_string(), "Analyst".to_string(), None).unwrap();
    assert_eq!(agent.describe_role(), "Agent 'Ada' with role 'Analyst'");
}

#[test]
fn status_text() {
    assert_eq!(TaskStatus::Pending.describe(), "Pending");
    assert_eq!(TaskStatus::Running.describe(), "Running");
    assert_eq!(TaskStatus::Completed.describe(), "Completed");
    assert_eq!(TaskStatus::Failed("out of ink".to_string()).describe(), "Failed: out of ink");
}

#[test]
fn status_predicates() {
    let failed = TaskStatus::Failed("x".to_string());
    assert!(TaskStatus::Pending.is_pending());
    assert!(!TaskStatus::Pending.is_running());
    assert!(TaskStatus::Running.is_running());
    assert!(!TaskStatus::Running.is_completed());
    assert!(TaskStatus::Completed.is_completed());
    assert!(!TaskStatus::Completed.is_failed());
    assert!(failed.is_failed());
    assert!(!failed.is_pending());
}

#[test]
fn status_error_text_only_when_failed() {
    assert_eq!(TaskStatus::Failed("x".to_string()).get_error(), Some("x".to_string()));
    assert_eq!(TaskStatus::Pending.get_error(), None);
    assert_eq!(TaskStatus::Running.get_error(), None);
    assert_eq!(TaskStatus::Completed.get_error(), None);
}

#[test]
fn error_messages_carry_their_label() {
    let d = || "d".to_string();
    assert_eq!(CrewAIError::IOError(d()).message(), "IO error: d");
    assert_eq!(CrewAIError::YamlError(d()).message(), "YAML parsing error: d");
    assert_eq!(CrewAIError::MissingField(d()).message(), "Missing required field: d");
    assert_eq!(CrewAIError::InvalidConfig(d()).message(), "Invalid configuration: d");
    assert_eq!(CrewAIError::ExecutionError(d()).message(), "Execution error: d");
    assert_eq!(CrewAIError::AsyncRuntimeError(d()).message(), "Async runtime error: d");
    assert_eq!(CrewAIError::TaskPanic(d()).message(), "Task panic: d");
}

#[test]
fn error_detail_is_the_payload() {
    assert_eq!(CrewAIError::TaskPanic("boom".to_string()).detail(), "boom");
    assert_eq!(CrewAIError::IOError("".to_string()).detail(), "");
}

#[test]
fn exception_kinds() {
    let d = || "d".to_string();
    assert_eq!(CrewAIError::IOError(d()).exception_kind(), ExceptionKind::Io);
    assert_eq!(CrewAIError::YamlError(d()).exception_kind(), ExceptionKind::Value);
    assert_eq!(CrewAIError::MissingField(d()).exception_kind(), ExceptionKind::Value);
    assert_eq!(CrewAIError::InvalidConfig(d()).exception_kind(), ExceptionKind::Value);
    assert_eq!(CrewAIError::ExecutionError(d()).exception_kind(), ExceptionKind::Runtime);
    assert_eq!(CrewAIError::AsyncRuntimeError(d()).exception_kind(), ExceptionKind::Runtime);
    assert_eq!(CrewAIError::TaskPanic(d()).exception_kind(), ExceptionKind::Runtime);
}

#[test]
fn exception_messages() {
    let d = || "d".to_string();
    assert_eq!(CrewAIError::IOError(d()).exception_message(), "IO error: d");
    assert_eq!(CrewAIError::YamlError(d()).exception_message(), "YAML parsing error: d");
    assert_eq!(CrewAIError::MissingField(d()).exception_message(), "Missing field: d");
    assert_eq!(CrewAIError::InvalidConfig(d()).exception_message(), "Invalid configuration: d");
    assert_eq!(CrewAIError::ExecutionError(d()).exception_message(), "Execution error: d");
    assert_eq!(
        CrewAIError::AsyncRuntimeError(d()).exception_message(),
        "Async runtime error: d"
    );
    assert_eq!(CrewAIError::TaskPanic(d()).exception_message(), "Task panic: d");
}

#[test]
fn outcome_messages() {
    assert_eq!(TaskOutcome::Succeeded.message(5), None);
    assert_eq!(
        TaskOutcome::Failed("no paper".to_string()).message(5),
        Some("Task 5 failed: no paper".to_string())
    );
    assert_eq!(
        TaskOutcome::Failed("".to_string()).message(120),
        Some("Task 120 failed: ".to_string())
    );
    assert_eq!(
        TaskOutcome::Panicked("index out of bounds".to_string()).message(5),
        Some("Task panicked: index out of bounds".to_string())
    );
}

#[test]
fn outcome_from_result() {
    assert_eq!(TaskOutcome::from_result(Ok(())), TaskOutcome::Succeeded);
    assert_eq!(
        TaskOutcome::from_result(Err("why".to_string())),
        TaskOutcome::Failed("why".to_string())
    );
}

#[test]
fn agent_setters_reject_empty_strings() {
    let mut agent = Agent::new("Ada".to_string(), "Analyst".to_string(), None).unwrap();
    assert_eq!(
        agent.set_name("".to_string()),
        Err(CrewAIError::MissingField("Agent name cannot be empty".to_string()))
    );
    assert_eq!(agent.name, "Ada");
    assert_eq!(
        agent.set_role("".to_string()),
        Err(CrewAIError::MissingField("Agent role cannot be empty".to_string()))
    );
    assert_eq!(agent.role, "Analyst");
    assert_eq!(agent.set_name("Bob".to_string()), Ok(()));
    assert_eq!(agent.set_role("Builder".to_string()), Ok(()));
    assert_eq!(agent.name, "Bob");
    assert_eq!(agent.role, "Builder");
    assert_eq!(agent.expertise, None);
}

#[test]
fn task_setters_reject_empty_strings() {
    let mut task = Task::new(1, "d".to_string(), "o".to_string(), None).unwrap();
    assert_eq!(
        task.set_description("".to_string()),
        Err(CrewAIError::MissingField("Task description cannot be empty".to_string()))
    );
    assert_eq!(task.description, "d");
    assert_eq!(
        task.set_expected_output("".to_string()),
        Err(CrewAIError::MissingField("Task expected output cannot be empty".to_string()))
    );
    assert_eq!(task.expected_output, "o");
    assert_eq!(task.set_description("d2".to_string()), Ok(()));
    assert_eq!(task.set_expected_output("o2".to_string()), Ok(()));
    assert_eq!(task.description, "d2");
    assert_eq!(task.expected_output, "o2");
    assert_eq!(task.id, 1);
    assert_eq!(task.status, TaskStatus::Pending);
}

#[test]
fn set_status_replaces_only_the_status() {
    let mut task = Task::new(9, "d".to_string(), "o".to_string(), Some("a".to_string())).unwrap();
    task.set_status(TaskStatus::Running);
    assert_eq!(*task.get_status(), TaskStatus::Running);
    task.set_status(TaskStatus::Failed("x".to_string()));
    assert_eq!(*task.get_status(), TaskStatus::Failed("x".to_string()));
    assert_eq!(task.id, 9);
    assert_eq!(task.description, "d");
    assert_eq!(task.expected_output, "o");
    assert_eq!(task.agent_name, Some("a".to_string()));
}
