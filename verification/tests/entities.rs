use crewai_core::{Agent, Crew, CrewAIError, Task, TaskStatus};

#[test]
fn test_agent_creation() {
    let agent_result = Agent::new(
        "Test Agent".to_string(),
        "Tester".to_string(),
        Some("Testing".to_string()),
    );

    assert!(agent_result.is_ok());
    let agent = agent_result.unwrap();
    assert_eq!(agent.name, "Test Agent");
    assert_eq!(agent.role, "Tester");
    assert_eq!(agent.expertise, Some("Testing".to_string()));
}

#[test]
fn test_agent_validation() {
    // Empty name
    let agent_result = Agent::new("".to_string(), "Tester".to_string(), None);

    assert!(agent_result.is_err());

    // Empty role
    let agent_result = Agent::new("Test Agent".to_string(), "".to_string(), None);

    assert!(agent_result.is_err());
}

#[test]
fn test_task_creation() {
    let task_result = Task::new(
        1,
        "Test Task".to_string(),
        "Test Output".to_string(),
        Some("Test Agent".to_string()),
    );

    assert!(task_result.is_ok());
    let task = task_result.unwrap();
    assert_eq!(task.id, 1);
    assert_eq!(task.description, "Test Task");
    assert_eq!(task.expected_output, "Test Output");
    assert_eq!(task.agent_name, Some("Test Agent".to_string()));
}

#[test]
fn test_task_validation() {
    // Empty description
    let task_result = Task::new(1, "".to_string(), "Test Output".to_string(), None);

    assert!(task_result.is_err());

    // Empty expected output
    let task_result = Task::new(1, "Test Task".to_string(), "".to_string(), None);

    assert!(task_result.is_err());
}

#[test]
fn test_crew_creation() {
    let crew_result = Crew::new("Test Crew".to_string(), "sequential".to_string());

    assert!(crew_result.is_ok());
    let crew = crew_result.unwrap();
    assert_eq!(crew.name, "Test Crew");
    assert_eq!(crew.process, "sequential");
    assert!(crew.agents.is_empty());
    assert!(crew.tasks.is_empty());
}

#[test]
fn test_crew_validation() {
    // Empty name
    let crew_result = Crew::new("".to_string(), "sequential".to_string());

    assert!(crew_result.is_err());

    // Invalid process
    let crew_result = Crew::new("Test Crew".to_string(), "invalid".to_string());

    assert!(crew_result.is_err());
}

#[test]
fn agent_construction_names_the_missing_field() {
    assert_eq!(
        Agent::new("".to_string(), "".to_string(), None).unwrap_err(),
        CrewAIError::MissingField("Agent name cannot be empty".to_string())
    );
    assert_eq!(
        Agent::new("a".to_string(), "".to_string(), None).unwrap_err(),
        CrewAIError::MissingField("Agent role cannot be empty".to_string())
    );
}

#[test]
fn task_construction_names_the_missing_field() {
    assert_eq!(
        Task::new(7, "".to_string(), "".to_string(), None).unwrap_err(),
        CrewAIError::MissingField("Task description cannot be empty".to_string())
    );
    assert_eq!(
        Task::new(7, "d".to_string(), "".to_string(), None).unwrap_err(),
        CrewAIError::MissingField("Task expected output cannot be empty".to_string())
    );
}

#[test]
fn new_task_is_pending() {
    let task = Task::new(3, "d".to_string(), "o".to_string(), None).unwrap();
    assert_eq!(task.status, TaskStatus::Pending);
    assert_eq!(*task.get_status(), TaskStatus::Pending);
    assert_eq!(TaskStatus::default(), TaskStatus::Pending);
}
