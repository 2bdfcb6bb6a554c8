use crewai_core::{Agent, Crew, CrewAIError, ProcessKind, Task};

fn agent(name: &str) -> Agent {
    Agent::new(name.to_string(), "role".to_string(), None).unwrap()
}

fn task(id: u32, agent_name: Option<&str>) -> Task {
    Task::new(
        id,
        "describe".to_string(),
        "expect".to_string(),
        agent_name.map(|n| n.to_string()),
    )
    .unwrap()
}

fn crew(process: &str, agents: &[&str], tasks: &[(u32, Option<&str>)]) -> Crew {
    let mut crew = Crew::new("crew".to_string(), process.to_string()).unwrap();
    for name in agents {
        crew.add_agent(agent(name));
    }
    for (id, agent_name) in tasks {
        crew.add_task(task(*id, *agent_name));
    }
    crew
}

fn invalid(detail: &str) -> Result<(), CrewAIError> {
    Err(CrewAIError::InvalidConfig(detail.to_string()))
}

#[test]
fn crew_new_accepts_the_three_process_names() {
    for process in ["sequential", "parallel", "async"] {
        let crew = Crew::new("c".to_string(), process.to_string()).unwrap();
        assert_eq!(crew.process, process);
        assert_eq!(crew.name, "c");
    }
}

#[test]
fn crew_new_reports_empty_name_before_bad_process() {
    assert_eq!(
        Crew::new("".to_string(), "invalid".to_string()).unwrap_err(),
        CrewAIError::MissingField("Crew name cannot be empty".to_string())
    );
}

#[test]
fn crew_new_reports_bad_process_by_name() {
    assert_eq!(
        Crew::new("c".to_string(), "invalid".to_string()).unwrap_err(),
        CrewAIError::InvalidConfig(
            "Invalid process type: invalid. Must be 'sequential', 'parallel', or 'async'"
                .to_string()
        )
    );
    assert_eq!(
        Crew::new("c".to_string(), "".to_string()).unwrap_err(),
        CrewAIError::InvalidConfig(
            "Invalid process type: . Must be 'sequential', 'parallel', or 'async'".to_string()
        )
    );
    assert!(Crew::new("c".to_string(), "Sequential".to_string()).is_err());
    assert!(Crew::new("c".to_string(), "sequential ".to_string()).is_err());
}

#[test]
fn process_names_are_read_exactly() {
    assert_eq!(ProcessKind::parse(&"sequential".to_string()), Some(ProcessKind::Sequential));
    assert_eq!(ProcessKind::parse(&"parallel".to_string()), Some(ProcessKind::Parallel));
    assert_eq!(ProcessKind::parse(&"async".to_string()), Some(ProcessKind::Async));
    assert_eq!(ProcessKind::parse(&"asynchronous".to_string()), None);
    assert_eq!(ProcessKind::parse(&"".to_string()), None);
}

#[test]
fn process_kind_of_a_crew() {
    assert_eq!(crew("async", &[], &[]).process_kind(), Ok(ProcessKind::Async));
    assert_eq!(crew("parallel", &[], &[]).process_kind(), Ok(ProcessKind::Parallel));
    let mut odd = crew("sequential", &[], &[]);
    assert_eq!(odd.process_kind(), Ok(ProcessKind::Sequential));
    odd.process = "batch".to_string();
    assert_eq!(
        odd.process_kind(),
        Err(CrewAIError::InvalidConfig("Unknown process type: batch".to_string()))
    );
}

#[test]
fn agents_and_tasks_keep_addition_order() {
    let crew = crew("sequential", &["a", "b", "c"], &[(3, None), (1, None), (2, None)]);
    let names: Vec<&str> = crew.agents.iter().map(|a| a.name.as_str()).collect();
    assert_eq!(names, ["a", "b", "c"]);
    let ids: Vec<u32> = crew.tasks.iter().map(|t| t.id).collect();
    assert_eq!(ids, [3, 1, 2]);
}

#[test]
fn get_agent_by_name_finds_the_first_bearer() {
    let mut crew = crew("sequential", &["a"], &[]);
    crew.add_agent(Agent::new("b".to_string(), "first".to_string(), None).unwrap());
    crew.add_agent(Agent::new("b".to_string(), "second".to_string(), None).unwrap());
    assert_eq!(crew.get_agent_by_name("b").unwrap().role, "first");
    assert_eq!(crew.get_agent_by_name("a").unwrap().name, "a");
    assert!(crew.get_agent_by_name("c").is_none());
    assert!(crew.get_agent_by_name("").is_none());
    assert!(crew.get_agent_by_name("A").is_none());
}

#[test]
fn validate_rejects_a_crew_without_agents() {
    let crew = crew("sequential", &[], &[(1, None)]);
    assert_eq!(crew.validate(), invalid("Crew must have at least one agent"));
}

#[test]
fn validate_rejects_a_crew_without_tasks() {
    let crew = crew("sequential", &["a"], &[]);
    assert_eq!(crew.validate(), invalid("Crew must have at least one task"));
}

#[test]
fn validate_reports_missing_agents_before_missing_tasks() {
    let crew = crew("sequential", &[], &[]);
    assert_eq!(crew.validate(), invalid("Crew must have at least one agent"));
}

#[test]
fn validate_rejects_a_dangling_reference() {
    let crew = crew("sequential", &["a"], &[(1, Some("a")), (2, Some("ghost"))]);
    assert_eq!(
        crew.validate(),
        invalid("Task references agent 'ghost' which doesn't exist in the crew")
    );
}

#[test]
fn validate_reports_the_first_dangling_reference_in_list_order() {
    let crew = crew(
        "sequential",
        &["a"],
        &[(1, None), (2, Some("late")), (3, Some("later")), (4, Some("a"))],
    );
    assert_eq!(
        crew.validate(),
        invalid("Task references agent 'late' which doesn't exist in the crew")
    );
}

#[test]
fn validate_accepts_tasks_without_an_agent() {
    let crew = crew("parallel", &["a"], &[(1, None), (2, None)]);
    assert_eq!(crew.validate(), Ok(()));
}

#[test]
fn validate_matches_names_exactly() {
    let crew = crew("sequential", &["Agent"], &[(1, Some("agent"))]);
    assert_eq!(
        crew.validate(),
        invalid("Task references agent 'agent' which doesn't exist in the crew")
    );
}

#[test]
fn validate_twice_gives_the_same_result() {
    let good = crew("sequential", &["a"], &[(1, Some("a"))]);
    assert_eq!(good.validate(), Ok(()));
    assert_eq!(good.validate(), good.validate());
    let bad = crew("sequential", &["a"], &[(1, Some("b"))]);
    let first = bad.validate();
    let second = bad.validate();
    assert!(first.is_err());
    assert_eq!(first, second);
    let empty = crew("sequential", &[], &[]);
    assert_eq!(empty.validate(), empty.validate());
}

#[test]
fn built_crew_validates_iff_populated_and_references_resolve() {
    let agent_sets: [&[&str]; 3] = [&[], &["a"], &["a", "b"]];
    let task_sets: [&[(u32, Option<&str>)]; 5] = [
        &[],
        &[(1, None)],
        &[(1, Some("a")), (2, Some("b"))],
        &[(1, Some("b"))],
        &[(1, Some("a")), (2, None), (3, Some("c"))],
    ];
    for agents in agent_sets {
        for tasks in task_sets {
            let expected = !agents.is_empty()
                && !tasks.is_empty()
                && tasks.iter().all(|(_, name)| match name {
                    Some(n) => agents.contains(n),
                    None => true,
                });
            let built = crew("sequential", agents, tasks);
            assert_eq!(built.agents.len(), agents.len());
            assert_eq!(built.tasks.len(), tasks.len());
            assert_eq!(built.validate().is_ok(), expected);
        }
    }
}
