//! Crews of agents that carry out task lists under a sequential, a parallel or
//! a cooperative-concurrent discipline, with the engine's behaviour stated in
//! contracts.

pub mod errors;
pub mod text;
pub mod tasks;
pub mod agents;
pub mod execution;
pub mod crew;
pub mod tools;

pub use agents::Agent;
pub use crew::AsyncStep;
pub use crew::Crew;
pub use crew::ProcessKind;
pub use errors::CrewAIError;
pub use tasks::Task;
pub use tasks::TaskOutcome;
pub use tasks::TaskStatus;
pub use tools::Benchmark;
pub use tools::PerformanceMetrics;
