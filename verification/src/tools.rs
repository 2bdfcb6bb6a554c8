//! Timing of an operation.

use vstd::prelude::*;
use std::time::Duration;
use std::time::Instant;
use crate::errors::CrewAIError;

verus! {

/// `std::time::Instant`, a point on the monotonic clock. Opaque here: it is
/// only carried from the start of a measurement to its end.
#[verifier::external_type_specification]
#[verifier::external_body]
pub struct ExInstant(Instant);

/// `Instant::now` reads the monotonic clock. Nothing is claimed of the
/// reading.
pub assume_specification[ Instant::now ]() -> (now: Instant)
;

/// `Instant::elapsed` gives the time that has passed since the instant was
/// taken. Nothing is claimed of the amount.
pub assume_specification[ Instant::elapsed ](start: &Instant) -> (elapsed: Duration)
;

/// What a measured operation cost.
pub struct PerformanceMetrics {
    /// Wall-clock time the operation took.
    pub execution_time: Duration,
    /// Memory in use, where it was measured.
    pub memory_usage: Option<u64>,
}

impl PerformanceMetrics {
    pub fn new(execution_time: Duration, memory_usage: Option<u64>) -> (metrics: PerformanceMetrics)
        ensures
            metrics.execution_time == execution_time,
            metrics.memory_usage == memory_usage,
    {
        PerformanceMetrics { execution_time, memory_usage }
    }
}

/// Measures operations.
pub struct Benchmark;

impl Benchmark {
    /// Runs `f` once and reports its value together with the time it took.
    /// A failure of `f` is handed on as it is. Memory use is not measured.
    pub fn measure<F, T>(f: F) -> (measured: Result<(T, PerformanceMetrics), CrewAIError>) where
        F: FnOnce() -> Result<T, CrewAIError>,

        requires
            call_requires(f, ()),
        ensures
            match measured {
                Ok((value, metrics)) => {
                    &&& call_ensures(f, (), Ok(value))
                    &&& metrics.memory_usage is None
                },
                Err(error) => call_ensures(f, (), Err(error)),
            },
    {
        let start_time = Instant::now();
        match f() {
            Ok(value) => {
                let execution_time = start_time.elapsed();
                Ok((value, PerformanceMetrics::new(execution_time, None)))
            },
            Err(error) => Err(error),
        }
    }
}

} // verus!
