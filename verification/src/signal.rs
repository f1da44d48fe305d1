//! The messages that travel over the pool's queue, and the pool's errors.
use vstd::prelude::*;

verus! {

/// A message on the shared queue: one unit of work, or the order to stop.
pub enum Signal<T> {
    /// Carries exactly one unit of work.
    NewTask(T),
    /// Tells the worker that takes it to leave its loop.
    Terminate,
}

impl<T> Signal<T> {
    /// Whether this signal carries a unit of work.
    pub fn is_task(&self) -> (result: bool)
        ensures
            result == (*self is NewTask),
    {
        match self {
            Signal::NewTask(_) => true,
            Signal::Terminate => false,
        }
    }

    /// The unit of work that the signal carries, if it carries one.
    pub fn into_task(self) -> (result: Option<T>)
        ensures
            result == match self {
                Signal::NewTask(unit) => Some(unit),
                Signal::Terminate => None::<T>,
            },
    {
        match self {
            Signal::NewTask(unit) => Some(unit),
            Signal::Terminate => None,
        }
    }
}

/// Why the pool refused a call.
#[derive(Clone, Copy, Debug, PartialEq, Eq, Structural)]
pub enum PoolError {
    /// A pool was asked for with no workers.
    ConfigError,
    /// A unit was submitted to a queue that nobody takes from any more:
    /// shutdown had begun, or every worker had left its loop.
    QueueBroken,
}

impl PoolError {
    /// A short description of the error for people.
    pub fn message(&self) -> (result: &'static str)
        ensures
            result@ == match *self {
                PoolError::ConfigError => "invalid pool size"@,
                PoolError::QueueBroken => "pool queue is broken"@,
            },
    {
        match self {
            PoolError::ConfigError => "invalid pool size",
            PoolError::QueueBroken => "pool queue is broken",
        }
    }
}

} // verus!
