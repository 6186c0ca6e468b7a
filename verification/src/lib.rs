//! A fixed-size worker pool built around a bounded FIFO task queue and a
//! cooperative pause gate.
//!
//! The synchronization core is modeled as explicit state: the bounded queue
//! with its admission policy, the pause flag with its idempotent transitions,
//! and the per-worker state machine that picks a task up, runs it, and then
//! consults the pause gate. Every decision the pool makes is a verified function of
//! that state; the surrounding program supplies threads, wait/notify channels,
//! and timing around these decisions.

pub mod gate;
pub mod pool;
pub mod queue;
pub mod task;
pub mod worker;

pub use gate::PauseGate;
pub use pool::Pool;
pub use pool::PoolEvent;
pub use queue::BoundedTaskQueue;
pub use queue::SubmitOutcome;
pub use task::Task;
pub use worker::WorkerState;
