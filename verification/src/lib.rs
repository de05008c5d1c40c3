//! Dispatch engine that bridges a database notification channel to external
//! command execution. Payload keys travel through three named sets held in a
//! shared store (`pending`, `processing`, `done`); an atomic set-add is the
//! single synchronization point that gives each key at most one active claim.
//! A bounded worker pool runs the configured command once per claimed key and
//! reports one outcome per attempt; the consumer cycle reconciles outcomes
//! back into the sets and claims new work up to the pool's idle capacity.

pub mod cli;
pub mod config;
pub mod consumer;
pub mod dispatcher;
pub mod keys;
pub mod pool;
pub mod queue;
pub mod store;
