//! The decisions behind sending ActivityPub activities to other instances.
//!
//! A [`SendManager`] keeps one worker for each instance that this process is in charge of. An
//! [`InstanceWorker`] sends the activities to one instance in the order of their ids, several at a
//! time, and a [`SendRetryTask`] retries one of them until it arrives. Each is a state machine: it
//! is told what happened and answers with what to do next. Reading the database, sending requests
//! and sleeping is left to the caller.
//!
//! What a task reports is a [`send::SendActivityResult`], and what the worker is told of it a
//! [`SendActivityResult`]. The former are equal when they are about the same activity, the latter
//! when they say the same of it.

pub mod activity;
pub mod config;
pub mod heap;
pub mod laws;
pub mod manager;
pub mod queue;
pub mod send;
pub mod time;
pub mod worker;

pub use activity::{ActivityId, SendActivityResult, SendSuccessInfo};
pub use config::concurrent_sends;
pub use manager::{
    FederatedInstance, ManagerAction, ManagerError, ManagerEvent, ManagerPhase, Opts, Pass,
    SendManager, WorkerCommand,
};
pub use queue::{FederationQueueState, Instance, InstanceId, SendQueue, WorkerError};
pub use send::{SendAction, SendError, SendEvent, SendPhase, SendRetryTask, SentActivity};
pub use time::Timestamp;
pub use worker::{InstanceWorker, Phase, WorkerAction, WorkerEvent};
