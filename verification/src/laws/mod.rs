//! What holds of the library as a whole.

pub mod activity;
pub mod config;
pub mod heap;
pub mod manager;
pub mod queue;
pub mod send;
pub mod steps;
pub mod system;
pub mod time;
pub mod worker;
