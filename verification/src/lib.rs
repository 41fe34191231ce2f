//! Verified decision core of a GPU fleet autopilot: fleet layout, chaos
//! scenarios, health lifecycle, job scheduling, remediation and the
//! autonomous incident agent.

pub mod text;
pub mod clock;
pub mod types;
pub mod lookup;
pub mod scheduler;
pub mod remediation;
pub mod config;
pub mod agent;
pub mod chaos;
pub mod simulator;
pub mod health;
pub mod telemetry;
pub mod fleet;
pub mod ml;
pub mod listing;
