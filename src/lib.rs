//! Cron-driven reminders: the job registry, the trigger evaluator that gates
//! firing on a reminder's live state and daily window, and the coordinator that
//! keeps scheduled jobs consistent with the stored reminders.

pub mod error;
pub mod models;
pub mod clock;
pub mod trigger;
pub mod schedule;
pub mod repository;
pub mod scheduler;
pub mod service;
