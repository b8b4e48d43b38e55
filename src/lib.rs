//! A reminder bot's core: conversational builders that collect a reminder
//! field by field, the trigger computation of each reminder kind, the
//! decisions of a scheduling task and the registry of running tasks.

pub mod calendar;
pub mod parse;
pub mod reminder;
pub mod builder;
pub mod task;
pub mod registry;
