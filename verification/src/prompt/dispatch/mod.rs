//! The step loop's decisions and the seams around it: matching manifests'
//! globs, naming where a step's files sit, reading what a child returned,
//! and what a driver does when it wakes.

pub mod glob;
pub mod staging;
pub mod stderr;
pub mod step_commit;
pub mod drain;
pub mod driver;
pub mod step_loop;
pub mod advance;
pub mod child_result;
pub mod gate;
pub mod retry;
pub mod assembler;
pub mod attempt;
pub mod events;
