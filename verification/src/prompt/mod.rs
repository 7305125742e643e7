//! The prompt machinery: budgets, dispatch, compaction and the step loop's
//! decisions.

pub mod adapter;
pub mod branches;
pub mod child_dispatch;
pub mod budget;
pub mod compactor;
pub mod dispatch;
pub mod exchange;
pub mod role;
