//! Core logic of a time-triggered flight planner: the bus identifier codec,
//! message reassembly, the persisted task record format, the task store's
//! allocation and compaction rules, the soonest-due cache, the alarm controller
//! and the decisions of the command dispatcher and execution engine.

pub mod ident;
pub mod message;
pub mod record;
pub mod store;
pub mod cache;
pub mod alarm;
pub mod planner;
pub mod flash;
