//! A single-user task reminder: a store of tasks with sequential ids, completion
//! toggling, deletion with renumbering, and deadline-urgency classification.

pub mod date;
pub mod tasks;
pub mod selection;
pub mod urgency;
