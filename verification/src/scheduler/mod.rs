//! Task bookkeeping for the script scheduler: the ready queue, the registry
//! of tasks and their waiters, and the decisions of the driver loop.

pub mod laws;
pub mod model;
pub mod registry;
pub mod value;
