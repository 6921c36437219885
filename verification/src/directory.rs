//! Directory backends and the dispatcher that selects among them.

pub mod dispatch;
pub mod memory;
