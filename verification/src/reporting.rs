//! The DMARC outbound reporting engine: aggregate windows, report
//! assembly under a size budget, delivery, and failure reports.

pub mod aggregate;
pub mod dmarc;
pub mod failure;
pub mod laws;
pub mod sequence;
pub mod store;
pub mod types;
