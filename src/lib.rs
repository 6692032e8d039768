//! Cross-checks per-block transaction counts from a streaming feed against a
//! reference source, and keeps a running discrepancy report.
pub mod report;
pub mod reconciler;
pub mod supervisor;
pub mod text;
pub mod comparator;
pub mod session;
