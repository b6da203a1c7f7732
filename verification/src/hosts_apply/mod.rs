//! Applying the selected hosts content to the system hosts file: the
//! write plan (line endings, append mode, the no-op check), the outcome
//! of each write attempt, and the platform elevation helpers' decisions.

pub mod error;
pub mod write;
pub mod elevation;
pub mod laws;
