//! Assets: the records the portfolio holds, and checks over them.
pub mod duplicate_detection;
