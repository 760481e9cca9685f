//! History tables that guide move ordering and correct the static
//! evaluation.
pub mod corrhist;
pub mod threats;
