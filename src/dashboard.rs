//! Pure logic of the terminal dashboard that the broker serves: its state
//! types, error hints and remediation text, prerequisite bookkeeping and
//! input validation.

pub mod cluster;
pub mod doctor;
pub mod error;
pub mod install;
pub mod types;
