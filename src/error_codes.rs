//! Machine-readable codes carried by error frames.

use vstd::prelude::*;

verus! {

pub const AUTH_REQUIRED: &'static str = "AUTH_REQUIRED";
pub const AUTH_FAILED: &'static str = "AUTH_FAILED";
pub const SESSION_NOT_FOUND: &'static str = "SESSION_NOT_FOUND";
pub const INVALID_TOKEN: &'static str = "INVALID_TOKEN";
pub const GLOBAL_CAP: &'static str = "GLOBAL_CAP";
pub const PER_IP_CAP: &'static str = "PER_IP_CAP";
pub const PTY_SPAWN_FAILED: &'static str = "PTY_SPAWN_FAILED";
pub const INTERNAL_ERROR: &'static str = "INTERNAL_ERROR";

} // verus!
