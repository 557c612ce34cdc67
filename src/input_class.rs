//! Classes of keystrokes that change state, held back in read-only mode.

use vstd::prelude::*;

verus! {

/// New task creation.
pub const NEW_TASK: &'static str = "new_task";
/// Launch of the cluster.
pub const LAUNCH: &'static str = "launch";
/// Installation of a prerequisite.
pub const INSTALL: &'static str = "install";
/// Text entry in a dialog.
pub const MODAL_INPUT: &'static str = "modal_input";

} // verus!
