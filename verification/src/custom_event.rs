//! Custom event type for Ruffle on Android

use vstd::prelude::*;

verus! {

/// User-defined events. `Task` is the type of the player's pollable tasks.
pub enum RuffleEvent<Task> {
    /// Indicates that a task is ready to be polled.
    TaskPoll(Task),
    SetVirtualKeyboardVisible(bool),
    RunContextMenuCallback(usize),
    ClearContextMenu,
    RequestContextMenu,
}

} // verus!
