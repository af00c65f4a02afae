//! Mapping from a confirmed key press to a remote-control action.
//!
//! The reference device binds one key to play/pause and one to the indicator
//! light; every other key is reserved and does nothing. The dispatcher owns
//! the indicator's toggle state privately.

use vstd::prelude::*;

verus! {

/// The action a confirmed key press asks for.
#[derive(Debug, Clone, Copy, PartialEq, Eq)]
pub enum DispatchAction {
    /// Run the remote client's play/pause operation.
    InvokePlayPause,
    /// Drive the indicator light with these red, green and blue levels.
    SetIndicator(u8, u8, u8),
    /// The key is unbound; do nothing.
    NoAction,
}

/// Maps confirmed keys to actions and holds the indicator's toggle state.
pub struct CommandDispatcher {
    toggle: bool,
}

impl View for CommandDispatcher {
    type V = bool;

    closed spec fn view(&self) -> bool {
        self.toggle
    }
}

impl CommandDispatcher {
    /// A fresh dispatcher with the indicator toggle cleared.
    pub fn new() -> (d: CommandDispatcher)
        ensures
            d@ == false,
    {
        CommandDispatcher { toggle: false }
    }

    /// Decides the action for one confirmed key: `'1'` asks for play/pause,
    /// `'2'` flips the toggle and asks for the indicator's on-color or off
    /// accordingly, and every other key is silently unbound.
    pub fn dispatch(&mut self, key: char) -> (action: DispatchAction)
        ensures
            key == '1' ==> action == DispatchAction::InvokePlayPause && final(self)@ == old(self)@,
            key == '2' && old(self)@ ==> action == DispatchAction::SetIndicator(10, 10, 0)
                && final(self)@ == false,
            key == '2' && !old(self)@ ==> action == DispatchAction::SetIndicator(0, 0, 0)
                && final(self)@ == true,
            key != '1' && key != '2' ==> action == DispatchAction::NoAction && final(self)@ == old(
                self)@,
    {
        if key == '1' {
            DispatchAction::InvokePlayPause
        } else if key == '2' {
            if self.toggle {
                self.toggle = false;
                DispatchAction::SetIndicator(10, 10, 0)
            } else {
                self.toggle = true;
                DispatchAction::SetIndicator(0, 0, 0)
            }
        } else {
            DispatchAction::NoAction
        }
    }
}

} // verus!
