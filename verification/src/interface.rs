//! Where the operator is in the interface, and what a key does to that.

use vstd::prelude::*;

verus! {

/// Whether a region of the interface has the operator's attention.
#[derive(Clone, Copy, Debug, Hash, PartialEq, Eq, Structural)]
pub enum InterfaceRegionState {
    Active,
    Inactive,
}

/// The windows of the interface.
#[derive(Clone, Copy, Debug, PartialEq, Eq, Structural)]
pub enum InterfaceWindow {
    Main,
}

/// The regions of a window; `Nowhere` is no region.
#[derive(Clone, Copy, Debug, PartialEq, Eq, Structural)]
pub enum InterfaceRegion {
    Drop1,
    Loop1,
    Loop2,
    Mutations,
    Nowhere,
}

/// The window and the region that the operator is in.
#[derive(Clone, Copy, Debug, PartialEq, Eq, Structural)]
pub struct InterfaceNavigationState {
    pub region: InterfaceRegion,
    pub window: InterfaceWindow,
}

/// A key as far as the interface tells keys apart.
#[derive(Clone, Copy, Debug, PartialEq, Eq, Structural)]
pub enum KeyInput {
    /// The escape key.
    Esc,
    /// A key that stands for a character.
    Char(char),
    /// Any other key.
    Other,
}

/// Whether the screen is to be drawn in cycle `cycles` of the real-time
/// loop, where it is drawn once in `screen_redraw_rate` cycles: in every
/// cycle that the rate divides, and in every cycle where the rate is 0.
pub fn redraw_due(cycles: u128, screen_redraw_rate: u128) -> (due: bool)
    ensures
        due == (screen_redraw_rate == 0 || cycles % screen_redraw_rate == 0),
{
    screen_redraw_rate == 0 || cycles % screen_redraw_rate == 0
}

impl InterfaceNavigationState {
    /// The state in which the interface starts: the main window, no region.
    pub fn new() -> (state: Self)
        ensures
            state.window == InterfaceWindow::Main,
            state.region == InterfaceRegion::Nowhere,
    {
        InterfaceNavigationState { region: InterfaceRegion::Nowhere, window: InterfaceWindow::Main }
    }

    /// A region is active if the operator is in it, inactive otherwise.
    pub fn get_region_state(&self, region: InterfaceRegion) -> (state: InterfaceRegionState)
        ensures
            state == if self.region == region {
                InterfaceRegionState::Active
            } else {
                InterfaceRegionState::Inactive
            },
    {
        if self.region == region {
            InterfaceRegionState::Active
        } else {
            InterfaceRegionState::Inactive
        }
    }

    /// Whether `key`, pressed now, asks the program to end: `q` does, while
    /// the operator is in no region.
    pub open spec fn asks_exit(&self, key: KeyInput) -> bool {
        self.region == InterfaceRegion::Nowhere && key == KeyInput::Char('q')
    }

    /// Takes one key event, if any is pending, and returns whether it asks
    /// the program to end. Only a key that goes down counts. Escape leaves
    /// the region the operator is in; nothing else moves the operator.
    pub fn react_to_key_events(&mut self, pending: Option<KeyInput>, pressed: bool) -> (exit: bool)
        ensures
            exit == (pressed && pending is Some && old(self).asks_exit(pending->0)),
            final(self).window == old(self).window,
            final(self).region == if pressed && pending == Some(KeyInput::Esc) {
                InterfaceRegion::Nowhere
            } else {
                old(self).region
            },
    {
        let key = match pending {
            Some(key) => key,
            None => {
                return false;
            },
        };
        if !pressed {
            return false;
        }
        let mut exit = false;
        match self.window {
            InterfaceWindow::Main => {
                match self.region {
                    InterfaceRegion::Nowhere => {
                        match key {
                            KeyInput::Char(c) => {
                                if c == 'q' {
                                    exit = true;
                                }
                            },
                            _ => {},
                        }
                    },
                    _ => {},
                }
                match key {
                    KeyInput::Esc => {
                        self.region = InterfaceRegion::Nowhere;
                    },
                    _ => {},
                }
            },
        }
        exit
    }
}

} // verus!
