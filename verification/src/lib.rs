//! Decision core of a virtual HID agent: parsing of agent inputs, the
//! per-action command protocol, UI-tree search and output encodings.

pub mod accessibility;
pub mod agent;
pub mod bindings;
pub mod encoding;
pub mod error;
pub mod input;
pub mod screenshot;
pub mod text;

use vstd::prelude::*;

verus! {

/// A virtual HID device that can be registered with the system and
/// removed again.
pub trait Device {
    /// Create and register the virtual device.
    fn create(&mut self) -> Result<(), error::Error>;

    /// Destroy and unregister the virtual device.
    fn destroy(&mut self) -> Result<(), error::Error>;

    /// Whether the device is created.
    fn is_created(&self) -> bool;
}

} // verus!

pub use accessibility::{find_matching, find_ui_element, Bounds, UIElement};
pub use agent::{AgentAction, AgentHID, AgentResult, Command, Devices, Event, Step};
pub use error::Error;
pub use input::{GamepadButton, Modifiers, MouseButton};
