//! Word parsing of the Python bindings, which differs from the agent's:
//! mouse buttons are compared without case, and the d-pad directions need
//! their full names.

use vstd::prelude::*;

use crate::input::{
    ascii_lowered, is_ascii_text, gamepad_button_named, gamepad_button_of, lowercase, mouse_button_named, mouse_button_of,
    to_lowercase, GamepadButton, MouseButton,
};
use crate::text::joined;

verus! {

/// The mouse button a word names, compared without case: "right",
/// "middle", anything else the left button.
pub fn parse_mouse_button(s: &str) -> (b: MouseButton)
    ensures
        b == mouse_button_of(lowercase(s@)),
        is_ascii_text(s@) ==> b == mouse_button_of(ascii_lowered(s@)),
{
    let lower = to_lowercase(s);
    mouse_button_named(&lower)
}

/// The gamepad button a word names, compared without case; an unknown word
/// gives the message "Unknown button: " and the word.
pub fn parse_gamepad_button(s: &str) -> (r: Result<GamepadButton, String>)
    ensures
        gamepad_button_of(lowercase(s@), false) matches Some(b) ==> r == Ok::<GamepadButton, String>(
            b,
        ),
        gamepad_button_of(lowercase(s@), false) is None ==> (r matches Err(m) && m@
            == "Unknown button: "@ + s@),
        is_ascii_text(s@) ==> (gamepad_button_of(ascii_lowered(s@), false) matches Some(b) ==> r
            == Ok::<GamepadButton, String>(b)),
        is_ascii_text(s@) && gamepad_button_of(ascii_lowered(s@), false) is None ==> (r matches Err(
            m,
        ) && m@ == "Unknown button: "@ + s@),
{
    let lower = to_lowercase(s);
    match gamepad_button_named(&lower, false) {
        Some(b) => Ok(b),
        None => Err(joined("Unknown button: ", s)),
    }
}

} // verus!
