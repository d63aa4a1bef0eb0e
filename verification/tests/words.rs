use usehid::agent::AgentHID;
use usehid::bindings;
use usehid::error::Error;
use usehid::input::{GamepadButton, Modifiers, MouseButton};

#[test]
fn agent_mouse_buttons_compare_exactly() {
    assert_eq!(AgentHID::parse_mouse_button(None), MouseButton::Left);
    assert_eq!(AgentHID::parse_mouse_button(Some("right".to_string())), MouseButton::Right);
    assert_eq!(AgentHID::parse_mouse_button(Some("middle".to_string())), MouseButton::Middle);
    assert_eq!(AgentHID::parse_mouse_button(Some("RIGHT".to_string())), MouseButton::Left);
    assert_eq!(AgentHID::parse_mouse_button(Some("left".to_string())), MouseButton::Left);
}

#[test]
fn binding_mouse_buttons_ignore_case() {
    assert_eq!(bindings::parse_mouse_button("RIGHT"), MouseButton::Right);
    assert_eq!(bindings::parse_mouse_button("Middle"), MouseButton::Middle);
    assert_eq!(bindings::parse_mouse_button("other"), MouseButton::Left);
}

#[test]
fn agent_gamepad_buttons() {
    let cases = [
        ("A", GamepadButton::A), ("b", GamepadButton::B), ("x", GamepadButton::X), ("Y", GamepadButton::Y),
        ("lb", GamepadButton::LB), ("left_bumper", GamepadButton::LB), ("RB", GamepadButton::RB),
        ("right_bumper", GamepadButton::RB), ("back", GamepadButton::Back), ("select", GamepadButton::Back),
        ("start", GamepadButton::Start), ("guide", GamepadButton::Guide), ("home", GamepadButton::Guide),
        ("left_stick", GamepadButton::LeftStick), ("ls", GamepadButton::LeftStick),
        ("right_stick", GamepadButton::RightStick), ("rs", GamepadButton::RightStick),
        ("dpad_up", GamepadButton::DpadUp), ("up", GamepadButton::DpadUp), ("DPAD_DOWN", GamepadButton::DpadDown),
        ("down", GamepadButton::DpadDown), ("dpad_left", GamepadButton::DpadLeft), ("left", GamepadButton::DpadLeft),
        ("dpad_right", GamepadButton::DpadRight), ("Right", GamepadButton::DpadRight),
    ];
    for (word, button) in cases {
        assert_eq!(AgentHID::parse_gamepad_button(word).ok(), Some(button), "{}", word);
    }
    match AgentHID::parse_gamepad_button("turbo") {
        Err(e @ Error::InvalidAction(_)) => assert_eq!(e.message(), "Invalid action: Unknown gamepad button: turbo"),
        other => panic!("unexpected {:?}", other),
    }
}

#[test]
fn binding_gamepad_buttons_need_full_direction_names() {
    assert_eq!(bindings::parse_gamepad_button("DPAD_LEFT").ok(), Some(GamepadButton::DpadLeft));
    assert_eq!(bindings::parse_gamepad_button("left"), Err("Unknown button: left".to_string()));
    assert_eq!(bindings::parse_gamepad_button("right"), Err("Unknown button: right".to_string()));
    assert_eq!(bindings::parse_gamepad_button("up").ok(), Some(GamepadButton::DpadUp));
}

#[test]
fn modifiers_words() {
    let words: Vec<String> = ["Control", "SHIFT", "option", "Win", "hyper"].iter().map(|s| s.to_string()).collect();
    assert_eq!(AgentHID::parse_modifiers(&words), Modifiers { ctrl: true, shift: true, alt: true, cmd: true });
    assert_eq!(AgentHID::parse_modifiers(&[]), Modifiers::empty());
    let words: Vec<String> = ["meta".to_string()].to_vec();
    assert_eq!(AgentHID::parse_modifiers(&words), Modifiers { ctrl: false, shift: false, alt: false, cmd: true });
    // Unicode lower-casing: the Kelvin sign lowers to 'k'.
    assert_eq!(AgentHID::parse_gamepad_button("BAC\u{212A}").ok(), Some(GamepadButton::Back));
}

#[test]
fn error_messages() {
    let cases = [
        (Error::DeviceNotCreated, "Device not created"),
        (Error::DeviceAlreadyExists, "Device already exists"),
        (Error::CreateFailed("x".into()), "Failed to create device: x"),
        (Error::SendFailed("x".into()), "Failed to send report: x"),
        (Error::PlatformNotSupported("x".into()), "Platform not supported: x"),
        (Error::InvalidKey("x".into()), "Invalid key: x"),
        (Error::InvalidAction("x".into()), "Invalid action: x"),
        (Error::QueryFailed("x".into()), "Query failed: x"),
        (Error::MoveFailed("x".into()), "Move failed: x"),
        (Error::FailsafeTriggered("x".into()), "Failsafe triggered: x"),
        (Error::ScreenshotFailed("x".into()), "Screenshot failed: x"),
        (Error::AccessibilityFailed("x".into()), "Accessibility failed: x"),
    ];
    for (e, text) in cases {
        assert_eq!(e.message(), text);
    }
}
