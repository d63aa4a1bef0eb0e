use usehid::agent::{AgentAction, AgentHID, AgentResult, Command, Event, Step};
use usehid::input::{GamepadButton, Modifiers, MouseButton};
use usehid::UIElement;

/// Runs `action` against the scripted answers; returns the commands handed
/// over and the result.
fn run(agent: &mut AgentHID, action: AgentAction, answers: Vec<Event>) -> (Vec<Command>, AgentResult) {
    let mut commands = Vec::new();
    let mut answers = answers.into_iter();
    let mut step = agent.start(action);
    loop {
        match step {
            Step::Finish(r) => return (commands, r),
            Step::Perform(c) => {
                commands.push(c);
                let e = answers.next().expect("the action asked for more answers than scripted");
                assert!(agent.accepts(&e), "answer {:?} does not fit {:?}", e, c);
                step = agent.feed(e);
            }
        }
    }
}

fn done(n: usize) -> Vec<Event> {
    (0..n).map(|_| Event::Done).collect()
}

fn leaf(role: &str, title: Option<&str>) -> UIElement {
    UIElement {
        role: role.to_string(),
        title: title.map(|t| t.to_string()),
        value: None,
        description: None,
        bounds: None,
        children: Vec::new(),
        actions: None,
    }
}

#[test]
fn click_creates_the_mouse_once() {
    let mut agent = AgentHID::new();
    let (cmds, r) = run(&mut agent, AgentAction::MouseClick { button: None }, done(3));
    assert_eq!(cmds, vec![Command::CheckFailsafe, Command::CreateMouse, Command::MouseClick(MouseButton::Left)]);
    assert!(r.success);
    assert!(r.error.is_none());
    let (cmds, r) = run(&mut agent, AgentAction::MouseClick { button: Some("right".to_string()) }, done(2));
    assert_eq!(cmds, vec![Command::CheckFailsafe, Command::MouseClick(MouseButton::Right)]);
    assert!(r.success);
}

#[test]
fn failed_device_creation_is_retried_next_time() {
    let mut agent = AgentHID::new();
    let (cmds, r) = run(
        &mut agent,
        AgentAction::KeyPress { key: "enter".to_string() },
        vec![Event::Done, Event::Failed("Failed to create device: busy".to_string())],
    );
    assert_eq!(cmds, vec![Command::CheckFailsafe, Command::CreateKeyboard]);
    assert!(!r.success);
    assert_eq!(r.error.as_deref(), Some("Failed to create device: busy"));
    let (cmds, _) = run(&mut agent, AgentAction::KeyPress { key: "enter".to_string() }, done(3));
    assert_eq!(cmds, vec![Command::CheckFailsafe, Command::CreateKeyboard, Command::KeyTap]);
}

#[test]
fn failsafe_stops_an_action() {
    let mut agent = AgentHID::new();
    let (cmds, r) = run(
        &mut agent,
        AgentAction::Type { text: "hi".to_string(), interval: None },
        vec![Event::Failed("corner reached".to_string())],
    );
    assert_eq!(cmds, vec![Command::CheckFailsafe]);
    assert!(!r.success);
    assert_eq!(r.error.as_deref(), Some("Failsafe: corner reached"));
}

#[test]
fn queries_skip_the_failsafe() {
    let mut agent = AgentHID::new();
    let (cmds, r) = run(&mut agent, AgentAction::Size, vec![Event::ScreenSize { width: 1920, height: 1080 }]);
    assert_eq!(cmds, vec![Command::QueryScreenSize]);
    assert!(r.success);
    assert_eq!((r.width, r.height), (Some(1920), Some(1080)));
    assert!(r.x.is_none() && r.data.is_none());
    let (cmds, r) = run(&mut agent, AgentAction::Position, vec![Event::Cursor { x: 5, y: -7 }]);
    assert_eq!(cmds, vec![Command::QueryCursor]);
    assert_eq!((r.x, r.y), (Some(5), Some(-7)));
    let (cmds, r) = run(
        &mut agent,
        AgentAction::FailsafeStatus,
        vec![Event::FailsafeState { enabled: true, triggered: false }],
    );
    assert_eq!(cmds, vec![Command::QueryFailsafe]);
    assert_eq!((r.enabled, r.triggered), (Some(true), Some(false)));
    let (cmds, r) = run(&mut agent, AgentAction::FailsafeDisable, done(1));
    assert_eq!(cmds, vec![Command::SetFailsafe(false)]);
    assert!(r.success);
    let (cmds, _) = run(&mut agent, AgentAction::FailsafeEnable, done(1));
    assert_eq!(cmds, vec![Command::SetFailsafe(true)]);
    let (cmds, _) = run(&mut agent, AgentAction::FailsafeReset, done(1));
    assert_eq!(cmds, vec![Command::ResetFailsafe]);
}

#[test]
fn size_failure_is_reported() {
    let mut agent = AgentHID::new();
    let (_, r) = run(&mut agent, AgentAction::Size, vec![Event::Failed("Query failed: no display".to_string())]);
    assert!(!r.success);
    assert_eq!(r.error.as_deref(), Some("Query failed: no display"));
    assert!(r.width.is_none());
}

#[test]
fn drag_releases_after_a_failed_move() {
    let mut agent = AgentHID::new();
    let (cmds, r) = run(
        &mut agent,
        AgentAction::MouseDrag { x: 10, y: 20, button: Some("middle".to_string()), duration: None, tween: None },
        vec![
            Event::Done,
            Event::Done,
            Event::Done,
            Event::Done,
            Event::Failed("Move failed: out of range".to_string()),
            Event::Done,
        ],
    );
    assert_eq!(
        cmds,
        vec![
            Command::CheckFailsafe,
            Command::CreateMouse,
            Command::MousePress(MouseButton::Middle),
            Command::Pause { ms: 10 },
            Command::MouseMoveBy { dx: 10, dy: 20 },
            Command::MouseRelease(MouseButton::Middle),
        ]
    );
    assert!(!r.success);
    assert_eq!(r.error.as_deref(), Some("Move failed: out of range"));
}

#[test]
fn drag_succeeds() {
    let mut agent = AgentHID::new();
    let (cmds, r) = run(
        &mut agent,
        AgentAction::MouseDrag { x: -3, y: 4, button: None, duration: Some(0), tween: None },
        done(7),
    );
    assert_eq!(
        cmds,
        vec![
            Command::CheckFailsafe,
            Command::CreateMouse,
            Command::MousePress(MouseButton::Left),
            Command::Pause { ms: 10 },
            Command::MouseMoveBy { dx: -3, dy: 4 },
            Command::Pause { ms: 10 },
            Command::MouseRelease(MouseButton::Left),
        ]
    );
    assert!(r.success);
}

#[test]
fn timed_drag_reports_the_animation_failure_after_releasing() {
    let mut agent = AgentHID::new();
    let (cmds, r) = run(
        &mut agent,
        AgentAction::MouseDrag { x: 100, y: 50, button: None, duration: Some(300), tween: Some("linear".to_string()) },
        vec![
            Event::Done,
            Event::Cursor { x: 10, y: 20 },
            Event::Done,
            Event::Done,
            Event::Done,
            Event::Failed("Move failed: blocked".to_string()),
            Event::Done,
            Event::Failed("release failed".to_string()),
        ],
    );
    assert_eq!(
        cmds,
        vec![
            Command::CheckFailsafe,
            Command::QueryCursor,
            Command::CreateMouse,
            Command::MousePress(MouseButton::Left),
            Command::Pause { ms: 10 },
            Command::Animate { from_x: 10, from_y: 20, to_x: 110, to_y: 70, duration_ms: 300 },
            Command::Pause { ms: 10 },
            Command::MouseRelease(MouseButton::Left),
        ]
    );
    assert!(!r.success);
    assert_eq!(r.error.as_deref(), Some("Move failed: blocked"));
}

#[test]
fn drag_to_moves_by_the_distance_from_the_cursor() {
    let mut agent = AgentHID::new();
    let (cmds, r) = run(
        &mut agent,
        AgentAction::MouseDragTo { x: 300, y: 200, button: None, duration: None, tween: None },
        vec![Event::Done, Event::Cursor { x: 100, y: 250 }, Event::Done, Event::Done, Event::Done, Event::Done, Event::Done, Event::Done],
    );
    assert_eq!(cmds[1], Command::QueryCursor);
    assert_eq!(cmds[5], Command::MouseMoveBy { dx: 200, dy: -50 });
    assert_eq!(cmds[7], Command::MouseRelease(MouseButton::Left));
    assert!(r.success);
}

#[test]
fn timed_move_animates_from_the_cursor() {
    let mut agent = AgentHID::new();
    let (cmds, r) = run(
        &mut agent,
        AgentAction::MouseMove { x: 5, y: 6, duration: Some(100), tween: None },
        vec![Event::Done, Event::Cursor { x: 1, y: 2 }, Event::Done],
    );
    assert_eq!(
        cmds,
        vec![
            Command::CheckFailsafe,
            Command::QueryCursor,
            Command::Animate { from_x: 1, from_y: 2, to_x: 6, to_y: 8, duration_ms: 100 },
        ]
    );
    assert!(r.success);
    let (cmds, _) = run(&mut agent, AgentAction::MouseMoveTo { x: 7, y: 9, duration: None, tween: None }, done(2));
    assert_eq!(cmds, vec![Command::CheckFailsafe, Command::MoveCursorTo { x: 7, y: 9 }]);
}

#[test]
fn cursor_that_would_overflow_is_not_accepted() {
    let mut agent = AgentHID::new();
    let step = agent.start(AgentAction::MouseMove { x: 10, y: 0, duration: Some(50), tween: None });
    assert!(matches!(step, Step::Perform(Command::CheckFailsafe)));
    let step = agent.feed(Event::Done);
    assert!(matches!(step, Step::Perform(Command::QueryCursor)));
    assert!(!agent.accepts(&Event::Cursor { x: i32::MAX - 5, y: 0 }));
    assert!(!agent.accepts(&Event::Done));
    assert!(agent.accepts(&Event::Cursor { x: i32::MAX - 10, y: 0 }));
}

#[test]
fn typing_with_interval_types_each_character() {
    let mut agent = AgentHID::new();
    let (cmds, r) = run(
        &mut agent,
        AgentAction::Type { text: "aé".to_string(), interval: Some(25) },
        done(6),
    );
    assert_eq!(
        cmds,
        vec![
            Command::CheckFailsafe,
            Command::CreateKeyboard,
            Command::TypeChar('a'),
            Command::Pause { ms: 25 },
            Command::TypeChar('é'),
            Command::Pause { ms: 25 },
        ]
    );
    assert!(r.success);
    let (cmds, _) = run(&mut agent, AgentAction::Type { text: "xyz".to_string(), interval: Some(0) }, done(2));
    assert_eq!(cmds, vec![Command::CheckFailsafe, Command::TypeText]);
}

#[test]
fn typing_stops_at_a_failed_character() {
    let mut agent = AgentHID::new();
    let (cmds, r) = run(
        &mut agent,
        AgentAction::Type { text: "ab".to_string(), interval: Some(5) },
        vec![Event::Done, Event::Done, Event::Failed("Invalid key: a".to_string())],
    );
    assert_eq!(cmds.len(), 3);
    assert_eq!(r.error.as_deref(), Some("Invalid key: a"));
}

#[test]
fn key_combo_passes_the_modifiers() {
    let mut agent = AgentHID::new();
    let (cmds, r) = run(
        &mut agent,
        AgentAction::KeyCombo { modifiers: vec!["CTRL".to_string(), "Option".to_string(), "hyper".to_string()], key: "s".to_string() },
        done(3),
    );
    assert_eq!(cmds[2], Command::KeyCombo(Modifiers { ctrl: true, shift: false, alt: true, cmd: false }));
    assert!(r.success);
}

#[test]
fn unknown_gamepad_button_is_an_invalid_action() {
    let mut agent = AgentHID::new();
    let (cmds, r) = run(&mut agent, AgentAction::GamepadPress { button: "zz".to_string() }, done(2));
    assert_eq!(cmds, vec![Command::CheckFailsafe, Command::CreateGamepad]);
    assert!(!r.success);
    assert_eq!(r.error.as_deref(), Some("Invalid action: Unknown gamepad button: zz"));
    let (cmds, r) = run(&mut agent, AgentAction::GamepadRelease { button: "Left".to_string() }, done(2));
    assert_eq!(cmds, vec![Command::CheckFailsafe, Command::GamepadRelease(GamepadButton::DpadLeft)]);
    assert!(r.success);
}

#[test]
fn gamepad_triggers_set_both() {
    let mut agent = AgentHID::new();
    let (cmds, _) = run(&mut agent, AgentAction::GamepadTriggers { left: 3, right: 250 }, done(4));
    assert_eq!(
        cmds,
        vec![Command::CheckFailsafe, Command::CreateGamepad, Command::LeftTrigger(3), Command::RightTrigger(250)]
    );
    let (cmds, r) = run(
        &mut agent,
        AgentAction::GamepadTriggers { left: 3, right: 250 },
        vec![Event::Done, Event::Failed("Failed to send report: x".to_string())],
    );
    assert_eq!(cmds, vec![Command::CheckFailsafe, Command::LeftTrigger(3)]);
    assert_eq!(r.error.as_deref(), Some("Failed to send report: x"));
    let (cmds, _) = run(&mut agent, AgentAction::GamepadLeftStick { x: 0, y: 255 }, done(2));
    assert_eq!(cmds[1], Command::LeftStick { x: 0, y: 255 });
    let (cmds, _) = run(&mut agent, AgentAction::GamepadRightStick { x: 128, y: 128 }, done(2));
    assert_eq!(cmds[1], Command::RightStick { x: 128, y: 128 });
}

#[test]
fn screenshot_hands_back_base64() {
    let mut agent = AgentHID::new();
    let (cmds, r) = run(&mut agent, AgentAction::Screenshot, vec![Event::Image(b"foobar".to_vec())]);
    assert_eq!(cmds, vec![Command::CaptureScreen]);
    assert!(r.success);
    assert_eq!(r.data.as_deref(), Some("Zm9vYmFy"));
    let (cmds, r) = run(
        &mut agent,
        AgentAction::ScreenshotRegion { x: 1, y: 2, width: 3, height: 4 },
        vec![Event::Failed("Screenshot failed: nope".to_string())],
    );
    assert_eq!(cmds, vec![Command::CaptureRegion { x: 1, y: 2, width: 3, height: 4 }]);
    assert_eq!(r.error.as_deref(), Some("Screenshot failed: nope"));
    assert!(r.data.is_none());
}

#[test]
fn ui_tree_and_search() {
    let mut agent = AgentHID::new();
    let mut root = leaf("AXWindow", Some("Main"));
    let mut group = leaf("AXGroup", None);
    group.children.push(leaf("AXButton", Some("Submit form")));
    root.children.push(group);
    root.children.push(leaf("axbutton", Some("Cancel")));
    let (cmds, r) = run(
        &mut agent,
        AgentAction::GetUiTree { depth: Some(2), app: Some("Safari".to_string()) },
        vec![Event::Tree(leaf("AXWindow", None))],
    );
    assert_eq!(cmds, vec![Command::ReadUiTree { depth: Some(2), of_named_app: true }]);
    assert_eq!(r.tree.as_ref().map(|t| t.role.clone()), Some("AXWindow".to_string()));
    let (cmds, r) = run(
        &mut agent,
        AgentAction::FindUiElement { role: Some("AXBUTTON".to_string()), title: None },
        vec![Event::Tree(root)],
    );
    assert_eq!(cmds, vec![Command::ReadUiTree { depth: None, of_named_app: false }]);
    let found = r.elements.expect("elements");
    assert_eq!(found.len(), 2);
    assert_eq!(found[0].title.as_deref(), Some("Submit form"));
    assert_eq!(found[1].title.as_deref(), Some("Cancel"));
}

#[test]
fn agent_default_is_new() {
    let mut agent = AgentHID::default();
    let (cmds, _) = run(&mut agent, AgentAction::MouseScroll { delta: -3 }, done(3));
    assert_eq!(cmds, vec![Command::CheckFailsafe, Command::CreateMouse, Command::MouseScroll(-3)]);
}

#[test]
fn mouse_buttons_of_the_other_actions() {
    let mut agent = AgentHID::new();
    let (cmds, _) = run(&mut agent, AgentAction::MouseDown { button: Some("right".to_string()) }, done(3));
    assert_eq!(cmds[2], Command::MousePress(MouseButton::Right));
    let (cmds, _) = run(&mut agent, AgentAction::MouseUp { button: Some("Right".to_string()) }, done(2));
    assert_eq!(cmds[1], Command::MouseRelease(MouseButton::Left));
    let (cmds, _) = run(&mut agent, AgentAction::MouseDoubleClick { button: None }, done(2));
    assert_eq!(cmds[1], Command::MouseDoubleClick(MouseButton::Left));
    let (cmds, _) = run(&mut agent, AgentAction::KeyDown { key: "a".to_string() }, done(3));
    assert_eq!(cmds[2], Command::KeyDown);
    let (cmds, _) = run(&mut agent, AgentAction::KeyUp { key: "a".to_string() }, done(2));
    assert_eq!(cmds[1], Command::KeyUp);
}

#[test]
fn try_feed_refuses_an_answer_that_does_not_fit() {
    let mut agent = AgentHID::new();
    assert!(agent.try_feed(Event::Done).is_none());
    let step = agent.start(AgentAction::MouseClick { button: None });
    assert!(matches!(step, Step::Perform(Command::CheckFailsafe)));
    assert!(agent.try_feed(Event::ScreenSize { width: 1, height: 1 }).is_none());
    match agent.try_feed(Event::Done) {
        Some(Step::Perform(c)) => assert_eq!(c, Command::CreateMouse),
        other => panic!("unexpected {:?}", other),
    }
    assert!(matches!(agent.try_feed(Event::Done), Some(Step::Perform(Command::MouseClick(MouseButton::Left)))));
    match agent.try_feed(Event::Done) {
        Some(Step::Finish(r)) => assert!(r.success),
        other => panic!("unexpected {:?}", other),
    }
    assert!(agent.try_feed(Event::Done).is_none());
    assert!(agent.created().mouse);
}
