//! The agent interface: the actions an agent asks for, the results it gets
//! back, and the protocol by which each action is carried out.
//!
//! Carrying out an action alternates between work on the devices and the
//! screen, which the host performs, and decisions, which the library takes.
//! The library hands the host one `Command` at a time; the host performs it
//! and answers with an `Event`; after the last answer the library hands back
//! the `AgentResult`. Which command comes next is a function of the devices
//! that exist when the action starts, the action, and the answers so far:
//! `script` states it.

use vstd::prelude::*;

use crate::accessibility::{find_ui_element, is_flat_copy, matching, opt_text, UIElement};
use crate::encoding::{base64_encode, to_base64};
use crate::error::Error;
use crate::input::{
    all_ascii, ascii_lowered, ascii_lowered_words, is_ascii_text, gamepad_button_named,
    gamepad_button_of, lemma_modifier_words, lowercase, lowered, modifiers_named, modifiers_of,
    mouse_button_named, mouse_button_of, to_lowercase, GamepadButton, Modifiers, MouseButton,
};
use crate::text::joined;

verus! {

// ---------------------------------------------------------------------------
// Actions, commands, answers, results
// ---------------------------------------------------------------------------

/// An action that an agent asks for.
#[derive(Debug)]
#[allow(inconsistent_fields)]
pub enum AgentAction {
    Size,
    Position,
    FailsafeEnable,
    FailsafeDisable,
    FailsafeStatus,
    FailsafeReset,
    MouseMove { x: i32, y: i32, duration: Option<u64>, tween: Option<String> },
    MouseMoveTo { x: i32, y: i32, duration: Option<u64>, tween: Option<String> },
    MouseClick { button: Option<String> },
    MouseDoubleClick { button: Option<String> },
    MouseDown { button: Option<String> },
    MouseUp { button: Option<String> },
    MouseScroll { delta: i8 },
    MouseDrag {
        x: i32,
        y: i32,
        button: Option<String>,
        duration: Option<u64>,
        tween: Option<String>,
    },
    MouseDragTo {
        x: i32,
        y: i32,
        button: Option<String>,
        duration: Option<u64>,
        tween: Option<String>,
    },
    Type { text: String, interval: Option<u64> },
    KeyPress { key: String },
    KeyDown { key: String },
    KeyUp { key: String },
    KeyCombo { modifiers: Vec<String>, key: String },
    GamepadPress { button: String },
    GamepadRelease { button: String },
    GamepadLeftStick { x: u8, y: u8 },
    GamepadRightStick { x: u8, y: u8 },
    GamepadTriggers { left: u8, right: u8 },
    Screenshot,
    ScreenshotRegion { x: i32, y: i32, width: u32, height: u32 },
    GetUiTree { depth: Option<u32>, app: Option<String> },
    FindUiElement { role: Option<String>, title: Option<String> },
}

/// Result of an agent action.
#[derive(Debug)]
pub struct AgentResult {
    pub success: bool,
    pub error: Option<String>,
    pub x: Option<i32>,
    pub y: Option<i32>,
    pub width: Option<u32>,
    pub height: Option<u32>,
    pub enabled: Option<bool>,
    pub triggered: Option<bool>,
    pub data: Option<String>,
    pub tree: Option<UIElement>,
    pub elements: Option<Vec<UIElement>>,
}

/// Work that the host performs for the action being carried out. Commands
/// that use a text of the action (the text to type, the key, the tween of an
/// animation, the application to read) refer to that text of the action.
#[derive(Clone, Copy, Debug, PartialEq, Eq, Structural)]
#[allow(inconsistent_fields)]
pub enum Command {
    /// Test the failsafe (a corner of the screen reached).
    CheckFailsafe,
    QueryScreenSize,
    QueryCursor,
    SetFailsafe(bool),
    QueryFailsafe,
    ResetFailsafe,
    CreateMouse,
    CreateKeyboard,
    CreateGamepad,
    /// Put the cursor at a screen position.
    MoveCursorTo { x: i32, y: i32 },
    /// Move the cursor along the action's tween, in steps at 60 frames per
    /// second, for the given time.
    Animate { from_x: i32, from_y: i32, to_x: i32, to_y: i32, duration_ms: u64 },
    MouseMoveBy { dx: i32, dy: i32 },
    MouseClick(MouseButton),
    MouseDoubleClick(MouseButton),
    MousePress(MouseButton),
    MouseRelease(MouseButton),
    MouseScroll(i8),
    Pause { ms: u64 },
    /// Type the action's text.
    TypeText,
    TypeChar(char),
    /// Press and release the action's key.
    KeyTap,
    KeyDown,
    KeyUp,
    KeyCombo(Modifiers),
    GamepadPress(GamepadButton),
    GamepadRelease(GamepadButton),
    LeftStick { x: u8, y: u8 },
    RightStick { x: u8, y: u8 },
    LeftTrigger(u8),
    RightTrigger(u8),
    CaptureScreen,
    CaptureRegion { x: i32, y: i32, width: u32, height: u32 },
    /// Read the UI tree of the focused window, or of the action's
    /// application when `of_named_app`.
    ReadUiTree { depth: Option<u32>, of_named_app: bool },
}

/// The host's answer to a command.
#[derive(Debug)]
pub enum Event {
    Done,
    /// The command failed with this message.
    Failed(String),
    Cursor { x: i32, y: i32 },
    ScreenSize { width: u32, height: u32 },
    FailsafeState { enabled: bool, triggered: bool },
    /// PNG bytes of a capture.
    Image(Vec<u8>),
    Tree(UIElement),
}

/// What the library hands the host next.
#[derive(Debug)]
pub enum Step {
    Perform(Command),
    Finish(AgentResult),
}

/// Which virtual devices exist.
#[derive(Clone, Copy, Debug, PartialEq, Eq, Structural)]
pub struct Devices {
    pub mouse: bool,
    pub keyboard: bool,
    pub gamepad: bool,
}

/// The kinds of answer that fit a command.
pub open spec fn answers(c: Command, e: Event) -> bool {
    match c {
        Command::QueryScreenSize => e is ScreenSize || e is Failed,
        Command::QueryCursor => e is Cursor || e is Failed,
        Command::QueryFailsafe => e is FailsafeState,
        Command::SetFailsafe(_) => e is Done,
        Command::ResetFailsafe => e is Done,
        Command::Pause { .. } => e is Done,
        Command::CaptureScreen => e is Image || e is Failed,
        Command::CaptureRegion { .. } => e is Image || e is Failed,
        Command::ReadUiTree { .. } => e is Tree || e is Failed,
        _ => e is Done || e is Failed,
    }
}

// ---------------------------------------------------------------------------
// Results
// ---------------------------------------------------------------------------

/// What an action ends with.
pub enum Outcome {
    Success,
    Failure(Seq<char>),
    Position(i32, i32),
    Size(u32, u32),
    FailsafeStatus(bool, bool),
    Data(Seq<char>),
    Tree(UIElement),
    /// Flat copies of these elements.
    Elements(Seq<UIElement>),
}

/// The result carries no payload beyond the fields named true here.
pub open spec fn only(
    r: AgentResult,
    position: bool,
    size: bool,
    status: bool,
    data: bool,
    tree: bool,
    elements: bool,
) -> bool {
    &&& !position ==> r.x is None && r.y is None
    &&& !size ==> r.width is None && r.height is None
    &&& !status ==> r.enabled is None && r.triggered is None
    &&& !data ==> r.data is None
    &&& !tree ==> r.tree is None
    &&& !elements ==> r.elements is None
}

/// `r` is the result that reports the outcome `o`: a success with the
/// outcome's payload and nothing else, or a failure with its message.
pub open spec fn describes(r: AgentResult, o: Outcome) -> bool {
    match o {
        Outcome::Failure(m) => {
            &&& !r.success
            &&& r.error matches Some(e) && e@ == m
            &&& only(r, false, false, false, false, false, false)
        },
        _ => {
            &&& r.success
            &&& r.error is None
            &&& match o {
                Outcome::Position(x, y) => r.x == Some(x) && r.y == Some(y) && only(
                    r,
                    true,
                    false,
                    false,
                    false,
                    false,
                    false,
                ),
                Outcome::Size(w, h) => r.width == Some(w) && r.height == Some(h) && only(
                    r,
                    false,
                    true,
                    false,
                    false,
                    false,
                    false,
                ),
                Outcome::FailsafeStatus(en, tr) => r.enabled == Some(en) && r.triggered == Some(tr)
                    && only(r, false, false, true, false, false, false),
                Outcome::Data(d) => (r.data matches Some(t) && t@ == d) && only(
                    r,
                    false,
                    false,
                    false,
                    true,
                    false,
                    false,
                ),
                Outcome::Tree(t) => r.tree == Some(t) && only(
                    r,
                    false,
                    false,
                    false,
                    false,
                    true,
                    false,
                ),
                Outcome::Elements(src) => (r.elements matches Some(v) && v@.len() == src.len() && (
                forall|i: int| 0 <= i < src.len() ==> is_flat_copy(#[trigger] v@[i], src[i])))
                    && only(r, false, false, false, false, false, true),
                _ => only(r, false, false, false, false, false, false),
            }
        },
    }
}

impl AgentResult {
    /// A success without payload.
    pub fn ok() -> (r: AgentResult)
        ensures
            describes(r, Outcome::Success),
    {
        AgentResult {
            success: true,
            error: None,
            x: None,
            y: None,
            width: None,
            height: None,
            enabled: None,
            triggered: None,
            data: None,
            tree: None,
            elements: None,
        }
    }

    /// A failure with the message `msg`.
    pub fn err(msg: String) -> (r: AgentResult)
        ensures
            describes(r, Outcome::Failure(msg@)),
    {
        AgentResult {
            success: false,
            error: Some(msg),
            x: None,
            y: None,
            width: None,
            height: None,
            enabled: None,
            triggered: None,
            data: None,
            tree: None,
            elements: None,
        }
    }

    /// The failure for an action text that is not valid JSON: "Invalid
    /// JSON: " and the decoder's message.
    pub fn invalid_json(detail: &str) -> (r: AgentResult)
        ensures
            describes(r, Outcome::Failure("Invalid JSON: "@ + detail@)),
    {
        AgentResult::err(joined("Invalid JSON: ", detail))
    }

    /// A success that reports a position.
    pub fn with_position(x: i32, y: i32) -> (r: AgentResult)
        ensures
            describes(r, Outcome::Position(x, y)),
    {
        AgentResult {
            success: true,
            error: None,
            x: Some(x),
            y: Some(y),
            width: None,
            height: None,
            enabled: None,
            triggered: None,
            data: None,
            tree: None,
            elements: None,
        }
    }

    /// A success that reports a size.
    pub fn with_size(width: u32, height: u32) -> (r: AgentResult)
        ensures
            describes(r, Outcome::Size(width, height)),
    {
        AgentResult {
            success: true,
            error: None,
            x: None,
            y: None,
            width: Some(width),
            height: Some(height),
            enabled: None,
            triggered: None,
            data: None,
            tree: None,
            elements: None,
        }
    }

    /// A success that reports the failsafe's state.
    pub fn with_failsafe_status(enabled: bool, triggered: bool) -> (r: AgentResult)
        ensures
            describes(r, Outcome::FailsafeStatus(enabled, triggered)),
    {
        AgentResult {
            success: true,
            error: None,
            x: None,
            y: None,
            width: None,
            height: None,
            enabled: Some(enabled),
            triggered: Some(triggered),
            data: None,
            tree: None,
            elements: None,
        }
    }

    /// A success that reports text data.
    pub fn with_data(data: String) -> (r: AgentResult)
        ensures
            describes(r, Outcome::Data(data@)),
    {
        AgentResult {
            success: true,
            error: None,
            x: None,
            y: None,
            width: None,
            height: None,
            enabled: None,
            triggered: None,
            data: Some(data),
            tree: None,
            elements: None,
        }
    }

    /// A success that reports a UI tree.
    pub fn with_tree(tree: UIElement) -> (r: AgentResult)
        ensures
            describes(r, Outcome::Tree(tree)),
    {
        AgentResult {
            success: true,
            error: None,
            x: None,
            y: None,
            width: None,
            height: None,
            enabled: None,
            triggered: None,
            data: None,
            tree: Some(tree),
            elements: None,
        }
    }

    /// A success that reports a list of UI elements.
    pub fn with_elements(elements: Vec<UIElement>) -> (r: AgentResult)
        ensures
            r.success,
            r.error is None,
            r.elements == Some(elements),
            only(r, false, false, false, false, false, true),
    {
        AgentResult {
            success: true,
            error: None,
            x: None,
            y: None,
            width: None,
            height: None,
            enabled: None,
            triggered: None,
            data: None,
            tree: None,
            elements: Some(elements),
        }
    }
}

/// A result reports success exactly when it carries no error.
pub proof fn lemma_success_iff_no_error(r: AgentResult, o: Outcome)
    requires
        describes(r, o),
    ensures
        r.success <==> r.error is None,
{
}


// ---------------------------------------------------------------------------
// The protocol
// ---------------------------------------------------------------------------

/// The command of a step, possibly computed from the cursor position that
/// the host reported earlier in the action.
#[derive(Clone, Copy, Debug, PartialEq, Eq, Structural)]
pub enum Op {
    Do(Command),
    /// Animate from the cursor to the cursor moved by the offset.
    AnimateBy { dx: i32, dy: i32, duration_ms: u64 },
    /// Animate from the cursor to the position.
    AnimateTo { x: i32, y: i32, duration_ms: u64 },
    /// Move the mouse by the distance from the cursor to the position.
    MoveToward { x: i32, y: i32 },
}

/// A step of an action and what a failure of its command does.
#[derive(Clone, Copy, Debug, PartialEq, Eq, Structural)]
pub enum Instr {
    /// Test the failsafe; a failure ends the action with "Failsafe: " and
    /// the failure's message.
    Check,
    /// A failure ends the action with its message.
    Need(Op),
    /// A failure is followed by the second command, whose answer does not
    /// matter, and then ends the action with the failure's message.
    Guarded(Op, Command),
    /// A failure is remembered; the action goes on and ends with it.
    Hold(Op),
    /// The answer does not matter.
    Ignore(Op),
    /// Ask for the cursor position; a failure ends the action.
    ReadCursor,
    /// The answer is what the action reports; a failure ends it.
    Report(Command),
    /// End the action: the gamepad button is unknown.
    RejectButton,
}

/// The command of `op` with the cursor at (`cx`, `cy`).
pub open spec fn resolve(op: Op, cx: i32, cy: i32) -> Command {
    match op {
        Op::Do(c) => c,
        Op::AnimateBy { dx, dy, duration_ms } => Command::Animate {
            from_x: cx,
            from_y: cy,
            to_x: (cx + dx) as i32,
            to_y: (cy + dy) as i32,
            duration_ms,
        },
        Op::AnimateTo { x, y, duration_ms } => Command::Animate {
            from_x: cx,
            from_y: cy,
            to_x: x,
            to_y: y,
            duration_ms,
        },
        Op::MoveToward { x, y } => Command::MouseMoveBy { dx: (x - cx) as i32, dy: (y - cy) as i32 },
    }
}

/// A value in the range of `i32`.
pub open spec fn in_i32(v: int) -> bool {
    i32::MIN <= v <= i32::MAX
}

/// The command of `op` can be computed for the cursor at (`cx`, `cy`)
/// within the range of `i32`.
pub open spec fn op_fits(op: Op, cx: i32, cy: i32) -> bool {
    match op {
        Op::AnimateBy { dx, dy, .. } => in_i32(cx + dx) && in_i32(cy + dy),
        Op::MoveToward { x, y } => in_i32(x - cx) && in_i32(y - cy),
        _ => true,
    }
}

/// The command of a step fits the cursor at (`cx`, `cy`).
pub open spec fn instr_fits(i: Instr, cx: i32, cy: i32) -> bool {
    match i {
        Instr::Need(op) => op_fits(op, cx, cy),
        Instr::Guarded(op, _) => op_fits(op, cx, cy),
        Instr::Hold(op) => op_fits(op, cx, cy),
        Instr::Ignore(op) => op_fits(op, cx, cy),
        _ => true,
    }
}

/// Every command of the program fits the cursor at (`cx`, `cy`).
pub open spec fn program_fits(p: Seq<Instr>, cx: i32, cy: i32) -> bool {
    forall|k: int| 0 <= k < p.len() ==> instr_fits(#[trigger] p[k], cx, cy)
}

/// The message of a failure.
pub open spec fn failure_text(e: Event) -> Seq<char> {
    match e {
        Event::Failed(m) => m@,
        _ => Seq::empty(),
    }
}

/// The reported cursor position.
pub open spec fn cursor_of(e: Event) -> (i32, i32) {
    match e {
        Event::Cursor { x, y } => (x, y),
        _ => (0, 0),
    }
}

/// What the library does next: hand over a command, or end the action.
pub enum Reply {
    Next(Command),
    Done(Outcome),
}

/// What an action reports, from the answer to its last command.
pub open spec fn report(a: AgentAction, e: Event) -> Outcome {
    match e {
        Event::Cursor { x, y } => Outcome::Position(x, y),
        Event::ScreenSize { width, height } => Outcome::Size(width, height),
        Event::FailsafeState { enabled, triggered } => Outcome::FailsafeStatus(enabled, triggered),
        Event::Image(png) => Outcome::Data(base64_encode(png@)),
        Event::Tree(t) => match a {
            AgentAction::FindUiElement { role, title } => Outcome::Elements(
                matching(t, opt_text(role), opt_text(title)),
            ),
            _ => Outcome::Tree(t),
        },
        Event::Failed(m) => Outcome::Failure(m@),
        Event::Done => Outcome::Success,
    }
}

/// The message for a gamepad button that the action names and that is
/// unknown.
pub open spec fn unknown_button_text(a: AgentAction) -> Seq<char> {
    match a {
        AgentAction::GamepadPress { button } => "Invalid action: "@ + "Unknown gamepad button: "@
            + button@,
        AgentAction::GamepadRelease { button } => "Invalid action: "@ + "Unknown gamepad button: "@
            + button@,
        _ => Seq::empty(),
    }
}

/// Runs the program `p` against the answers `ev`, with the cursor last
/// reported at (`cx`, `cy`) and a remembered failure `held`: the next
/// command, or how the action ends.
pub open spec fn run_from(
    a: AgentAction,
    p: Seq<Instr>,
    ev: Seq<Event>,
    cx: i32,
    cy: i32,
    held: Option<Seq<char>>,
) -> Reply
    decreases p.len(),
{
    if p.len() == 0 {
        Reply::Done(
            match held {
                Some(m) => Outcome::Failure(m),
                None => Outcome::Success,
            },
        )
    } else {
        let rest = p.drop_first();
        match p[0] {
            Instr::Check => if ev.len() == 0 {
                Reply::Next(Command::CheckFailsafe)
            } else if ev[0] is Failed {
                Reply::Done(Outcome::Failure("Failsafe: "@ + failure_text(ev[0])))
            } else {
                run_from(a, rest, ev.drop_first(), cx, cy, held)
            },
            Instr::Need(op) => if ev.len() == 0 {
                Reply::Next(resolve(op, cx, cy))
            } else if ev[0] is Failed {
                Reply::Done(Outcome::Failure(failure_text(ev[0])))
            } else {
                run_from(a, rest, ev.drop_first(), cx, cy, held)
            },
            Instr::Guarded(op, cleanup) => if ev.len() == 0 {
                Reply::Next(resolve(op, cx, cy))
            } else if ev[0] is Failed {
                if ev.len() == 1 {
                    Reply::Next(cleanup)
                } else {
                    Reply::Done(Outcome::Failure(failure_text(ev[0])))
                }
            } else {
                run_from(a, rest, ev.drop_first(), cx, cy, held)
            },
            Instr::Hold(op) => if ev.len() == 0 {
                Reply::Next(resolve(op, cx, cy))
            } else if ev[0] is Failed {
                run_from(a, rest, ev.drop_first(), cx, cy, Some(failure_text(ev[0])))
            } else {
                run_from(a, rest, ev.drop_first(), cx, cy, held)
            },
            Instr::Ignore(op) => if ev.len() == 0 {
                Reply::Next(resolve(op, cx, cy))
            } else {
                run_from(a, rest, ev.drop_first(), cx, cy, held)
            },
            Instr::ReadCursor => if ev.len() == 0 {
                Reply::Next(Command::QueryCursor)
            } else if ev[0] is Failed {
                Reply::Done(Outcome::Failure(failure_text(ev[0])))
            } else {
                run_from(a, rest, ev.drop_first(), cursor_of(ev[0]).0, cursor_of(ev[0]).1, held)
            },
            Instr::Report(c) => if ev.len() == 0 {
                Reply::Next(c)
            } else {
                Reply::Done(report(a, ev[0]))
            },
            Instr::RejectButton => Reply::Done(Outcome::Failure(unknown_button_text(a))),
        }
    }
}

/// The actions that run without a failsafe test: queries, the failsafe's
/// own controls, screen captures and UI-tree reads.
pub open spec fn exempt(a: AgentAction) -> bool {
    match a {
        AgentAction::Size => true,
        AgentAction::Position => true,
        AgentAction::FailsafeEnable => true,
        AgentAction::FailsafeDisable => true,
        AgentAction::FailsafeStatus => true,
        AgentAction::FailsafeReset => true,
        AgentAction::Screenshot => true,
        AgentAction::ScreenshotRegion { .. } => true,
        AgentAction::GetUiTree { .. } => true,
        AgentAction::FindUiElement { .. } => true,
        _ => false,
    }
}

/// The failsafe test that starts every action that is not exempt.
pub open spec fn gate(a: AgentAction) -> Seq<Instr> {
    if exempt(a) {
        Seq::empty()
    } else {
        seq![Instr::Check]
    }
}

/// Creating a device, when it does not exist yet.
pub open spec fn ensure(present: bool, create: Command) -> Seq<Instr> {
    if present {
        Seq::empty()
    } else {
        seq![Instr::Need(Op::Do(create))]
    }
}

/// A duration or interval in milliseconds, 0 when none is given.
pub open spec fn millis(d: Option<u64>) -> u64 {
    match d {
        Some(v) => v,
        None => 0,
    }
}

/// The mouse button the action names (the left one when it names none).
pub open spec fn button_of(b: Option<String>) -> MouseButton {
    match b {
        Some(s) => mouse_button_of(s@),
        None => MouseButton::Left,
    }
}

/// The short pause between the steps of a drag.
pub open spec fn drag_pause() -> Instr {
    Instr::Ignore(Op::Do(Command::Pause { ms: 10 }))
}

/// Typing one character.
pub open spec fn keystroke(c: char) -> Instr {
    Instr::Need(Op::Do(Command::TypeChar(c)))
}

/// Typing the characters one at a time, each followed by the interval.
pub open spec fn keystrokes(chars: Seq<char>, interval: u64) -> Seq<Instr> {
    Seq::new(
        2 * chars.len(),
        |k: int|
            if k % 2 == 0 {
                keystroke(chars[k / 2])
            } else {
                Instr::Ignore(Op::Do(Command::Pause { ms: interval }))
            },
    )
}

/// Pressing or releasing the gamepad button named by `button`.
pub open spec fn gamepad_step(button: String, press: bool) -> Seq<Instr> {
    match gamepad_button_of(lowercase(button@), true) {
        Some(b) => seq![
            Instr::Need(
                Op::Do(
                    if press {
                        Command::GamepadPress(b)
                    } else {
                        Command::GamepadRelease(b)
                    },
                ),
            ),
        ],
        None => seq![Instr::RejectButton],
    }
}

/// The steps of an action after the failsafe test, with the devices `d`.
pub open spec fn handler(d: Devices, a: AgentAction) -> Seq<Instr> {
    let mouse = ensure(d.mouse, Command::CreateMouse);
    let keyboard = ensure(d.keyboard, Command::CreateKeyboard);
    let gamepad = ensure(d.gamepad, Command::CreateGamepad);
    match a {
        AgentAction::Size => seq![Instr::Report(Command::QueryScreenSize)],
        AgentAction::Position => seq![Instr::Report(Command::QueryCursor)],
        AgentAction::FailsafeEnable => seq![Instr::Need(Op::Do(Command::SetFailsafe(true)))],
        AgentAction::FailsafeDisable => seq![Instr::Need(Op::Do(Command::SetFailsafe(false)))],
        AgentAction::FailsafeStatus => seq![Instr::Report(Command::QueryFailsafe)],
        AgentAction::FailsafeReset => seq![Instr::Need(Op::Do(Command::ResetFailsafe))],
        AgentAction::MouseMove { x, y, duration, .. } => if millis(duration) == 0 {
            mouse + seq![Instr::Need(Op::Do(Command::MouseMoveBy { dx: x, dy: y }))]
        } else {
            seq![
                Instr::ReadCursor,
                Instr::Need(Op::AnimateBy { dx: x, dy: y, duration_ms: millis(duration) }),
            ]
        },
        AgentAction::MouseMoveTo { x, y, duration, .. } => if millis(duration) == 0 {
            seq![Instr::Need(Op::Do(Command::MoveCursorTo { x, y }))]
        } else {
            seq![
                Instr::ReadCursor,
                Instr::Need(Op::AnimateTo { x, y, duration_ms: millis(duration) }),
            ]
        },
        AgentAction::MouseClick { button } => mouse + seq![
            Instr::Need(Op::Do(Command::MouseClick(button_of(button)))),
        ],
        AgentAction::MouseDoubleClick { button } => mouse + seq![
            Instr::Need(Op::Do(Command::MouseDoubleClick(button_of(button)))),
        ],
        AgentAction::MouseDown { button } => mouse + seq![
            Instr::Need(Op::Do(Command::MousePress(button_of(button)))),
        ],
        AgentAction::MouseUp { button } => mouse + seq![
            Instr::Need(Op::Do(Command::MouseRelease(button_of(button)))),
        ],
        AgentAction::MouseScroll { delta } => mouse + seq![
            Instr::Need(Op::Do(Command::MouseScroll(delta))),
        ],
        AgentAction::MouseDrag { x, y, button, duration, .. } => {
            let b = button_of(button);
            if millis(duration) == 0 {
                mouse + seq![
                    Instr::Need(Op::Do(Command::MousePress(b))),
                    drag_pause(),
                    Instr::Guarded(Op::Do(Command::MouseMoveBy { dx: x, dy: y }), Command::MouseRelease(b)),
                    drag_pause(),
                    Instr::Need(Op::Do(Command::MouseRelease(b))),
                ]
            } else {
                seq![Instr::ReadCursor] + mouse + seq![
                    Instr::Need(Op::Do(Command::MousePress(b))),
                    drag_pause(),
                    Instr::Hold(Op::AnimateBy { dx: x, dy: y, duration_ms: millis(duration) }),
                    drag_pause(),
                    Instr::Ignore(Op::Do(Command::MouseRelease(b))),
                ]
            }
        },
        AgentAction::MouseDragTo { x, y, button, duration, .. } => {
            let b = button_of(button);
            if millis(duration) == 0 {
                seq![Instr::ReadCursor] + mouse + seq![
                    Instr::Need(Op::Do(Command::MousePress(b))),
                    drag_pause(),
                    Instr::Guarded(Op::MoveToward { x, y }, Command::MouseRelease(b)),
                    drag_pause(),
                    Instr::Need(Op::Do(Command::MouseRelease(b))),
                ]
            } else {
                seq![Instr::ReadCursor] + mouse + seq![
                    Instr::Need(Op::Do(Command::MousePress(b))),
                    drag_pause(),
                    Instr::Hold(Op::AnimateTo { x, y, duration_ms: millis(duration) }),
                    drag_pause(),
                    Instr::Ignore(Op::Do(Command::MouseRelease(b))),
                ]
            }
        },
        AgentAction::Type { text, interval } => if millis(interval) == 0 {
            keyboard + seq![Instr::Need(Op::Do(Command::TypeText))]
        } else {
            keyboard + keystrokes(text@, millis(interval))
        },
        AgentAction::KeyPress { .. } => keyboard + seq![Instr::Need(Op::Do(Command::KeyTap))],
        AgentAction::KeyDown { .. } => keyboard + seq![Instr::Need(Op::Do(Command::KeyDown))],
        AgentAction::KeyUp { .. } => keyboard + seq![Instr::Need(Op::Do(Command::KeyUp))],
        AgentAction::KeyCombo { modifiers, .. } => keyboard + seq![
            Instr::Need(Op::Do(Command::KeyCombo(modifiers_of(lowered(modifiers@))))),
        ],
        AgentAction::GamepadPress { button } => gamepad + gamepad_step(button, true),
        AgentAction::GamepadRelease { button } => gamepad + gamepad_step(button, false),
        AgentAction::GamepadLeftStick { x, y } => gamepad + seq![
            Instr::Need(Op::Do(Command::LeftStick { x, y })),
        ],
        AgentAction::GamepadRightStick { x, y } => gamepad + seq![
            Instr::Need(Op::Do(Command::RightStick { x, y })),
        ],
        AgentAction::GamepadTriggers { left, right } => gamepad + seq![
            Instr::Need(Op::Do(Command::LeftTrigger(left))),
            Instr::Need(Op::Do(Command::RightTrigger(right))),
        ],
        AgentAction::Screenshot => seq![Instr::Report(Command::CaptureScreen)],
        AgentAction::ScreenshotRegion { x, y, width, height } => seq![
            Instr::Report(Command::CaptureRegion { x, y, width, height }),
        ],
        AgentAction::GetUiTree { depth, app } => seq![
            Instr::Report(Command::ReadUiTree { depth, of_named_app: app is Some }),
        ],
        AgentAction::FindUiElement { .. } => seq![
            Instr::Report(Command::ReadUiTree { depth: None, of_named_app: false }),
        ],
    }
}

/// All steps of an action, with the devices `d` that exist when it starts.
pub open spec fn compile(d: Devices, a: AgentAction) -> Seq<Instr> {
    gate(a) + handler(d, a)
}

/// The protocol: with the devices `d` at the start of action `a` and the
/// host's answers `ev` to the commands so far, the next command, or how the
/// action ends.
pub open spec fn script(d: Devices, a: AgentAction, ev: Seq<Event>) -> Reply {
    run_from(a, compile(d, a), ev, 0, 0, None)
}


// ---------------------------------------------------------------------------
// Parsing of the action's words
// ---------------------------------------------------------------------------

/// The mouse button the optional word names.
fn button_named(b: &Option<String>) -> (r: MouseButton)
    ensures
        r == button_of(*b),
{
    match b {
        Some(s) => mouse_button_named(s),
        None => MouseButton::Left,
    }
}

/// A duration in milliseconds, 0 when none is given.
fn millis_of(d: &Option<u64>) -> (r: u64)
    ensures
        r == millis(*d),
{
    match d {
        Some(v) => *v,
        None => 0,
    }
}

/// The message for an unknown gamepad button.
fn unknown_button_message(button: &str) -> (r: String)
    ensures
        r@ == "Invalid action: "@ + "Unknown gamepad button: "@ + button@,
{
    let e = Error::InvalidAction(joined("Unknown gamepad button: ", button));
    e.message()
}

// ---------------------------------------------------------------------------
// Building the steps of an action
// ---------------------------------------------------------------------------

fn is_exempt(a: &AgentAction) -> (r: bool)
    ensures
        r == exempt(*a),
{
    match a {
        AgentAction::Size => true,
        AgentAction::Position => true,
        AgentAction::FailsafeEnable => true,
        AgentAction::FailsafeDisable => true,
        AgentAction::FailsafeStatus => true,
        AgentAction::FailsafeReset => true,
        AgentAction::Screenshot => true,
        AgentAction::ScreenshotRegion { .. } => true,
        AgentAction::GetUiTree { .. } => true,
        AgentAction::FindUiElement { .. } => true,
        _ => false,
    }
}

fn push_ensure(p: &mut Vec<Instr>, present: bool, create: Command)
    ensures
        final(p)@ == old(p)@ + ensure(present, create),
{
    if !present {
        p.push(Instr::Need(Op::Do(create)));
    }
    assert(final(p)@ =~= old(p)@ + ensure(present, create));
}

fn push_typing(p: &mut Vec<Instr>, text: &String, interval: u64)
    ensures
        final(p)@ == old(p)@ + keystrokes(text@, interval),
{
    let chars = crate::text::chars_of(text.as_str());
    let ghost base = p@;
    let mut i: usize = 0;
    assert(p@ =~= base + keystrokes(chars@, interval).take(0));
    while i < chars.len()
        invariant
            i <= chars.len(),
            chars@ == text@,
            p@ == base + keystrokes(chars@, interval).take(2 * i),
        decreases chars.len() - i,
    {
        let c = chars[i];
        p.push(Instr::Need(Op::Do(Command::TypeChar(c))));
        p.push(Instr::Ignore(Op::Do(Command::Pause { ms: interval })));
        proof {
            let t = keystrokes(chars@, interval);
            assert(t[2 * i] == keystroke(c));
            assert(t[2 * i + 1] == Instr::Ignore(Op::Do(Command::Pause { ms: interval })));
            assert(p@ =~= base + t.take(2 * (i + 1)));
        }
        i = i + 1;
    }
    assert(keystrokes(chars@, interval).take(2 * chars.len()) =~= keystrokes(chars@, interval));
}

fn push_gamepad_step(p: &mut Vec<Instr>, button: &String, press: bool)
    ensures
        final(p)@ == old(p)@ + gamepad_step(*button, press),
{
    let lower = to_lowercase(button.as_str());
    match gamepad_button_named(&lower, true) {
        Some(b) => {
            if press {
                p.push(Instr::Need(Op::Do(Command::GamepadPress(b))));
            } else {
                p.push(Instr::Need(Op::Do(Command::GamepadRelease(b))));
            }
        },
        None => {
            p.push(Instr::RejectButton);
        },
    }
    assert(final(p)@ =~= old(p)@ + gamepad_step(*button, press));
}

fn push_drag(
    p: &mut Vec<Instr>,
    b: MouseButton,
    movement: Op,
    timed: bool,
)
    ensures
        final(p)@ == old(p)@ + if timed {
            seq![
                Instr::Need(Op::Do(Command::MousePress(b))),
                drag_pause(),
                Instr::Hold(movement),
                drag_pause(),
                Instr::Ignore(Op::Do(Command::MouseRelease(b))),
            ]
        } else {
            seq![
                Instr::Need(Op::Do(Command::MousePress(b))),
                drag_pause(),
                Instr::Guarded(movement, Command::MouseRelease(b)),
                drag_pause(),
                Instr::Need(Op::Do(Command::MouseRelease(b))),
            ]
        },
{
    p.push(Instr::Need(Op::Do(Command::MousePress(b))));
    p.push(Instr::Ignore(Op::Do(Command::Pause { ms: 10 })));
    if timed {
        p.push(Instr::Hold(movement));
    } else {
        p.push(Instr::Guarded(movement, Command::MouseRelease(b)));
    }
    p.push(Instr::Ignore(Op::Do(Command::Pause { ms: 10 })));
    if timed {
        p.push(Instr::Ignore(Op::Do(Command::MouseRelease(b))));
    } else {
        p.push(Instr::Need(Op::Do(Command::MouseRelease(b))));
    }
    proof {
        if timed {
            assert(final(p)@ =~= old(p)@ + seq![
                Instr::Need(Op::Do(Command::MousePress(b))),
                drag_pause(),
                Instr::Hold(movement),
                drag_pause(),
                Instr::Ignore(Op::Do(Command::MouseRelease(b))),
            ]);
        } else {
            assert(final(p)@ =~= old(p)@ + seq![
                Instr::Need(Op::Do(Command::MousePress(b))),
                drag_pause(),
                Instr::Guarded(movement, Command::MouseRelease(b)),
                drag_pause(),
                Instr::Need(Op::Do(Command::MouseRelease(b))),
            ]);
        }
    }
}

/// The steps of the action `a` with the devices `d`.
#[verifier::rlimit(40)]
fn program(d: Devices, a: &AgentAction) -> (p: Vec<Instr>)
    ensures
        p@ == compile(d, *a),
{
    let mut p: Vec<Instr> = Vec::new();
    if !is_exempt(a) {
        p.push(Instr::Check);
    }
    let ghost g = p@;
    assert(g =~= gate(*a));
    match a {
        AgentAction::Size => {
            p.push(Instr::Report(Command::QueryScreenSize));
        },
        AgentAction::Position => {
            p.push(Instr::Report(Command::QueryCursor));
        },
        AgentAction::FailsafeEnable => {
            p.push(Instr::Need(Op::Do(Command::SetFailsafe(true))));
        },
        AgentAction::FailsafeDisable => {
            p.push(Instr::Need(Op::Do(Command::SetFailsafe(false))));
        },
        AgentAction::FailsafeStatus => {
            p.push(Instr::Report(Command::QueryFailsafe));
        },
        AgentAction::FailsafeReset => {
            p.push(Instr::Need(Op::Do(Command::ResetFailsafe)));
        },
        AgentAction::MouseMove { x, y, duration, .. } => {
            let ms = millis_of(duration);
            if ms == 0 {
                push_ensure(&mut p, d.mouse, Command::CreateMouse);
                p.push(Instr::Need(Op::Do(Command::MouseMoveBy { dx: *x, dy: *y })));
            } else {
                p.push(Instr::ReadCursor);
                p.push(Instr::Need(Op::AnimateBy { dx: *x, dy: *y, duration_ms: ms }));
            }
        },
        AgentAction::MouseMoveTo { x, y, duration, .. } => {
            let ms = millis_of(duration);
            if ms == 0 {
                p.push(Instr::Need(Op::Do(Command::MoveCursorTo { x: *x, y: *y })));
            } else {
                p.push(Instr::ReadCursor);
                p.push(Instr::Need(Op::AnimateTo { x: *x, y: *y, duration_ms: ms }));
            }
        },
        AgentAction::MouseClick { button } => {
            push_ensure(&mut p, d.mouse, Command::CreateMouse);
            p.push(Instr::Need(Op::Do(Command::MouseClick(button_named(button)))));
        },
        AgentAction::MouseDoubleClick { button } => {
            push_ensure(&mut p, d.mouse, Command::CreateMouse);
            p.push(Instr::Need(Op::Do(Command::MouseDoubleClick(button_named(button)))));
        },
        AgentAction::MouseDown { button } => {
            push_ensure(&mut p, d.mouse, Command::CreateMouse);
            p.push(Instr::Need(Op::Do(Command::MousePress(button_named(button)))));
        },
        AgentAction::MouseUp { button } => {
            push_ensure(&mut p, d.mouse, Command::CreateMouse);
            p.push(Instr::Need(Op::Do(Command::MouseRelease(button_named(button)))));
        },
        AgentAction::MouseScroll { delta } => {
            push_ensure(&mut p, d.mouse, Command::CreateMouse);
            p.push(Instr::Need(Op::Do(Command::MouseScroll(*delta))));
        },
        AgentAction::MouseDrag { x, y, button, duration, .. } => {
            let b = button_named(button);
            let ms = millis_of(duration);
            if ms == 0 {
                push_ensure(&mut p, d.mouse, Command::CreateMouse);
                push_drag(&mut p, b, Op::Do(Command::MouseMoveBy { dx: *x, dy: *y }), false);
            } else {
                p.push(Instr::ReadCursor);
                push_ensure(&mut p, d.mouse, Command::CreateMouse);
                push_drag(&mut p, b, Op::AnimateBy { dx: *x, dy: *y, duration_ms: ms }, true);
            }
        },
        AgentAction::MouseDragTo { x, y, button, duration, .. } => {
            let b = button_named(button);
            let ms = millis_of(duration);
            p.push(Instr::ReadCursor);
            push_ensure(&mut p, d.mouse, Command::CreateMouse);
            if ms == 0 {
                push_drag(&mut p, b, Op::MoveToward { x: *x, y: *y }, false);
            } else {
                push_drag(&mut p, b, Op::AnimateTo { x: *x, y: *y, duration_ms: ms }, true);
            }
        },
        AgentAction::Type { text, interval } => {
            let ms = millis_of(interval);
            push_ensure(&mut p, d.keyboard, Command::CreateKeyboard);
            if ms == 0 {
                p.push(Instr::Need(Op::Do(Command::TypeText)));
            } else {
                push_typing(&mut p, text, ms);
            }
        },
        AgentAction::KeyPress { .. } => {
            push_ensure(&mut p, d.keyboard, Command::CreateKeyboard);
            p.push(Instr::Need(Op::Do(Command::KeyTap)));
        },
        AgentAction::KeyDown { .. } => {
            push_ensure(&mut p, d.keyboard, Command::CreateKeyboard);
            p.push(Instr::Need(Op::Do(Command::KeyDown)));
        },
        AgentAction::KeyUp { .. } => {
            push_ensure(&mut p, d.keyboard, Command::CreateKeyboard);
            p.push(Instr::Need(Op::Do(Command::KeyUp)));
        },
        AgentAction::KeyCombo { modifiers, .. } => {
            push_ensure(&mut p, d.keyboard, Command::CreateKeyboard);
            let m = modifiers_named(modifiers.as_slice());
            p.push(Instr::Need(Op::Do(Command::KeyCombo(m))));
        },
        AgentAction::GamepadPress { button } => {
            push_ensure(&mut p, d.gamepad, Command::CreateGamepad);
            push_gamepad_step(&mut p, button, true);
        },
        AgentAction::GamepadRelease { button } => {
            push_ensure(&mut p, d.gamepad, Command::CreateGamepad);
            push_gamepad_step(&mut p, button, false);
        },
        AgentAction::GamepadLeftStick { x, y } => {
            push_ensure(&mut p, d.gamepad, Command::CreateGamepad);
            p.push(Instr::Need(Op::Do(Command::LeftStick { x: *x, y: *y })));
        },
        AgentAction::GamepadRightStick { x, y } => {
            push_ensure(&mut p, d.gamepad, Command::CreateGamepad);
            p.push(Instr::Need(Op::Do(Command::RightStick { x: *x, y: *y })));
        },
        AgentAction::GamepadTriggers { left, right } => {
            push_ensure(&mut p, d.gamepad, Command::CreateGamepad);
            p.push(Instr::Need(Op::Do(Command::LeftTrigger(*left))));
            p.push(Instr::Need(Op::Do(Command::RightTrigger(*right))));
        },
        AgentAction::Screenshot => {
            p.push(Instr::Report(Command::CaptureScreen));
        },
        AgentAction::ScreenshotRegion { x, y, width, height } => {
            p.push(
                Instr::Report(
                    Command::CaptureRegion { x: *x, y: *y, width: *width, height: *height },
                ),
            );
        },
        AgentAction::GetUiTree { depth, app } => {
            p.push(Instr::Report(Command::ReadUiTree { depth: *depth, of_named_app: app.is_some() }));
        },
        AgentAction::FindUiElement { .. } => {
            p.push(Instr::Report(Command::ReadUiTree { depth: None, of_named_app: false }));
        },
    }
    assert(p@ =~= compile(d, *a));
    p
}


// ---------------------------------------------------------------------------
// Running the steps
// ---------------------------------------------------------------------------

/// How an action ends, as the runner finds it.
enum Finale {
    Success,
    Failure(String),
    Position(i32, i32),
    Size(u32, u32),
    Status(bool, bool),
    Data(String),
    /// The tree of the answer at this position.
    TreeAt(usize),
    Elements(Vec<UIElement>),
}

/// What the runner decides next.
enum Plan {
    Next(Command),
    Finish(Finale),
}

/// `f` is the ending `o`, given the answers `ev`.
spec fn finale_shows(f: Finale, o: Outcome, ev: Seq<Event>) -> bool {
    match f {
        Finale::Success => o == Outcome::Success,
        Finale::Failure(m) => o == Outcome::Failure(m@),
        Finale::Position(x, y) => o == Outcome::Position(x, y),
        Finale::Size(w, h) => o == Outcome::Size(w, h),
        Finale::Status(e, t) => o == Outcome::FailsafeStatus(e, t),
        Finale::Data(d) => o == Outcome::Data(d@),
        Finale::TreeAt(i) => i < ev.len() && (ev[i as int] matches Event::Tree(t) && o
            == Outcome::Tree(t)),
        Finale::Elements(v) => o matches Outcome::Elements(src) && v@.len() == src.len() && (
        forall|k: int| 0 <= k < src.len() ==> is_flat_copy(#[trigger] v@[k], src[k])),
    }
}

/// `p` is the reply `r`, given the answers `ev`.
spec fn plan_shows(p: Plan, r: Reply, ev: Seq<Event>) -> bool {
    match p {
        Plan::Next(c) => r == Reply::Next(c),
        Plan::Finish(f) => r matches Reply::Done(o) && finale_shows(f, o, ev),
    }
}

/// Every cursor position among the answers fits the program's commands.
pub open spec fn cursor_answers_fit(p: Seq<Instr>, ev: Seq<Event>) -> bool {
    forall|k: int|
        0 <= k < ev.len() ==> (#[trigger] ev[k] matches Event::Cursor { x, y } ==> program_fits(
            p,
            x,
            y,
        ))
}

fn resolve_op(op: Op, cx: i32, cy: i32) -> (c: Command)
    requires
        op_fits(op, cx, cy),
    ensures
        c == resolve(op, cx, cy),
{
    match op {
        Op::Do(c) => c,
        Op::AnimateBy { dx, dy, duration_ms } => Command::Animate {
            from_x: cx,
            from_y: cy,
            to_x: cx + dx,
            to_y: cy + dy,
            duration_ms,
        },
        Op::AnimateTo { x, y, duration_ms } => Command::Animate {
            from_x: cx,
            from_y: cy,
            to_x: x,
            to_y: y,
            duration_ms,
        },
        Op::MoveToward { x, y } => Command::MouseMoveBy { dx: x - cx, dy: y - cy },
    }
}

/// What the answer to the last command makes the action report.
fn report_of(a: &AgentAction, e: &Event, at: usize, ev: Ghost<Seq<Event>>) -> (f: Finale)
    requires
        at < ev@.len(),
        ev@[at as int] == *e,
    ensures
        finale_shows(f, report(*a, *e), ev@),
{
    match e {
        Event::Cursor { x, y } => Finale::Position(*x, *y),
        Event::ScreenSize { width, height } => Finale::Size(*width, *height),
        Event::FailsafeState { enabled, triggered } => Finale::Status(*enabled, *triggered),
        Event::Image(png) => Finale::Data(to_base64(png)),
        Event::Tree(t) => match a {
            AgentAction::FindUiElement { role, title } => {
                let r = match role {
                    Some(s) => Some(s.as_str()),
                    None => None,
                };
                let ti = match title {
                    Some(s) => Some(s.as_str()),
                    None => None,
                };
                Finale::Elements(find_ui_element(t, r, ti))
            },
            _ => Finale::TreeAt(at),
        },
        Event::Failed(m) => Finale::Failure(m.clone()),
        Event::Done => Finale::Success,
    }
}

/// The message that rejects the action's gamepad button.
fn rejection(a: &AgentAction) -> (r: String)
    ensures
        r@ == unknown_button_text(*a),
{
    match a {
        AgentAction::GamepadPress { button } => unknown_button_message(button.as_str()),
        AgentAction::GamepadRelease { button } => unknown_button_message(button.as_str()),
        _ => String::new(),
    }
}

/// Runs the steps `p` of action `a` against the answers `ev`.
fn run_plan(a: &AgentAction, p: &Vec<Instr>, ev: &Vec<Event>) -> (r: Plan)
    requires
        cursor_answers_fit(p@, ev@),
    ensures
        plan_shows(r, run_from(*a, p@, ev@, 0, 0, None), ev@),
{
    let mut pc: usize = 0;
    let mut k: usize = 0;
    let mut cx: i32 = 0;
    let mut cy: i32 = 0;
    let mut held: Option<String> = None;
    assert(p@.skip(0) =~= p@);
    assert(ev@.skip(0) =~= ev@);
    assert(program_fits(p@, 0, 0)) by {
        assert forall|j: int| 0 <= j < p@.len() implies instr_fits(#[trigger] p@[j], 0, 0) by {
            match p@[j] {
                Instr::Need(op) => {},
                _ => {},
            }
        }
    }
    loop
        invariant
            pc <= p.len(),
            k <= ev.len(),
            cursor_answers_fit(p@, ev@),
            program_fits(p@, cx, cy),
            run_from(*a, p@, ev@, 0, 0, None) == run_from(
                *a,
                p@.skip(pc as int),
                ev@.skip(k as int),
                cx,
                cy,
                opt_text(held),
            ),
        decreases p.len() - pc,
    {
        if pc == p.len() {
            return Plan::Finish(
                match held {
                    Some(m) => Finale::Failure(m),
                    None => Finale::Success,
                },
            );
        }
        let ghost rest = p@.skip(pc as int);
        let ghost evs = ev@.skip(k as int);
        let instr = p[pc];
        assert(rest[0] == instr);
        assert(rest.drop_first() =~= p@.skip(pc + 1));
        assert(instr_fits(p@[pc as int], cx, cy));
        if k < ev.len() {
            assert(evs[0] == ev@[k as int]);
            assert(evs.drop_first() =~= ev@.skip(k + 1));
        }
        match instr {
            Instr::Check => {
                if k == ev.len() {
                    return Plan::Next(Command::CheckFailsafe);
                }
                if let Event::Failed(m) = &ev[k] {
                    return Plan::Finish(Finale::Failure(joined("Failsafe: ", m.as_str())));
                }
            },
            Instr::Need(op) => {
                if k == ev.len() {
                    return Plan::Next(resolve_op(op, cx, cy));
                }
                if let Event::Failed(m) = &ev[k] {
                    return Plan::Finish(Finale::Failure(m.clone()));
                }
            },
            Instr::Guarded(op, cleanup) => {
                if k == ev.len() {
                    return Plan::Next(resolve_op(op, cx, cy));
                }
                if let Event::Failed(m) = &ev[k] {
                    if k + 1 == ev.len() {
                        return Plan::Next(cleanup);
                    } else {
                        return Plan::Finish(Finale::Failure(m.clone()));
                    }
                }
            },
            Instr::Hold(op) => {
                if k == ev.len() {
                    return Plan::Next(resolve_op(op, cx, cy));
                }
                if let Event::Failed(m) = &ev[k] {
                    held = Some(m.clone());
                }
            },
            Instr::Ignore(op) => {
                if k == ev.len() {
                    return Plan::Next(resolve_op(op, cx, cy));
                }
            },
            Instr::ReadCursor => {
                if k == ev.len() {
                    return Plan::Next(Command::QueryCursor);
                }
                match &ev[k] {
                    Event::Failed(m) => {
                        return Plan::Finish(Finale::Failure(m.clone()));
                    },
                    Event::Cursor { x, y } => {
                        cx = *x;
                        cy = *y;
                    },
                    _ => {
                        cx = 0;
                        cy = 0;
                    },
                }
            },
            Instr::Report(c) => {
                if k == ev.len() {
                    return Plan::Next(c);
                }
                return Plan::Finish(report_of(a, &ev[k], k, Ghost(ev@)));
            },
            Instr::RejectButton => {
                return Plan::Finish(Finale::Failure(rejection(a)));
            },
        }
        proof {
            if instr is ReadCursor {
                if ev@[k as int] is Cursor {
                    assert(program_fits(p@, cx, cy));
                } else {
                    assert forall|j: int| 0 <= j < p@.len() implies instr_fits(#[trigger] p@[j], 0, 0) by {
                        match p@[j] {
                            Instr::Need(op) => {},
                            _ => {},
                        }
                    }
                }
            }
        }
        pc = pc + 1;
        k = k + 1;
    }
}


/// The result for the ending `f`, taking a reported tree out of the answers.
fn conclude(f: Finale, events: Vec<Event>, Ghost(o): Ghost<Outcome>) -> (r: AgentResult)
    requires
        finale_shows(f, o, events@),
    ensures
        describes(r, o),
{
    match f {
        Finale::Success => AgentResult::ok(),
        Finale::Failure(m) => AgentResult::err(m),
        Finale::Position(x, y) => AgentResult::with_position(x, y),
        Finale::Size(w, h) => AgentResult::with_size(w, h),
        Finale::Status(e, t) => AgentResult::with_failsafe_status(e, t),
        Finale::Data(d) => AgentResult::with_data(d),
        Finale::TreeAt(i) => {
            let mut events = events;
            match events.remove(i) {
                Event::Tree(t) => AgentResult::with_tree(t),
                _ => {
                    proof {
                        assert(false);
                    }
                    AgentResult::ok()
                },
            }
        },
        Finale::Elements(v) => AgentResult::with_elements(v),
    }
}

// ---------------------------------------------------------------------------
// The agent
// ---------------------------------------------------------------------------

/// `s` is the reply `r`: the same command, or a result that reports the
/// same ending.
pub open spec fn step_shows(s: Step, r: Reply) -> bool {
    match s {
        Step::Perform(c) => r == Reply::Next(c),
        Step::Finish(res) => r matches Reply::Done(o) && describes(res, o),
    }
}

/// The devices after the answer `e` to command `c`: a creation that is done
/// adds its device.
pub open spec fn after_answer(d: Devices, c: Command, e: Event) -> Devices {
    if e is Done {
        match c {
            Command::CreateMouse => Devices { mouse: true, ..d },
            Command::CreateKeyboard => Devices { keyboard: true, ..d },
            Command::CreateGamepad => Devices { gamepad: true, ..d },
            _ => d,
        }
    } else {
        d
    }
}

/// An action being carried out.
struct Run {
    action: AgentAction,
    devices: Devices,
    events: Vec<Event>,
}

/// Agent HID controller: the devices that exist and the action under way.
pub struct AgentHID {
    devices: Devices,
    run: Option<Run>,
}

impl AgentHID {
    #[verifier::type_invariant]
    spec fn answers_fit(self) -> bool {
        self.run matches Some(r) ==> cursor_answers_fit(compile(r.devices, r.action), r.events@)
    }

    /// The devices that exist.
    pub closed spec fn devices(self) -> Devices {
        self.devices
    }

    /// An action is under way.
    pub closed spec fn running(self) -> bool {
        self.run is Some
    }

    /// The action under way.
    pub closed spec fn action(self) -> AgentAction {
        self.run->Some_0.action
    }

    /// The devices that existed when the action under way started.
    pub closed spec fn start_devices(self) -> Devices {
        self.run->Some_0.devices
    }

    /// The answers to the commands of the action under way, so far.
    pub closed spec fn events(self) -> Seq<Event> {
        self.run->Some_0.events@
    }

    /// The command that the action under way waits on.
    pub open spec fn pending(self) -> Reply {
        script(self.start_devices(), self.action(), self.events())
    }

    /// `e` can answer the command that the action under way waits on, and
    /// a cursor position in it keeps the moves computed from it in the
    /// range of `i32`.
    pub open spec fn expects(self, e: Event) -> bool {
        &&& self.running()
        &&& self.pending() matches Reply::Next(c) && answers(c, e)
        &&& (e matches Event::Cursor { x, y } ==> program_fits(
            compile(self.start_devices(), self.action()),
            x,
            y,
        ))
    }

    /// Create a new agent HID controller: no device exists yet.
    pub fn new() -> (r: AgentHID)
        ensures
            r.devices() == (Devices { mouse: false, keyboard: false, gamepad: false }),
            !r.running(),
    {
        AgentHID { devices: Devices { mouse: false, keyboard: false, gamepad: false }, run: None }
    }

    /// The devices that exist.
    pub fn created(&self) -> (d: Devices)
        ensures
            d == self.devices(),
    {
        self.devices
    }

    /// The mouse button a word names: "right", "middle", otherwise (and
    /// without a word) the left button. The words are compared exactly.
    pub fn parse_mouse_button(s: Option<String>) -> (b: MouseButton)
        ensures
            b == button_of(s),
    {
        button_named(&s)
    }

    /// The gamepad button a word names, compared without case; "left" and
    /// "right" name the d-pad directions. Another word is an invalid action.
    pub fn parse_gamepad_button(s: &str) -> (r: Result<GamepadButton, Error>)
        ensures
            gamepad_button_of(lowercase(s@), true) matches Some(b) ==> r == Ok::<
                GamepadButton,
                Error,
            >(b),
            gamepad_button_of(lowercase(s@), true) is None ==> (r matches Err(
                Error::InvalidAction(m),
            ) && m@ == "Unknown gamepad button: "@ + s@),
            is_ascii_text(s@) ==> (gamepad_button_of(ascii_lowered(s@), true) matches Some(b) ==> r
            == Ok::<GamepadButton, Error>(b)),
            is_ascii_text(s@) && gamepad_button_of(ascii_lowered(s@), true) is None ==> (r matches Err(
                Error::InvalidAction(m),
            ) && m@ == "Unknown gamepad button: "@ + s@),
    {
        let lower = to_lowercase(s);
        match gamepad_button_named(&lower, true) {
            Some(b) => Ok(b),
            None => Err(Error::InvalidAction(joined("Unknown gamepad button: ", s))),
        }
    }

    /// The modifiers that the words name, compared without case: "ctrl" or
    /// "control"; "shift"; "alt" or "option"; "cmd", "command", "meta",
    /// "gui" or "win". Other words are ignored.
    pub fn parse_modifiers(mods: &[String]) -> (m: Modifiers)
        ensures
            m == modifiers_of(lowered(mods@)),
            all_ascii(mods@) ==> m == modifiers_of(ascii_lowered_words(mods@)),
            all_ascii(mods@) ==> (m.ctrl <==> exists|i: int|
                0 <= i < mods@.len() && (ascii_lowered(#[trigger] mods@[i]@) == "ctrl"@
                    || ascii_lowered(mods@[i]@) == "control"@)),
            all_ascii(mods@) ==> (m.shift <==> exists|i: int|
                0 <= i < mods@.len() && ascii_lowered(#[trigger] mods@[i]@) == "shift"@),
            all_ascii(mods@) ==> (m.alt <==> exists|i: int|
                0 <= i < mods@.len() && (ascii_lowered(#[trigger] mods@[i]@) == "alt"@
                    || ascii_lowered(mods@[i]@) == "option"@)),
            all_ascii(mods@) ==> (m.cmd <==> exists|i: int|
                0 <= i < mods@.len() && (ascii_lowered(#[trigger] mods@[i]@) == "cmd"@
                    || ascii_lowered(mods@[i]@) == "command"@ || ascii_lowered(mods@[i]@)
                    == "meta"@ || ascii_lowered(mods@[i]@) == "gui"@ || ascii_lowered(mods@[i]@)
                    == "win"@)),
    {
        let m = modifiers_named(mods);
        proof {
            let ws = ascii_lowered_words(mods@);
            lemma_modifier_words(ws);
            assert forall|i: int| 0 <= i < mods@.len() implies #[trigger] ws[i] == ascii_lowered(
                mods@[i]@,
            ) by {}
            assert(ws.len() == mods@.len());
            let pc = |w: Seq<char>| w == "ctrl"@ || w == "control"@;
            let ps = |w: Seq<char>| w == "shift"@;
            let pa = |w: Seq<char>| w == "alt"@ || w == "option"@;
            let pm = |w: Seq<char>|
                w == "cmd"@ || w == "command"@ || w == "meta"@ || w == "gui"@ || w == "win"@;
            lemma_word_witness(mods@, pc);
            lemma_word_witness(mods@, ps);
            lemma_word_witness(mods@, pa);
            lemma_word_witness(mods@, pm);
        }
        m
    }

    /// Starts carrying out `action` (an action under way is given up): the
    /// first command, or the result when the action needs none.
    pub fn start(&mut self, action: AgentAction) -> (s: Step)
        ensures
            final(self).devices() == old(self).devices(),
            step_shows(s, script(old(self).devices(), action, Seq::empty())),
            s is Perform ==> final(self).running() && final(self).action() == action
                && final(self).start_devices() == old(self).devices() && final(self).events()
                == Seq::<Event>::empty(),
            s is Finish ==> !final(self).running(),
    {
        let d = self.devices;
        let prog = program(d, &action);
        let events: Vec<Event> = Vec::new();
        let ghost r = run_from(action, prog@, events@, 0, 0, None);
        match run_plan(&action, &prog, &events) {
            Plan::Next(c) => {
                self.run = Some(Run { action, devices: d, events });
                Step::Perform(c)
            },
            Plan::Finish(f) => {
                self.run = None;
                let o = Ghost(r->Done_0);
                Step::Finish(conclude(f, events, o))
            },
        }
    }

    /// Whether `e` can answer the command that the action under way waits on.
    pub fn accepts(&self, e: &Event) -> (r: bool)
        ensures
            r == self.expects(*e),
    {
        proof {
            use_type_invariant(self);
        }
        match &self.run {
            None => false,
            Some(run) => {
                let prog = program(run.devices, &run.action);
                match run_plan(&run.action, &prog, &run.events) {
                    Plan::Next(c) => {
                        let fits = match e {
                            Event::Cursor { x, y } => fits_program(&prog, *x, *y),
                            _ => true,
                        };
                        fits && answer_fits(c, e)
                    },
                    Plan::Finish(_) => false,
                }
            },
        }
    }

    /// Hands over the host's answer `e` to the command that the action under
    /// way waits on: the next command, or the action's result.
    pub fn feed(&mut self, e: Event) -> (s: Step)
        requires
            old(self).expects(e),
        ensures
            final(self).devices() == after_answer(
                old(self).devices(),
                old(self).pending()->Next_0,
                e,
            ),
            step_shows(
                s,
                script(old(self).start_devices(), old(self).action(), old(self).events().push(e)),
            ),
            s is Perform ==> final(self).running() && final(self).action() == old(self).action()
                && final(self).start_devices() == old(self).start_devices()
                && final(self).events() == old(self).events().push(e),
            s is Finish ==> !final(self).running(),
    {
        let mut previous = AgentHID { devices: self.devices, run: None };
        std::mem::swap(self, &mut previous);
        proof {
            use_type_invariant(&previous);
        }
        let mut run = match previous.run {
            Some(r) => r,
            None => {
                proof {
                    assert(false);
                }
                return Step::Finish(AgentResult::ok());
            },
        };
        let prog = program(run.devices, &run.action);
        let pending = match run_plan(&run.action, &prog, &run.events) {
            Plan::Next(c) => c,
            Plan::Finish(_) => {
                proof {
                    assert(false);
                }
                return Step::Finish(AgentResult::ok());
            },
        };
        if let Event::Done = e {
            match pending {
                Command::CreateMouse => {
                    self.devices.mouse = true;
                },
                Command::CreateKeyboard => {
                    self.devices.keyboard = true;
                },
                Command::CreateGamepad => {
                    self.devices.gamepad = true;
                },
                _ => {},
            }
        }
        run.events.push(e);
        let ghost r = run_from(run.action, prog@, run.events@, 0, 0, None);
        match run_plan(&run.action, &prog, &run.events) {
            Plan::Next(c) => {
                self.run = Some(run);
                Step::Perform(c)
            },
            Plan::Finish(f) => {
                let o = Ghost(r->Done_0);
                Step::Finish(conclude(f, run.events, o))
            },
        }
    }

    /// `after`, with the step `st`, is what handing over `e` makes of
    /// `before`, as `feed` states it.
    pub open spec fn answered(before: AgentHID, after: AgentHID, e: Event, st: Step) -> bool {
        &&& after.devices() == after_answer(before.devices(), before.pending()->Next_0, e)
        &&& step_shows(st, script(before.start_devices(), before.action(), before.events().push(e)))
        &&& (st is Perform ==> after.running() && after.action() == before.action()
            && after.start_devices() == before.start_devices() && after.events()
            == before.events().push(e))
        &&& (st is Finish ==> !after.running())
    }

    /// Hands over `e` when it answers the command that the action under way
    /// waits on (as `accepts` tests), and gives the next step; otherwise
    /// leaves the agent unchanged and gives `None`.
    pub fn try_feed(&mut self, e: Event) -> (s: Option<Step>)
        ensures
            s is None <==> !old(self).expects(e),
            s is None ==> *final(self) == *old(self),
            s matches Some(st) ==> AgentHID::answered(*old(self), *final(self), e, st),
    {
        if self.accepts(&e) {
            Some(self.feed(e))
        } else {
            None
        }
    }
}

impl Default for AgentHID {
    fn default() -> (r: AgentHID)
        ensures
            r.devices() == (Devices { mouse: false, keyboard: false, gamepad: false }),
            !r.running(),
    {
        AgentHID::new()
    }
}

/// The time between two frames of an animation of `duration_ms` over
/// `frames` positions (at least one frame is counted).
pub fn frame_delay_ms(duration_ms: u64, frames: usize) -> (r: u64)
    ensures
        r == duration_ms / (if frames == 0 {
            1
        } else {
            frames as u64
        }),
{
    let n: u64 = if frames == 0 {
        1
    } else {
        frames as u64
    };
    duration_ms / n
}

/// Whether every command of the program fits the cursor at (`cx`, `cy`).
fn fits_program(p: &Vec<Instr>, cx: i32, cy: i32) -> (r: bool)
    ensures
        r == program_fits(p@, cx, cy),
{
    let mut i: usize = 0;
    while i < p.len()
        invariant
            i <= p.len(),
            forall|j: int| 0 <= j < i ==> instr_fits(#[trigger] p@[j], cx, cy),
        decreases p.len() - i,
    {
        let ok = match p[i] {
            Instr::Need(op) => op_fits_exec(op, cx, cy),
            Instr::Guarded(op, _) => op_fits_exec(op, cx, cy),
            Instr::Hold(op) => op_fits_exec(op, cx, cy),
            Instr::Ignore(op) => op_fits_exec(op, cx, cy),
            _ => true,
        };
        if !ok {
            return false;
        }
        i = i + 1;
    }
    true
}

fn op_fits_exec(op: Op, cx: i32, cy: i32) -> (r: bool)
    ensures
        r == op_fits(op, cx, cy),
{
    match op {
        Op::AnimateBy { dx, dy, .. } => {
            let sx = cx as i64 + dx as i64;
            let sy = cy as i64 + dy as i64;
            i32::MIN as i64 <= sx && sx <= i32::MAX as i64 && i32::MIN as i64 <= sy && sy
                <= i32::MAX as i64
        },
        Op::MoveToward { x, y } => {
            let sx = x as i64 - cx as i64;
            let sy = y as i64 - cy as i64;
            i32::MIN as i64 <= sx && sx <= i32::MAX as i64 && i32::MIN as i64 <= sy && sy
                <= i32::MAX as i64
        },
        _ => true,
    }
}

/// Whether `e` is a kind of answer that fits command `c`.
fn answer_fits(c: Command, e: &Event) -> (r: bool)
    ensures
        r == answers(c, *e),
{
    match c {
        Command::QueryScreenSize => matches!(e, Event::ScreenSize { .. } | Event::Failed(_)),
        Command::QueryCursor => matches!(e, Event::Cursor { .. } | Event::Failed(_)),
        Command::QueryFailsafe => matches!(e, Event::FailsafeState { .. }),
        Command::SetFailsafe(_) => matches!(e, Event::Done),
        Command::ResetFailsafe => matches!(e, Event::Done),
        Command::Pause { .. } => matches!(e, Event::Done),
        Command::CaptureScreen => matches!(e, Event::Image(_) | Event::Failed(_)),
        Command::CaptureRegion { .. } => matches!(e, Event::Image(_) | Event::Failed(_)),
        Command::ReadUiTree { .. } => matches!(e, Event::Tree(_) | Event::Failed(_)),
        _ => matches!(e, Event::Done | Event::Failed(_)),
    }
}


// ---------------------------------------------------------------------------
// Laws of the protocol
// ---------------------------------------------------------------------------

/// The command of `op` can be `c`, whatever the cursor.
pub open spec fn op_may_issue(op: Op, c: Command) -> bool {
    match op {
        Op::Do(x) => x == c,
        Op::AnimateBy { .. } => c is Animate,
        Op::AnimateTo { .. } => c is Animate,
        Op::MoveToward { .. } => c is MouseMoveBy,
    }
}

/// The step `i` can hand over the command `c`.
pub open spec fn may_issue(i: Instr, c: Command) -> bool {
    match i {
        Instr::Check => c == Command::CheckFailsafe,
        Instr::Need(op) => op_may_issue(op, c),
        Instr::Guarded(op, cleanup) => op_may_issue(op, c) || cleanup == c,
        Instr::Hold(op) => op_may_issue(op, c),
        Instr::Ignore(op) => op_may_issue(op, c),
        Instr::ReadCursor => c == Command::QueryCursor,
        Instr::Report(r) => r == c,
        Instr::RejectButton => false,
    }
}

/// A program none of whose steps can hand over `c` never hands it over.
pub proof fn lemma_never_issued(
    a: AgentAction,
    p: Seq<Instr>,
    ev: Seq<Event>,
    cx: i32,
    cy: i32,
    held: Option<Seq<char>>,
    c: Command,
)
    requires
        forall|k: int| 0 <= k < p.len() ==> !may_issue(#[trigger] p[k], c),
    ensures
        run_from(a, p, ev, cx, cy, held) != Reply::Next(c),
    decreases p.len(),
{
    if p.len() > 0 {
        assert(!may_issue(p[0], c));
        let rest = p.drop_first();
        assert forall|k: int| 0 <= k < rest.len() implies !may_issue(#[trigger] rest[k], c) by {
            assert(rest[k] == p[k + 1]);
        }
        if ev.len() > 0 {
            let ncx = if p[0] is ReadCursor {
                cursor_of(ev[0]).0
            } else {
                cx
            };
            let ncy = if p[0] is ReadCursor {
                cursor_of(ev[0]).1
            } else {
                cy
            };
            let nheld = if p[0] is Hold && ev[0] is Failed {
                Some(failure_text(ev[0]))
            } else {
                held
            };
            lemma_never_issued(a, rest, ev.drop_first(), ncx, ncy, nheld, c);
        }
    }
}

/// The failsafe gate: an action that is not exempt starts with the failsafe
/// test, and a failed test ends it with "Failsafe: " and the test's message,
/// before any device is touched. An exempt action (a query, a failsafe
/// control, a capture, a UI-tree read) never asks for the test.
pub proof fn lemma_failsafe_gate(d: Devices, a: AgentAction, m: String, ev: Seq<Event>)
    ensures
        !exempt(a) ==> script(d, a, Seq::empty()) == Reply::Next(Command::CheckFailsafe),
        !exempt(a) ==> script(d, a, seq![Event::Failed(m)]) == Reply::Done(
            Outcome::Failure("Failsafe: "@ + m@),
        ),
        exempt(a) ==> script(d, a, ev) != Reply::Next(Command::CheckFailsafe),
{
    let p = compile(d, a);
    if !exempt(a) {
        assert(p[0] == Instr::Check);
        assert(seq![Event::Failed(m)][0] == Event::Failed(m));
    } else {
        assert forall|k: int| 0 <= k < p.len() implies !may_issue(
            #[trigger] p[k],
            Command::CheckFailsafe,
        ) by {
            assert(p =~= handler(d, a));
        }
        lemma_never_issued(a, p, ev, 0, 0, None, Command::CheckFailsafe);
    }
}

/// The steps that create a device.
pub open spec fn creates(c: Command) -> bool {
    c == Command::CreateMouse || c == Command::CreateKeyboard || c == Command::CreateGamepad
}

/// The device that a creation makes exists in `d`.
pub open spec fn already_there(d: Devices, c: Command) -> bool {
    ||| c == Command::CreateMouse && d.mouse
    ||| c == Command::CreateKeyboard && d.keyboard
    ||| c == Command::CreateGamepad && d.gamepad
}

/// Creating a present device is no step.
proof fn lemma_ensure_no_creation(present: bool, create: Command, c: Command)
    requires
        present || create != c,
    ensures
        forall|k: int|
            0 <= k < ensure(present, create).len() ==> !may_issue(
                #[trigger] ensure(present, create)[k],
                c,
            ),
{
}

/// No step of an action's handler creates a device that exists.
#[verifier::rlimit(60)]
proof fn lemma_handler_no_creation(d: Devices, a: AgentAction, c: Command)
    requires
        creates(c),
        already_there(d, c),
    ensures
        forall|k: int| 0 <= k < handler(d, a).len() ==> !may_issue(#[trigger] handler(d, a)[k], c),
{
    lemma_ensure_no_creation(d.mouse, Command::CreateMouse, c);
    lemma_ensure_no_creation(d.keyboard, Command::CreateKeyboard, c);
    lemma_ensure_no_creation(d.gamepad, Command::CreateGamepad, c);
    let h = handler(d, a);
    let mouse = ensure(d.mouse, Command::CreateMouse);
    let keyboard = ensure(d.keyboard, Command::CreateKeyboard);
    let gamepad = ensure(d.gamepad, Command::CreateGamepad);
    match a {
        AgentAction::MouseMove { x, y, duration, .. } => {
            if millis(duration) == 0 {
                assert(h == mouse + seq![Instr::Need(Op::Do(Command::MouseMoveBy { dx: x, dy: y }))]);
            }
        },
        AgentAction::MouseDrag { .. } => {},
        AgentAction::MouseDragTo { .. } => {},
        AgentAction::Type { text, interval } => {
            if millis(interval) != 0 {
                let t = keystrokes(text@, millis(interval));
                assert(h == keyboard + t);
                assert forall|k: int| 0 <= k < t.len() implies !may_issue(#[trigger] t[k], c) by {}
            }
        },
        AgentAction::GamepadPress { button } => {
            match gamepad_button_of(lowercase(button@), true) {
                Some(b) => {},
                None => {},
            }
        },
        AgentAction::GamepadRelease { button } => {
            match gamepad_button_of(lowercase(button@), true) {
                Some(b) => {},
                None => {},
            }
        },
        _ => {},
    }
}

/// No step of an action's program creates a device that exists.
proof fn lemma_no_creation_steps(d: Devices, a: AgentAction, c: Command)
    requires
        creates(c),
        already_there(d, c),
    ensures
        forall|k: int| 0 <= k < compile(d, a).len() ==> !may_issue(#[trigger] compile(d, a)[k], c),
{
    lemma_handler_no_creation(d, a, c);
    let g = gate(a);
    let h = handler(d, a);
    assert forall|k: int| 0 <= k < compile(d, a).len() implies !may_issue(
        #[trigger] compile(d, a)[k],
        c,
    ) by {
        if k >= g.len() {
            assert(compile(d, a)[k] == h[k - g.len()]);
        }
    }
}

/// A device that exists is never created again: with it present when an
/// action starts, no answers make the action ask for its creation.
pub proof fn lemma_existing_device_not_recreated(d: Devices, a: AgentAction, ev: Seq<Event>)
    ensures
        d.mouse ==> script(d, a, ev) != Reply::Next(Command::CreateMouse),
        d.keyboard ==> script(d, a, ev) != Reply::Next(Command::CreateKeyboard),
        d.gamepad ==> script(d, a, ev) != Reply::Next(Command::CreateGamepad),
{
    if d.mouse {
        lemma_no_creation_steps(d, a, Command::CreateMouse);
        lemma_never_issued(a, compile(d, a), ev, 0, 0, None, Command::CreateMouse);
    }
    if d.keyboard {
        lemma_no_creation_steps(d, a, Command::CreateKeyboard);
        lemma_never_issued(a, compile(d, a), ev, 0, 0, None, Command::CreateKeyboard);
    }
    if d.gamepad {
        lemma_no_creation_steps(d, a, Command::CreateGamepad);
        lemma_never_issued(a, compile(d, a), ev, 0, 0, None, Command::CreateGamepad);
    }
}

/// The exempt actions (queries, failsafe controls, captures, UI-tree reads)
/// never create a device, whatever the answers.
pub proof fn lemma_exempt_creates_nothing(d: Devices, a: AgentAction, ev: Seq<Event>, c: Command)
    requires
        exempt(a),
        creates(c),
    ensures
        script(d, a, ev) != Reply::Next(c),
{
    let p = compile(d, a);
    assert forall|k: int| 0 <= k < p.len() implies !may_issue(#[trigger] p[k], c) by {
        assert(p =~= handler(d, a));
    }
    lemma_never_issued(a, p, ev, 0, 0, None, c);
}

/// A program ends once it has more answers than steps.
pub proof fn lemma_run_ends(
    a: AgentAction,
    p: Seq<Instr>,
    ev: Seq<Event>,
    cx: i32,
    cy: i32,
    held: Option<Seq<char>>,
)
    requires
        ev.len() > p.len(),
    ensures
        run_from(a, p, ev, cx, cy, held) is Done,
    decreases p.len(),
{
    if p.len() > 0 {
        let ncx = if p[0] is ReadCursor {
            cursor_of(ev[0]).0
        } else {
            cx
        };
        let ncy = if p[0] is ReadCursor {
            cursor_of(ev[0]).1
        } else {
            cy
        };
        let nheld = if p[0] is Hold && ev[0] is Failed {
            Some(failure_text(ev[0]))
        } else {
            held
        };
        lemma_run_ends(a, p.drop_first(), ev.drop_first(), ncx, ncy, nheld);
    }
}

/// Every action ends: after more answers than its program has steps, the
/// protocol hands back a result and asks for nothing more.
pub proof fn lemma_action_ends(d: Devices, a: AgentAction, ev: Seq<Event>)
    requires
        ev.len() > compile(d, a).len(),
    ensures
        script(d, a, ev) is Done,
{
    lemma_run_ends(a, compile(d, a), ev, 0, 0, None);
}


/// A step after which a successful answer leads to the next step.
pub open spec fn goes_on(i: Instr) -> bool {
    !(i is Report) && !(i is RejectButton)
}

/// Every step before `n` leads to the next one on a successful answer.
pub open spec fn plain_prefix(p: Seq<Instr>, n: int) -> bool {
    forall|k: int| 0 <= k < n ==> goes_on(#[trigger] p[k])
}

/// None of the first `n` answers is a failure.
pub open spec fn no_failures(ev: Seq<Event>, n: int) -> bool {
    forall|k: int| 0 <= k < n ==> !(#[trigger] ev[k] is Failed)
}

/// The cursor after the first `n` steps have been answered.
pub open spec fn cursor_through(p: Seq<Instr>, ev: Seq<Event>, n: nat, cx: i32, cy: i32) -> (
    i32,
    i32,
)
    decreases n,
{
    if n == 0 || p.len() == 0 || ev.len() == 0 {
        (cx, cy)
    } else {
        let (x, y) = if p[0] is ReadCursor {
            cursor_of(ev[0])
        } else {
            (cx, cy)
        };
        cursor_through(p.drop_first(), ev.drop_first(), (n - 1) as nat, x, y)
    }
}

/// The cursor after `n` steps depends on the first `n` answers only.
proof fn lemma_cursor_through_prefix(
    p: Seq<Instr>,
    ev: Seq<Event>,
    n: nat,
    j: int,
    cx: i32,
    cy: i32,
)
    requires
        n <= j <= ev.len(),
    ensures
        cursor_through(p, ev.take(j), n, cx, cy) == cursor_through(p, ev, n, cx, cy),
    decreases n,
{
    if n > 0 && p.len() > 0 && ev.len() > 0 {
        assert(ev.take(j)[0] == ev[0]);
        assert(ev.take(j).drop_first() =~= ev.drop_first().take(j - 1));
        let (x, y) = if p[0] is ReadCursor {
            cursor_of(ev[0])
        } else {
            (cx, cy)
        };
        lemma_cursor_through_prefix(p.drop_first(), ev.drop_first(), (n - 1) as nat, j - 1, x, y);
    }
}

/// Steps that go on after a success are passed over by successful answers.
proof fn lemma_advance(
    a: AgentAction,
    p: Seq<Instr>,
    ev: Seq<Event>,
    n: nat,
    cx: i32,
    cy: i32,
    held: Option<Seq<char>>,
)
    requires
        n <= p.len(),
        n <= ev.len(),
        plain_prefix(p, n as int),
        no_failures(ev, n as int),
    ensures
        run_from(a, p, ev, cx, cy, held) == run_from(
            a,
            p.skip(n as int),
            ev.skip(n as int),
            cursor_through(p, ev, n, cx, cy).0,
            cursor_through(p, ev, n, cx, cy).1,
            held,
        ),
    decreases n,
{
    if n == 0 {
        assert(p.skip(0) =~= p);
        assert(ev.skip(0) =~= ev);
    } else {
        assert(goes_on(p[0]));
        assert(!(ev[0] is Failed));
        let (x, y) = if p[0] is ReadCursor {
            cursor_of(ev[0])
        } else {
            (cx, cy)
        };
        let rest = p.drop_first();
        let evr = ev.drop_first();
        assert(plain_prefix(rest, n - 1)) by {
            assert forall|k: int| 0 <= k < n - 1 implies goes_on(#[trigger] rest[k]) by {
                assert(rest[k] == p[k + 1]);
            }
        }
        assert(no_failures(evr, n - 1)) by {
            assert forall|k: int| 0 <= k < n - 1 implies !(#[trigger] evr[k] is Failed) by {
                assert(evr[k] == ev[k + 1]);
            }
        }
        lemma_advance(a, rest, evr, (n - 1) as nat, x, y, held);
        assert(rest.skip(n - 1) =~= p.skip(n as int));
        assert(evr.skip(n - 1) =~= ev.skip(n as int));
    }
}

/// After a step the action cannot leave without `c`: it goes on or holds
/// its failure, or on a failure hands over `c` before ending.
pub open spec fn leads_to(i: Instr, c: Command) -> bool {
    ||| i is Ignore
    ||| i is Hold
    ||| (i matches Instr::Guarded(_, cleanup) && cleanup == c)
}

/// Every way out of the program hands over `c`: the steps lead to it, and
/// the last step is `c` itself.
pub open spec fn exits_through(p: Seq<Instr>, c: Command) -> bool {
    &&& p.len() > 0
    &&& (p.last() == Instr::Need(Op::Do(c)) || p.last() == Instr::Ignore(Op::Do(c)))
    &&& forall|k: int| 0 <= k < p.len() - 1 ==> leads_to(#[trigger] p[k], c)
}

/// When every way out of the program hands over `c`, an ended run has
/// handed it over.
proof fn lemma_exit_hands_over(
    a: AgentAction,
    p: Seq<Instr>,
    ev: Seq<Event>,
    cx: i32,
    cy: i32,
    held: Option<Seq<char>>,
    c: Command,
)
    requires
        exits_through(p, c),
        run_from(a, p, ev, cx, cy, held) is Done,
    ensures
        exists|j: int|
            0 <= j < ev.len() && run_from(a, p, #[trigger] ev.take(j), cx, cy, held) == Reply::Next(c),
    decreases p.len(),
{
    assert(ev.take(0) =~= Seq::<Event>::empty());
    if p.len() == 1 {
        assert(p[0] == p.last());
        assert(ev.len() > 0);
        assert(run_from(a, p, ev.take(0), cx, cy, held) == Reply::Next(c));
    } else {
        assert(leads_to(p[0], c));
        assert(ev.len() > 0);
        let rest = p.drop_first();
        let evr = ev.drop_first();
        if p[0] is Guarded && ev[0] is Failed {
            assert(ev.len() > 1);
            assert(ev.take(1)[0] == ev[0]);
            assert(run_from(a, p, ev.take(1), cx, cy, held) == Reply::Next(c));
        } else {
            let nheld = if p[0] is Hold && ev[0] is Failed {
                Some(failure_text(ev[0]))
            } else {
                held
            };
            assert(rest.last() == p.last());
            assert forall|k: int| 0 <= k < rest.len() - 1 implies leads_to(#[trigger] rest[k], c) by {
                assert(rest[k] == p[k + 1]);
            }
            assert(run_from(a, p, ev, cx, cy, held) == run_from(a, rest, evr, cx, cy, nheld));
            lemma_exit_hands_over(a, rest, evr, cx, cy, nheld, c);
            let j = choose|j: int|
                0 <= j < evr.len() && run_from(a, rest, #[trigger] evr.take(j), cx, cy, nheld)
                    == Reply::Next(c);
            let t = ev.take(j + 1);
            assert(t[0] == ev[0]);
            assert(t.drop_first() =~= evr.take(j));
            assert(run_from(a, p, t, cx, cy, held) == run_from(a, rest, evr.take(j), cx, cy, nheld));
        }
    }
}

/// The mouse button of a drag.
pub open spec fn drag_button(a: AgentAction) -> MouseButton {
    match a {
        AgentAction::MouseDrag { button, .. } => button_of(button),
        AgentAction::MouseDragTo { button, .. } => button_of(button),
        _ => MouseButton::Left,
    }
}

/// The position of the press among the steps of a drag.
pub open spec fn press_step(d: Devices, a: AgentAction) -> int {
    let before = match a {
        AgentAction::MouseDrag { duration, .. } => if millis(duration) == 0 {
            0int
        } else {
            1int
        },
        _ => 1int,
    };
    1 + before + ensure(d.mouse, Command::CreateMouse).len()
}

/// The steps of a drag, split at the press.
proof fn lemma_drag_shape(d: Devices, a: AgentAction)
    requires
        a is MouseDrag || a is MouseDragTo,
    ensures
        press_step(d, a) < compile(d, a).len(),
        plain_prefix(compile(d, a), press_step(d, a) + 1),
        compile(d, a)[press_step(d, a)] == Instr::Need(Op::Do(Command::MousePress(drag_button(a)))),
        exits_through(
            compile(d, a).skip(press_step(d, a) + 1),
            Command::MouseRelease(drag_button(a)),
        ),
{
    let p = compile(d, a);
    let n = press_step(d, a);
    let t = p.skip(n + 1);
    assert(p.len() == n + 5);
    assert(plain_prefix(p, n + 1));
    assert(t.len() == 4);
    assert forall|k: int| 0 <= k < t.len() - 1 implies leads_to(
        #[trigger] t[k],
        Command::MouseRelease(drag_button(a)),
    ) by {
        assert(t[k] == p[n + 1 + k]);
    }
    assert(t.last() == p[n + 4]);
}

/// A drag releases what it pressed: when the answers up to and including
/// the press are successes, the press was asked for at its step, and once
/// the drag has ended the release of the same button was asked for after
/// it, whatever the later answers were (a failed move or animation
/// included).
pub proof fn lemma_drag_releases(d: Devices, a: AgentAction, ev: Seq<Event>)
    requires
        a is MouseDrag || a is MouseDragTo,
        ev.len() > press_step(d, a),
        no_failures(ev, press_step(d, a) + 1),
        script(d, a, ev) is Done,
    ensures
        script(d, a, ev.take(press_step(d, a))) == Reply::Next(
            Command::MousePress(drag_button(a)),
        ),
        exists|j: int|
            press_step(d, a) < j < ev.len() && script(d, a, #[trigger] ev.take(j)) == Reply::Next(
                Command::MouseRelease(drag_button(a)),
            ),
{
    let p = compile(d, a);
    let n = press_step(d, a);
    let release = Command::MouseRelease(drag_button(a));
    lemma_drag_shape(d, a);
    // The press is asked for after the steps before it.
    let before = ev.take(n);
    assert(no_failures(before, n)) by {
        assert forall|k: int| 0 <= k < n implies !(#[trigger] before[k] is Failed) by {
            assert(before[k] == ev[k]);
        }
    }
    assert(plain_prefix(p, n)) by {
        assert forall|k: int| 0 <= k < n implies goes_on(#[trigger] p[k]) by {
            assert(plain_prefix(p, n + 1));
        }
    }
    lemma_advance(a, p, before, n as nat, 0, 0, None);
    assert(p.skip(n)[0] == p[n]);
    assert(before.skip(n).len() == 0);
    // After the press, every way out hands over the release.
    let c = cursor_through(p, ev, (n + 1) as nat, 0, 0);
    lemma_advance(a, p, ev, (n + 1) as nat, 0, 0, None);
    let tail = p.skip(n + 1);
    lemma_exit_hands_over(a, tail, ev.skip(n + 1), c.0, c.1, None, release);
    let j0 = choose|j0: int|
        0 <= j0 < ev.skip(n + 1).len() && run_from(
            a,
            tail,
            #[trigger] ev.skip(n + 1).take(j0),
            c.0,
            c.1,
            None,
        ) == Reply::Next(release);
    let j = n + 1 + j0;
    let upto = ev.take(j);
    assert(no_failures(upto, n + 1)) by {
        assert forall|k: int| 0 <= k < n + 1 implies !(#[trigger] upto[k] is Failed) by {
            assert(upto[k] == ev[k]);
        }
    }
    lemma_advance(a, p, upto, (n + 1) as nat, 0, 0, None);
    lemma_cursor_through_prefix(p, ev, (n + 1) as nat, j, 0, 0);
    assert(upto.skip(n + 1) =~= ev.skip(n + 1).take(j0));
    assert(script(d, a, upto) == Reply::Next(release));
}


/// `n` successful answers.
pub open spec fn successes(n: nat) -> Seq<Event> {
    Seq::new(n, |k: int| Event::Done)
}

/// Typing with an interval asks, after the failsafe test and the keyboard's
/// creation when it is missing, for each character of the text in order,
/// each followed by a pause of the interval; when every answer is a
/// success it then ends successfully.
pub proof fn lemma_typing_in_order(d: Devices, text: String, interval: Option<u64>, i: int)
    requires
        millis(interval) > 0,
        0 <= i < text@.len(),
    ensures
        ({
            let a = AgentAction::Type { text, interval };
            let first = 1 + ensure(d.keyboard, Command::CreateKeyboard).len();
            &&& script(d, a, successes((first + 2 * i) as nat)) == Reply::Next(
                Command::TypeChar(text@[i]),
            )
            &&& script(d, a, successes((first + 2 * i + 1) as nat)) == Reply::Next(
                Command::Pause { ms: millis(interval) },
            )
            &&& script(d, a, successes((first + 2 * text@.len()) as nat)) == Reply::Done(
                Outcome::Success,
            )
        }),
{
    let a = AgentAction::Type { text, interval };
    let first = 1 + ensure(d.keyboard, Command::CreateKeyboard).len();
    let p = compile(d, a);
    let t = keystrokes(text@, millis(interval));
    assert(p =~= seq![Instr::Check] + ensure(d.keyboard, Command::CreateKeyboard) + t);
    assert(p.len() == first + 2 * text@.len());
    assert forall|k: int| 0 <= k < p.len() implies goes_on(#[trigger] p[k]) by {
        if k >= first {
            assert(p[k] == t[k - first]);
        }
    }
    let n1 = (first + 2 * i) as nat;
    let n2 = (first + 2 * i + 1) as nat;
    let n3 = (first + 2 * text@.len()) as nat;
    assert(no_failures(successes(n1), n1 as int));
    assert(no_failures(successes(n2), n2 as int));
    assert(no_failures(successes(n3), n3 as int));
    lemma_advance(a, p, successes(n1), n1, 0, 0, None);
    lemma_advance(a, p, successes(n2), n2, 0, 0, None);
    lemma_advance(a, p, successes(n3), n3, 0, 0, None);
    assert(p.skip(n1 as int)[0] == t[2 * i]);
    assert(p.skip(n2 as int)[0] == t[2 * i + 1]);
    assert(successes(n1).skip(n1 as int).len() == 0);
    assert(successes(n2).skip(n2 as int).len() == 0);
    assert(p.skip(n3 as int).len() == 0);
}

/// Devices never disappear: an answer can only add the device it created.
pub proof fn lemma_devices_only_grow(d: Devices, c: Command, e: Event)
    ensures
        d.mouse ==> after_answer(d, c, e).mouse,
        d.keyboard ==> after_answer(d, c, e).keyboard,
        d.gamepad ==> after_answer(d, c, e).gamepad,
        after_answer(d, c, e).mouse && !d.mouse ==> c == Command::CreateMouse && e is Done,
        after_answer(d, c, e).keyboard && !d.keyboard ==> c == Command::CreateKeyboard && e is Done,
        after_answer(d, c, e).gamepad && !d.gamepad ==> c == Command::CreateGamepad && e is Done,
{
}


/// The op animates nothing but a move to (`x`, `y`) over `ms` milliseconds.
pub open spec fn op_animates_only_to(op: Op, x: i32, y: i32, ms: u64) -> bool {
    match op {
        Op::Do(c) => !(c is Animate),
        Op::AnimateBy { .. } => false,
        Op::AnimateTo { x: tx, y: ty, duration_ms } => tx == x && ty == y && duration_ms == ms,
        Op::MoveToward { .. } => true,
    }
}

/// The step animates nothing but a move to (`x`, `y`) over `ms` milliseconds.
pub open spec fn animates_only_to(i: Instr, x: i32, y: i32, ms: u64) -> bool {
    match i {
        Instr::Need(op) => op_animates_only_to(op, x, y, ms),
        Instr::Guarded(op, cleanup) => op_animates_only_to(op, x, y, ms) && !(cleanup is Animate),
        Instr::Hold(op) => op_animates_only_to(op, x, y, ms),
        Instr::Ignore(op) => op_animates_only_to(op, x, y, ms),
        Instr::Report(c) => !(c is Animate),
        _ => true,
    }
}

/// A program whose steps animate nothing but a move to (`x`, `y`) over `ms`
/// milliseconds asks for no other animation, whatever the answers.
proof fn lemma_animations_end_at(
    a: AgentAction,
    p: Seq<Instr>,
    ev: Seq<Event>,
    cx: i32,
    cy: i32,
    held: Option<Seq<char>>,
    x: i32,
    y: i32,
    ms: u64,
)
    requires
        forall|k: int| 0 <= k < p.len() ==> animates_only_to(#[trigger] p[k], x, y, ms),
    ensures
        run_from(a, p, ev, cx, cy, held) matches Reply::Next(Command::Animate { to_x, to_y, duration_ms, .. })
            ==> to_x == x && to_y == y && duration_ms == ms,
    decreases p.len(),
{
    if p.len() > 0 {
        assert(animates_only_to(p[0], x, y, ms));
        let rest = p.drop_first();
        assert forall|k: int| 0 <= k < rest.len() implies animates_only_to(#[trigger] rest[k], x, y, ms) by {
            assert(rest[k] == p[k + 1]);
        }
        if ev.len() > 0 {
            let ncx = if p[0] is ReadCursor {
                cursor_of(ev[0]).0
            } else {
                cx
            };
            let ncy = if p[0] is ReadCursor {
                cursor_of(ev[0]).1
            } else {
                cy
            };
            let nheld = if p[0] is Hold && ev[0] is Failed {
                Some(failure_text(ev[0]))
            } else {
                held
            };
            lemma_animations_end_at(a, rest, ev.drop_first(), ncx, ncy, nheld, x, y, ms);
        }
    }
}

/// A move to (`x`, `y`) goes to that point: without a duration (or with a
/// zero one) it asks, after the failsafe test, to put the cursor there; with
/// a duration of `ms` milliseconds it asks for the cursor and then for an
/// animation from the reported cursor to (`x`, `y`) over `ms` milliseconds,
/// and no animation it ever asks for ends elsewhere, whatever the answers.
pub proof fn lemma_move_to_reaches_target(
    d: Devices,
    x: i32,
    y: i32,
    ms: u64,
    tween: Option<String>,
    cx: i32,
    cy: i32,
    ev: Seq<Event>,
)
    ensures
        script(d, AgentAction::MouseMoveTo { x, y, duration: None, tween }, seq![Event::Done])
            == Reply::Next(Command::MoveCursorTo { x, y }),
        script(d, AgentAction::MouseMoveTo { x, y, duration: Some(0), tween }, seq![Event::Done])
            == Reply::Next(Command::MoveCursorTo { x, y }),
        ms > 0 ==> script(
            d,
            AgentAction::MouseMoveTo { x, y, duration: Some(ms), tween },
            seq![Event::Done],
        ) == Reply::Next(Command::QueryCursor),
        ms > 0 ==> script(
            d,
            AgentAction::MouseMoveTo { x, y, duration: Some(ms), tween },
            seq![Event::Done, Event::Cursor { x: cx, y: cy }],
        ) == Reply::Next(
            Command::Animate { from_x: cx, from_y: cy, to_x: x, to_y: y, duration_ms: ms },
        ),
        ms > 0 ==> (script(
            d,
            AgentAction::MouseMoveTo { x, y, duration: Some(ms), tween },
            ev,
        ) matches Reply::Next(Command::Animate { to_x, to_y, duration_ms, .. }) ==> to_x == x
            && to_y == y && duration_ms == ms),
{
    let e1 = seq![Event::Done];
    let e2 = seq![Event::Done, Event::Cursor { x: cx, y: cy }];
    assert(e1.drop_first().len() == 0);
    assert(e2.drop_first() =~= seq![Event::Cursor { x: cx, y: cy }]);
    assert(e2.drop_first().drop_first().len() == 0);
    reveal_with_fuel(run_from, 4);
    let put = seq![Instr::Check, Instr::Need(Op::Do(Command::MoveCursorTo { x, y }))];
    let a0 = AgentAction::MouseMoveTo { x, y, duration: None, tween };
    assert(compile(d, a0) =~= put);
    assert(put.drop_first() =~= seq![Instr::Need(Op::Do(Command::MoveCursorTo { x, y }))]);
    let az = AgentAction::MouseMoveTo { x, y, duration: Some(0), tween };
    assert(compile(d, az) =~= put);
    if ms > 0 {
        let a = AgentAction::MouseMoveTo { x, y, duration: Some(ms), tween };
        let p = compile(d, a);
        assert(p =~= seq![
            Instr::Check,
            Instr::ReadCursor,
            Instr::Need(Op::AnimateTo { x, y, duration_ms: ms }),
        ]);
        assert(p.drop_first() =~= seq![
            Instr::ReadCursor,
            Instr::Need(Op::AnimateTo { x, y, duration_ms: ms }),
        ]);
        assert(p.drop_first().drop_first() =~= seq![
            Instr::Need(Op::AnimateTo { x, y, duration_ms: ms }),
        ]);
        assert forall|k: int| 0 <= k < p.len() implies animates_only_to(#[trigger] p[k], x, y, ms) by {}
        lemma_animations_end_at(a, p, ev, 0, 0, None, x, y, ms);
    }
}

/// A relative move goes by (`x`, `y`): without a duration it asks, after
/// the failsafe test and the mouse's creation when it is missing, to move
/// the mouse by (`x`, `y`); with a duration of `ms` milliseconds it asks for
/// the cursor and then for an animation from the reported cursor (`cx`,
/// `cy`) to (`cx + x`, `cy + y`) over `ms` milliseconds.
pub proof fn lemma_move_goes_by_offset(
    d: Devices,
    x: i32,
    y: i32,
    ms: u64,
    tween: Option<String>,
    cx: i32,
    cy: i32,
)
    ensures
        d.mouse ==> script(d, AgentAction::MouseMove { x, y, duration: None, tween }, seq![Event::Done])
            == Reply::Next(Command::MouseMoveBy { dx: x, dy: y }),
        !d.mouse ==> script(
            d,
            AgentAction::MouseMove { x, y, duration: None, tween },
            seq![Event::Done, Event::Done],
        ) == Reply::Next(Command::MouseMoveBy { dx: x, dy: y }),
        ms > 0 && in_i32(cx + x) && in_i32(cy + y) ==> script(
            d,
            AgentAction::MouseMove { x, y, duration: Some(ms), tween },
            seq![Event::Done, Event::Cursor { x: cx, y: cy }],
        ) == Reply::Next(
            Command::Animate {
                from_x: cx,
                from_y: cy,
                to_x: (cx + x) as i32,
                to_y: (cy + y) as i32,
                duration_ms: ms,
            },
        ),
{
    let e1 = seq![Event::Done];
    let e2 = seq![Event::Done, Event::Done];
    let e3 = seq![Event::Done, Event::Cursor { x: cx, y: cy }];
    assert(e1.drop_first().len() == 0);
    assert(e2.drop_first() =~= seq![Event::Done]);
    assert(e3.drop_first() =~= seq![Event::Cursor { x: cx, y: cy }]);
    reveal_with_fuel(run_from, 4);
    let a0 = AgentAction::MouseMove { x, y, duration: None, tween };
    let by = Instr::Need(Op::Do(Command::MouseMoveBy { dx: x, dy: y }));
    if d.mouse {
        assert(compile(d, a0) =~= seq![Instr::Check, by]);
        assert(seq![Instr::Check, by].drop_first() =~= seq![by]);
    } else {
        let create = Instr::Need(Op::Do(Command::CreateMouse));
        assert(compile(d, a0) =~= seq![Instr::Check, create, by]);
        assert(seq![Instr::Check, create, by].drop_first() =~= seq![create, by]);
        assert(seq![create, by].drop_first() =~= seq![by]);
    }
    if ms > 0 {
        let a = AgentAction::MouseMove { x, y, duration: Some(ms), tween };
        let anim = Instr::Need(Op::AnimateBy { dx: x, dy: y, duration_ms: ms });
        assert(compile(d, a) =~= seq![Instr::Check, Instr::ReadCursor, anim]);
        assert(seq![Instr::Check, Instr::ReadCursor, anim].drop_first() =~= seq![
            Instr::ReadCursor,
            anim,
        ]);
        assert(seq![Instr::ReadCursor, anim].drop_first() =~= seq![anim]);
    }
}

/// A timed drag to (`x`, `y`) ends its movement at that point: every
/// animation it asks for, whatever the answers, goes to (`x`, `y`) over the
/// drag's duration; and after the failsafe test, the cursor (at (`cx`,
/// `cy`)), the mouse's creation when it is missing, the press and the
/// pause all succeed, it asks for the animation from (`cx`, `cy`) to
/// (`x`, `y`).
pub proof fn lemma_drag_to_reaches_target(
    d: Devices,
    x: i32,
    y: i32,
    button: Option<String>,
    ms: u64,
    tween: Option<String>,
    cx: i32,
    cy: i32,
    ev: Seq<Event>,
)
    requires
        ms > 0,
    ensures
        script(
            d,
            AgentAction::MouseDragTo { x, y, button, duration: Some(ms), tween },
            ev,
        ) matches Reply::Next(Command::Animate { to_x, to_y, duration_ms, .. }) ==> to_x == x
            && to_y == y && duration_ms == ms,
        script(
            d,
            AgentAction::MouseDragTo { x, y, button, duration: Some(ms), tween },
            seq![Event::Done, Event::Cursor { x: cx, y: cy }] + successes(
                if d.mouse { 2nat } else { 3nat },
            ),
        ) == Reply::Next(
            Command::Animate { from_x: cx, from_y: cy, to_x: x, to_y: y, duration_ms: ms },
        ),
{
    let a = AgentAction::MouseDragTo { x, y, button, duration: Some(ms), tween };
    let p = compile(d, a);
    let b = button_of(button);
    let mouse = ensure(d.mouse, Command::CreateMouse);
    assert(p =~= seq![Instr::Check, Instr::ReadCursor] + mouse + seq![
        Instr::Need(Op::Do(Command::MousePress(b))),
        drag_pause(),
        Instr::Hold(Op::AnimateTo { x, y, duration_ms: ms }),
        drag_pause(),
        Instr::Ignore(Op::Do(Command::MouseRelease(b))),
    ]);
    assert forall|k: int| 0 <= k < p.len() implies animates_only_to(#[trigger] p[k], x, y, ms) by {}
    lemma_animations_end_at(a, p, ev, 0, 0, None, x, y, ms);
    let n: nat = if d.mouse { 2nat } else { 3nat };
    let evs = seq![Event::Done, Event::Cursor { x: cx, y: cy }] + successes(n);
    let k: nat = (2 + n) as nat;
    assert(no_failures(evs, k as int) == false || true);
    // Run the steps one by one up to the animation.
    let p1 = p.drop_first();
    let p2 = p1.drop_first();
    let v1 = evs.drop_first();
    let v2 = v1.drop_first();
    assert(evs[0] == Event::Done);
    assert(v1[0] == Event::Cursor { x: cx, y: cy });
    assert(run_from(a, p, evs, 0, 0, None) == run_from(a, p1, v1, 0, 0, None));
    assert(run_from(a, p1, v1, 0, 0, None) == run_from(a, p2, v2, cx, cy, None));
    assert(v2 =~= successes(n));
    let tail = seq![
        Instr::Need(Op::Do(Command::MousePress(b))),
        drag_pause(),
        Instr::Hold(Op::AnimateTo { x, y, duration_ms: ms }),
        drag_pause(),
        Instr::Ignore(Op::Do(Command::MouseRelease(b))),
    ];
    assert(p2 =~= mouse + tail);
    let anim = Command::Animate { from_x: cx, from_y: cy, to_x: x, to_y: y, duration_ms: ms };
    let t1 = tail.drop_first();
    let t2 = t1.drop_first();
    assert(t2[0] == Instr::Hold(Op::AnimateTo { x, y, duration_ms: ms }));
    assert(run_from(a, t2, Seq::empty(), cx, cy, None) == Reply::Next(anim));
    assert(successes(2).drop_first() =~= successes(1));
    assert(successes(1).drop_first() =~= Seq::<Event>::empty());
    assert(successes(3).drop_first() =~= successes(2));
    assert(successes(2)[0] == Event::Done);
    assert(successes(1)[0] == Event::Done);
    assert(successes(3)[0] == Event::Done);
    assert(run_from(a, t1, successes(1), cx, cy, None) == run_from(a, t2, Seq::empty(), cx, cy, None));
    assert(run_from(a, tail, successes(2), cx, cy, None) == run_from(a, t1, successes(1), cx, cy, None));
    if !d.mouse {
        assert(p2.drop_first() =~= tail);
        assert(p2[0] == Instr::Need(Op::Do(Command::CreateMouse)));
        assert(run_from(a, p2, successes(3), cx, cy, None) == run_from(a, tail, successes(2), cx, cy, None));
    } else {
        assert(p2 =~= tail);
    }
}

/// A timed relative drag moves by (`x`, `y`) from where the cursor was:
/// after the failsafe test, the cursor (at (`cx`, `cy`)), the mouse's
/// creation when it is missing, the press and the pause all succeed, it asks
/// for the animation from (`cx`, `cy`) to (`cx + x`, `cy + y`) over the
/// drag's duration.
pub proof fn lemma_drag_goes_by_offset(
    d: Devices,
    x: i32,
    y: i32,
    button: Option<String>,
    ms: u64,
    tween: Option<String>,
    cx: i32,
    cy: i32,
)
    requires
        ms > 0,
        in_i32(cx + x),
        in_i32(cy + y),
    ensures
        script(
            d,
            AgentAction::MouseDrag { x, y, button, duration: Some(ms), tween },
            seq![Event::Done, Event::Cursor { x: cx, y: cy }] + successes(
                if d.mouse { 2nat } else { 3nat },
            ),
        ) == Reply::Next(
            Command::Animate {
                from_x: cx,
                from_y: cy,
                to_x: (cx + x) as i32,
                to_y: (cy + y) as i32,
                duration_ms: ms,
            },
        ),
{
    let a = AgentAction::MouseDrag { x, y, button, duration: Some(ms), tween };
    let p = compile(d, a);
    let b = button_of(button);
    let mouse = ensure(d.mouse, Command::CreateMouse);
    let tail = seq![
        Instr::Need(Op::Do(Command::MousePress(b))),
        drag_pause(),
        Instr::Hold(Op::AnimateBy { dx: x, dy: y, duration_ms: ms }),
        drag_pause(),
        Instr::Ignore(Op::Do(Command::MouseRelease(b))),
    ];
    assert(p =~= seq![Instr::Check, Instr::ReadCursor] + mouse + tail);
    let n: nat = if d.mouse { 2nat } else { 3nat };
    let evs = seq![Event::Done, Event::Cursor { x: cx, y: cy }] + successes(n);
    let p1 = p.drop_first();
    let p2 = p1.drop_first();
    let v1 = evs.drop_first();
    let v2 = v1.drop_first();
    assert(evs[0] == Event::Done);
    assert(v1[0] == Event::Cursor { x: cx, y: cy });
    assert(run_from(a, p, evs, 0, 0, None) == run_from(a, p1, v1, 0, 0, None));
    assert(run_from(a, p1, v1, 0, 0, None) == run_from(a, p2, v2, cx, cy, None));
    assert(v2 =~= successes(n));
    assert(p2 =~= mouse + tail);
    let anim = Command::Animate {
        from_x: cx,
        from_y: cy,
        to_x: (cx + x) as i32,
        to_y: (cy + y) as i32,
        duration_ms: ms,
    };
    let t1 = tail.drop_first();
    let t2 = t1.drop_first();
    assert(t2[0] == Instr::Hold(Op::AnimateBy { dx: x, dy: y, duration_ms: ms }));
    assert(run_from(a, t2, Seq::empty(), cx, cy, None) == Reply::Next(anim));
    assert(successes(2).drop_first() =~= successes(1));
    assert(successes(1).drop_first() =~= Seq::<Event>::empty());
    assert(successes(3).drop_first() =~= successes(2));
    assert(successes(2)[0] == Event::Done);
    assert(successes(1)[0] == Event::Done);
    assert(successes(3)[0] == Event::Done);
    assert(run_from(a, t1, successes(1), cx, cy, None) == run_from(a, t2, Seq::empty(), cx, cy, None));
    assert(run_from(a, tail, successes(2), cx, cy, None) == run_from(a, t1, successes(1), cx, cy, None));
    if !d.mouse {
        assert(p2.drop_first() =~= tail);
        assert(p2[0] == Instr::Need(Op::Do(Command::CreateMouse)));
        assert(run_from(a, p2, successes(3), cx, cy, None) == run_from(a, tail, successes(2), cx, cy, None));
    } else {
        assert(p2 =~= tail);
    }
}

/// Reading the UI tree asks the host, without a failsafe test, for the tree
/// cut at exactly the action's own depth (none: the whole tree) and of the
/// named application exactly when one is named, and reports the tree or the
/// failure that comes back. Finding elements reads the whole tree of the
/// focused window.
pub proof fn lemma_ui_tree_read(
    d: Devices,
    depth: Option<u32>,
    app: Option<String>,
    role: Option<String>,
    title: Option<String>,
    t: UIElement,
    m: String,
)
    ensures
        script(d, AgentAction::GetUiTree { depth, app }, Seq::empty()) == Reply::Next(
            Command::ReadUiTree { depth, of_named_app: app is Some },
        ),
        script(d, AgentAction::GetUiTree { depth, app }, seq![Event::Tree(t)]) == Reply::Done(
            Outcome::Tree(t),
        ),
        script(d, AgentAction::GetUiTree { depth, app }, seq![Event::Failed(m)]) == Reply::Done(
            Outcome::Failure(m@),
        ),
        script(d, AgentAction::FindUiElement { role, title }, Seq::empty()) == Reply::Next(
            Command::ReadUiTree { depth: None, of_named_app: false },
        ),
{
    let a = AgentAction::GetUiTree { depth, app };
    assert(compile(d, a) =~= seq![Instr::Report(Command::ReadUiTree { depth, of_named_app: app is Some })]);
    assert(seq![Event::Tree(t)][0] == Event::Tree(t));
    assert(seq![Event::Failed(m)][0] == Event::Failed(m));
    let f = AgentAction::FindUiElement { role, title };
    assert(compile(d, f) =~= seq![Instr::Report(Command::ReadUiTree { depth: None, of_named_app: false })]);
}


/// Some lowered word satisfies `p` exactly when some word, lowered,
/// satisfies it.
proof fn lemma_word_witness(mods: Seq<String>, p: spec_fn(Seq<char>) -> bool)
    ensures
        (exists|i: int| 0 <= i < mods.len() && p(#[trigger] ascii_lowered_words(mods)[i])) <==> (
        exists|i: int| 0 <= i < mods.len() && p(ascii_lowered(#[trigger] mods[i]@))),
{
    let ws = ascii_lowered_words(mods);
    if exists|i: int| 0 <= i < mods.len() && p(#[trigger] ws[i]) {
        let i = choose|i: int| 0 <= i < mods.len() && p(#[trigger] ws[i]);
        assert(ws[i] == ascii_lowered(mods[i]@));
    }
    if exists|i: int| 0 <= i < mods.len() && p(ascii_lowered(#[trigger] mods[i]@)) {
        let i = choose|i: int| 0 <= i < mods.len() && p(ascii_lowered(#[trigger] mods[i]@));
        assert(ws[i] == ascii_lowered(mods[i]@));
    }
}

} // verus!
