//! Names of mouse buttons, gamepad buttons and key modifiers, and the words
//! that the agent accepts for each.

use vstd::prelude::*;

verus! {

/// A mouse button.
#[derive(Clone, Copy, Debug, PartialEq, Eq, Structural)]
pub enum MouseButton {
    Left,
    Right,
    Middle,
}

/// A gamepad button.
#[derive(Clone, Copy, Debug, PartialEq, Eq, Structural)]
pub enum GamepadButton {
    A,
    B,
    X,
    Y,
    LB,
    RB,
    Back,
    Start,
    Guide,
    LeftStick,
    RightStick,
    DpadUp,
    DpadDown,
    DpadLeft,
    DpadRight,
}

/// A set of key modifiers held with a key.
#[derive(Clone, Copy, Debug, PartialEq, Eq, Structural)]
pub struct Modifiers {
    pub ctrl: bool,
    pub shift: bool,
    pub alt: bool,
    pub cmd: bool,
}

impl Modifiers {
    /// No modifier.
    pub fn empty() -> (m: Modifiers)
        ensures
            m == (Modifiers { ctrl: false, shift: false, alt: false, cmd: false }),
    {
        Modifiers { ctrl: false, shift: false, alt: false, cmd: false }
    }
}

/// What `str::to_lowercase` gives for a string: its Unicode lower-case
/// mapping, character by character (some characters map to several).
pub uninterp spec fn lowercase(s: Seq<char>) -> Seq<char>;

/// Every character of `s` is ASCII.
pub open spec fn is_ascii_text(s: Seq<char>) -> bool {
    forall|i: int| 0 <= i < s.len() ==> (#[trigger] s[i] as u32) < 128
}

/// `c` with an ASCII upper-case letter mapped to its lower-case letter.
pub open spec fn ascii_lower_char(c: char) -> char {
    if 'A' <= c <= 'Z' {
        ((c as u32) + 32) as char
    } else {
        c
    }
}

/// `s` with each ASCII upper-case letter mapped to lower case.
pub open spec fn ascii_lowered(s: Seq<char>) -> Seq<char> {
    s.map_values(|c: char| ascii_lower_char(c))
}

/// Calls `str::to_lowercase`. Its result is a function of the string alone,
/// named `lowercase`; for ASCII text it maps `A`-`Z` to `a`-`z` and keeps
/// every other character, as the Unicode mapping does for ASCII. The case
/// tables beyond ASCII are not stated.
#[verifier::external_body]
pub(crate) fn to_lowercase(s: &str) -> (r: String)
    ensures
        r@ == lowercase(s@),
        is_ascii_text(s@) ==> r@ == ascii_lowered(s@),
{
    s.to_lowercase()
}

/// Whether `s` is exactly `lit`.
pub fn text_is(s: &String, lit: &str) -> (r: bool)
    ensures
        r == (s@ == lit@),
{
    let t = lit.to_owned();
    *s == t
}

/// The mouse button a word names: "right", "middle", anything else the
/// left button.
pub open spec fn mouse_button_of(word: Seq<char>) -> MouseButton {
    if word == "right"@ {
        MouseButton::Right
    } else if word == "middle"@ {
        MouseButton::Middle
    } else {
        MouseButton::Left
    }
}

/// The mouse button that `word` names.
pub fn mouse_button_named(word: &String) -> (b: MouseButton)
    ensures
        b == mouse_button_of(word@),
{
    if text_is(word, "right") {
        MouseButton::Right
    } else if text_is(word, "middle") {
        MouseButton::Middle
    } else {
        MouseButton::Left
    }
}

/// The gamepad button a (lower-case) word names. With `direction_words`
/// the bare words "left" and "right" name the d-pad directions too.
pub open spec fn gamepad_button_of(word: Seq<char>, direction_words: bool) -> Option<
    GamepadButton,
> {
    if word == "a"@ {
        Some(GamepadButton::A)
    } else if word == "b"@ {
        Some(GamepadButton::B)
    } else if word == "x"@ {
        Some(GamepadButton::X)
    } else if word == "y"@ {
        Some(GamepadButton::Y)
    } else if word == "lb"@ || word == "left_bumper"@ {
        Some(GamepadButton::LB)
    } else if word == "rb"@ || word == "right_bumper"@ {
        Some(GamepadButton::RB)
    } else if word == "back"@ || word == "select"@ {
        Some(GamepadButton::Back)
    } else if word == "start"@ {
        Some(GamepadButton::Start)
    } else if word == "guide"@ || word == "home"@ {
        Some(GamepadButton::Guide)
    } else if word == "left_stick"@ || word == "ls"@ {
        Some(GamepadButton::LeftStick)
    } else if word == "right_stick"@ || word == "rs"@ {
        Some(GamepadButton::RightStick)
    } else if word == "dpad_up"@ || word == "up"@ {
        Some(GamepadButton::DpadUp)
    } else if word == "dpad_down"@ || word == "down"@ {
        Some(GamepadButton::DpadDown)
    } else if word == "dpad_left"@ || (direction_words && word == "left"@) {
        Some(GamepadButton::DpadLeft)
    } else if word == "dpad_right"@ || (direction_words && word == "right"@) {
        Some(GamepadButton::DpadRight)
    } else {
        None
    }
}

/// The gamepad button that the lower-case `word` names, if any.
pub fn gamepad_button_named(word: &String, direction_words: bool) -> (b: Option<GamepadButton>)
    ensures
        b == gamepad_button_of(word@, direction_words),
{
    if text_is(word, "a") {
        Some(GamepadButton::A)
    } else if text_is(word, "b") {
        Some(GamepadButton::B)
    } else if text_is(word, "x") {
        Some(GamepadButton::X)
    } else if text_is(word, "y") {
        Some(GamepadButton::Y)
    } else if text_is(word, "lb") || text_is(word, "left_bumper") {
        Some(GamepadButton::LB)
    } else if text_is(word, "rb") || text_is(word, "right_bumper") {
        Some(GamepadButton::RB)
    } else if text_is(word, "back") || text_is(word, "select") {
        Some(GamepadButton::Back)
    } else if text_is(word, "start") {
        Some(GamepadButton::Start)
    } else if text_is(word, "guide") || text_is(word, "home") {
        Some(GamepadButton::Guide)
    } else if text_is(word, "left_stick") || text_is(word, "ls") {
        Some(GamepadButton::LeftStick)
    } else if text_is(word, "right_stick") || text_is(word, "rs") {
        Some(GamepadButton::RightStick)
    } else if text_is(word, "dpad_up") || text_is(word, "up") {
        Some(GamepadButton::DpadUp)
    } else if text_is(word, "dpad_down") || text_is(word, "down") {
        Some(GamepadButton::DpadDown)
    } else if text_is(word, "dpad_left") || (direction_words && text_is(word, "left")) {
        Some(GamepadButton::DpadLeft)
    } else if text_is(word, "dpad_right") || (direction_words && text_is(word, "right")) {
        Some(GamepadButton::DpadRight)
    } else {
        None
    }
}

/// A (lower-case) word that names the control modifier.
pub open spec fn names_ctrl(w: Seq<char>) -> bool {
    w == "ctrl"@ || w == "control"@
}

/// A (lower-case) word that names the shift modifier.
pub open spec fn names_shift(w: Seq<char>) -> bool {
    w == "shift"@
}

/// A (lower-case) word that names the alt modifier.
pub open spec fn names_alt(w: Seq<char>) -> bool {
    w == "alt"@ || w == "option"@
}

/// A (lower-case) word that names the command (meta, GUI) modifier.
pub open spec fn names_cmd(w: Seq<char>) -> bool {
    w == "cmd"@ || w == "command"@ || w == "meta"@ || w == "gui"@ || w == "win"@
}

/// Some word of `words` satisfies `p`.
pub open spec fn any_word(words: Seq<Seq<char>>, p: spec_fn(Seq<char>) -> bool) -> bool {
    exists|i: int| 0 <= i < words.len() && p(#[trigger] words[i])
}

/// A word added at the end satisfies `p`, or an earlier one does.
pub proof fn lemma_any_word_push(words: Seq<Seq<char>>, w: Seq<char>, p: spec_fn(Seq<char>) -> bool)
    ensures
        any_word(words.push(w), p) == (any_word(words, p) || p(w)),
{
    let next = words.push(w);
    if any_word(words, p) {
        let k = choose|k: int| 0 <= k < words.len() && p(#[trigger] words[k]);
        assert(next[k] == words[k]);
    }
    if p(w) {
        assert(next[words.len() as int] == w);
    }
    if any_word(next, p) {
        let k = choose|k: int| 0 <= k < next.len() && p(#[trigger] next[k]);
        if k < words.len() {
            assert(next[k] == words[k]);
        }
    }
}

/// The modifiers named by any of the words, lower-cased; other words are
/// ignored.
pub open spec fn modifiers_of(words: Seq<Seq<char>>) -> Modifiers {
    Modifiers {
        ctrl: any_word(words, |w: Seq<char>| names_ctrl(w)),
        shift: any_word(words, |w: Seq<char>| names_shift(w)),
        alt: any_word(words, |w: Seq<char>| names_alt(w)),
        cmd: any_word(words, |w: Seq<char>| names_cmd(w)),
    }
}

/// Every word of the list is ASCII text.
pub open spec fn all_ascii(words: Seq<String>) -> bool {
    forall|i: int| 0 <= i < words.len() ==> is_ascii_text(#[trigger] words[i]@)
}

/// The words with ASCII upper-case letters mapped to lower case.
pub open spec fn ascii_lowered_words(words: Seq<String>) -> Seq<Seq<char>> {
    words.map_values(|w: String| ascii_lowered(w@))
}

/// Which words name which modifier, spelled out: a list of (lower-case)
/// words names control exactly when one of them is "ctrl" or "control",
/// shift when one is "shift", alt when one is "alt" or "option", and the
/// command key when one is "cmd", "command", "meta", "gui" or "win".
pub proof fn lemma_modifier_words(words: Seq<Seq<char>>)
    ensures
        modifiers_of(words).ctrl <==> exists|i: int|
            0 <= i < words.len() && (#[trigger] words[i] == "ctrl"@ || words[i] == "control"@),
        modifiers_of(words).shift <==> exists|i: int|
            0 <= i < words.len() && #[trigger] words[i] == "shift"@,
        modifiers_of(words).alt <==> exists|i: int|
            0 <= i < words.len() && (#[trigger] words[i] == "alt"@ || words[i] == "option"@),
        modifiers_of(words).cmd <==> exists|i: int|
            0 <= i < words.len() && (#[trigger] words[i] == "cmd"@ || words[i] == "command"@
                || words[i] == "meta"@ || words[i] == "gui"@ || words[i] == "win"@),
{
}

/// The lower-case forms of a list of words.
pub open spec fn lowered(words: Seq<String>) -> Seq<Seq<char>> {
    words.map_values(|w: String| lowercase(w@))
}

/// The modifiers that the words name, compared without case (Unicode
/// lower-casing, as `str::to_lowercase` does).
pub fn modifiers_named(words: &[String]) -> (m: Modifiers)
    ensures
        m == modifiers_of(lowered(words@)),
        all_ascii(words@) ==> m == modifiers_of(ascii_lowered_words(words@)),
{
    let mut m = Modifiers::empty();
    let ghost ws = lowered(words@);
    assert(ws.take(0) =~= Seq::<Seq<char>>::empty());
    let mut i: usize = 0;
    while i < words.len()
        invariant
            i <= words.len(),
            ws == lowered(words@),
            m == modifiers_of(ws.take(i as int)),
            forall|k: int|
                0 <= k < i && is_ascii_text(words@[k]@) ==> #[trigger] lowercase(words@[k]@)
                    == ascii_lowered(words@[k]@),
        decreases words.len() - i,
    {
        let w = to_lowercase(words[i].as_str());
        assert(w@ == ws[i as int]);
        if text_is(&w, "ctrl") || text_is(&w, "control") {
            m.ctrl = true;
        }
        if text_is(&w, "shift") {
            m.shift = true;
        }
        if text_is(&w, "alt") || text_is(&w, "option") {
            m.alt = true;
        }
        if text_is(&w, "cmd") || text_is(&w, "command") || text_is(&w, "meta") || text_is(
            &w,
            "gui",
        ) || text_is(&w, "win") {
            m.cmd = true;
        }
        proof {
            let prev = ws.take(i as int);
            assert(ws.take(i + 1) =~= prev.push(w@));
            lemma_any_word_push(prev, w@, |w: Seq<char>| names_ctrl(w));
            lemma_any_word_push(prev, w@, |w: Seq<char>| names_shift(w));
            lemma_any_word_push(prev, w@, |w: Seq<char>| names_alt(w));
            lemma_any_word_push(prev, w@, |w: Seq<char>| names_cmd(w));
        }
        i = i + 1;
    }
    assert(ws.take(words.len() as int) =~= ws);
    proof {
        if all_ascii(words@) {
            assert(ws =~= ascii_lowered_words(words@)) by {
                assert forall|k: int| 0 <= k < ws.len() implies ws[k] == ascii_lowered_words(
                    words@,
                )[k] by {
                    assert(is_ascii_text(words@[k]@));
                    assert(lowercase(words@[k]@) == ascii_lowered(words@[k]@));
                }
            }
        }
    }
    m
}

} // verus!
