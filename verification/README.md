# usehid

Verified core of a virtual HID agent: the library that decides what an LLM
agent's mouse, keyboard, gamepad, screenshot and accessibility actions do,
proved with Verus.

## Layout

- `src/agent.rs` — the agent's actions and results, and the protocol by which
  an action is carried out: `AgentHID::start` hands the host its first
  command, `AgentHID::feed` takes the host's answer and hands back the next
  command or the result (`AgentHID::try_feed` first tests that the answer
  fits). `script` states the protocol; lemmas state its laws
  (failsafe gate, devices created once, every action ends, drags release
  what they press).
- `src/accessibility.rs` — UI elements, the search by role and title, and the
  decisions of the platform tree readers (pid parsing, window lookup, the
  depth limit: a tree built through `attach_children` is the full tree cut
  at the limit, `pruned_copy`).
- `src/input.rs`, `src/bindings.rs` — the words for mouse buttons, gamepad
  buttons and key modifiers.
- `src/encoding.rs`, `src/screenshot.rs` — Base64 and PNG encodings of
  captures, and the capture geometry.
- `src/text.rs` — trimming, case-insensitive comparison, substring search,
  integer parsing and printing.
- `app/` — the host side: JSON front end, the loop that performs the
  commands, platform capture and tree reading, Python bindings.
