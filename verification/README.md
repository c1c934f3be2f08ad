# keypad

KeyPad turns a keyboard into an Xbox controller. This crate holds its
decision logic, with contracts proved by Verus:

- `key`, `action`, `pad_state`, `mapping`, `engine` — physical keys, pad
  actions, the pad state computed from held keys (SOCD, diagonals), the key
  layout and its validation, and the engine: a state machine from keyboard
  events and window commands to decisions (hide the key from the OS, new pad
  state, notice for the window). `engine_laws` states what holds over whole
  runs: the invariant, key ownership (a press and its release get the same
  decision), releasing every key leaves the pad neutral, and more.
- `updater`, `update` — the release channel: reading GitHub's answers,
  comparing versions, names of downloaded installers.
- `setup`, `setup_window`, `prereq`, `proc` — the installer's decisions and
  messages, its window state and behaviour (closing, the main button,
  colours), and the decisions of closing a running copy.
- `install`, `uninstall` — the order of installing and uninstalling as
  state machines: the program asks what to do next, does it and reports
  back. Nothing is written before a complete download; the user's
  settings are never deleted.
- `logger` — time stamps of log lines (calendar conversion) and log targets.
- `text`, `table` — helpers for text and for the key-indexed tables.

`app/` is the Windows program around it (installer window, registry,
processes, files, network); it is not verified.
