//! Engine — a pure state machine: keyboard events in, [`Decision`] out.
//!
//! No I/O, no timers, no threads. Time comes from outside as `now_ms`,
//! monotonic milliseconds from any origin; time going backwards breaks
//! nothing (everything goes through `saturating_sub`).
//!
//! The heart is the **key ownership rule**: where a press belongs is
//! decided ONCE at key-down, and its key-up (and autorepeat) always goes
//! to the same owner. A mode switch therefore never leaves a key or a
//! stick stuck — the OS gets key-ups exactly for the key-downs it saw,
//! and the pad loses only the keys it held.
use vstd::prelude::*;
use crate::action::{Action, action_text};
use crate::text::{owned, dec, push_decimal};
use vstd::string::StringExecFns;
use crate::key::{KeyId, KEY_TABLE_SIZE, key_slot, slot_is_key, slot_key};
use crate::mapping::{Mapping, MappingError, MappingView, valid_view, esc_key};
use crate::pad_state::{PadState, compute_pad_state, pad_of, neutral_pad, lemma_nothing_held_is_neutral};
use crate::table::{
    table_wf,
    table_view,
    count_some,
    lemma_table_len,
    lemma_table_set,
    lemma_table_clear,
    lemma_table_at,
    lemma_table_slot,
    lemma_table_map,
    lemma_count_bound,
};

verus! {

broadcast use vstd::seq_lib::group_seq_properties, vstd::set::group_set_axioms;

/// After how long a pending key binding cancels itself.
pub const BINDING_TIMEOUT_MS: u64 = 10_000;

/// After what pause a key-down of an already held (swallowed) key counts as
/// a new press after a lost key-up, not as autorepeat. Applies only to keys
/// the OS never saw (`Pad`, `Swallow`).
pub const STALE_KEY_MS: u64 = 1_500;

/// Why switching to Gamepad is not possible.
#[derive(Clone, Copy, Debug, PartialEq, Eq, Structural, Hash)]
pub enum DisabledReason {
    /// The ViGEmBus driver is not installed.
    ViGEmMissing,
    /// The virtual pad is not connected yet.
    PadNotConnected,
    /// Sending the state to ViGEm failed.
    PadError,
}

/// Application mode.
#[derive(Clone, Copy, Debug, PartialEq, Eq, Structural, Hash)]
pub enum Mode {
    /// Everything goes to the OS (default and fail-safe mode).
    Keyboard,
    /// Mapped keys drive the pad, the rest go to the OS.
    Gamepad,
    /// Waiting for the key to bind to `action`. Entered only from Keyboard
    /// and returns there.
    Binding { action: Action, started_at_ms: u64 },
    /// Like Keyboard, but Gamepad cannot be entered (no pad).
    Disabled { reason: DisabledReason },
}

/// Whom a pressed key belongs to. Decided at key-down and never changed —
/// except that leaving Gamepad turns `Pad` into `Swallow` (the OS never saw
/// the key-down, so it must not get the key-up either).
#[derive(Clone, Copy, Debug, PartialEq, Eq, Structural, Hash)]
pub enum Owner {
    /// The key goes to the OS.
    Os,
    /// The key drives the pad; carries the action decided at the press.
    Pad(Action),
    /// The key goes nowhere (toggle key, binding, pad key after leaving
    /// Gamepad).
    Swallow,
}

impl Owner {
    /// Suppress the event before the OS? Exactly when the owner is not the OS.
    pub fn suppresses(self) -> (r: bool)
        ensures
            r == (self != Owner::Os),
    {
        match self {
            Owner::Os => false,
            _ => true,
        }
    }
}

/// Record of a held key.
#[derive(Clone, Copy, Debug, PartialEq, Eq, Structural, Hash)]
pub struct HeldKey {
    pub owner: Owner,
    /// Order of the press (grows with every new press) — for SOCD.
    pub seq: u64,
    /// Time of the key's last event (press or autorepeat) — to recognise a
    /// lost key-up ([`STALE_KEY_MS`]).
    pub last_ms: u64,
}

/// Why a reset to Keyboard was forced. The engine only passes it on.
#[derive(Clone, Copy, Debug, PartialEq, Eq, Structural, Hash)]
pub enum ForceReason {
    Watchdog,
    PadError,
    SessionLock,
    DesktopSwitch,
    Suspend,
    HookPanic,
    HookReinstalled,
    MappingChanged,
    Shutdown,
}

/// Why the mode changed.
#[derive(Clone, Copy, Debug, PartialEq, Eq, Structural, Hash)]
pub enum ModeCause {
    /// The toggle key.
    Hotkey,
    /// A button or another command from the window.
    Gui,
    /// A forced return to Keyboard (fail-safe).
    Forced(ForceReason),
    /// The pad became (un)available — [`Engine::disable`] / [`Engine::enable`].
    PadStatus,
}

/// Why a key binding was cancelled.
#[derive(Clone, Copy, Debug, PartialEq, Eq, Structural, Hash)]
pub enum BindingCancel {
    Escape,
    Timeout,
    Gui,
    Forced(ForceReason),
    /// The pad became unavailable (binding ended in Disabled).
    PadStatus,
}

/// Why the pressed key cannot be bound. Binding goes on.
#[derive(Clone, Copy, Debug, PartialEq, Eq, Structural, Hash)]
pub enum BindingReject {
    /// The toggle key cannot be bound to an action.
    ToggleKey,
    /// The key has no usable scan code; such a key goes to the OS.
    Unmappable,
}

/// Why a toggle did not happen.
#[derive(Clone, Copy, Debug, PartialEq, Eq, Structural, Hash)]
pub enum ToggleReject {
    /// No pad available.
    Disabled(DisabledReason),
    /// A key binding is running.
    Binding,
}

/// What the window is told. The state itself (mode, mapping) lives in the
/// engine; an event only says that something happened and why.
#[derive(Clone, Copy, Debug, PartialEq, Eq, Structural, Hash)]
pub enum UiEvent {
    ModeChanged { mode: Mode, cause: ModeCause },
    /// The key was bound to the action and the mode is Keyboard again;
    /// `moved_from` is the action the key had before.
    BindingSaved { key: KeyId, action: Action, moved_from: Option<Action> },
    /// The pressed key cannot be bound; binding waits for another.
    BindingRejected { key: KeyId, reason: BindingReject },
    /// Binding ended without saving.
    BindingCancelled { reason: BindingCancel },
    ToggleRejected { reason: ToggleReject },
}

/// Result of handling an event.
///
/// - `suppress`: the hook swallows the event (for commands that are not
///   a key it is always `false`);
/// - `pad`: new pad state to send to ViGEm, `None` = unchanged; `Some`
///   at every mode change;
/// - `ui`: notice for the window; when one call does several things it
///   carries the newer one.
#[derive(Clone, Copy, Debug, PartialEq, Eq, Structural)]
pub struct Decision {
    pub suppress: bool,
    pub pad: Option<PadState>,
    pub ui: Option<UiEvent>,
}

pub open spec fn no_decision() -> Decision {
    Decision { suppress: false, pad: None, ui: None }
}

/// Fills in from an earlier step of the same call what `later` left unset.
pub open spec fn or_earlier(later: Decision, earlier: Decision) -> Decision {
    Decision {
        suppress: later.suppress,
        pad: if later.pad is Some {
            later.pad
        } else {
            earlier.pad
        },
        ui: if later.ui is Some {
            later.ui
        } else {
            earlier.ui
        },
    }
}

impl Decision {
    /// Nothing happened.
    pub fn none() -> (d: Decision)
        ensures
            d == no_decision(),
    {
        Decision { suppress: false, pad: None, ui: None }
    }

    fn key(suppress: bool) -> (d: Decision)
        ensures
            d == (Decision { suppress, pad: None, ui: None }),
    {
        Decision { suppress, pad: None, ui: None }
    }

    /// Fills in from an earlier step of the same call what this one left unset.
    fn or(self, earlier: Decision) -> (d: Decision)
        ensures
            d == or_earlier(self, earlier),
    {
        Decision {
            suppress: self.suppress,
            pad: match self.pad {
                Some(p) => Some(p),
                None => earlier.pad,
            },
            ui: match self.ui {
                Some(u) => Some(u),
                None => earlier.ui,
            },
        }
    }
}

impl Default for Decision {
    fn default() -> (d: Decision)
        ensures
            d == no_decision(),
    {
        Decision::none()
    }
}

/// Errors of commands from the window.
#[derive(Clone, Copy, Debug, PartialEq, Eq, Structural)]
pub enum CommandError {
    /// Keys can be bound only in Keyboard mode.
    NotInKeyboardMode(Mode),
}

// ── The model ──────────────────────────────────────────────────────

/// What an engine stands for.
#[verifier::ext_equal]
pub struct EngineView {
    pub mode: Mode,
    pub mapping: MappingView,
    /// Held keys the engine knows of.
    pub held: Map<KeyId, HeldKey>,
    /// Order number of the last new press.
    pub seq: u64,
    /// The pad state last handed out.
    pub last_pad: PadState,
}

/// The presses `(action, seq)` of the keys the pad holds.
pub open spec fn pad_presses(held: Map<KeyId, HeldKey>) -> Set<(Action, u64)> {
    Set::new(
        |e: (Action, u64)|
            exists|k: KeyId|
                #[trigger] held.contains_key(k) && held[k].owner == Owner::Pad(e.0) && held[k].seq
                    == e.1,
    )
}

/// The pad state computed from the held keys.
pub open spec fn pad_of_held(held: Map<KeyId, HeldKey>) -> PadState {
    pad_of(pad_presses(held))
}

pub open spec fn no_pad_owner(held: Map<KeyId, HeldKey>) -> bool {
    forall|k: KeyId| #[trigger] held.contains_key(k) ==> !(held[k].owner is Pad)
}

/// The invariant of every engine state, but for the handed-out pad:
/// - outside Gamepad no key belongs to the pad (so the pad is neutral);
/// - the mapping is valid, only mappable keys are tracked.
pub open spec fn state_wf(v: EngineView) -> bool {
    &&& v.mode != Mode::Gamepad ==> no_pad_owner(v.held)
    &&& valid_view(v.mapping)
    &&& v.held.dom().finite()
    &&& forall|k: KeyId| #[trigger] v.held.contains_key(k) ==> k.spec_is_mappable()
}

/// The invariant of every engine state: [`state_wf`], and the pad state
/// handed out last is the one computed from the held keys.
pub open spec fn view_wf(v: EngineView) -> bool {
    &&& state_wf(v)
    &&& v.last_pad == pad_of_held(v.held)
}

pub open spec fn to_swallow(h: HeldKey) -> HeldKey {
    if h.owner is Pad {
        HeldKey { owner: Owner::Swallow, ..h }
    } else {
        h
    }
}

/// The only place where the mode changes. Leaving Gamepad turns pad keys
/// into `Swallow`; the pad state is recomputed and handed out.
pub open spec fn sw_mode(v: EngineView, new: Mode) -> EngineView {
    let held = if v.mode == Mode::Gamepad && new != Mode::Gamepad {
        v.held.map_values(|h: HeldKey| to_swallow(h))
    } else {
        v.held
    };
    EngineView { mode: new, held, last_pad: pad_of_held(held), ..v }
}

pub open spec fn change_mode(v: EngineView, new: Mode, cause: ModeCause) -> (EngineView, Decision) {
    let v1 = sw_mode(v, new);
    (
        v1,
        Decision {
            suppress: false,
            pad: Some(v1.last_pad),
            ui: Some(UiEvent::ModeChanged { mode: new, cause }),
        },
    )
}

pub open spec fn leave_binding(v: EngineView, to: Mode, reason: BindingCancel) -> (
    EngineView,
    Decision,
) {
    let v1 = sw_mode(v, to);
    (
        v1,
        Decision {
            suppress: false,
            pad: Some(v1.last_pad),
            ui: Some(UiEvent::BindingCancelled { reason }),
        },
    )
}

pub open spec fn sat_sub(a: u64, b: u64) -> u64 {
    if a >= b {
        (a - b) as u64
    } else {
        0
    }
}

/// A pending binding that is too old is cancelled.
pub open spec fn expire(v: EngineView, now: u64) -> (EngineView, Decision) {
    match v.mode {
        Mode::Binding { started_at_ms, .. } => if sat_sub(now, started_at_ms)
            >= BINDING_TIMEOUT_MS {
            leave_binding(v, Mode::Keyboard, BindingCancel::Timeout)
        } else {
            (v, no_decision())
        },
        _ => (v, no_decision()),
    }
}

/// What binding `key` to `action` does to a mapping (see [`Mapping::bind`]).
pub open spec fn bind_view(m: MappingView, key: KeyId, action: Action) -> Result<
    (MappingView, Option<Action>),
    MappingError,
> {
    if key == m.toggle {
        Err(MappingError::ToggleKeyMapped { key, action })
    } else if !key.spec_is_mappable() {
        Err(MappingError::Unmappable { key, action: Some(action) })
    } else {
        Ok(
            (
                MappingView { toggle: m.toggle, binds: m.binds.insert(key, action) },
                if m.binds.contains_key(key) && m.binds[key] != action {
                    Some(m.binds[key])
                } else {
                    None
                },
            ),
        )
    }
}

/// Toggle Keyboard ↔ Gamepad (toggle key or window button).
pub open spec fn toggle_with(v: EngineView, cause: ModeCause) -> (EngineView, Decision) {
    match v.mode {
        Mode::Keyboard => change_mode(v, Mode::Gamepad, cause),
        Mode::Gamepad => change_mode(v, Mode::Keyboard, cause),
        // The toggle key during binding is an attempt to bind it, which
        // is refused; the window button has nothing to toggle.
        Mode::Binding { .. } => (
            v,
            Decision {
                suppress: false,
                pad: None,
                ui: Some(
                    if cause == ModeCause::Hotkey {
                        UiEvent::BindingRejected {
                            key: v.mapping.toggle,
                            reason: BindingReject::ToggleKey,
                        }
                    } else {
                        UiEvent::ToggleRejected { reason: ToggleReject::Binding }
                    },
                ),
            },
        ),
        Mode::Disabled { reason } => (
            v,
            Decision {
                suppress: false,
                pad: None,
                ui: Some(UiEvent::ToggleRejected { reason: ToggleReject::Disabled(reason) }),
            },
        ),
    }
}

/// A key pressed during binding (not the toggle key): Escape cancels,
/// another key is bound and binding ends in Keyboard.
pub open spec fn binding_key(v: EngineView, key: KeyId, action: Action) -> (EngineView, Decision) {
    if key == esc_key() {
        leave_binding(v, Mode::Keyboard, BindingCancel::Escape)
    } else {
        match bind_view(v.mapping, key, action) {
            Ok((m, moved_from)) => {
                let v1 = sw_mode(EngineView { mapping: m, ..v }, Mode::Keyboard);
                (
                    v1,
                    Decision {
                        suppress: false,
                        pad: Some(v1.last_pad),
                        ui: Some(UiEvent::BindingSaved { key, action, moved_from }),
                    },
                )
            },
            Err(e) => (
                v,
                Decision {
                    suppress: false,
                    pad: None,
                    ui: Some(
                        UiEvent::BindingRejected {
                            key,
                            reason: if e is ToggleKeyMapped {
                                BindingReject::ToggleKey
                            } else {
                                BindingReject::Unmappable
                            },
                        },
                    ),
                },
            ),
        }
    }
}

/// Recompute the pad and hand it out only when it changed.
pub open spec fn pad_if_changed(v: EngineView) -> (EngineView, Option<PadState>) {
    let new = pad_of_held(v.held);
    if new != v.last_pad {
        (EngineView { last_pad: new, ..v }, Some(new))
    } else {
        (v, None)
    }
}

/// Owner of a new press of `key` (a key not in `held`).
pub open spec fn owner_for_new_press(v: EngineView, key: KeyId) -> Owner {
    if key == v.mapping.toggle {
        Owner::Swallow
    } else {
        match v.mode {
            Mode::Binding { .. } => Owner::Swallow,
            Mode::Gamepad => if v.mapping.binds.contains_key(key) {
                Owner::Pad(v.mapping.binds[key])
            } else {
                Owner::Os
            },
            _ => Owner::Os,
        }
    }
}

/// A held key whose press is older than [`STALE_KEY_MS`] and that the OS
/// never saw: its key-up was lost.
pub open spec fn is_stale(h: HeldKey, now: u64) -> bool {
    h.owner != Owner::Os && sat_sub(now, h.last_ms) >= STALE_KEY_MS
}

pub open spec fn key_down(v: EngineView, key: KeyId, now: u64) -> (EngineView, Decision) {
    if !key.spec_is_mappable() {
        // Unmappable keys always go to the OS and are not tracked.
        (
            v,
            Decision {
                suppress: false,
                pad: None,
                ui: if v.mode is Binding {
                    Some(UiEvent::BindingRejected { key, reason: BindingReject::Unmappable })
                } else {
                    None
                },
            },
        )
    } else if v.held.contains_key(key) && !is_stale(v.held[key], now) {
        // Autorepeat: the decision was made at the first press.
        let h = v.held[key];
        (
            EngineView { held: v.held.insert(key, HeldKey { last_ms: now, ..h }), ..v },
            Decision { suppress: h.owner != Owner::Os, pad: None, ui: None },
        )
    } else {
        // A new press (possibly after a lost key-up).
        let v1 = EngineView { held: v.held.remove(key), ..v };
        let seq = (v1.seq + 1) as u64;
        let owner = owner_for_new_press(v1, key);
        let v2 = EngineView {
            seq,
            held: v1.held.insert(key, HeldKey { owner, seq, last_ms: now }),
            ..v1
        };
        let (v3, effects) = if key == v2.mapping.toggle {
            toggle_with(v2, ModeCause::Hotkey)
        } else if v2.mode is Binding {
            binding_key(v2, key, v2.mode->action)
        } else {
            let (v3, pad) = pad_if_changed(v2);
            (v3, Decision { suppress: false, pad, ui: None })
        };
        (v3, Decision { suppress: owner != Owner::Os, ..effects })
    }
}

pub open spec fn key_up(v: EngineView, key: KeyId) -> (EngineView, Decision) {
    if key.spec_is_mappable() && v.held.contains_key(key) {
        let h = v.held[key];
        let v1 = EngineView { held: v.held.remove(key), ..v };
        let (v2, pad) = if h.owner is Pad {
            pad_if_changed(v1)
        } else {
            (v1, None)
        };
        (v2, Decision { suppress: h.owner != Owner::Os, pad, ui: None })
    } else {
        // Key-up without a record: the key was held before the start, was
        // forgotten, or cannot be mapped. The OS saw its key-down.
        (v, no_decision())
    }
}

/// A keyboard event from the hook.
pub open spec fn on_key(v: EngineView, key: KeyId, down: bool, now: u64) -> (EngineView, Decision) {
    let (v1, expired) = expire(v, now);
    let (v2, d) = if down {
        key_down(v1, key, now)
    } else {
        key_up(v1, key)
    };
    (v2, or_earlier(d, expired))
}

pub open spec fn toggle(v: EngineView, now: u64) -> (EngineView, Decision) {
    let (v1, expired) = expire(v, now);
    let (v2, d) = toggle_with(v1, ModeCause::Gui);
    (v2, or_earlier(d, expired))
}

pub open spec fn force_keyboard(v: EngineView, reason: ForceReason) -> (EngineView, Decision) {
    match v.mode {
        Mode::Gamepad => change_mode(v, Mode::Keyboard, ModeCause::Forced(reason)),
        Mode::Binding { .. } => leave_binding(v, Mode::Keyboard, BindingCancel::Forced(reason)),
        _ => {
            let v1 = EngineView { last_pad: pad_of_held(v.held), ..v };
            (v1, Decision { suppress: false, pad: Some(v1.last_pad), ui: None })
        },
    }
}

pub open spec fn reset_held(v: EngineView, reason: ForceReason) -> (EngineView, Decision) {
    let (v1, d) = force_keyboard(v, reason);
    let v2 = EngineView { held: Map::empty(), last_pad: pad_of_held(Map::empty()), ..v1 };
    (v2, Decision { pad: Some(v2.last_pad), ..d })
}

pub open spec fn start_binding(v: EngineView, action: Action, now: u64) -> (
    EngineView,
    Result<Decision, CommandError>,
) {
    let (v1, expired) = expire(v, now);
    if v1.mode != Mode::Keyboard {
        (v1, Err(CommandError::NotInKeyboardMode(v1.mode)))
    } else {
        let (v2, d) = change_mode(
            v1,
            Mode::Binding { action, started_at_ms: now },
            ModeCause::Gui,
        );
        (v2, Ok(or_earlier(d, expired)))
    }
}

pub open spec fn cancel_binding(v: EngineView, now: u64) -> (EngineView, Decision) {
    let (v1, expired) = expire(v, now);
    if v1.mode is Binding {
        leave_binding(v1, Mode::Keyboard, BindingCancel::Gui)
    } else {
        (v1, expired)
    }
}

pub open spec fn disable(v: EngineView, reason: DisabledReason) -> (EngineView, Decision) {
    let new = Mode::Disabled { reason };
    if v.mode is Binding {
        leave_binding(v, new, BindingCancel::PadStatus)
    } else if v.mode == new {
        (v, no_decision())
    } else {
        change_mode(v, new, ModeCause::PadStatus)
    }
}

pub open spec fn enable(v: EngineView) -> (EngineView, Decision) {
    if v.mode is Disabled {
        change_mode(v, Mode::Keyboard, ModeCause::PadStatus)
    } else {
        (v, no_decision())
    }
}

pub open spec fn set_mapping(v: EngineView, m: MappingView) -> (EngineView, Decision) {
    let (v1, d) = if v.mode == Mode::Gamepad || v.mode is Binding {
        force_keyboard(v, ForceReason::MappingChanged)
    } else {
        (v, no_decision())
    };
    (EngineView { mapping: m, ..v1 }, d)
}

/// The state machine of KeyPad.
#[derive(Clone, Debug)]
pub struct Engine {
    mode: Mode,
    mapping: Mapping,
    /// Held keys by [`KeyId::index`]. Unmappable keys are not tracked at
    /// all — they always go to the OS and would share one record.
    held: Vec<Option<HeldKey>>,
    held_count: usize,
    /// Order number of the last new press.
    seq: u64,
    /// The pad state last handed out — so the same one is not sent again.
    last_pad: PadState,
}

impl View for Engine {
    type V = EngineView;

    closed spec fn view(&self) -> EngineView {
        EngineView {
            mode: self.mode,
            mapping: self.mapping@,
            held: table_view(self.held@),
            seq: self.seq,
            last_pad: self.last_pad,
        }
    }
}

/// Slot `j` holds a pad key with press `e`.
spec fn pad_slot(s: Seq<Option<HeldKey>>, j: int, e: (Action, u64)) -> bool {
    s[j] is Some && s[j]->Some_0.owner == Owner::Pad(e.0) && s[j]->Some_0.seq == e.1
}

impl Engine {
    spec fn inv(&self) -> bool {
        &&& self.mapping.wf()
        &&& table_wf(self.held@)
        &&& self.held_count == table_view(self.held@).dom().len()
    }

    /// Well-formed: the tables stand for a state satisfying [`view_wf`].
    pub closed spec fn wf(&self) -> bool {
        &&& self.inv()
        &&& view_wf(self@)
    }

    /// Every well-formed engine satisfies the invariant of the model.
    pub proof fn lemma_wf(&self)
        requires
            self.wf(),
        ensures
            view_wf(self@),
    {
    }

    proof fn lemma_inv(&self)
        requires
            self.inv(),
        ensures
            self@.held.dom().finite(),
            self.held_count <= 256,
            forall|k: KeyId| #[trigger] self@.held.contains_key(k) ==> k.spec_is_mappable(),
            valid_view(self@.mapping),
    {
        lemma_table_len(self.held@);
        lemma_count_bound(self.held@);
        self.mapping.lemma_wf_valid();
    }

    fn compute_pad(&self) -> (p: PadState)
        requires
            table_wf(self.held@),
        ensures
            p == pad_of_held(table_view(self.held@)),
    {
        let mut pressed: Vec<(Action, u64)> = Vec::new();
        let mut i: usize = 0;
        while i < KEY_TABLE_SIZE
            invariant
                table_wf(self.held@),
                i <= KEY_TABLE_SIZE,
                forall|e: (Action, u64)|
                    pressed@.contains(e) <==> exists|j: int| 0 <= j < i && #[trigger] pad_slot(self.held@, j, e),
            decreases KEY_TABLE_SIZE - i,
        {
            let ghost old_p = pressed@;
            if let Some(h) = self.held[i] {
                if let Owner::Pad(a) = h.owner {
                    pressed.push((a, h.seq));
                    proof {
                        assert forall|e: (Action, u64)|
                            pressed@.contains(e) <==> exists|j: int| 0 <= j < i + 1 && #[trigger] pad_slot(self.held@, j, e) by {
                            if pressed@.contains(e) && e != (a, h.seq) {
                                let x = choose|x: int| 0 <= x < pressed@.len() && pressed@[x] == e;
                                assert(old_p[x] == e);
                            }
                            if e == (a, h.seq) {
                                assert(pad_slot(self.held@, i as int, e));
                                assert(pressed@[pressed@.len() - 1] == e);
                            }
                            if exists|j: int| 0 <= j < i + 1 && #[trigger] pad_slot(self.held@, j, e) {
                                let j = choose|j: int| 0 <= j < i + 1 && #[trigger] pad_slot(self.held@, j, e);
                                if j < i {
                                    assert(old_p.contains(e));
                                    let x = choose|x: int| 0 <= x < old_p.len() && old_p[x] == e;
                                    assert(pressed@[x] == e);
                                } else {
                                    assert(pressed@[pressed@.len() - 1] == e);
                                }
                            }
                        }
                    }
                } else {
                    proof {
                        assert forall|e: (Action, u64)|
                            pressed@.contains(e) <==> exists|j: int| 0 <= j < i + 1 && #[trigger] pad_slot(self.held@, j, e) by {
                            if exists|j: int| 0 <= j < i + 1 && #[trigger] pad_slot(self.held@, j, e) {
                                let j = choose|j: int| 0 <= j < i + 1 && #[trigger] pad_slot(self.held@, j, e);
                                assert(j < i);
                            }
                        }
                    }
                }
            } else {
                proof {
                    assert forall|e: (Action, u64)|
                        pressed@.contains(e) <==> exists|j: int| 0 <= j < i + 1 && #[trigger] pad_slot(self.held@, j, e) by {
                        if exists|j: int| 0 <= j < i + 1 && #[trigger] pad_slot(self.held@, j, e) {
                            let j = choose|j: int| 0 <= j < i + 1 && #[trigger] pad_slot(self.held@, j, e);
                            assert(j < i);
                        }
                    }
                }
            }
            i = i + 1;
        }
        proof {
            let hv = table_view(self.held@);
            assert forall|e: (Action, u64)| pressed@.to_set().contains(e) == pad_presses(hv).contains(e) by {
                if pressed@.contains(e) {
                    let j = choose|j: int| 0 <= j < 256 && #[trigger] pad_slot(self.held@, j, e);
                    lemma_table_slot(self.held@, j);
                    assert(hv.contains_key(slot_key(j)));
                }
                if pad_presses(hv).contains(e) {
                    let k = choose|k: KeyId|
                        #[trigger] hv.contains_key(k) && hv[k].owner == Owner::Pad(e.0) && hv[k].seq == e.1;
                    lemma_table_at(self.held@, k);
                    assert(pad_slot(self.held@, key_slot(k), e));
                }
            }
            assert(pressed@.to_set() =~= pad_presses(hv));
        }
        compute_pad_state(pressed.as_slice())
    }

    /// Recomputes the state and hands it out always.
    fn emit_pad(&mut self) -> (p: PadState)
        requires
            old(self).inv(),
        ensures
            final(self).inv(),
            final(self)@ == (EngineView { last_pad: pad_of_held(old(self)@.held), ..old(self)@ }),
            p == pad_of_held(old(self)@.held),
    {
        self.last_pad = self.compute_pad();
        self.last_pad
    }

    /// Recomputes the state and hands it out only when it changed (a
    /// second key on the same button is not sent to ViGEm again).
    fn pad_if_changed(&mut self) -> (p: Option<PadState>)
        requires
            old(self).inv(),
        ensures
            final(self).inv(),
            (final(self)@, p) == pad_if_changed(old(self)@),
    {
        let new = self.compute_pad();
        if new != self.last_pad {
            self.last_pad = new;
            Some(new)
        } else {
            None
        }
    }

    fn remember(&mut self, i: usize, h: HeldKey)
        requires
            old(self).inv(),
            slot_is_key(i as int),
            !old(self)@.held.contains_key(slot_key(i as int)),
        ensures
            final(self).inv(),
            final(self)@ == (EngineView {
                held: old(self)@.held.insert(slot_key(i as int), h),
                ..old(self)@
            }),
    {
        proof {
            self.lemma_inv();
            crate::key::lemma_slot_bijection(slot_key(i as int), slot_key(i as int), i as int);
            lemma_table_at(self.held@, slot_key(i as int));
            lemma_table_set(self.held@, i as int, h);
            lemma_table_len(self.held@.update(i as int, Some(h)));
            lemma_count_bound(self.held@.update(i as int, Some(h)));
            lemma_table_len(self.held@);
        }
        self.held.set(i, Some(h));
        self.held_count = self.held_count + 1;
    }

    fn forget(&mut self, i: usize) -> (h: Option<HeldKey>)
        requires
            old(self).inv(),
            slot_is_key(i as int),
        ensures
            final(self).inv(),
            final(self)@ == (EngineView {
                held: old(self)@.held.remove(slot_key(i as int)),
                ..old(self)@
            }),
            h == (if old(self)@.held.contains_key(slot_key(i as int)) {
                Some(old(self)@.held[slot_key(i as int)])
            } else {
                None::<HeldKey>
            }),
    {
        proof {
            self.lemma_inv();
            lemma_table_at(self.held@, slot_key(i as int));
            lemma_table_clear(self.held@, i as int);
            lemma_table_len(self.held@.update(i as int, None));
            lemma_table_len(self.held@);
        }
        let h = self.held[i];
        if h.is_some() {
            self.held.set(i, None);
            self.held_count = self.held_count - 1;
        }
        proof {
            if h.is_none() {
                assert(self.held@ =~= old(self).held@.update(i as int, None));
            }
        }
        h
    }

    /// The only place where the mode changes.
    ///
    /// Leaving Gamepad: pad keys become `Swallow` — their key-up is
    /// swallowed (the OS never saw the key-down) and the pad drops them
    /// at once. Entering Gamepad: keys held with owner `Os` stay with the
    /// OS until released. The pad state is handed out after every change.
    fn switch_mode(&mut self, new: Mode) -> (p: PadState)
        requires
            old(self).inv(),
        ensures
            final(self).inv(),
            final(self)@ == sw_mode(old(self)@, new),
            p == final(self)@.last_pad,
    {
        if self.mode == Mode::Gamepad && new != Mode::Gamepad {
            let ghost old_held = self.held@;
            let mut i: usize = 0;
            while i < KEY_TABLE_SIZE
                invariant
                    i <= KEY_TABLE_SIZE,
                    table_wf(old_held),
                    self.held@.len() == 256,
                    forall|j: int| 0 <= j < i ==> (#[trigger] self.held@[j] is Some) == (old_held[j] is Some),
                    forall|j: int| 0 <= j < i && old_held[j] is Some ==> #[trigger] self.held@[j]->Some_0 == to_swallow(old_held[j]->Some_0),
                    forall|j: int| i <= j < 256 ==> #[trigger] self.held@[j] == old_held[j],
                    self.mapping == old(self).mapping,
                    self.mode == old(self).mode,
                    self.held_count == old(self).held_count,
                    self.seq == old(self).seq,
                    old(self).held@ == old_held,
                decreases KEY_TABLE_SIZE - i,
            {
                if let Some(h) = self.held[i] {
                    if let Owner::Pad(_) = h.owner {
                        self.held.set(i, Some(HeldKey { owner: Owner::Swallow, seq: h.seq, last_ms: h.last_ms }));
                    }
                }
                i = i + 1;
            }
            proof {
                lemma_table_map(old_held, self.held@, |h: HeldKey| to_swallow(h));
                assert(table_view(self.held@).dom() =~= table_view(old_held).dom());
            }
        }
        self.mode = new;
        self.emit_pad()
    }

    /// Changes the mode and says so.
    fn change_mode(&mut self, new: Mode, cause: ModeCause) -> (d: Decision)
        requires
            old(self).inv(),
        ensures
            final(self).inv(),
            (final(self)@, d) == change_mode(old(self)@, new, cause),
    {
        let pad = self.switch_mode(new);
        Decision { suppress: false, pad: Some(pad), ui: Some(UiEvent::ModeChanged { mode: new, cause }) }
    }

    /// Ends binding by going to `to`.
    fn leave_binding(&mut self, to: Mode, reason: BindingCancel) -> (d: Decision)
        requires
            old(self).inv(),
        ensures
            final(self).inv(),
            (final(self)@, d) == leave_binding(old(self)@, to, reason),
    {
        let pad = self.switch_mode(to);
        Decision { suppress: false, pad: Some(pad), ui: Some(UiEvent::BindingCancelled { reason }) }
    }

    fn expire_binding(&mut self, now_ms: u64) -> (d: Decision)
        requires
            old(self).inv(),
        ensures
            final(self).inv(),
            (final(self)@, d) == expire(old(self)@, now_ms),
    {
        match self.mode {
            Mode::Binding { started_at_ms, .. } => {
                if now_ms.saturating_sub(started_at_ms) >= BINDING_TIMEOUT_MS {
                    self.leave_binding(Mode::Keyboard, BindingCancel::Timeout)
                } else {
                    Decision::none()
                }
            },
            _ => Decision::none(),
        }
    }

    /// Owner of a new press, by the table "Key-down, key not held yet".
    fn owner_for_new_press(&self, key: KeyId) -> (o: Owner)
        requires
            self.mapping.wf(),
        ensures
            o == owner_for_new_press(self@, key),
    {
        if key == self.mapping.toggle_key() {
            return Owner::Swallow;
        }
        match self.mode {
            Mode::Binding { .. } => Owner::Swallow,
            Mode::Gamepad => match self.mapping.action_for(key) {
                Some(a) => Owner::Pad(a),
                None => Owner::Os,
            },
            Mode::Keyboard | Mode::Disabled { .. } => Owner::Os,
        }
    }

    fn toggle_with(&mut self, cause: ModeCause) -> (d: Decision)
        requires
            old(self).inv(),
        ensures
            final(self).inv(),
            (final(self)@, d) == toggle_with(old(self)@, cause),
    {
        match self.mode {
            Mode::Keyboard => self.change_mode(Mode::Gamepad, cause),
            Mode::Gamepad => self.change_mode(Mode::Keyboard, cause),
            // The toggle key during binding is an attempt to bind it —
            // refused, binding waits on. The window button has nothing to
            // toggle during binding.
            Mode::Binding { .. } => Decision {
                suppress: false,
                pad: None,
                ui: Some(
                    match cause {
                        ModeCause::Hotkey => UiEvent::BindingRejected {
                            key: self.mapping.toggle_key(),
                            reason: BindingReject::ToggleKey,
                        },
                        _ => UiEvent::ToggleRejected { reason: ToggleReject::Binding },
                    },
                ),
            },
            Mode::Disabled { reason } => Decision {
                suppress: false,
                pad: None,
                ui: Some(UiEvent::ToggleRejected { reason: ToggleReject::Disabled(reason) }),
            },
        }
    }

    /// A key pressed during binding (not the toggle key).
    fn binding_key(&mut self, key: KeyId, action: Action) -> (d: Decision)
        requires
            old(self).inv(),
        ensures
            final(self).inv(),
            (final(self)@, d) == binding_key(old(self)@, key, action),
    {
        if key == KeyId::esc() {
            return self.leave_binding(Mode::Keyboard, BindingCancel::Escape);
        }
        match self.mapping.bind(key, action) {
            Ok(moved_from) => {
                let pad = self.switch_mode(Mode::Keyboard);
                Decision {
                    suppress: false,
                    pad: Some(pad),
                    ui: Some(UiEvent::BindingSaved { key, action, moved_from }),
                }
            },
            // The toggle key and unmappable keys are caught by key_down
            // first; this branch is only a safeguard.
            Err(e) => Decision {
                suppress: false,
                pad: None,
                ui: Some(
                    UiEvent::BindingRejected {
                        key,
                        reason: match e {
                            MappingError::ToggleKeyMapped { .. } => BindingReject::ToggleKey,
                            _ => BindingReject::Unmappable,
                        },
                    },
                ),
            },
        }
    }

    fn key_down(&mut self, key: KeyId, now_ms: u64) -> (d: Decision)
        requires
            old(self).inv(),
            old(self)@.seq < u64::MAX,
        ensures
            final(self).inv(),
            (final(self)@, d) == key_down(old(self)@, key, now_ms),
    {
        let i = match key.index() {
            Some(i) => i,
            None => {
                // An unmappable key always goes to the OS and is not
                // tracked; during binding the window at least learns why
                // nothing happened.
                return Decision {
                    suppress: false,
                    pad: None,
                    ui: match self.mode {
                        Mode::Binding { .. } => Some(
                            UiEvent::BindingRejected { key, reason: BindingReject::Unmappable },
                        ),
                        _ => None,
                    },
                };
            },
        };
        proof {
            lemma_table_at(self.held@, key);
            crate::key::lemma_slot_bijection(key, key, i as int);
        }
        let ghost v0 = self@;
        if let Some(h) = self.held[i] {
            let stale = h.owner != Owner::Os && now_ms.saturating_sub(h.last_ms) >= STALE_KEY_MS;
            if !stale {
                // Autorepeat: the decision was made at the first press —
                // here it is only repeated. No action, no toggle.
                proof {
                    lemma_table_set(self.held@, i as int, HeldKey { last_ms: now_ms, ..h });
                    lemma_table_len(self.held@.update(i as int, Some(HeldKey { last_ms: now_ms, ..h })));
                    lemma_table_len(self.held@);
                }
                self.held.set(i, Some(HeldKey { owner: h.owner, seq: h.seq, last_ms: now_ms }));
                return Decision::key(h.owner.suppresses());
            }
            // Lost key-up: drop the old record and go on as a new press.
            // The OS never saw this key, so nothing goes out of step.
            let _ = self.forget(i);
        } else {
            proof {
                assert(self@.held.remove(key) =~= self@.held);
            }
        }
        // A new press: owner by the table of engine rules.
        self.seq = self.seq + 1;
        let owner = self.owner_for_new_press(key);
        self.remember(i, HeldKey { owner, seq: self.seq, last_ms: now_ms });
        let effects = if key == self.mapping.toggle_key() {
            self.toggle_with(ModeCause::Hotkey)
        } else {
            match self.mode {
                Mode::Binding { action, .. } => self.binding_key(key, action),
                // A pad key, or a key that dropped a stale pad record —
                // either may change the state.
                _ => {
                    let pad = self.pad_if_changed();
                    Decision { suppress: false, pad, ui: None }
                },
            }
        };
        Decision { suppress: owner.suppresses(), pad: effects.pad, ui: effects.ui }
    }

    fn key_up(&mut self, key: KeyId) -> (d: Decision)
        requires
            old(self).inv(),
        ensures
            final(self).inv(),
            (final(self)@, d) == key_up(old(self)@, key),
    {
        let h = match key.index() {
            Some(i) => {
                proof {
                    lemma_table_at(self.held@, key);
                    crate::key::lemma_slot_bijection(key, key, i as int);
                }
                self.forget(i)
            },
            None => None,
        };
        match h {
            // Key-up without a record: held before the start, forgotten
            // after a session lock, or unmappable. The OS saw its key-down,
            // so the key-up is the OS's.
            None => {
                proof {
                    assert(self@.held =~= old(self)@.held);
                }
                Decision::none()
            },
            Some(h) => {
                let pad = match h.owner {
                    Owner::Pad(_) => self.pad_if_changed(),
                    Owner::Os | Owner::Swallow => None,
                };
                Decision { suppress: h.owner.suppresses(), pad, ui: None }
            },
        }
    }

    // ── Public interface ─────────────────────────────────────────────

    /// A new engine in mode `Disabled { PadNotConnected }`.
    ///
    /// Safe start: until the pad thread reports a connected virtual pad
    /// ([`Engine::enable`]), neither the toggle key nor the button lets
    /// Gamepad on.
    pub fn new(mapping: Mapping) -> (e: Engine)
        requires
            mapping.wf(),
        ensures
            e.wf(),
            e@ == (EngineView {
                mode: Mode::Disabled { reason: DisabledReason::PadNotConnected },
                mapping: mapping@,
                held: Map::empty(),
                seq: 0,
                last_pad: neutral_pad(),
            }),
    {
        let mut held: Vec<Option<HeldKey>> = Vec::new();
        for j in 0..KEY_TABLE_SIZE
            invariant
                held@.len() == j,
                forall|x: int| 0 <= x < j ==> held@[x] is None,
        {
            held.push(None);
        }
        let e = Engine {
            mode: Mode::Disabled { reason: DisabledReason::PadNotConnected },
            mapping,
            held,
            held_count: 0,
            seq: 0,
            last_pad: PadState::neutral(),
        };
        proof {
            assert(table_view(e.held@) =~= Map::<KeyId, HeldKey>::empty());
            lemma_empty_held_neutral();
            mapping.lemma_wf_valid();
        }
        e
    }

    pub fn mode(&self) -> (m: Mode)
        ensures
            m == self@.mode,
    {
        self.mode
    }

    pub fn mapping(&self) -> (m: &Mapping)
        requires
            self.wf(),
        ensures
            m.wf(),
            m@ == self@.mapping,
    {
        &self.mapping
    }

    /// The pad state computed from the keys held right now.
    pub fn pad_state(&self) -> (p: PadState)
        requires
            self.wf(),
        ensures
            p == pad_of_held(self@.held),
    {
        self.compute_pad()
    }

    /// Number of held keys the engine knows of.
    pub fn held_len(&self) -> (n: usize)
        requires
            self.wf(),
        ensures
            n == self@.held.dom().len(),
    {
        self.held_count
    }

    /// Record of a held key.
    pub fn held(&self, key: KeyId) -> (h: Option<HeldKey>)
        requires
            self.wf(),
        ensures
            h == (if self@.held.contains_key(key) {
                Some(self@.held[key])
            } else {
                None::<HeldKey>
            }),
    {
        match key.index() {
            Some(i) => {
                proof {
                    lemma_table_at(self.held@, key);
                }
                self.held[i]
            },
            None => None,
        }
    }

    /// Handles a keyboard event from the hook.
    ///
    /// The binding timeout is checked here too, not only in `tick`: if the
    /// hook thread's timer did not manage to tick, an expired binding must
    /// not eat a key that already belongs to the OS.
    pub fn on_key(&mut self, key: KeyId, down: bool, now_ms: u64) -> (d: Decision)
        requires
            old(self).wf(),
            down ==> old(self)@.seq < u64::MAX,
        ensures
            final(self).wf(),
            (final(self)@, d) == on_key(old(self)@, key, down, now_ms),
    {
        let expired = self.expire_binding(now_ms);
        let d = if down {
            self.key_down(key, now_ms)
        } else {
            self.key_up(key)
        };
        proof {
            lemma_on_key_wf(old(self)@, key, down, now_ms);
        }
        d.or(expired)
    }

    /// Toggles Keyboard ↔ Gamepad (button in the window). The toggle key
    /// does the same.
    pub fn toggle(&mut self, now_ms: u64) -> (d: Decision)
        requires
            old(self).wf(),
        ensures
            final(self).wf(),
            (final(self)@, d) == toggle(old(self)@, now_ms),
    {
        let expired = self.expire_binding(now_ms);
        let d = self.toggle_with(ModeCause::Gui);
        proof {
            lemma_toggle_wf(old(self)@, now_ms);
        }
        d.or(expired)
    }

    /// Forces Keyboard mode (fail-safe: watchdog, pad error, shutdown…).
    /// From Gamepad it hands out the neutral state at once and swallows the
    /// pad keys; a running binding is cancelled. Disabled stays — it acts
    /// like Keyboard and keeps Gamepad off. The pad state is handed out
    /// always, even when nothing changed.
    ///
    /// For a panic in the hook callback use [`Engine::reset_held`].
    pub fn force_keyboard(&mut self, reason: ForceReason) -> (d: Decision)
        requires
            old(self).wf(),
        ensures
            final(self).wf(),
            (final(self)@, d) == force_keyboard(old(self)@, reason),
    {
        proof {
            lemma_force_keyboard_wf(self@, reason);
        }
        match self.mode {
            Mode::Gamepad => self.change_mode(Mode::Keyboard, ModeCause::Forced(reason)),
            Mode::Binding { .. } => self.leave_binding(
                Mode::Keyboard,
                BindingCancel::Forced(reason),
            ),
            Mode::Keyboard | Mode::Disabled { .. } => {
                let pad = self.emit_pad();
                Decision { suppress: false, pad: Some(pad), ui: None }
            },
        }
    }

    /// Forces Keyboard and forgets all held keys.
    ///
    /// For moments when key-ups get lost or a key's state cannot be
    /// trusted: session lock, suspend, desktop switch, hook reinstall and
    /// a panic in the hook callback. The key-up of a forgotten key then
    /// goes to the OS (like a key held before the start).
    pub fn reset_held(&mut self, reason: ForceReason) -> (d: Decision)
        requires
            old(self).wf(),
        ensures
            final(self).wf(),
            (final(self)@, d) == reset_held(old(self)@, reason),
    {
        let d = self.force_keyboard(reason);
        let mut held: Vec<Option<HeldKey>> = Vec::new();
        for j in 0..KEY_TABLE_SIZE
            invariant
                held@.len() == j,
                forall|x: int| 0 <= x < j ==> held@[x] is None,
        {
            held.push(None);
        }
        self.held = held;
        self.held_count = 0;
        proof {
            assert(table_view(self.held@) =~= Map::<KeyId, HeldKey>::empty());
            lemma_reset_held_wf(old(self)@, reason);
        }
        let pad = self.emit_pad();
        Decision { suppress: d.suppress, pad: Some(pad), ui: d.ui }
    }

    /// Starts binding a key to an action. Only from Keyboard mode.
    pub fn start_binding(&mut self, action: Action, now_ms: u64) -> (r: Result<Decision, CommandError>)
        requires
            old(self).wf(),
        ensures
            final(self).wf(),
            (final(self)@, r) == start_binding(old(self)@, action, now_ms),
    {
        // An expired binding (the timer did not tick) must not refuse the
        // new one with "still binding".
        let expired = self.expire_binding(now_ms);
        proof {
            lemma_start_binding_wf(old(self)@, action, now_ms);
        }
        if self.mode != Mode::Keyboard {
            return Err(CommandError::NotInKeyboardMode(self.mode));
        }
        let d = self.change_mode(Mode::Binding { action, started_at_ms: now_ms }, ModeCause::Gui);
        Ok(d.or(expired))
    }

    /// Cancels binding (button in the window). Outside binding it does
    /// nothing.
    pub fn cancel_binding(&mut self, now_ms: u64) -> (d: Decision)
        requires
            old(self).wf(),
        ensures
            final(self).wf(),
            (final(self)@, d) == cancel_binding(old(self)@, now_ms),
    {
        let expired = self.expire_binding(now_ms);
        proof {
            lemma_cancel_binding_wf(old(self)@, now_ms);
        }
        match self.mode {
            Mode::Binding { .. } => self.leave_binding(Mode::Keyboard, BindingCancel::Gui),
            _ => expired,
        }
    }

    /// Regular tick (the hook thread's timer) — watches the binding timeout.
    pub fn tick(&mut self, now_ms: u64) -> (d: Decision)
        requires
            old(self).wf(),
        ensures
            final(self).wf(),
            (final(self)@, d) == expire(old(self)@, now_ms),
    {
        proof {
            lemma_expire_wf(self@, now_ms);
        }
        self.expire_binding(now_ms)
    }

    /// The pad is unavailable (ViGEmBus missing, pad disconnected, error).
    /// From Gamepad it acts like a forced Keyboard; binding is cancelled.
    pub fn disable(&mut self, reason: DisabledReason) -> (d: Decision)
        requires
            old(self).wf(),
        ensures
            final(self).wf(),
            (final(self)@, d) == disable(old(self)@, reason),
    {
        proof {
            lemma_disable_wf(self@, reason);
        }
        let new = Mode::Disabled { reason };
        match self.mode {
            Mode::Binding { .. } => self.leave_binding(new, BindingCancel::PadStatus),
            m => {
                if m == new {
                    Decision::none()
                } else {
                    self.change_mode(new, ModeCause::PadStatus)
                }
            },
        }
    }

    /// The pad is connected. From Disabled it ALWAYS goes to Keyboard,
    /// never straight to Gamepad — switching is the user's decision.
    pub fn enable(&mut self) -> (d: Decision)
        requires
            old(self).wf(),
        ensures
            final(self).wf(),
            (final(self)@, d) == enable(old(self)@),
    {
        proof {
            lemma_enable_wf(self@);
        }
        match self.mode {
            Mode::Disabled { .. } => self.change_mode(Mode::Keyboard, ModeCause::PadStatus),
            _ => Decision::none(),
        }
    }

    /// Replaces the mapping. In Gamepad, Keyboard is forced first (the pad
    /// must not keep bindings that no longer hold); a running binding is
    /// cancelled.
    pub fn set_mapping(&mut self, mapping: Mapping) -> (d: Decision)
        requires
            old(self).wf(),
            mapping.wf(),
        ensures
            final(self).wf(),
            (final(self)@, d) == set_mapping(old(self)@, mapping@),
    {
        proof {
            mapping.lemma_wf_valid();
            lemma_set_mapping_wf(self@, mapping@);
        }
        let d = match self.mode {
            Mode::Gamepad | Mode::Binding { .. } => self.force_keyboard(ForceReason::MappingChanged),
            Mode::Keyboard | Mode::Disabled { .. } => Decision::none(),
        };
        self.mapping = mapping;
        d
    }
}

// ── The invariant is kept by every step ──────────────────────────────

pub(crate) proof fn lemma_empty_held_neutral()
    ensures
        pad_of_held(Map::empty()) == neutral_pad(),
{
    lemma_no_pad_neutral(Map::empty());
}

/// With no key on the pad the pad is neutral.
pub proof fn lemma_no_pad_neutral(held: Map<KeyId, HeldKey>)
    requires
        no_pad_owner(held),
    ensures
        pad_presses(held) == Set::<(Action, u64)>::empty(),
        pad_of_held(held) == neutral_pad(),
{
    assert(pad_presses(held) =~= Set::<(Action, u64)>::empty());
    lemma_nothing_held_is_neutral(pad_presses(held));
}

proof fn lemma_presses_insert_nonpad(held: Map<KeyId, HeldKey>, k: KeyId, h: HeldKey)
    requires
        !(h.owner is Pad),
        held.contains_key(k) ==> !(held[k].owner is Pad),
    ensures
        pad_presses(held.insert(k, h)) == pad_presses(held),
        pad_presses(held.remove(k)) == pad_presses(held),
{
    let t = held.insert(k, h);
    assert forall|e: (Action, u64)| pad_presses(t).contains(e) == pad_presses(held).contains(e) by {
        if pad_presses(held).contains(e) {
            let k2 = choose|k2: KeyId|
                #[trigger] held.contains_key(k2) && held[k2].owner == Owner::Pad(e.0) && held[k2].seq == e.1;
            assert(t.contains_key(k2));
        }
        if pad_presses(t).contains(e) {
            let k2 = choose|k2: KeyId|
                #[trigger] t.contains_key(k2) && t[k2].owner == Owner::Pad(e.0) && t[k2].seq == e.1;
            assert(held.contains_key(k2));
        }
    }
    assert(pad_presses(t) =~= pad_presses(held));
    let r = held.remove(k);
    assert forall|e: (Action, u64)| pad_presses(r).contains(e) == pad_presses(held).contains(e) by {
        if pad_presses(held).contains(e) {
            let k2 = choose|k2: KeyId|
                #[trigger] held.contains_key(k2) && held[k2].owner == Owner::Pad(e.0) && held[k2].seq == e.1;
            assert(r.contains_key(k2));
        }
        if pad_presses(r).contains(e) {
            let k2 = choose|k2: KeyId|
                #[trigger] r.contains_key(k2) && r[k2].owner == Owner::Pad(e.0) && r[k2].seq == e.1;
            assert(held.contains_key(k2));
        }
    }
    assert(pad_presses(r) =~= pad_presses(held));
}

proof fn lemma_presses_retime(held: Map<KeyId, HeldKey>, k: KeyId, now: u64)
    requires
        held.contains_key(k),
    ensures
        pad_presses(held.insert(k, HeldKey { last_ms: now, ..held[k] })) == pad_presses(held),
{
    let t = held.insert(k, HeldKey { last_ms: now, ..held[k] });
    assert forall|e: (Action, u64)| pad_presses(t).contains(e) == pad_presses(held).contains(e) by {
        if pad_presses(held).contains(e) {
            let k2 = choose|k2: KeyId|
                #[trigger] held.contains_key(k2) && held[k2].owner == Owner::Pad(e.0) && held[k2].seq == e.1;
            assert(t.contains_key(k2));
        }
        if pad_presses(t).contains(e) {
            let k2 = choose|k2: KeyId|
                #[trigger] t.contains_key(k2) && t[k2].owner == Owner::Pad(e.0) && t[k2].seq == e.1;
            assert(held.contains_key(k2));
        }
    }
    assert(pad_presses(t) =~= pad_presses(held));
}

pub(crate) proof fn lemma_sw_mode_wf(v: EngineView, new: Mode)
    requires
        state_wf(v),
    ensures
        view_wf(sw_mode(v, new)),
{
    if v.mode == Mode::Gamepad && new != Mode::Gamepad {
        let held = v.held.map_values(|h: HeldKey| to_swallow(h));
        assert(held.dom() =~= v.held.dom());
        assert forall|k: KeyId| #[trigger] held.contains_key(k) implies !(held[k].owner is Pad) by {}
    }
}

pub(crate) proof fn lemma_expire_wf(v: EngineView, now: u64)
    requires
        view_wf(v),
    ensures
        view_wf(expire(v, now).0),
{
    lemma_sw_mode_wf(v, Mode::Keyboard);
}

proof fn lemma_bind_view_valid(m: MappingView, key: KeyId, action: Action)
    requires
        valid_view(m),
        bind_view(m, key, action) is Ok,
    ensures
        valid_view(bind_view(m, key, action)->Ok_0.0),
{
    let m2 = bind_view(m, key, action)->Ok_0.0;
    assert(m2.binds.dom() =~= m.binds.dom().insert(key));
}

proof fn lemma_toggle_with_wf(v: EngineView, cause: ModeCause)
    requires
        state_wf(v),
        v.mode is Binding || v.mode is Disabled ==> v.last_pad == pad_of_held(v.held),
    ensures
        view_wf(toggle_with(v, cause).0),
{
    lemma_sw_mode_wf(v, Mode::Gamepad);
    lemma_sw_mode_wf(v, Mode::Keyboard);
}

pub(crate) proof fn lemma_key_down_wf(v: EngineView, key: KeyId, now: u64)
    requires
        view_wf(v),
    ensures
        view_wf(key_down(v, key, now).0),
{
    if !key.spec_is_mappable() {
    } else if v.held.contains_key(key) && !is_stale(v.held[key], now) {
        let h = v.held[key];
        lemma_presses_retime(v.held, key, now);
        let held2 = v.held.insert(key, HeldKey { last_ms: now, ..h });
        assert(held2.dom() =~= v.held.dom());
    } else {
        let v1 = EngineView { held: v.held.remove(key), ..v };
        let seq = (v1.seq + 1) as u64;
        let owner = owner_for_new_press(v1, key);
        let v2 = EngineView {
            seq,
            held: v1.held.insert(key, HeldKey { owner, seq, last_ms: now }),
            ..v1
        };
        assert(state_wf(v2));
        if v.mode != Mode::Gamepad {
            lemma_no_pad_neutral(v.held);
            lemma_no_pad_neutral(v2.held);
        }
        if key == v2.mapping.toggle {
            lemma_toggle_with_wf(v2, ModeCause::Hotkey);
        } else if v2.mode is Binding {
            let action = v2.mode->action;
            lemma_sw_mode_wf(v2, Mode::Keyboard);
            if key != esc_key() {
                if bind_view(v2.mapping, key, action) is Ok {
                    lemma_bind_view_valid(v2.mapping, key, action);
                    let m = bind_view(v2.mapping, key, action)->Ok_0.0;
                    lemma_sw_mode_wf(EngineView { mapping: m, ..v2 }, Mode::Keyboard);
                }
            }
        } else {
        }
    }
}

pub(crate) proof fn lemma_key_up_wf(v: EngineView, key: KeyId)
    requires
        view_wf(v),
    ensures
        view_wf(key_up(v, key).0),
{
    if key.spec_is_mappable() && v.held.contains_key(key) {
        let h = v.held[key];
        if !(h.owner is Pad) {
            lemma_presses_insert_nonpad(v.held, key, h);
        }
    }
}

pub(crate) proof fn lemma_on_key_wf(v: EngineView, key: KeyId, down: bool, now: u64)
    requires
        view_wf(v),
    ensures
        view_wf(on_key(v, key, down, now).0),
{
    lemma_expire_wf(v, now);
    let v1 = expire(v, now).0;
    lemma_key_down_wf(v1, key, now);
    lemma_key_up_wf(v1, key);
}

pub(crate) proof fn lemma_toggle_wf(v: EngineView, now: u64)
    requires
        view_wf(v),
    ensures
        view_wf(toggle(v, now).0),
{
    lemma_expire_wf(v, now);
    lemma_toggle_with_wf(expire(v, now).0, ModeCause::Gui);
}

pub(crate) proof fn lemma_force_keyboard_wf(v: EngineView, reason: ForceReason)
    requires
        view_wf(v),
    ensures
        view_wf(force_keyboard(v, reason).0),
        force_keyboard(v, reason).0.mode != Mode::Gamepad,
{
    lemma_sw_mode_wf(v, Mode::Keyboard);
}

pub(crate) proof fn lemma_reset_held_wf(v: EngineView, reason: ForceReason)
    requires
        view_wf(v),
    ensures
        view_wf(reset_held(v, reason).0),
{
    lemma_force_keyboard_wf(v, reason);
    lemma_empty_held_neutral();
}

pub(crate) proof fn lemma_start_binding_wf(v: EngineView, action: Action, now: u64)
    requires
        view_wf(v),
    ensures
        view_wf(start_binding(v, action, now).0),
        view_wf(expire(v, now).0),
{
    lemma_expire_wf(v, now);
    lemma_sw_mode_wf(expire(v, now).0, Mode::Binding { action, started_at_ms: now });
}

pub(crate) proof fn lemma_cancel_binding_wf(v: EngineView, now: u64)
    requires
        view_wf(v),
    ensures
        view_wf(cancel_binding(v, now).0),
        view_wf(expire(v, now).0),
{
    lemma_expire_wf(v, now);
    lemma_sw_mode_wf(expire(v, now).0, Mode::Keyboard);
}

pub(crate) proof fn lemma_disable_wf(v: EngineView, reason: DisabledReason)
    requires
        view_wf(v),
    ensures
        view_wf(disable(v, reason).0),
{
    lemma_sw_mode_wf(v, Mode::Disabled { reason });
}

pub(crate) proof fn lemma_enable_wf(v: EngineView)
    requires
        view_wf(v),
    ensures
        view_wf(enable(v).0),
{
    lemma_sw_mode_wf(v, Mode::Keyboard);
}

pub(crate) proof fn lemma_set_mapping_wf(v: EngineView, m: MappingView)
    requires
        view_wf(v),
        valid_view(m),
    ensures
        view_wf(set_mapping(v, m).0),
        view_wf(force_keyboard(v, ForceReason::MappingChanged).0),
{
    lemma_force_keyboard_wf(v, ForceReason::MappingChanged);
}

// ── Texts ────────────────────────────────────────────────────────────

/// The name of a reason as the program writes it.
pub open spec fn reason_text(r: DisabledReason) -> Seq<char> {
    match r {
        DisabledReason::ViGEmMissing => "ViGEmMissing"@,
        DisabledReason::PadNotConnected => "PadNotConnected"@,
        DisabledReason::PadError => "PadError"@,
    }
}

/// A mode as the program writes it: `Keyboard`,
/// `Binding { action: Button(A), started_at_ms: 5 }`, …
pub open spec fn mode_text(m: Mode) -> Seq<char> {
    match m {
        Mode::Keyboard => "Keyboard"@,
        Mode::Gamepad => "Gamepad"@,
        Mode::Binding { action, started_at_ms } => "Binding { action: "@ + action_text(action)
            + ", started_at_ms: "@ + dec(started_at_ms as nat) + " }"@,
        Mode::Disabled { reason } => "Disabled { reason: "@ + reason_text(reason) + " }"@,
    }
}

/// What a command error says to the user.
pub open spec fn command_error_text(e: CommandError) -> Seq<char> {
    match e {
        CommandError::NotInKeyboardMode(m) => "přiřazovat klávesy jde jen v režimu Klávesnice (teď "@
            + mode_text(m) + ")"@,
    }
}

impl DisabledReason {
    /// The reason's name.
    pub fn name(self) -> (r: &'static str)
        ensures
            r@ == reason_text(self),
    {
        match self {
            DisabledReason::ViGEmMissing => "ViGEmMissing",
            DisabledReason::PadNotConnected => "PadNotConnected",
            DisabledReason::PadError => "PadError",
        }
    }
}

impl Mode {
    /// The mode as text.
    pub fn to_text(self) -> (s: String)
        ensures
            s@ == mode_text(self),
    {
        match self {
            Mode::Keyboard => owned("Keyboard"),
            Mode::Gamepad => owned("Gamepad"),
            Mode::Binding { action, started_at_ms } => {
                let mut s = owned("Binding { action: ");
                s.append(action.to_text().as_str());
                s.append(", started_at_ms: ");
                push_decimal(&mut s, started_at_ms as u128, 0);
                s.append(" }");
                proof {
                    assert(s@ =~= mode_text(self));
                }
                s
            },
            Mode::Disabled { reason } => {
                let mut s = owned("Disabled { reason: ");
                s.append(reason.name());
                s.append(" }");
                s
            },
        }
    }
}

impl CommandError {
    /// The error as the user reads it.
    pub fn to_text(&self) -> (s: String)
        ensures
            s@ == command_error_text(*self),
    {
        match *self {
            CommandError::NotInKeyboardMode(m) => {
                let mut s = owned("přiřazovat klávesy jde jen v režimu Klávesnice (teď ");
                s.append(m.to_text().as_str());
                s.append(")");
                s
            },
        }
    }
}

} // verus!
