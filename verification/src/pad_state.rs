//! State of the virtual gamepad, computed from the keys that are held.
//!
//! The state is always recomputed as a whole from the set of held keys
//! (a pure function), never adjusted incrementally: an incremental state
//! drifts at the first lost or doubled event, a recomputed one corrects
//! itself with the next event.
use vstd::prelude::*;
use crate::action::{Action, PadButton, StickDir, button_mask};

verus! {

broadcast use vstd::seq_lib::group_seq_properties;

/// Full deflection on one axis.
pub const AXIS_MAX: i16 = 32_767;

/// Deflection of each axis on a diagonal: 32767 / √2 = 23169.8 → 23170,
/// so that moving diagonally is not 41 % faster than moving straight.
pub const AXIS_DIAGONAL: i16 = 23_170;

/// Fully pressed trigger.
pub const TRIGGER_MAX: u8 = 255;

/// State of an Xbox 360 controller — mirrors `XINPUT_GAMEPAD`, so it goes
/// to ViGEm without conversion. Negative deflections are always -32767,
/// never `i16::MIN`.
#[derive(Clone, Copy, Debug, PartialEq, Eq, Structural, Hash)]
pub struct PadState {
    /// Button bit mask ([`PadButton::mask`]).
    pub buttons: u16,
    pub left_trigger: u8,
    pub right_trigger: u8,
    pub thumb_lx: i16,
    /// Positive = up.
    pub thumb_ly: i16,
    pub thumb_rx: i16,
    /// Positive = up.
    pub thumb_ry: i16,
}

/// Nothing pressed, sticks centred.
pub open spec fn neutral_pad() -> PadState {
    PadState {
        buttons: 0,
        left_trigger: 0,
        right_trigger: 0,
        thumb_lx: 0,
        thumb_ly: 0,
        thumb_rx: 0,
        thumb_ry: 0,
    }
}

impl PadState {
    /// Nothing pressed, sticks centred.
    pub fn neutral() -> (p: PadState)
        ensures
            p == neutral_pad(),
    {
        PadState {
            buttons: 0,
            left_trigger: 0,
            right_trigger: 0,
            thumb_lx: 0,
            thumb_ly: 0,
            thumb_rx: 0,
            thumb_ry: 0,
        }
    }

    pub fn is_neutral(&self) -> (r: bool)
        ensures
            r == (*self == neutral_pad()),
    {
        self.buttons == 0 && self.left_trigger == 0 && self.right_trigger == 0
            && self.thumb_lx == 0 && self.thumb_ly == 0 && self.thumb_rx == 0
            && self.thumb_ry == 0
    }

    pub fn is_pressed(&self, button: PadButton) -> (r: bool)
        ensures
            r == (self.buttons & button_mask(button) != 0),
    {
        self.buttons & button.mask() != 0
    }
}

impl Default for PadState {
    fn default() -> (p: PadState)
        ensures
            p == neutral_pad(),
    {
        PadState::neutral()
    }
}

// ── The model: a pad state as a function of the set of held presses ──

/// Some press of `a` is held.
pub open spec fn held(s: Set<(Action, u64)>, a: Action) -> bool {
    exists|m: u64| #[trigger] s.contains((a, m))
}

/// Some press of `p` came after every press of `n` (press order `seq`).
pub open spec fn pressed_later(s: Set<(Action, u64)>, p: Action, n: Action) -> bool {
    exists|mp: u64|
        #[trigger] s.contains((p, mp)) && forall|mn: u64| #[trigger]
            s.contains((n, mn)) ==> mn < mp
}

/// SOCD on one axis: -1, 0 or 1. The direction pressed last wins; a
/// direction held alone wins; equal press order cancels out.
pub open spec fn axis(s: Set<(Action, u64)>, neg: Action, pos: Action) -> int {
    let hn = held(s, neg);
    let hp = held(s, pos);
    if hp && (!hn || pressed_later(s, pos, neg)) {
        1
    } else if hn && (!hp || pressed_later(s, neg, pos)) {
        -1
    } else {
        0
    }
}

/// Deflection of both axes of one stick, with the diagonal shortened.
pub open spec fn stick_value(x: int, y: int) -> (i16, i16) {
    let mag: int = if x != 0 && y != 0 {
        AXIS_DIAGONAL as int
    } else {
        AXIS_MAX as int
    };
    ((x * mag) as i16, (y * mag) as i16)
}

/// The button word from which buttons are held (XInput bit layout).
#[verifier::opaque]
pub open spec fn bits14(
    a: bool,
    b: bool,
    x: bool,
    y: bool,
    lb: bool,
    rb: bool,
    l3: bool,
    r3: bool,
    start: bool,
    back: bool,
    up: bool,
    down: bool,
    left: bool,
    right: bool,
) -> u16 {
    (if up { 0x0001u16 } else { 0u16 }) | (if down { 0x0002u16 } else { 0u16 }) | (if left {
        0x0004u16
    } else {
        0u16
    }) | (if right { 0x0008u16 } else { 0u16 }) | (if start { 0x0010u16 } else { 0u16 }) | (
    if back { 0x0020u16 } else { 0u16 }) | (if l3 { 0x0040u16 } else { 0u16 }) | (if r3 {
        0x0080u16
    } else {
        0u16
    }) | (if lb { 0x0100u16 } else { 0u16 }) | (if rb { 0x0200u16 } else { 0u16 }) | (if a {
        0x1000u16
    } else {
        0u16
    }) | (if b { 0x2000u16 } else { 0u16 }) | (if x { 0x4000u16 } else { 0u16 }) | (if y {
        0x8000u16
    } else {
        0u16
    })
}

pub open spec fn button_bits(s: Set<(Action, u64)>) -> u16 {
    bits14(
        held(s, Action::Button(PadButton::A)),
        held(s, Action::Button(PadButton::B)),
        held(s, Action::Button(PadButton::X)),
        held(s, Action::Button(PadButton::Y)),
        held(s, Action::Button(PadButton::Lb)),
        held(s, Action::Button(PadButton::Rb)),
        held(s, Action::Button(PadButton::L3)),
        held(s, Action::Button(PadButton::R3)),
        held(s, Action::Button(PadButton::Start)),
        held(s, Action::Button(PadButton::Back)),
        held(s, Action::Button(PadButton::DpadUp)),
        held(s, Action::Button(PadButton::DpadDown)),
        held(s, Action::Button(PadButton::DpadLeft)),
        held(s, Action::Button(PadButton::DpadRight)),
    )
}

/// The pad state for a set of held presses `(action, seq)`:
/// - a button is pressed when any of its keys is held;
/// - a trigger is 255 when any of its keys is held, else 0;
/// - on each stick axis the direction pressed last wins (SOCD); the
///   result (x, y) ∈ {-1, 0, 1}² is scaled to 32767 on an axis and to
///   23170 per axis on a diagonal.
pub open spec fn pad_of(s: Set<(Action, u64)>) -> PadState {
    let l = stick_value(
        axis(s, Action::LeftStick(StickDir::Left), Action::LeftStick(StickDir::Right)),
        axis(s, Action::LeftStick(StickDir::Down), Action::LeftStick(StickDir::Up)),
    );
    let r = stick_value(
        axis(s, Action::RightStick(StickDir::Left), Action::RightStick(StickDir::Right)),
        axis(s, Action::RightStick(StickDir::Down), Action::RightStick(StickDir::Up)),
    );
    PadState {
        buttons: button_bits(s),
        left_trigger: if held(s, Action::LeftTrigger) { TRIGGER_MAX } else { 0 },
        right_trigger: if held(s, Action::RightTrigger) { TRIGGER_MAX } else { 0 },
        thumb_lx: l.0,
        thumb_ly: l.1,
        thumb_rx: r.0,
        thumb_ry: r.1,
    }
}

proof fn lemma_bits14(
    a: bool,
    b: bool,
    x: bool,
    y: bool,
    lb: bool,
    rb: bool,
    l3: bool,
    r3: bool,
    start: bool,
    back: bool,
    up: bool,
    down: bool,
    left: bool,
    right: bool,
)
    by (bit_vector)
    ensures
        (bits14(a, b, x, y, lb, rb, l3, r3, start, back, up, down, left, right) & 0x1000u16
            != 0) == a,
        (bits14(a, b, x, y, lb, rb, l3, r3, start, back, up, down, left, right) & 0x2000u16
            != 0) == b,
        (bits14(a, b, x, y, lb, rb, l3, r3, start, back, up, down, left, right) & 0x4000u16
            != 0) == x,
        (bits14(a, b, x, y, lb, rb, l3, r3, start, back, up, down, left, right) & 0x8000u16
            != 0) == y,
        (bits14(a, b, x, y, lb, rb, l3, r3, start, back, up, down, left, right) & 0x0100u16
            != 0) == lb,
        (bits14(a, b, x, y, lb, rb, l3, r3, start, back, up, down, left, right) & 0x0200u16
            != 0) == rb,
        (bits14(a, b, x, y, lb, rb, l3, r3, start, back, up, down, left, right) & 0x0040u16
            != 0) == l3,
        (bits14(a, b, x, y, lb, rb, l3, r3, start, back, up, down, left, right) & 0x0080u16
            != 0) == r3,
        (bits14(a, b, x, y, lb, rb, l3, r3, start, back, up, down, left, right) & 0x0010u16
            != 0) == start,
        (bits14(a, b, x, y, lb, rb, l3, r3, start, back, up, down, left, right) & 0x0020u16
            != 0) == back,
        (bits14(a, b, x, y, lb, rb, l3, r3, start, back, up, down, left, right) & 0x0001u16
            != 0) == up,
        (bits14(a, b, x, y, lb, rb, l3, r3, start, back, up, down, left, right) & 0x0002u16
            != 0) == down,
        (bits14(a, b, x, y, lb, rb, l3, r3, start, back, up, down, left, right) & 0x0004u16
            != 0) == left,
        (bits14(a, b, x, y, lb, rb, l3, r3, start, back, up, down, left, right) & 0x0008u16
            != 0) == right,
        bits14(false, false, false, false, false, false, false, false, false, false, false, false,
            false, false) == 0u16,
{
}


proof fn lemma_held_insert(s: Set<(Action, u64)>, e: (Action, u64), a: Action)
    ensures
        held(s.insert(e), a) == (held(s, a) || e.0 == a),
{
    if e.0 == a {
        assert(s.insert(e).contains((a, e.1)));
    }
    if held(s, a) {
        let m = choose|m: u64| s.contains((a, m));
        assert(s.insert(e).contains((a, m)));
    }
}

/// A button is pressed in the computed state exactly when some press of
/// it is held.
/// A button is pressed in the computed state exactly when some press of
/// it is held.
pub proof fn lemma_button_pressed_iff_held(s: Set<(Action, u64)>, b: PadButton)
    ensures
        (pad_of(s).buttons & button_mask(b) != 0) == held(s, Action::Button(b)),
{
    assert(pad_of(s).buttons == button_bits(s));
    lemma_button_bits_iff_held(s, b);
}

proof fn lemma_button_bits_iff_held(s: Set<(Action, u64)>, b: PadButton)
    ensures
        (button_bits(s) & button_mask(b) != 0) == held(s, Action::Button(b)),
{
    lemma_bits_select(
        b,
        held(s, Action::Button(PadButton::A)),
        held(s, Action::Button(PadButton::B)),
        held(s, Action::Button(PadButton::X)),
        held(s, Action::Button(PadButton::Y)),
        held(s, Action::Button(PadButton::Lb)),
        held(s, Action::Button(PadButton::Rb)),
        held(s, Action::Button(PadButton::L3)),
        held(s, Action::Button(PadButton::R3)),
        held(s, Action::Button(PadButton::Start)),
        held(s, Action::Button(PadButton::Back)),
        held(s, Action::Button(PadButton::DpadUp)),
        held(s, Action::Button(PadButton::DpadDown)),
        held(s, Action::Button(PadButton::DpadLeft)),
        held(s, Action::Button(PadButton::DpadRight)),
    );
}

/// Flag of button `b` among the fourteen.
spec fn select14(
    b: PadButton,
    a: bool,
    bb: bool,
    x: bool,
    y: bool,
    lb: bool,
    rb: bool,
    l3: bool,
    r3: bool,
    st: bool,
    bk: bool,
    up: bool,
    dn: bool,
    lf: bool,
    rt: bool,
) -> bool {
    match b {
        PadButton::A => a,
        PadButton::B => bb,
        PadButton::X => x,
        PadButton::Y => y,
        PadButton::Lb => lb,
        PadButton::Rb => rb,
        PadButton::L3 => l3,
        PadButton::R3 => r3,
        PadButton::Start => st,
        PadButton::Back => bk,
        PadButton::DpadUp => up,
        PadButton::DpadDown => dn,
        PadButton::DpadLeft => lf,
        PadButton::DpadRight => rt,
    }
}

proof fn lemma_bits_select(
    b: PadButton,
    a: bool,
    bb: bool,
    x: bool,
    y: bool,
    lb: bool,
    rb: bool,
    l3: bool,
    r3: bool,
    st: bool,
    bk: bool,
    up: bool,
    dn: bool,
    lf: bool,
    rt: bool,
)
    ensures
        (bits14(a, bb, x, y, lb, rb, l3, r3, st, bk, up, dn, lf, rt) & button_mask(b) != 0)
            == select14(b, a, bb, x, y, lb, rb, l3, r3, st, bk, up, dn, lf, rt),
{
    lemma_bits14(a, bb, x, y, lb, rb, l3, r3, st, bk, up, dn, lf, rt);
}

/// With nothing held the pad is neutral.
pub proof fn lemma_nothing_held_is_neutral(s: Set<(Action, u64)>)
    requires
        forall|e: (Action, u64)| !s.contains(e),
    ensures
        pad_of(s) == neutral_pad(),
{
    lemma_bits14(
        false, false, false, false, false, false, false, false, false, false, false, false,
        false, false,
    );
    assert(forall|a: Action| !held(s, a));
}

/// `o` is the newest press order of `a` in `s` (`None`: `a` not held).
pub open spec fn newest_is(s: Set<(Action, u64)>, a: Action, o: Option<u64>) -> bool {
    match o {
        None => !held(s, a),
        Some(m) => s.contains((a, m)) && forall|m2: u64| #[trigger] s.contains((a, m2)) ==> m2 <= m,
    }
}

pub open spec fn newer(o: Option<u64>, seq: u64) -> Option<u64> {
    match o {
        None => Some(seq),
        Some(m) => Some(if m >= seq { m } else { seq }),
    }
}

proof fn lemma_newest_insert(s: Set<(Action, u64)>, e: (Action, u64), a: Action, o: Option<u64>)
    requires
        newest_is(s, a, o),
    ensures
        newest_is(s.insert(e), a, if e.0 == a { newer(o, e.1) } else { o }),
{
    lemma_held_insert(s, e, a);
    let t = s.insert(e);
    if e.0 == a {
        match o {
            None => {
                assert forall|m2: u64| #[trigger] t.contains((a, m2)) implies m2 <= e.1 by {
                    if m2 != e.1 {
                        assert(s.contains((a, m2)));
                    }
                }
            },
            Some(m) => {
                assert(t.contains((a, m)));
            },
        }
    } else {
        match o {
            None => {},
            Some(m) => {
                assert(t.contains((a, m)));
                assert forall|m2: u64| #[trigger] t.contains((a, m2)) implies m2 <= m by {
                    assert(s.contains((a, m2)));
                }
            },
        }
    }
}

/// SOCD on one axis from the newest press of each direction.
pub open spec fn socd_spec(negative: Option<u64>, positive: Option<u64>) -> int {
    match (negative, positive) {
        (None, None) => 0,
        (Some(_), None) => -1,
        (None, Some(_)) => 1,
        (Some(n), Some(p)) => if p > n {
            1
        } else if n > p {
            -1
        } else {
            0
        },
    }
}

proof fn lemma_socd_is_axis(s: Set<(Action, u64)>, n: Action, p: Action, on: Option<u64>, op: Option<u64>)
    requires
        newest_is(s, n, on),
        newest_is(s, p, op),
        n != p,
    ensures
        socd_spec(on, op) == axis(s, n, p),
{
    match (on, op) {
        (Some(mn), Some(mp)) => {
            assert(held(s, n));
            assert(held(s, p));
            if mp > mn {
                assert(pressed_later(s, p, n));
            } else if mn > mp {
                assert(pressed_later(s, n, p));
                assert(!pressed_later(s, p, n));
            } else {
                assert(!pressed_later(s, p, n));
                assert(!pressed_later(s, n, p));
            }
        },
        (Some(mn), None) => {
            assert(held(s, n));
        },
        (None, Some(mp)) => {
            assert(held(s, p));
        },
        (None, None) => {},
    }
}

/// Newest press of each of the four directions of one stick.
struct StickPresses {
    up: Option<u64>,
    down: Option<u64>,
    left: Option<u64>,
    right: Option<u64>,
}

impl StickPresses {
    spec fn get(&self, d: StickDir) -> Option<u64> {
        match d {
            StickDir::Up => self.up,
            StickDir::Down => self.down,
            StickDir::Left => self.left,
            StickDir::Right => self.right,
        }
    }

    /// Newest presses of the stick `stick` in `s`.
    spec fn tracks(&self, s: Set<(Action, u64)>, stick: spec_fn(StickDir) -> Action) -> bool {
        &&& newest_is(s, stick(StickDir::Up), self.up)
        &&& newest_is(s, stick(StickDir::Down), self.down)
        &&& newest_is(s, stick(StickDir::Left), self.left)
        &&& newest_is(s, stick(StickDir::Right), self.right)
    }

    fn new() -> (p: StickPresses)
        ensures
            p.up is None && p.down is None && p.left is None && p.right is None,
    {
        StickPresses { up: None, down: None, left: None, right: None }
    }

    fn press(&mut self, dir: StickDir, seq: u64)
        ensures
            forall|d: StickDir|
                #[trigger] final(self).get(d) == if d == dir {
                    newer(old(self).get(d), seq)
                } else {
                    old(self).get(d)
                },
    {
        let slot = match dir {
            StickDir::Up => self.up,
            StickDir::Down => self.down,
            StickDir::Left => self.left,
            StickDir::Right => self.right,
        };
        // With several keys on one direction the newest press counts.
        let v = match slot {
            None => seq,
            Some(s) => if s >= seq {
                s
            } else {
                seq
            },
        };
        match dir {
            StickDir::Up => self.up = Some(v),
            StickDir::Down => self.down = Some(v),
            StickDir::Left => self.left = Some(v),
            StickDir::Right => self.right = Some(v),
        }
    }

    /// Deflection of the stick as (x, y).
    fn value(&self) -> (r: (i16, i16))
        ensures
            r == stick_value(socd_spec(self.left, self.right), socd_spec(self.down, self.up)),
    {
        let x = socd(self.left, self.right);
        // In XInput positive Y is UP: W = Up = +Y.
        let y = socd(self.down, self.up);
        let mag = if x != 0 && y != 0 {
            AXIS_DIAGONAL
        } else {
            AXIS_MAX
        };
        (scale(x, mag), scale(y, mag))
    }
}

/// SOCD on one axis: the direction pressed LAST (higher `seq`) wins; equal
/// `seq` is neutral, so the result never depends on the input order.
fn socd(negative: Option<u64>, positive: Option<u64>) -> (r: i8)
    ensures
        r as int == socd_spec(negative, positive),
{
    match (negative, positive) {
        (None, None) => 0,
        (Some(_), None) => -1,
        (None, Some(_)) => 1,
        (Some(n), Some(p)) => if p > n {
            1
        } else if n > p {
            -1
        } else {
            0
        },
    }
}

/// -1/0/1 × a positive magnitude; `-mag` of a positive `mag` never gives
/// `i16::MIN`.
fn scale(dir: i8, mag: i16) -> (r: i16)
    requires
        mag > 0,
        -1 <= dir <= 1,
    ensures
        r as int == dir as int * mag as int,
{
    match dir {
        1 => mag,
        -1 => -mag,
        _ => 0,
    }
}

/// Position of a button among the held-flags (the order of
/// [`crate::action::all_buttons`]).
pub open spec fn button_slot(b: PadButton) -> int {
    match b {
        PadButton::A => 0,
        PadButton::B => 1,
        PadButton::X => 2,
        PadButton::Y => 3,
        PadButton::Lb => 4,
        PadButton::Rb => 5,
        PadButton::L3 => 6,
        PadButton::R3 => 7,
        PadButton::Start => 8,
        PadButton::Back => 9,
        PadButton::DpadUp => 10,
        PadButton::DpadDown => 11,
        PadButton::DpadLeft => 12,
        PadButton::DpadRight => 13,
    }
}

fn button_slot_exec(b: PadButton) -> (i: usize)
    ensures
        i == button_slot(b),
{
    match b {
        PadButton::A => 0,
        PadButton::B => 1,
        PadButton::X => 2,
        PadButton::Y => 3,
        PadButton::Lb => 4,
        PadButton::Rb => 5,
        PadButton::L3 => 6,
        PadButton::R3 => 7,
        PadButton::Start => 8,
        PadButton::Back => 9,
        PadButton::DpadUp => 10,
        PadButton::DpadDown => 11,
        PadButton::DpadLeft => 12,
        PadButton::DpadRight => 13,
    }
}

/// The button word from the fourteen held-flags.
fn button_word(f: &Vec<bool>) -> (w: u16)
    requires
        f.len() == 14,
    ensures
        w == bits14(
            f@[0],
            f@[1],
            f@[2],
            f@[3],
            f@[4],
            f@[5],
            f@[6],
            f@[7],
            f@[8],
            f@[9],
            f@[10],
            f@[11],
            f@[12],
            f@[13],
        ),
{
    reveal(bits14);
    (if f[10] { 0x0001u16 } else { 0u16 }) | (if f[11] { 0x0002u16 } else { 0u16 }) | (if f[12] {
        0x0004u16
    } else {
        0u16
    }) | (if f[13] { 0x0008u16 } else { 0u16 }) | (if f[8] { 0x0010u16 } else { 0u16 }) | (if f[9] {
        0x0020u16
    } else {
        0u16
    }) | (if f[6] { 0x0040u16 } else { 0u16 }) | (if f[7] { 0x0080u16 } else { 0u16 }) | (if f[4] {
        0x0100u16
    } else {
        0u16
    }) | (if f[5] { 0x0200u16 } else { 0u16 }) | (if f[0] { 0x1000u16 } else { 0u16 }) | (if f[1] {
        0x2000u16
    } else {
        0u16
    }) | (if f[2] { 0x4000u16 } else { 0u16 }) | (if f[3] { 0x8000u16 } else { 0u16 })
}

/// Computes the gamepad state from the keys the pad holds: the action of
/// each held key and the order of its press (`seq`). Several keys on one
/// action are fine:
/// - a button is pressed when ANY of its keys is held;
/// - a trigger is 255 when any of its keys is held, else 0;
/// - on each stick axis the direction pressed last wins (SOCD).
///
/// The input order has no influence on the result.
pub fn compute_pad_state(pressed: &[(Action, u64)]) -> (p: PadState)
    ensures
        p == pad_of(pressed@.to_set()),
{
    let mut flags: Vec<bool> = Vec::new();
    for k in 0..14usize
        invariant
            flags@.len() == k,
            forall|j: int| 0 <= j < k ==> !flags@[j],
    {
        flags.push(false);
    }
    let mut left_trigger: u8 = 0;
    let mut right_trigger: u8 = 0;
    let mut left = StickPresses::new();
    let mut right = StickPresses::new();
    let ghost ls = |d: StickDir| Action::LeftStick(d);
    let ghost rs = |d: StickDir| Action::RightStick(d);
    proof {
        let s0 = pressed@.take(0).to_set();
        assert(s0 =~= Set::empty());
        assert(forall|a: Action| !held(s0, a));
    }
    let n = pressed.len();
    for i in 0..n
        invariant
            n == pressed@.len(),
            flags@.len() == 14,
            forall|b: PadButton|
                #[trigger] flags@[button_slot(b)] == held(
                    pressed@.take(i as int).to_set(),
                    Action::Button(b),
                ),
            left_trigger == if held(pressed@.take(i as int).to_set(), Action::LeftTrigger) {
                TRIGGER_MAX
            } else {
                0
            },
            right_trigger == if held(pressed@.take(i as int).to_set(), Action::RightTrigger) {
                TRIGGER_MAX
            } else {
                0
            },
            left.tracks(pressed@.take(i as int).to_set(), ls),
            right.tracks(pressed@.take(i as int).to_set(), rs),
            ls == (|d: StickDir| Action::LeftStick(d)),
            rs == (|d: StickDir| Action::RightStick(d)),
    {
        let (action, seq) = pressed[i];
        let ghost s0 = pressed@.take(i as int).to_set();
        let ghost e = pressed@[i as int];
        let ghost old_left = left;
        let ghost old_right = right;
        let ghost old_flags = flags@;
        proof {
            assert(pressed@.take(i + 1) == pressed@.take(i as int).push(e));
            assert(pressed@.take(i + 1).to_set() == s0.insert(e));
            assert forall|a: Action| #[trigger] held(s0.insert(e), a) == (held(s0, a) || e.0 == a) by {
                lemma_held_insert(s0, e, a);
            }
            lemma_newest_insert(s0, e, ls(StickDir::Up), left.up);
            lemma_newest_insert(s0, e, ls(StickDir::Down), left.down);
            lemma_newest_insert(s0, e, ls(StickDir::Left), left.left);
            lemma_newest_insert(s0, e, ls(StickDir::Right), left.right);
            lemma_newest_insert(s0, e, rs(StickDir::Up), right.up);
            lemma_newest_insert(s0, e, rs(StickDir::Down), right.down);
            lemma_newest_insert(s0, e, rs(StickDir::Left), right.left);
            lemma_newest_insert(s0, e, rs(StickDir::Right), right.right);
        }
        match action {
            Action::Button(b) => {
                let j = button_slot_exec(b);
                flags.set(j, true);
            },
            Action::LeftTrigger => left_trigger = TRIGGER_MAX,
            Action::RightTrigger => right_trigger = TRIGGER_MAX,
            Action::LeftStick(dir) => left.press(dir, seq),
            Action::RightStick(dir) => right.press(dir, seq),
        }
        proof {
            let s1 = pressed@.take(i + 1).to_set();
            assert forall|b: PadButton| #[trigger] flags@[button_slot(b)] == held(s1, Action::Button(b)) by {
                assert(old_flags[button_slot(b)] == held(s0, Action::Button(b)));
            }
            assert(left.get(StickDir::Up) == left.up);
            assert(left.get(StickDir::Down) == left.down);
            assert(left.get(StickDir::Left) == left.left);
            assert(left.get(StickDir::Right) == left.right);
            assert(right.get(StickDir::Up) == right.up);
            assert(right.get(StickDir::Down) == right.down);
            assert(right.get(StickDir::Left) == right.left);
            assert(right.get(StickDir::Right) == right.right);
            assert(old_left.get(StickDir::Up) == old_left.up);
            assert(old_left.get(StickDir::Down) == old_left.down);
            assert(old_left.get(StickDir::Left) == old_left.left);
            assert(old_left.get(StickDir::Right) == old_left.right);
            assert(old_right.get(StickDir::Up) == old_right.up);
            assert(old_right.get(StickDir::Down) == old_right.down);
            assert(old_right.get(StickDir::Left) == old_right.left);
            assert(old_right.get(StickDir::Right) == old_right.right);
        }
    }
    let buttons = button_word(&flags);
    let (thumb_lx, thumb_ly) = left.value();
    let (thumb_rx, thumb_ry) = right.value();
    proof {
        let s = pressed@.to_set();
        assert(pressed@.take(n as int) == pressed@);
        assert(flags@[button_slot(PadButton::A)] == held(s, Action::Button(PadButton::A)));
        assert(flags@[button_slot(PadButton::B)] == held(s, Action::Button(PadButton::B)));
        assert(flags@[button_slot(PadButton::X)] == held(s, Action::Button(PadButton::X)));
        assert(flags@[button_slot(PadButton::Y)] == held(s, Action::Button(PadButton::Y)));
        assert(flags@[button_slot(PadButton::Lb)] == held(s, Action::Button(PadButton::Lb)));
        assert(flags@[button_slot(PadButton::Rb)] == held(s, Action::Button(PadButton::Rb)));
        assert(flags@[button_slot(PadButton::L3)] == held(s, Action::Button(PadButton::L3)));
        assert(flags@[button_slot(PadButton::R3)] == held(s, Action::Button(PadButton::R3)));
        assert(flags@[button_slot(PadButton::Start)] == held(s, Action::Button(PadButton::Start)));
        assert(flags@[button_slot(PadButton::Back)] == held(s, Action::Button(PadButton::Back)));
        assert(flags@[button_slot(PadButton::DpadUp)] == held(s, Action::Button(PadButton::DpadUp)));
        assert(flags@[button_slot(PadButton::DpadDown)] == held(s, Action::Button(PadButton::DpadDown)));
        assert(flags@[button_slot(PadButton::DpadLeft)] == held(s, Action::Button(PadButton::DpadLeft)));
        assert(flags@[button_slot(PadButton::DpadRight)] == held(s, Action::Button(PadButton::DpadRight)));
        lemma_socd_is_axis(s, ls(StickDir::Left), ls(StickDir::Right), left.left, left.right);
        lemma_socd_is_axis(s, ls(StickDir::Down), ls(StickDir::Up), left.down, left.up);
        lemma_socd_is_axis(s, rs(StickDir::Left), rs(StickDir::Right), right.left, right.right);
        lemma_socd_is_axis(s, rs(StickDir::Down), rs(StickDir::Up), right.down, right.up);
    }
    PadState { buttons, left_trigger, right_trigger, thumb_lx, thumb_ly, thumb_rx, thumb_ry }
}

/// The input order has no influence on the result: two lists with the
/// same presses (a permutation of each other) give the same state.
pub proof fn lemma_pad_state_order_independent(a: Seq<(Action, u64)>, b: Seq<(Action, u64)>)
    requires
        a.to_multiset() =~= b.to_multiset(),
    ensures
        pad_of(a.to_set()) == pad_of(b.to_set()),
{
    assert forall|e: (Action, u64)| a.contains(e) == b.contains(e) by {
        assert(a.contains(e) == (a.to_multiset().count(e) > 0));
        assert(b.contains(e) == (b.to_multiset().count(e) > 0));
    }
    assert(a.to_set() =~= b.to_set());
}

/// Every stick axis is 0, ±23170 or ±32767 — never `i16::MIN`.
pub proof fn lemma_pad_axes_in_range(s: Set<(Action, u64)>)
    ensures
        axis_value_ok(pad_of(s).thumb_lx),
        axis_value_ok(pad_of(s).thumb_ly),
        axis_value_ok(pad_of(s).thumb_rx),
        axis_value_ok(pad_of(s).thumb_ry),
{
    let l = Action::LeftStick(StickDir::Left);
    lemma_stick_value_ok(
        axis(s, Action::LeftStick(StickDir::Left), Action::LeftStick(StickDir::Right)),
        axis(s, Action::LeftStick(StickDir::Down), Action::LeftStick(StickDir::Up)),
    );
    lemma_stick_value_ok(
        axis(s, Action::RightStick(StickDir::Left), Action::RightStick(StickDir::Right)),
        axis(s, Action::RightStick(StickDir::Down), Action::RightStick(StickDir::Up)),
    );
}

proof fn lemma_stick_value_ok(x: int, y: int)
    requires
        -1 <= x <= 1,
        -1 <= y <= 1,
    ensures
        axis_value_ok(stick_value(x, y).0),
        axis_value_ok(stick_value(x, y).1),
{
    let mag: int = if x != 0 && y != 0 {
        23_170
    } else {
        32_767
    };
    assert(x * mag == 0 || x * mag == mag || x * mag == -mag) by (nonlinear_arith)
        requires
            -1 <= x <= 1,
    ;
    assert(y * mag == 0 || y * mag == mag || y * mag == -mag) by (nonlinear_arith)
        requires
            -1 <= y <= 1,
    ;
}

/// The values a stick axis can take.
pub open spec fn axis_value_ok(v: i16) -> bool {
    v == 0 || v == 23_170 || v == -23_170 || v == 32_767 || v == -32_767
}

} // verus!
