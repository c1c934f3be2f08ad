//! What a mapped key does on the gamepad.
use vstd::prelude::*;
use vstd::string::StringExecFns;
use crate::text::owned;

verus! {

/// A button of the Xbox 360 controller. The D-pad is four buttons in
/// XInput, so it lives here and not with the sticks. Guide is left out on
/// purpose: Steam captures it for its own overlay.
#[derive(Clone, Copy, Debug, PartialEq, Eq, Structural, PartialOrd, Ord, Hash)]
pub enum PadButton {
    A,
    B,
    X,
    Y,
    Lb,
    Rb,
    /// Left stick press.
    L3,
    /// Right stick press.
    R3,
    Start,
    Back,
    DpadUp,
    DpadDown,
    DpadLeft,
    DpadRight,
}

/// Position of a button's bit in `wButtons` of `XINPUT_GAMEPAD`.
pub open spec fn button_bit(b: PadButton) -> u16 {
    match b {
        PadButton::DpadUp => 0,
        PadButton::DpadDown => 1,
        PadButton::DpadLeft => 2,
        PadButton::DpadRight => 3,
        PadButton::Start => 4,
        PadButton::Back => 5,
        PadButton::L3 => 6,
        PadButton::R3 => 7,
        PadButton::Lb => 8,
        PadButton::Rb => 9,
        PadButton::A => 12,
        PadButton::B => 13,
        PadButton::X => 14,
        PadButton::Y => 15,
    }
}

/// The bit of a button in `wButtons` (values from XInput.h).
pub open spec fn button_mask(b: PadButton) -> u16 {
    match b {
        PadButton::DpadUp => 0x0001,
        PadButton::DpadDown => 0x0002,
        PadButton::DpadLeft => 0x0004,
        PadButton::DpadRight => 0x0008,
        PadButton::Start => 0x0010,
        PadButton::Back => 0x0020,
        PadButton::L3 => 0x0040,
        PadButton::R3 => 0x0080,
        PadButton::Lb => 0x0100,
        PadButton::Rb => 0x0200,
        PadButton::A => 0x1000,
        PadButton::B => 0x2000,
        PadButton::X => 0x4000,
        PadButton::Y => 0x8000,
    }
}

/// All buttons in the order the window shows them.
pub open spec fn all_buttons() -> Seq<PadButton> {
    seq![
        PadButton::A,
        PadButton::B,
        PadButton::X,
        PadButton::Y,
        PadButton::Lb,
        PadButton::Rb,
        PadButton::L3,
        PadButton::R3,
        PadButton::Start,
        PadButton::Back,
        PadButton::DpadUp,
        PadButton::DpadDown,
        PadButton::DpadLeft,
        PadButton::DpadRight,
    ]
}

impl PadButton {
    /// All buttons in the order the window shows them.
    pub fn all() -> (v: Vec<PadButton>)
        ensures
            v@ == all_buttons(),
    {
        let v = vec![
            PadButton::A,
            PadButton::B,
            PadButton::X,
            PadButton::Y,
            PadButton::Lb,
            PadButton::Rb,
            PadButton::L3,
            PadButton::R3,
            PadButton::Start,
            PadButton::Back,
            PadButton::DpadUp,
            PadButton::DpadDown,
            PadButton::DpadLeft,
            PadButton::DpadRight,
        ];
        assert(v@ == all_buttons());
        v
    }

    /// The button's bit in `wButtons` of `XINPUT_GAMEPAD`; ViGEm takes the
    /// values unchanged, so a [`crate::pad_state::PadState`] needs no
    /// conversion.
    pub fn mask(self) -> (m: u16)
        ensures
            m == button_mask(self),
    {
        match self {
            PadButton::DpadUp => 0x0001,
            PadButton::DpadDown => 0x0002,
            PadButton::DpadLeft => 0x0004,
            PadButton::DpadRight => 0x0008,
            PadButton::Start => 0x0010,
            PadButton::Back => 0x0020,
            PadButton::L3 => 0x0040,
            PadButton::R3 => 0x0080,
            PadButton::Lb => 0x0100,
            PadButton::Rb => 0x0200,
            PadButton::A => 0x1000,
            PadButton::B => 0x2000,
            PadButton::X => 0x4000,
            PadButton::Y => 0x8000,
        }
    }
}

proof fn lemma_shift_table()
    by (bit_vector)
    ensures
        1u16 << 0u16 == 0x0001u16,
        1u16 << 1u16 == 0x0002u16,
        1u16 << 2u16 == 0x0004u16,
        1u16 << 3u16 == 0x0008u16,
        1u16 << 4u16 == 0x0010u16,
        1u16 << 5u16 == 0x0020u16,
        1u16 << 6u16 == 0x0040u16,
        1u16 << 7u16 == 0x0080u16,
        1u16 << 8u16 == 0x0100u16,
        1u16 << 9u16 == 0x0200u16,
        1u16 << 12u16 == 0x1000u16,
        1u16 << 13u16 == 0x2000u16,
        1u16 << 14u16 == 0x4000u16,
        1u16 << 15u16 == 0x8000u16,
{
}

proof fn lemma_single_bits(i: u16, j: u16)
    by (bit_vector)
    requires
        i < 16,
        j < 16,
    ensures
        (1u16 << i) != 0,
        (1u16 << i) & (((1u16 << i) - 1u16) as u16) == 0,
        i != j ==> (1u16 << i) & (1u16 << j) == 0,
{
}

/// Every button owns exactly one bit of `wButtons`, and no two buttons
/// share a bit.
pub proof fn lemma_masks_are_distinct_bits(b1: PadButton, b2: PadButton)
    ensures
        button_mask(b1) != 0,
        button_mask(b1) & ((button_mask(b1) - 1u16) as u16) == 0,
        b1 != b2 ==> button_mask(b1) & button_mask(b2) == 0,
{
    lemma_shift_table();
    assert(button_mask(b1) == 1u16 << button_bit(b1));
    assert(button_mask(b2) == 1u16 << button_bit(b2));
    lemma_single_bits(button_bit(b1), button_bit(b2));
}

/// Direction a stick is pushed.
#[derive(Clone, Copy, Debug, PartialEq, Eq, Structural, PartialOrd, Ord, Hash)]
pub enum StickDir {
    Up,
    Down,
    Left,
    Right,
}

pub open spec fn all_dirs() -> Seq<StickDir> {
    seq![StickDir::Up, StickDir::Down, StickDir::Left, StickDir::Right]
}

impl StickDir {
    /// The four directions.
    pub fn all() -> (v: Vec<StickDir>)
        ensures
            v@ == all_dirs(),
    {
        let v = vec![StickDir::Up, StickDir::Down, StickDir::Left, StickDir::Right];
        assert(v@ == all_dirs());
        v
    }
}

/// What a key is mapped to.
#[derive(Clone, Copy, Debug, PartialEq, Eq, Structural, PartialOrd, Ord, Hash)]
pub enum Action {
    Button(PadButton),
    LeftStick(StickDir),
    RightStick(StickDir),
    LeftTrigger,
    RightTrigger,
}

/// All actions in the order of the mapping editor: sticks, D-pad and
/// buttons, triggers.
pub open spec fn all_actions() -> Seq<Action> {
    all_dirs().map_values(|d: StickDir| Action::LeftStick(d))
        + all_dirs().map_values(|d: StickDir| Action::RightStick(d))
        + all_buttons().map_values(|b: PadButton| Action::Button(b))
        + seq![Action::LeftTrigger, Action::RightTrigger]
}

impl Action {
    /// All actions in the order of the mapping editor: sticks, D-pad and
    /// buttons, triggers.
    pub fn all() -> (v: Vec<Action>)
        ensures
            v@ == all_actions(),
    {
        let mut v: Vec<Action> = Vec::new();
        let dirs = StickDir::all();
        let buttons = PadButton::all();
        for i in 0..dirs.len()
            invariant
                dirs@ == all_dirs(),
                v@ == all_dirs().take(i as int).map_values(|d: StickDir| Action::LeftStick(d)),
        {
            v.push(Action::LeftStick(dirs[i]));
            assert(all_dirs().take(i + 1) == all_dirs().take(i as int).push(all_dirs()[i as int]));
        }
        let ghost left = v@;
        for i in 0..dirs.len()
            invariant
                dirs@ == all_dirs(),
                left == all_dirs().map_values(|d: StickDir| Action::LeftStick(d)),
                v@ == left + all_dirs().take(i as int).map_values(
                    |d: StickDir| Action::RightStick(d),
                ),
        {
            v.push(Action::RightStick(dirs[i]));
            assert(all_dirs().take(i + 1) == all_dirs().take(i as int).push(all_dirs()[i as int]));
        }
        let ghost sticks = v@;
        for i in 0..buttons.len()
            invariant
                buttons@ == all_buttons(),
                sticks == all_dirs().map_values(|d: StickDir| Action::LeftStick(d))
                    + all_dirs().map_values(|d: StickDir| Action::RightStick(d)),
                v@ == sticks + all_buttons().take(i as int).map_values(
                    |b: PadButton| Action::Button(b),
                ),
        {
            v.push(Action::Button(buttons[i]));
            assert(all_buttons().take(i + 1) == all_buttons().take(i as int).push(
                all_buttons()[i as int],
            ));
        }
        v.push(Action::LeftTrigger);
        v.push(Action::RightTrigger);
        assert(all_dirs().take(4) == all_dirs());
        assert(all_buttons().take(14) == all_buttons());
        assert(v@ == all_actions());
        v
    }
}

/// The action list holds 24 actions, each exactly once, and every action
/// is among them.
pub proof fn lemma_all_actions_complete(a: Action)
    ensures
        all_actions().len() == 24,
        all_actions().no_duplicates(),
        all_actions().contains(a),
{
    let s = all_actions();
    assert(s.len() == 24);
    assert(s =~= seq![
        Action::LeftStick(StickDir::Up),
        Action::LeftStick(StickDir::Down),
        Action::LeftStick(StickDir::Left),
        Action::LeftStick(StickDir::Right),
        Action::RightStick(StickDir::Up),
        Action::RightStick(StickDir::Down),
        Action::RightStick(StickDir::Left),
        Action::RightStick(StickDir::Right),
        Action::Button(PadButton::A),
        Action::Button(PadButton::B),
        Action::Button(PadButton::X),
        Action::Button(PadButton::Y),
        Action::Button(PadButton::Lb),
        Action::Button(PadButton::Rb),
        Action::Button(PadButton::L3),
        Action::Button(PadButton::R3),
        Action::Button(PadButton::Start),
        Action::Button(PadButton::Back),
        Action::Button(PadButton::DpadUp),
        Action::Button(PadButton::DpadDown),
        Action::Button(PadButton::DpadLeft),
        Action::Button(PadButton::DpadRight),
        Action::LeftTrigger,
        Action::RightTrigger,
    ]);
    let w = match a {
        Action::LeftStick(d) => match d {
            StickDir::Up => 0int,
            StickDir::Down => 1,
            StickDir::Left => 2,
            StickDir::Right => 3,
        },
        Action::RightStick(d) => match d {
            StickDir::Up => 4int,
            StickDir::Down => 5,
            StickDir::Left => 6,
            StickDir::Right => 7,
        },
        Action::Button(b) => match b {
            PadButton::A => 8int,
            PadButton::B => 9,
            PadButton::X => 10,
            PadButton::Y => 11,
            PadButton::Lb => 12,
            PadButton::Rb => 13,
            PadButton::L3 => 14,
            PadButton::R3 => 15,
            PadButton::Start => 16,
            PadButton::Back => 17,
            PadButton::DpadUp => 18,
            PadButton::DpadDown => 19,
            PadButton::DpadLeft => 20,
            PadButton::DpadRight => 21,
        },
        Action::LeftTrigger => 22int,
        Action::RightTrigger => 23int,
    };
    assert(s[w] == a);
}

// ── Names ────────────────────────────────────────────────────────────

/// The name of a button as the program writes it.
pub open spec fn button_name(b: PadButton) -> Seq<char> {
    match b {
        PadButton::A => "A"@,
        PadButton::B => "B"@,
        PadButton::X => "X"@,
        PadButton::Y => "Y"@,
        PadButton::Lb => "Lb"@,
        PadButton::Rb => "Rb"@,
        PadButton::L3 => "L3"@,
        PadButton::R3 => "R3"@,
        PadButton::Start => "Start"@,
        PadButton::Back => "Back"@,
        PadButton::DpadUp => "DpadUp"@,
        PadButton::DpadDown => "DpadDown"@,
        PadButton::DpadLeft => "DpadLeft"@,
        PadButton::DpadRight => "DpadRight"@,
    }
}

/// The name of a direction as the program writes it.
pub open spec fn dir_name(d: StickDir) -> Seq<char> {
    match d {
        StickDir::Up => "Up"@,
        StickDir::Down => "Down"@,
        StickDir::Left => "Left"@,
        StickDir::Right => "Right"@,
    }
}

/// An action as the program writes it: `Button(A)`, `LeftStick(Up)`,
/// `LeftTrigger`.
pub open spec fn action_text(a: Action) -> Seq<char> {
    match a {
        Action::Button(b) => "Button("@ + button_name(b) + ")"@,
        Action::LeftStick(d) => "LeftStick("@ + dir_name(d) + ")"@,
        Action::RightStick(d) => "RightStick("@ + dir_name(d) + ")"@,
        Action::LeftTrigger => "LeftTrigger"@,
        Action::RightTrigger => "RightTrigger"@,
    }
}

impl PadButton {
    /// The button's name.
    pub fn name(self) -> (r: &'static str)
        ensures
            r@ == button_name(self),
    {
        match self {
            PadButton::A => "A",
            PadButton::B => "B",
            PadButton::X => "X",
            PadButton::Y => "Y",
            PadButton::Lb => "Lb",
            PadButton::Rb => "Rb",
            PadButton::L3 => "L3",
            PadButton::R3 => "R3",
            PadButton::Start => "Start",
            PadButton::Back => "Back",
            PadButton::DpadUp => "DpadUp",
            PadButton::DpadDown => "DpadDown",
            PadButton::DpadLeft => "DpadLeft",
            PadButton::DpadRight => "DpadRight",
        }
    }
}

impl StickDir {
    /// The direction's name.
    pub fn name(self) -> (r: &'static str)
        ensures
            r@ == dir_name(self),
    {
        match self {
            StickDir::Up => "Up",
            StickDir::Down => "Down",
            StickDir::Left => "Left",
            StickDir::Right => "Right",
        }
    }
}

impl Action {
    /// The action as text (`Button(A)`, `LeftStick(Up)`, `LeftTrigger`).
    pub fn to_text(self) -> (s: String)
        ensures
            s@ == action_text(self),
    {
        match self {
            Action::Button(b) => {
                let mut s = owned("Button(");
                s.append(b.name());
                s.append(")");
                s
            },
            Action::LeftStick(d) => {
                let mut s = owned("LeftStick(");
                s.append(d.name());
                s.append(")");
                s
            },
            Action::RightStick(d) => {
                let mut s = owned("RightStick(");
                s.append(d.name());
                s.append(")");
                s
            },
            Action::LeftTrigger => owned("LeftTrigger"),
            Action::RightTrigger => owned("RightTrigger"),
        }
    }
}

} // verus!
