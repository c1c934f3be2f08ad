//! What the installer's window shows: the phase, the steps and their
//! states, the closing message and the buttons. Drawing it is the
//! window's business; this is the state it draws.
use vstd::prelude::*;
use crate::text::owned;

verus! {

/// A colour as GDI takes it: `0x00BBGGRR`.
pub fn rgb(r: u8, g: u8, b: u8) -> (c: u32)
    ensures
        c == r + g * 0x100 + b * 0x10000,
{
    let c = (r as u32) | ((g as u32) << 8) | ((b as u32) << 16);
    assert(c == r + g * 0x100 + b * 0x10000) by (bit_vector)
        requires
            c == (r as u32) | ((g as u32) << 8) | ((b as u32) << 16),
    ;
    c
}

/// In which phase the installer is.
#[derive(Clone, Copy, Debug, PartialEq, Eq, Structural)]
pub enum Phase {
    /// Waiting for the user.
    Ready,
    /// Working.
    Working,
    Done,
    Failed,
}

/// State of one step.
#[derive(Clone, Copy, Debug, PartialEq, Eq, Structural)]
pub enum StepState {
    Waiting,
    Active,
    Done,
    Failed,
}

/// A link the main button opens when the work is done (download of
/// WebView2 or ViGEmBus): an address in the message text cannot be copied
/// out of the window, a button can be clicked.
#[derive(Debug, PartialEq, Eq)]
pub struct Link {
    pub label: String,
    pub url: String,
}

/// What the window draws. Shared with the working thread.
#[derive(Debug)]
pub struct State {
    pub phase: Phase,
    pub title: String,
    pub subtitle: String,
    /// Note in the footer before the work starts ("what will happen").
    pub footer: String,
    /// The steps and their states.
    pub steps: Vec<(String, StepState)>,
    /// Line under the progress bar — what is happening now.
    pub status: String,
    /// Closing message (done / error).
    pub message: String,
    /// Done, but the user has to do or know something. The message is
    /// drawn in a warning colour and the window does not close by itself.
    pub attention: bool,
    /// Where the main button leads after the work is done.
    pub link: Option<Link>,
    /// Label of the main button; empty = no main button.
    pub primary: String,
    pub secondary: String,
}

fn first_active(steps: &Vec<(String, StepState)>) -> (r: Option<usize>)
    ensures
        match r {
            Some(i) => i < steps@.len() && steps@[i as int].1 == StepState::Active && forall|j: int|
                0 <= j < i ==> steps@[j].1 != StepState::Active,
            None => forall|j: int| 0 <= j < steps@.len() ==> steps@[j].1 != StepState::Active,
        },
{
    let mut i: usize = 0;
    while i < steps.len()
        invariant
            i <= steps@.len(),
            forall|j: int| 0 <= j < i ==> steps@[j].1 != StepState::Active,
        decreases steps@.len() - i,
    {
        if steps[i].1 == StepState::Active {
            return Some(i);
        }
        i = i + 1;
    }
    None
}

impl State {
    /// A window waiting for the user, all steps waiting.
    pub fn new(title: &str, subtitle: &str, footer: &str, steps: &[&str], primary: &str) -> (s:
        State)
        ensures
            s.phase == Phase::Ready,
            s.title@ == title@,
            s.subtitle@ == subtitle@,
            s.footer@ == footer@,
            s.steps@.len() == steps@.len(),
            forall|i: int|
                0 <= i < steps@.len() ==> (#[trigger] s.steps@[i]).0@ == steps@[i]@ && s.steps@[i].1
                    == StepState::Waiting,
            s.status@ == Seq::<char>::empty(),
            s.message@ == Seq::<char>::empty(),
            !s.attention,
            s.link is None,
            s.primary@ == primary@,
            s.secondary@ == "Zavřít"@,
    {
        let mut list: Vec<(String, StepState)> = Vec::new();
        let mut i: usize = 0;
        while i < steps.len()
            invariant
                i <= steps@.len(),
                list@.len() == i,
                forall|j: int|
                    0 <= j < i ==> (#[trigger] list@[j]).0@ == steps@[j]@ && list@[j].1
                        == StepState::Waiting,
            decreases steps@.len() - i,
        {
            list.push((owned(steps[i]), StepState::Waiting));
            i = i + 1;
        }
        State {
            phase: Phase::Ready,
            title: owned(title),
            subtitle: owned(subtitle),
            footer: owned(footer),
            steps: list,
            status: String::new(),
            message: String::new(),
            attention: false,
            link: None,
            primary: owned(primary),
            secondary: owned("Zavřít"),
        }
    }

    /// Marks step `idx` as running, all before it as done and all after it
    /// as waiting.
    pub fn step(&mut self, idx: usize, status: &str)
        ensures
            final(self).steps@.len() == old(self).steps@.len(),
            forall|i: int|
                0 <= i < old(self).steps@.len() ==> (#[trigger] final(self).steps@[i]).0 == old(
                    self,
                ).steps@[i].0 && final(self).steps@[i].1 == (if i < idx {
                    StepState::Done
                } else if i == idx {
                    StepState::Active
                } else {
                    StepState::Waiting
                }),
            final(self).status@ == status@,
            *final(self) == (State {
                steps: final(self).steps,
                status: final(self).status,
                ..*old(self)
            }),
    {
        let n = self.steps.len();
        let mut i: usize = 0;
        while i < n
            invariant
                n == self.steps@.len(),
                n == old(self).steps@.len(),
                i <= n,
                forall|j: int|
                    0 <= j < n ==> (#[trigger] self.steps@[j]).0 == old(self).steps@[j].0,
                forall|j: int|
                    0 <= j < i ==> (#[trigger] self.steps@[j]).1 == (if j < idx {
                        StepState::Done
                    } else if j == idx {
                        StepState::Active
                    } else {
                        StepState::Waiting
                    }),
                *self == (State { steps: self.steps, ..*old(self) }),
            decreases n - i,
        {
            let st = if i < idx {
                StepState::Done
            } else if i == idx {
                StepState::Active
            } else {
                StepState::Waiting
            };
            self.steps[i].1 = st;
            i = i + 1;
        }
        self.status = owned(status);
    }

    /// The work is done: every step done, the message shown, the main
    /// button leads to the link (no main button without one).
    pub fn finish(&mut self, message: &str, attention: bool, link: Option<Link>)
        ensures
            final(self).steps@.len() == old(self).steps@.len(),
            forall|i: int|
                0 <= i < old(self).steps@.len() ==> (#[trigger] final(self).steps@[i]).0 == old(
                    self,
                ).steps@[i].0 && final(self).steps@[i].1 == StepState::Done,
            final(self).phase == Phase::Done,
            final(self).status@ == Seq::<char>::empty(),
            final(self).message@ == message@,
            final(self).attention == attention,
            final(self).primary@ == (match link {
                Some(l) => l.label@,
                None => Seq::<char>::empty(),
            }),
            final(self).link == link,
            final(self).secondary@ == "Zavřít"@,
            final(self).title == old(self).title,
            final(self).subtitle == old(self).subtitle,
            final(self).footer == old(self).footer,
    {
        let n = self.steps.len();
        let mut i: usize = 0;
        while i < n
            invariant
                n == self.steps@.len(),
                n == old(self).steps@.len(),
                i <= n,
                forall|j: int|
                    0 <= j < n ==> (#[trigger] self.steps@[j]).0 == old(self).steps@[j].0,
                forall|j: int| 0 <= j < i ==> (#[trigger] self.steps@[j]).1 == StepState::Done,
                *self == (State { steps: self.steps, ..*old(self) }),
            decreases n - i,
        {
            self.steps[i].1 = StepState::Done;
            i = i + 1;
        }
        self.phase = Phase::Done;
        self.status = String::new();
        self.message = owned(message);
        self.attention = attention;
        self.primary = match &link {
            Some(l) => l.label.clone(),
            None => String::new(),
        };
        self.link = link;
        self.secondary = owned("Zavřít");
    }

    /// The work failed: the running step is marked failed and the main
    /// button offers another try.
    pub fn fail(&mut self, message: &str)
        ensures
            final(self).steps@.len() == old(self).steps@.len(),
            forall|i: int|
                0 <= i < old(self).steps@.len() ==> (#[trigger] final(self).steps@[i]).0 == old(
                    self,
                ).steps@[i].0 && final(self).steps@[i].1 == (if old(self).steps@[i].1
                    == StepState::Active && (forall|j: int|
                    0 <= j < i ==> old(self).steps@[j].1 != StepState::Active) {
                    StepState::Failed
                } else {
                    old(self).steps@[i].1
                }),
            final(self).phase == Phase::Failed,
            final(self).status@ == Seq::<char>::empty(),
            final(self).message@ == message@,
            !final(self).attention,
            final(self).link is None,
            final(self).primary@ == "Zkusit znovu"@,
            final(self).secondary@ == "Zavřít"@,
            final(self).title == old(self).title,
            final(self).subtitle == old(self).subtitle,
            final(self).footer == old(self).footer,
    {
        match first_active(&self.steps) {
            Some(i) => {
                self.steps[i].1 = StepState::Failed;
            },
            None => {},
        }
        self.phase = Phase::Failed;
        self.status = String::new();
        self.message = owned(message);
        self.attention = false;
        self.link = None;
        self.primary = owned("Zkusit znovu");
        self.secondary = owned("Zavřít");
    }

    /// A new run (the first start and "try again"): everything of the last
    /// result cleared, all steps waiting.
    pub fn begin(&mut self)
        ensures
            final(self).phase == Phase::Working,
            final(self).message@ == Seq::<char>::empty(),
            final(self).status@ == Seq::<char>::empty(),
            !final(self).attention,
            final(self).link is None,
            final(self).primary@ == Seq::<char>::empty(),
            final(self).secondary@ == Seq::<char>::empty(),
            final(self).steps@.len() == old(self).steps@.len(),
            forall|i: int|
                0 <= i < old(self).steps@.len() ==> (#[trigger] final(self).steps@[i]).0 == old(
                    self,
                ).steps@[i].0 && final(self).steps@[i].1 == StepState::Waiting,
            final(self).title == old(self).title,
            final(self).subtitle == old(self).subtitle,
            final(self).footer == old(self).footer,
    {
        self.phase = Phase::Working;
        self.message = String::new();
        self.status = String::new();
        self.attention = false;
        self.link = None;
        self.primary = String::new();
        self.secondary = String::new();
        let n = self.steps.len();
        let mut i: usize = 0;
        while i < n
            invariant
                n == self.steps@.len(),
                n == old(self).steps@.len(),
                i <= n,
                forall|j: int|
                    0 <= j < n ==> (#[trigger] self.steps@[j]).0 == old(self).steps@[j].0,
                forall|j: int| 0 <= j < i ==> (#[trigger] self.steps@[j]).1 == StepState::Waiting,
                self.phase == Phase::Working,
                self.message@ == Seq::<char>::empty(),
                self.status@ == Seq::<char>::empty(),
                !self.attention,
                self.link is None,
                self.primary@ == Seq::<char>::empty(),
                self.secondary@ == Seq::<char>::empty(),
                self.title == old(self).title,
                self.subtitle == old(self).subtitle,
                self.footer == old(self).footer,
            decreases n - i,
        {
            self.steps[i].1 = StepState::Waiting;
            i = i + 1;
        }
    }
}

/// What woke the window up.
#[derive(Clone, Copy, Debug, PartialEq, Eq, Structural)]
pub enum WindowEvent {
    /// The animation timer (thirty times a second).
    Timer,
    /// The working thread changed the state.
    Tick,
    /// The user asked to close the window (cross, button, Esc).
    Close,
}

/// Does the window close now?
///
/// Asked to close, it closes unless the work is running: an interrupted
/// installation would leave the files half written. On its own it closes
/// only in quiet mode (`autoclose`), after a success that needs no
/// attention; after a failure or with something to read it stays.
pub fn closes_window(ev: WindowEvent, autoclose: bool, phase: Phase, attention: bool) -> (r: bool)
    ensures
        r == ((ev != WindowEvent::Close && autoclose && phase == Phase::Done && !attention) || (ev
            == WindowEvent::Close && phase != Phase::Working)),
{
    match ev {
        WindowEvent::Close => phase != Phase::Working,
        _ => autoclose && phase == Phase::Done && !attention,
    }
}

/// Does a timer or state event redraw the window (and, while working,
/// move the animation on)? A change of state always redraws; the timer
/// only while the work runs, as the bar moves only then.
pub fn redraws(ev: WindowEvent, phase: Phase) -> (r: bool)
    ensures
        r == (ev == WindowEvent::Tick || (ev == WindowEvent::Timer && phase == Phase::Working)),
{
    match ev {
        WindowEvent::Tick => true,
        WindowEvent::Timer => phase == Phase::Working,
        WindowEvent::Close => false,
    }
}

/// What the main button (or Enter) does.
#[derive(Clone, Copy, Debug, PartialEq, Eq, Structural)]
pub enum PrimaryAction {
    /// Open the download page of what is missing.
    OpenLink,
    /// Start the work (again).
    Start,
    Nothing,
}

/// The main button: after a success with a link it opens the page, before
/// the work and after a failure it starts the work; without a button
/// shown it does nothing.
pub fn primary_action(phase: Phase, has_link: bool, has_button: bool) -> (r: PrimaryAction)
    ensures
        r == (if !has_button {
            PrimaryAction::Nothing
        } else if phase == Phase::Done && has_link {
            PrimaryAction::OpenLink
        } else if phase == Phase::Ready || phase == Phase::Failed {
            PrimaryAction::Start
        } else {
            PrimaryAction::Nothing
        }),
{
    if !has_button {
        PrimaryAction::Nothing
    } else if phase == Phase::Done && has_link {
        PrimaryAction::OpenLink
    } else if phase == Phase::Ready || phase == Phase::Failed {
        PrimaryAction::Start
    } else {
        PrimaryAction::Nothing
    }
}

/// The window's colours.
#[derive(Clone, Copy, Debug, PartialEq, Eq, Structural)]
pub enum Tone {
    Background,
    Panel,
    Surface,
    Border,
    Text,
    TextDim,
    TextFaint,
    Accent,
    Good,
    Warn,
    Danger,
    /// The main button at rest (bright when the mouse is over it: accent).
    Button,
    /// Text on the main button.
    ButtonText,
}

/// The colour of a tone, as GDI takes it.
pub open spec fn tone_rgb(t: Tone) -> (u8, u8, u8) {
    match t {
        Tone::Background => (0x0e, 0x0f, 0x12),
        Tone::Panel => (0x16, 0x17, 0x1c),
        Tone::Surface => (0x1a, 0x1b, 0x21),
        Tone::Border => (0x27, 0x28, 0x2e),
        Tone::Text => (0xec, 0xec, 0xef),
        Tone::TextDim => (0x9a, 0x9a, 0xa1),
        Tone::TextFaint => (0x5c, 0x5c, 0x63),
        Tone::Accent => (0xff, 0xff, 0xff),
        Tone::Good => (0x4a, 0xde, 0x80),
        Tone::Warn => (0xf5, 0x9e, 0x0b),
        Tone::Danger => (0xef, 0x44, 0x44),
        Tone::Button => (0xe4, 0xe4, 0xe8),
        Tone::ButtonText => (0x10, 0x10, 0x14),
    }
}

/// The colour of a tone as `0x00BBGGRR`.
pub fn tone_color(t: Tone) -> (c: u32)
    ensures
        c == tone_rgb(t).0 + tone_rgb(t).1 * 0x100 + tone_rgb(t).2 * 0x10000,
{
    match t {
        Tone::Background => rgb(0x0e, 0x0f, 0x12),
        Tone::Panel => rgb(0x16, 0x17, 0x1c),
        Tone::Surface => rgb(0x1a, 0x1b, 0x21),
        Tone::Border => rgb(0x27, 0x28, 0x2e),
        Tone::Text => rgb(0xec, 0xec, 0xef),
        Tone::TextDim => rgb(0x9a, 0x9a, 0xa1),
        Tone::TextFaint => rgb(0x5c, 0x5c, 0x63),
        Tone::Accent => rgb(0xff, 0xff, 0xff),
        Tone::Good => rgb(0x4a, 0xde, 0x80),
        Tone::Warn => rgb(0xf5, 0x9e, 0x0b),
        Tone::Danger => rgb(0xef, 0x44, 0x44),
        Tone::Button => rgb(0xe4, 0xe4, 0xe8),
        Tone::ButtonText => rgb(0x10, 0x10, 0x14),
    }
}

/// A step's dot and label: waiting faint, the running one bright, done
/// green, failed red.
pub fn step_tones(st: StepState) -> (r: (Tone, Tone))
    ensures
        r == match st {
            StepState::Waiting => (Tone::Border, Tone::TextFaint),
            StepState::Active => (Tone::Accent, Tone::Text),
            StepState::Done => (Tone::Good, Tone::TextDim),
            StepState::Failed => (Tone::Danger, Tone::Danger),
        },
{
    match st {
        StepState::Waiting => (Tone::Border, Tone::TextFaint),
        StepState::Active => (Tone::Accent, Tone::Text),
        StepState::Done => (Tone::Good, Tone::TextDim),
        StepState::Failed => (Tone::Danger, Tone::Danger),
    }
}

/// The filled part of the progress bar: orange after a success that needs
/// attention, green after a plain success, otherwise the accent.
pub fn bar_tone(phase: Phase, attention: bool) -> (r: Tone)
    ensures
        r == (if phase == Phase::Done {
            if attention {
                Tone::Warn
            } else {
                Tone::Good
            }
        } else {
            Tone::Accent
        }),
{
    if phase == Phase::Done {
        if attention {
            Tone::Warn
        } else {
            Tone::Good
        }
    } else {
        Tone::Accent
    }
}

/// The closing message: red after a failure, orange when it needs
/// attention, bright after a success, dimmed otherwise.
pub fn message_tone(phase: Phase, attention: bool) -> (r: Tone)
    ensures
        r == match phase {
            Phase::Failed => Tone::Danger,
            Phase::Done => if attention {
                Tone::Warn
            } else {
                Tone::Text
            },
            _ => Tone::TextDim,
        },
{
    match phase {
        Phase::Failed => Tone::Danger,
        Phase::Done => if attention {
            Tone::Warn
        } else {
            Tone::Text
        },
        _ => Tone::TextDim,
    }
}

} // verus!
