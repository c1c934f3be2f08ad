//! The order of an installation or update: ask for the current version,
//! download everything into memory, only then close the running
//! application and write to disk, and finally the shortcut and the entry
//! in Apps.
//!
//! Nothing is written before the download is complete and looks like a
//! program: when the network fails half way, the old installation stays
//! whole, and the message says so. When writing fails after the running
//! application was closed, it is started again.
//!
//! [`install_step`] decides; the caller performs each action and reports
//! back what came of it.
use vstd::prelude::*;
use vstd::string::StringExecFns;
use crate::proc::Closed;
use crate::setup::{
    Plan,
    plan,
    headline,
    download_status,
    untouched,
    headline_text,
    download_text,
    untouched_text,
    plan_fits,
    UNCHANGED,
};
use crate::text::{owned, trimmed, dec, push_decimal};
use crate::updater::{APP_EXE, clean_version, looks_like_exe};

verus! {

/// Where the progress bar goes.
#[derive(Clone, Copy, Debug, PartialEq, Eq, Structural)]
pub enum Bar {
    /// Leave it as it is.
    Keep,
    /// Progress unknown: the bar runs back and forth.
    Unknown,
    /// So many thousandths full.
    At(u16),
}

/// What the caller does next.
#[derive(Debug, PartialEq, Eq)]
pub enum InstallAction {
    /// Mark step `idx` of the window's list as running, with `status`
    /// under the bar.
    Step { idx: usize, status: String, bar: Bar },
    /// Ask for the newest commit of the release branch; report
    /// [`InstallEvent::Fetched`].
    FetchCommit,
    /// Fetch the version record of the state's commit, as text; report
    /// [`InstallEvent::Fetched`].
    FetchVersion,
    /// Read the installed version and whether the binary is on disk;
    /// report [`InstallEvent::Installed`].
    AskInstalled,
    /// Download the binary of the state's commit into memory; report
    /// [`InstallEvent::Downloaded`].
    Download,
    /// Show the size of the downloaded binary, the bar half full.
    ShowSize,
    /// Close the running application (see `proc::close_app`); report
    /// [`InstallEvent::Closed`].
    CloseApp,
    /// Write the state's binary, the installer's copy and, last, the
    /// state's version; report [`InstallEvent::Written`].
    WriteFiles,
    /// Keep a copy of the installer next to the application.
    EnsureSetupCopy,
    /// The shortcut in the Start menu and the entry in Apps, for the
    /// state's version.
    Register,
    /// Start the application again if its binary is there; report
    /// [`InstallEvent::Relaunched`].
    Relaunch,
    /// The work is over: `Ok` with the headline of the success (the caller
    /// checks the system, starts the application and reports the outcome),
    /// or the error.
    Finish(Result<String, String>),
    /// Nothing more to do.
    Nothing,
}

/// What the caller reports back.
#[derive(Debug)]
pub enum InstallEvent {
    Start,
    /// An action without a result was carried out.
    Done,
    /// The commit, or the version record as text; or why not.
    Fetched(Result<String, String>),
    /// The installed version, if any, and whether the binary is on disk.
    Installed { version: Option<String>, files_ok: bool },
    Downloaded(Result<Vec<u8>, String>),
    Closed(Result<Closed, String>),
    Written(Result<(), String>),
    /// The application was started again.
    Relaunched(bool),
}

/// Where the installation stands: the action it waits on.
#[derive(Clone, Copy, Debug, PartialEq, Eq, Structural)]
pub enum InstallStage {
    Idle,
    ShowAsking,
    FetchingCommit,
    FetchingVersion,
    AskingInstalled,
    ShowUpToDate,
    SetupCopy,
    Refreshing,
    ShowDownload,
    Downloading,
    ShowingSize,
    ShowClosing,
    Closing,
    ShowWriting,
    Writing,
    Relaunching,
    ShowRegister,
    Registering,
    Finished,
}

/// The state of an installation.
#[derive(Debug)]
pub struct InstallState {
    pub stage: InstallStage,
    /// The commit everything is downloaded from.
    pub commit: String,
    /// The repository's version.
    pub version: String,
    pub plan: Plan,
    /// The downloaded binary.
    pub exe: Vec<u8>,
    /// How the running application was closed.
    pub closed: Closed,
    /// The error of writing, while the application is started again.
    pub error: String,
}

pub const ASKING: &'static str = "ptám se GitHubu na nejnovější verzi…";
pub const UP_TO_DATE: &'static str = "verze sedí — kontroluji zástupce a záznam…";
pub const DOWNLOADING: &'static str = ", stahuji…";
pub const LOOKING: &'static str = "hledám běžící KeyPad…";
pub const WRITING: &'static str = "zapisuji do profilu…";
pub const REGISTERING: &'static str = "zástupce v nabídce Start a záznam v Aplikacích…";
pub const VERSION_FAILED: &'static str = "Nepodařilo se zjistit aktuální verzi";
pub const EMPTY_VERSION: &'static str = "server vrátil prázdnou verzi";
pub const DOWNLOAD_FAILED: &'static str = "Stažení se nepovedlo";
pub const CORRUPT: &'static str = " se stáhl poškozený (";
pub const CORRUPT_END: &'static str = " B)";
pub const TRY_LATER: &'static str = "zkus to za chvíli znovu";
pub const RELAUNCHED: &'static str = "\nKeyPad jsem zase spustil, ať nezůstaneš bez aplikace.";

/// What a download has to look like to be written (see
/// [`looks_like_exe`]).
pub open spec fn looks_like(d: Seq<u8>) -> bool {
    d.len() >= 100_000 && d[0] == 0x4D && d[1] == 0x5A
}

/// The stages in which the downloaded binary is kept for writing.
pub open spec fn holds_download(stage: InstallStage) -> bool {
    match stage {
        InstallStage::ShowingSize | InstallStage::ShowClosing | InstallStage::Closing
        | InstallStage::ShowWriting | InstallStage::Writing | InstallStage::Relaunching
        | InstallStage::ShowRegister | InstallStage::Registering => true,
        _ => false,
    }
}

/// The stages before anything is written to disk.
pub open spec fn before_write(stage: InstallStage) -> bool {
    match stage {
        InstallStage::Idle | InstallStage::ShowAsking | InstallStage::FetchingCommit
        | InstallStage::FetchingVersion | InstallStage::AskingInstalled
        | InstallStage::ShowDownload | InstallStage::Downloading | InstallStage::ShowingSize
        | InstallStage::ShowClosing | InstallStage::Closing | InstallStage::ShowWriting => true,
        _ => false,
    }
}

/// What an installation keeps: a binary is held only if it looks like a
/// program, and the application is started again only if it was running.
pub open spec fn install_wf(s: InstallState) -> bool {
    &&& holds_download(s.stage) ==> looks_like(s.exe@)
    &&& s.stage == InstallStage::Relaunching ==> s.closed != Closed::NotRunning
}

/// The installed version as far as it counts (see [`installed_text`]).
pub open spec fn installed_of(v: Option<String>) -> Option<Seq<char>> {
    match v {
        Some(t) => if trimmed(t@).len() > 0 {
            Some(trimmed(t@))
        } else {
            None
        },
        None => None,
    }
}

/// `a` asks for step `idx` with `status` and the bar at `bar`.
pub open spec fn is_step(a: InstallAction, idx: usize, status: Seq<char>, bar: Bar) -> bool {
    a matches InstallAction::Step { idx: i, status: st, bar: b } && i == idx && st@ == status && b
        == bar
}

/// `a` ends the installation with the error `m`.
pub open spec fn is_failure(a: InstallAction, m: Seq<char>) -> bool {
    a matches InstallAction::Finish(Err(x)) && x@ == m
}

/// `a` ends the installation successfully with the headline `h`.
pub open spec fn is_success(a: InstallAction, h: Seq<char>) -> bool {
    a matches InstallAction::Finish(Ok(x)) && x@ == h
}

/// `m` ends by saying that nothing changed on disk.
pub open spec fn says_unchanged(m: Seq<char>) -> bool {
    m.len() >= UNCHANGED@.len() && m.subrange(m.len() - UNCHANGED@.len(), m.len() as int)
        == UNCHANGED@
}

/// If `a` ends the installation with an error, the error says that
/// nothing changed on disk.
pub open spec fn failure_says_unchanged(a: InstallAction) -> bool {
    a matches InstallAction::Finish(Err(m)) ==> says_unchanged(m@)
}

/// `s` moved on to `stage`, all else kept.
pub open spec fn at(s: InstallState, stage: InstallStage) -> InstallState {
    InstallState { stage, ..s }
}

/// The transition of an installation: from `s`, on `ev`, to `t` with the
/// action `a`.
pub open spec fn install_next(s: InstallState, ev: InstallEvent, t: InstallState, a: InstallAction) -> bool {
    let unchanged = t == s && a == InstallAction::Nothing;
    match s.stage {
        InstallStage::Idle => match ev {
            InstallEvent::Start => t == at(s, InstallStage::ShowAsking) && is_step(
                a,
                0,
                ASKING@,
                Bar::Unknown,
            ),
            _ => unchanged,
        },
        InstallStage::ShowAsking => t == at(s, InstallStage::FetchingCommit) && a
            == InstallAction::FetchCommit,
        InstallStage::FetchingCommit => match ev {
            InstallEvent::Fetched(Ok(c)) => t == (InstallState {
                stage: InstallStage::FetchingVersion,
                commit: c,
                ..s
            }) && a == InstallAction::FetchVersion,
            InstallEvent::Fetched(Err(e)) => t == at(s, InstallStage::Finished) && is_failure(
                a,
                untouched_text(VERSION_FAILED@, e@),
            ),
            _ => unchanged,
        },
        InstallStage::FetchingVersion => match ev {
            InstallEvent::Fetched(Ok(text)) => if trimmed(text@).len() == 0 {
                t == at(s, InstallStage::Finished) && is_failure(
                    a,
                    untouched_text(VERSION_FAILED@, EMPTY_VERSION@),
                )
            } else {
                t == (InstallState {
                    stage: InstallStage::AskingInstalled,
                    version: t.version,
                    ..s
                }) && t.version@ == trimmed(text@) && a == InstallAction::AskInstalled
            },
            InstallEvent::Fetched(Err(e)) => t == at(s, InstallStage::Finished) && is_failure(
                a,
                untouched_text(VERSION_FAILED@, e@),
            ),
            _ => unchanged,
        },
        InstallStage::AskingInstalled => match ev {
            InstallEvent::Installed { version, files_ok } => {
                &&& t == (InstallState { stage: t.stage, plan: t.plan, ..s })
                &&& plan_fits(t.plan, installed_of(version), s.version@, files_ok)
                &&& match download_text(t.plan, s.version@) {
                    None => t.stage == InstallStage::ShowUpToDate && is_step(
                        a,
                        4,
                        UP_TO_DATE@,
                        Bar::Keep,
                    ),
                    Some(what) => t.stage == InstallStage::ShowDownload && is_step(
                        a,
                        1,
                        what + DOWNLOADING@,
                        Bar::Keep,
                    ),
                }
            },
            _ => unchanged,
        },
        InstallStage::ShowUpToDate => t == at(s, InstallStage::SetupCopy) && a
            == InstallAction::EnsureSetupCopy,
        InstallStage::SetupCopy => t == at(s, InstallStage::Refreshing) && a
            == InstallAction::Register,
        InstallStage::Refreshing => t == at(s, InstallStage::Finished) && is_success(
            a,
            headline_text(s.plan, s.version@),
        ),
        InstallStage::ShowDownload => t == at(s, InstallStage::Downloading) && a
            == InstallAction::Download,
        InstallStage::Downloading => match ev {
            InstallEvent::Downloaded(Ok(d)) => if looks_like(d@) {
                t == (InstallState { stage: InstallStage::ShowingSize, exe: d, ..s }) && a
                    == InstallAction::ShowSize
            } else {
                t == at(s, InstallStage::Finished) && is_failure(
                    a,
                    untouched_text(APP_EXE@ + CORRUPT@ + dec(d@.len()) + CORRUPT_END@, TRY_LATER@),
                )
            },
            InstallEvent::Downloaded(Err(e)) => t == at(s, InstallStage::Finished) && is_failure(
                a,
                untouched_text(DOWNLOAD_FAILED@, e@),
            ),
            _ => unchanged,
        },
        InstallStage::ShowingSize => t == at(s, InstallStage::ShowClosing) && is_step(
            a,
            2,
            LOOKING@,
            Bar::Unknown,
        ),
        InstallStage::ShowClosing => t == at(s, InstallStage::Closing) && a
            == InstallAction::CloseApp,
        InstallStage::Closing => match ev {
            InstallEvent::Closed(Ok(c)) => t == (InstallState {
                stage: InstallStage::ShowWriting,
                closed: c,
                ..s
            }) && is_step(a, 3, WRITING@, Bar::At(700)),
            InstallEvent::Closed(Err(e)) => t == at(s, InstallStage::Finished) && is_failure(
                a,
                e@ + UNCHANGED@,
            ),
            _ => unchanged,
        },
        InstallStage::ShowWriting => t == at(s, InstallStage::Writing) && a
            == InstallAction::WriteFiles,
        InstallStage::Writing => match ev {
            InstallEvent::Written(Ok(())) => t == at(s, InstallStage::ShowRegister) && is_step(
                a,
                4,
                REGISTERING@,
                Bar::At(900),
            ),
            InstallEvent::Written(Err(e)) => if s.closed != Closed::NotRunning {
                t == (InstallState { stage: InstallStage::Relaunching, error: e, ..s }) && a
                    == InstallAction::Relaunch
            } else {
                t == at(s, InstallStage::Finished) && is_failure(a, e@)
            },
            _ => unchanged,
        },
        InstallStage::Relaunching => match ev {
            InstallEvent::Relaunched(b) => t == at(s, InstallStage::Finished) && is_failure(
                a,
                if b {
                    s.error@ + RELAUNCHED@
                } else {
                    s.error@
                },
            ),
            _ => unchanged,
        },
        InstallStage::ShowRegister => t == at(s, InstallStage::Registering) && a
            == InstallAction::Register,
        InstallStage::Registering => t == at(s, InstallStage::Finished) && is_success(
            a,
            headline_text(s.plan, s.version@),
        ),
        InstallStage::Finished => unchanged,
    }
}

/// The state before an installation.
pub fn install_start() -> (s: InstallState)
    ensures
        s.stage == InstallStage::Idle,
        s.commit@ == Seq::<char>::empty(),
        s.version@ == Seq::<char>::empty(),
        s.plan == Plan::Fresh,
        s.exe@ == Seq::<u8>::empty(),
        s.closed == Closed::NotRunning,
        s.error@ == Seq::<char>::empty(),
        install_wf(s),
{
    InstallState {
        stage: InstallStage::Idle,
        commit: String::new(),
        version: String::new(),
        plan: Plan::Fresh,
        exe: Vec::new(),
        closed: Closed::NotRunning,
        error: String::new(),
    }
}

fn with_stage(s: InstallState, stage: InstallStage) -> (t: InstallState)
    ensures
        t == at(s, stage),
{
    InstallState { stage, ..s }
}

proof fn lemma_ends_unchanged(m: Seq<char>)
    ensures
        says_unchanged(m + UNCHANGED@),
{
    assert((m + UNCHANGED@).subrange(m.len() as int, (m + UNCHANGED@).len() as int)
        =~= UNCHANGED@);
}

/// The next step of an installation.
///
/// Besides the transition itself: every failure before the files are
/// written ends with the note that nothing changed on disk; writing is
/// asked for only after closing, and closing only with a downloaded
/// binary that looks like a program; a failed write after the
/// application was closed starts it again.
pub fn install_step(s: InstallState, ev: InstallEvent) -> (r: (InstallState, InstallAction))
    ensures
        install_next(s, ev, r.0, r.1),
        install_wf(s) ==> install_wf(r.0),
        before_write(s.stage) ==> failure_says_unchanged(r.1),
        r.1 == InstallAction::WriteFiles ==> s.stage == InstallStage::ShowWriting,
        r.1 == InstallAction::CloseApp ==> s.stage == InstallStage::ShowClosing,
        install_wf(s) && r.1 == InstallAction::CloseApp ==> looks_like(r.0.exe@),
        (s.stage == InstallStage::Writing && s.closed != Closed::NotRunning && ev matches InstallEvent::Written(Err(_)))
            ==> r.1 == InstallAction::Relaunch,
{
    match s.stage {
        InstallStage::Idle => match ev {
            InstallEvent::Start => {
                let t = with_stage(s, InstallStage::ShowAsking);
                (t, InstallAction::Step { idx: 0, status: owned(ASKING), bar: Bar::Unknown })
            },
            _ => (s, InstallAction::Nothing),
        },
        InstallStage::ShowAsking => (
            with_stage(s, InstallStage::FetchingCommit),
            InstallAction::FetchCommit,
        ),
        InstallStage::FetchingCommit => match ev {
            InstallEvent::Fetched(Ok(c)) => (
                InstallState { stage: InstallStage::FetchingVersion, commit: c, ..s },
                InstallAction::FetchVersion,
            ),
            InstallEvent::Fetched(Err(e)) => {
                let m = untouched(VERSION_FAILED, e.as_str());
                proof {
                    lemma_ends_unchanged(VERSION_FAILED@ + ": "@ + e@ + "."@);
                }
                (with_stage(s, InstallStage::Finished), InstallAction::Finish(Err(m)))
            },
            _ => (s, InstallAction::Nothing),
        },
        InstallStage::FetchingVersion => match ev {
            InstallEvent::Fetched(Ok(text)) => match clean_version(text.as_str()) {
                None => {
                    let m = untouched(VERSION_FAILED, EMPTY_VERSION);
                    proof {
                        lemma_ends_unchanged(VERSION_FAILED@ + ": "@ + EMPTY_VERSION@ + "."@);
                    }
                    (with_stage(s, InstallStage::Finished), InstallAction::Finish(Err(m)))
                },
                Some(v) => (
                    InstallState { stage: InstallStage::AskingInstalled, version: v, ..s },
                    InstallAction::AskInstalled,
                ),
            },
            InstallEvent::Fetched(Err(e)) => {
                let m = untouched(VERSION_FAILED, e.as_str());
                proof {
                    lemma_ends_unchanged(VERSION_FAILED@ + ": "@ + e@ + "."@);
                }
                (with_stage(s, InstallStage::Finished), InstallAction::Finish(Err(m)))
            },
            _ => (s, InstallAction::Nothing),
        },
        InstallStage::AskingInstalled => match ev {
            InstallEvent::Installed { version, files_ok } => {
                let p = match &version {
                    Some(v) => plan(Some(v.as_str()), s.version.as_str(), files_ok),
                    None => plan(None, s.version.as_str(), files_ok),
                };
                let what = download_status(&p, s.version.as_str());
                match what {
                    None => (
                        InstallState { stage: InstallStage::ShowUpToDate, plan: p, ..s },
                        InstallAction::Step { idx: 4, status: owned(UP_TO_DATE), bar: Bar::Keep },
                    ),
                    Some(w) => {
                        let mut status = w;
                        status.append(DOWNLOADING);
                        (
                            InstallState { stage: InstallStage::ShowDownload, plan: p, ..s },
                            InstallAction::Step { idx: 1, status, bar: Bar::Keep },
                        )
                    },
                }
            },
            _ => (s, InstallAction::Nothing),
        },
        InstallStage::ShowUpToDate => (
            with_stage(s, InstallStage::SetupCopy),
            InstallAction::EnsureSetupCopy,
        ),
        InstallStage::SetupCopy => (
            with_stage(s, InstallStage::Refreshing),
            InstallAction::Register,
        ),
        InstallStage::Refreshing => {
            let h = headline(&s.plan, s.version.as_str());
            (with_stage(s, InstallStage::Finished), InstallAction::Finish(Ok(h)))
        },
        InstallStage::ShowDownload => (
            with_stage(s, InstallStage::Downloading),
            InstallAction::Download,
        ),
        InstallStage::Downloading => match ev {
            InstallEvent::Downloaded(Ok(d)) => if looks_like_exe(d.as_slice()) {
                (InstallState { stage: InstallStage::ShowingSize, exe: d, ..s }, InstallAction::ShowSize)
            } else {
                let mut what = owned(APP_EXE);
                what.append(CORRUPT);
                push_decimal(&mut what, d.len() as u128, 0);
                what.append(CORRUPT_END);
                let m = untouched(what.as_str(), TRY_LATER);
                proof {
                    lemma_ends_unchanged(what@ + ": "@ + TRY_LATER@ + "."@);
                    assert(what@ =~= APP_EXE@ + CORRUPT@ + dec(d@.len()) + CORRUPT_END@);
                }
                (with_stage(s, InstallStage::Finished), InstallAction::Finish(Err(m)))
            },
            InstallEvent::Downloaded(Err(e)) => {
                let m = untouched(DOWNLOAD_FAILED, e.as_str());
                proof {
                    lemma_ends_unchanged(DOWNLOAD_FAILED@ + ": "@ + e@ + "."@);
                }
                (with_stage(s, InstallStage::Finished), InstallAction::Finish(Err(m)))
            },
            _ => (s, InstallAction::Nothing),
        },
        InstallStage::ShowingSize => (
            with_stage(s, InstallStage::ShowClosing),
            InstallAction::Step { idx: 2, status: owned(LOOKING), bar: Bar::Unknown },
        ),
        InstallStage::ShowClosing => (with_stage(s, InstallStage::Closing), InstallAction::CloseApp),
        InstallStage::Closing => match ev {
            InstallEvent::Closed(Ok(c)) => (
                InstallState { stage: InstallStage::ShowWriting, closed: c, ..s },
                InstallAction::Step { idx: 3, status: owned(WRITING), bar: Bar::At(700) },
            ),
            InstallEvent::Closed(Err(e)) => {
                let mut m = e;
                let ghost e0 = m@;
                m.append(UNCHANGED);
                proof {
                    lemma_ends_unchanged(e0);
                }
                (with_stage(s, InstallStage::Finished), InstallAction::Finish(Err(m)))
            },
            _ => (s, InstallAction::Nothing),
        },
        InstallStage::ShowWriting => (with_stage(s, InstallStage::Writing), InstallAction::WriteFiles),
        InstallStage::Writing => match ev {
            InstallEvent::Written(Ok(())) => (
                with_stage(s, InstallStage::ShowRegister),
                InstallAction::Step { idx: 4, status: owned(REGISTERING), bar: Bar::At(900) },
            ),
            InstallEvent::Written(Err(e)) => if s.closed != Closed::NotRunning {
                (
                    InstallState { stage: InstallStage::Relaunching, error: e, ..s },
                    InstallAction::Relaunch,
                )
            } else {
                (with_stage(s, InstallStage::Finished), InstallAction::Finish(Err(e)))
            },
            _ => (s, InstallAction::Nothing),
        },
        InstallStage::Relaunching => match ev {
            InstallEvent::Relaunched(b) => {
                let mut m = owned(s.error.as_str());
                if b {
                    m.append(RELAUNCHED);
                }
                (with_stage(s, InstallStage::Finished), InstallAction::Finish(Err(m)))
            },
            _ => (s, InstallAction::Nothing),
        },
        InstallStage::ShowRegister => (
            with_stage(s, InstallStage::Registering),
            InstallAction::Register,
        ),
        InstallStage::Registering => {
            let h = headline(&s.plan, s.version.as_str());
            (with_stage(s, InstallStage::Finished), InstallAction::Finish(Ok(h)))
        },
        InstallStage::Finished => (s, InstallAction::Nothing),
    }
}

/// `states`, `events` and `actions` are a run of an installation: step
/// `i` goes from `states[i]` on `events[i]` to `states[i + 1]` with
/// `actions[i]`.
pub open spec fn install_run(
    states: Seq<InstallState>,
    events: Seq<InstallEvent>,
    actions: Seq<InstallAction>,
) -> bool {
    &&& states.len() == events.len() + 1
    &&& actions.len() == events.len()
    &&& forall|i: int|
        0 <= i < events.len() ==> install_next(
            states[i],
            events[i],
            states[i + 1],
            #[trigger] actions[i],
        )
}

proof fn lemma_success_after_register(s: InstallState, ev: InstallEvent, t: InstallState, a: InstallAction)
    requires
        install_next(s, ev, t, a),
    ensures
        a is Finish && a->Finish_0 is Ok ==> s.stage == InstallStage::Refreshing || s.stage
            == InstallStage::Registering,
        t.stage == InstallStage::Refreshing || t.stage == InstallStage::Registering ==> a
            == InstallAction::Register,
{
}

/// Every successful installation — an update, a repair, a fresh one or
/// one that was already up to date — recreates the shortcut and the entry
/// in Apps: the action that reports success comes right after the action
/// `Register`.
pub proof fn lemma_success_registers(
    states: Seq<InstallState>,
    events: Seq<InstallEvent>,
    actions: Seq<InstallAction>,
    i: int,
)
    requires
        install_run(states, events, actions),
        states[0].stage == InstallStage::Idle,
        0 <= i < actions.len(),
        actions[i] is Finish && actions[i]->Finish_0 is Ok,
    ensures
        i > 0,
        actions[i - 1] == InstallAction::Register,
{
    lemma_success_after_register(states[i], events[i], states[i + 1], actions[i]);
    if i > 0 {
        lemma_success_after_register(states[i - 1], events[i - 1], states[i], actions[i - 1]);
    }
}

} // verus!
