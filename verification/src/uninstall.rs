//! The order of an uninstallation and what it removes: the application,
//! its side files, the window's data, logs in the fallback folder,
//! downloaded installers, the shortcut and the entry in Apps. The user's
//! settings ([`CONFIG_FILE`]) stay, and the installation folder is removed
//! only when it is empty.
//!
//! [`uninstall_step`] decides; the caller performs each action and reports
//! back what came of it.
use vstd::prelude::*;
use crate::setup::CONFIG_FILE;
use crate::updater::{SETUP_EXE, VERSION_FILE};

verus! {

/// Where a file lies.
#[derive(Clone, Copy, Debug, PartialEq, Eq, Structural)]
pub enum Place {
    /// The installation folder.
    InstallDir,
    /// The fallback folder for the log when the installation folder was
    /// not writable.
    Roaming,
}

/// Files removed one by one, whatever comes of it.
#[derive(Clone, Copy, Debug, PartialEq, Eq, Structural)]
pub enum SideFile {
    /// The half-written binary of an interrupted update.
    AppNew,
    Version,
    Log,
    OldLog,
    /// The installer's copy kept for uninstalling.
    SetupCopy,
}

pub const APP_NEW: &'static str = "KeyPad.exe.new";
pub const LOG_FILE: &'static str = "keypad.log";
pub const OLD_LOG_FILE: &'static str = "keypad.old.log";

/// The name of a side file.
pub open spec fn side_file_text(f: SideFile) -> Seq<char> {
    match f {
        SideFile::AppNew => APP_NEW@,
        SideFile::Version => VERSION_FILE@,
        SideFile::Log => LOG_FILE@,
        SideFile::OldLog => OLD_LOG_FILE@,
        SideFile::SetupCopy => SETUP_EXE@,
    }
}

/// The name of a side file.
pub fn side_file_name(f: SideFile) -> (r: &'static str)
    ensures
        r@ == side_file_text(f),
{
    match f {
        SideFile::AppNew => APP_NEW,
        SideFile::Version => VERSION_FILE,
        SideFile::Log => LOG_FILE,
        SideFile::OldLog => OLD_LOG_FILE,
        SideFile::SetupCopy => SETUP_EXE,
    }
}

/// What the uninstaller asks about the system.
#[derive(Clone, Copy, Debug, PartialEq, Eq, Structural)]
pub enum Question {
    /// Is there a folder with the window's (WebView2) data?
    WebviewData,
    /// Does this installer run from its copy in the installation folder?
    RunningFromSetupCopy,
    /// Is the user's settings file still in the installation folder?
    ConfigLeft,
}

/// What the caller does next.
#[derive(Debug, PartialEq, Eq)]
pub enum UninstallAction {
    /// Mark step `idx` of the window's list as running, with `status`
    /// under the bar and the bar at `permille` (`None`: unknown).
    Step { idx: usize, status: &'static str, permille: Option<u16> },
    /// Show `status` under the bar.
    Status(&'static str),
    /// Close the running application (see `proc::close_app`); report
    /// [`UninstallEvent::Done`] with its error, if any.
    CloseApp,
    /// Delete the application's binary, with retries; a missing file is
    /// fine. Report [`UninstallEvent::Done`] with its error, if any.
    RemoveApp,
    /// Delete a side file; what comes of it does not matter.
    RemoveFile { place: Place, file: SideFile },
    /// Remove the folder, only if it is empty.
    RemoveEmptyDir(Place),
    /// Remove the window's data folder with all it holds, with retries;
    /// report [`UninstallEvent::Answer`]: is it gone?
    RemoveWebviewData,
    /// Delete the downloaded installers of updates (not the running one)
    /// and their folder when empty.
    RemoveDownloads,
    /// Delete the shortcut in the Start menu.
    RemoveShortcut,
    /// Remove the entry in Settings → Apps.
    Unregister,
    /// Report [`UninstallEvent::Answer`].
    Ask(Question),
    /// The uninstallation is over: `Ok` — removed (the closing message is
    /// [`crate::setup::uninstall_message`] of the state), or the error.
    Finish(Result<(), String>),
    /// Nothing more to do.
    Nothing,
}

/// What the caller reports back.
#[derive(Debug, PartialEq, Eq)]
pub enum UninstallEvent {
    /// Start; `found`: was anything installed at all (the binary, the
    /// version record, the installer's copy, the shortcut or the entry).
    Start { found: bool },
    /// The last action was carried out, or failed with the message.
    Done(Result<(), String>),
    /// The answer to a question, or whether the window's data are gone.
    Answer(bool),
}

/// Where the uninstallation stands: the action it waits on.
#[derive(Clone, Copy, Debug, PartialEq, Eq, Structural)]
pub enum UninstallStage {
    Idle,
    ShowClosing,
    Closing,
    ShowRemoving,
    RemovingApp,
    Removing(Place, SideFile),
    AskingWebview,
    ShowWebview,
    RemovingWebview,
    RoamingDir,
    Downloads,
    ShowSystem,
    Shortcut,
    Unregistering,
    AskingSetupCopy,
    AskingConfig,
    InstallDir,
    Finished,
}

/// The state of an uninstallation.
#[derive(Clone, Copy, Debug, PartialEq, Eq, Structural)]
pub struct UninstallState {
    pub stage: UninstallStage,
    /// Was anything installed?
    pub found: bool,
    /// The window's data could not be removed whole.
    pub webview_left: bool,
    /// The user's settings stayed in the installation folder.
    pub config_left: bool,
}

pub const LOOKING: &'static str = "hledám běžící KeyPad…";
pub const DELETING: &'static str = "mažu soubory…";
pub const DELETING_WEBVIEW: &'static str = "mažu data okna (WebView2)…";
pub const SYSTEM: &'static str = "odebírám zástupce a záznam v systému…";

/// The side file removed after `f` in the same folder, if any.
pub open spec fn after(f: SideFile) -> Option<SideFile> {
    match f {
        SideFile::AppNew => Some(SideFile::Version),
        SideFile::Version => Some(SideFile::Log),
        SideFile::Log => Some(SideFile::OldLog),
        _ => None,
    }
}

/// The reported failure, if the event is one.
pub open spec fn failure(ev: UninstallEvent) -> Option<String> {
    match ev {
        UninstallEvent::Done(Err(e)) => Some(e),
        _ => None,
    }
}

/// The answer "yes".
pub open spec fn yes(ev: UninstallEvent) -> bool {
    ev == UninstallEvent::Answer(true)
}

/// `s` moved on to `stage`.
pub open spec fn at(s: UninstallState, stage: UninstallStage) -> UninstallState {
    UninstallState { stage, ..s }
}

/// The next state and action, given what came of the last action.
///
/// The binary goes first, and closing or deleting it failing ends the
/// uninstallation with that error before anything else is touched. Files
/// before the shortcut and the entry: when deleting fails, the entry in
/// Apps stays and uninstalling can be repeated.
pub open spec fn uninstall_next(s: UninstallState, ev: UninstallEvent) -> (
    UninstallState,
    UninstallAction,
) {
    match s.stage {
        UninstallStage::Idle => match ev {
            UninstallEvent::Start { found } => (
                UninstallState {
                    stage: UninstallStage::ShowClosing,
                    found,
                    webview_left: false,
                    config_left: false,
                },
                UninstallAction::Step { idx: 0, status: LOOKING, permille: None },
            ),
            _ => (s, UninstallAction::Nothing),
        },
        UninstallStage::ShowClosing => (at(s, UninstallStage::Closing), UninstallAction::CloseApp),
        UninstallStage::Closing => match failure(ev) {
            Some(e) => (at(s, UninstallStage::Finished), UninstallAction::Finish(Err(e))),
            None => (
                at(s, UninstallStage::ShowRemoving),
                UninstallAction::Step { idx: 1, status: DELETING, permille: Some(400) },
            ),
        },
        UninstallStage::ShowRemoving => (
            at(s, UninstallStage::RemovingApp),
            UninstallAction::RemoveApp,
        ),
        UninstallStage::RemovingApp => match failure(ev) {
            Some(e) => (at(s, UninstallStage::Finished), UninstallAction::Finish(Err(e))),
            None => (
                at(s, UninstallStage::Removing(Place::InstallDir, SideFile::AppNew)),
                UninstallAction::RemoveFile { place: Place::InstallDir, file: SideFile::AppNew },
            ),
        },
        UninstallStage::Removing(place, f) => match after(f) {
            Some(g) => (
                at(s, UninstallStage::Removing(place, g)),
                UninstallAction::RemoveFile { place, file: g },
            ),
            None => match place {
                Place::InstallDir => if f == SideFile::SetupCopy {
                    (
                        at(s, UninstallStage::AskingConfig),
                        UninstallAction::Ask(Question::ConfigLeft),
                    )
                } else {
                    (
                        at(s, UninstallStage::AskingWebview),
                        UninstallAction::Ask(Question::WebviewData),
                    )
                },
                Place::Roaming => (
                    at(s, UninstallStage::RoamingDir),
                    UninstallAction::RemoveEmptyDir(Place::Roaming),
                ),
            },
        },
        UninstallStage::AskingWebview => if yes(ev) {
            (at(s, UninstallStage::ShowWebview), UninstallAction::Status(DELETING_WEBVIEW))
        } else {
            (
                at(s, UninstallStage::Removing(Place::Roaming, SideFile::Version)),
                UninstallAction::RemoveFile { place: Place::Roaming, file: SideFile::Version },
            )
        },
        UninstallStage::ShowWebview => (
            at(s, UninstallStage::RemovingWebview),
            UninstallAction::RemoveWebviewData,
        ),
        UninstallStage::RemovingWebview => (
            UninstallState {
                stage: UninstallStage::Removing(Place::Roaming, SideFile::Version),
                webview_left: !yes(ev),
                ..s
            },
            UninstallAction::RemoveFile { place: Place::Roaming, file: SideFile::Version },
        ),
        UninstallStage::RoamingDir => (
            at(s, UninstallStage::Downloads),
            UninstallAction::RemoveDownloads,
        ),
        UninstallStage::Downloads => (
            at(s, UninstallStage::ShowSystem),
            UninstallAction::Step { idx: 2, status: SYSTEM, permille: Some(800) },
        ),
        UninstallStage::ShowSystem => (
            at(s, UninstallStage::Shortcut),
            UninstallAction::RemoveShortcut,
        ),
        UninstallStage::Shortcut => (
            at(s, UninstallStage::Unregistering),
            UninstallAction::Unregister,
        ),
        UninstallStage::Unregistering => (
            at(s, UninstallStage::AskingSetupCopy),
            UninstallAction::Ask(Question::RunningFromSetupCopy),
        ),
        UninstallStage::AskingSetupCopy => if yes(ev) {
            (at(s, UninstallStage::AskingConfig), UninstallAction::Ask(Question::ConfigLeft))
        } else {
            (
                at(s, UninstallStage::Removing(Place::InstallDir, SideFile::SetupCopy)),
                UninstallAction::RemoveFile { place: Place::InstallDir, file: SideFile::SetupCopy },
            )
        },
        UninstallStage::AskingConfig => (
            UninstallState { stage: UninstallStage::InstallDir, config_left: yes(ev), ..s },
            UninstallAction::RemoveEmptyDir(Place::InstallDir),
        ),
        UninstallStage::InstallDir => (
            at(s, UninstallStage::Finished),
            UninstallAction::Finish(Ok(())),
        ),
        UninstallStage::Finished => (s, UninstallAction::Nothing),
    }
}

/// `s` moved on to `stage`.
fn with_stage(s: UninstallState, stage: UninstallStage) -> (t: UninstallState)
    ensures
        t == at(s, stage),
{
    UninstallState { stage, ..s }
}

/// The next step of an uninstallation.
pub fn uninstall_step(s: UninstallState, ev: UninstallEvent) -> (r: (
    UninstallState,
    UninstallAction,
))
    ensures
        r == uninstall_next(s, ev),
{
    let ghost ev0 = ev;
    let (start, answer, failed) = match ev {
        UninstallEvent::Start { found } => (Some(found), false, None),
        UninstallEvent::Answer(b) => (None, b, None),
        UninstallEvent::Done(Err(e)) => (None, false, Some(e)),
        UninstallEvent::Done(Ok(())) => (None, false, None),
    };
    assert(answer == yes(ev0));
    assert(failed == failure(ev0));
    match s.stage {
        UninstallStage::Idle => match start {
            Some(found) => (
                UninstallState {
                    stage: UninstallStage::ShowClosing,
                    found,
                    webview_left: false,
                    config_left: false,
                },
                UninstallAction::Step { idx: 0, status: LOOKING, permille: None },
            ),
            None => (s, UninstallAction::Nothing),
        },
        UninstallStage::ShowClosing => (with_stage(s, UninstallStage::Closing), UninstallAction::CloseApp),
        UninstallStage::Closing => match failed {
            Some(e) => (with_stage(s, UninstallStage::Finished), UninstallAction::Finish(Err(e))),
            None => (
                with_stage(s, UninstallStage::ShowRemoving),
                UninstallAction::Step { idx: 1, status: DELETING, permille: Some(400) },
            ),
        },
        UninstallStage::ShowRemoving => (
            with_stage(s, UninstallStage::RemovingApp),
            UninstallAction::RemoveApp,
        ),
        UninstallStage::RemovingApp => match failed {
            Some(e) => (with_stage(s, UninstallStage::Finished), UninstallAction::Finish(Err(e))),
            None => (
                with_stage(s, UninstallStage::Removing(Place::InstallDir, SideFile::AppNew)),
                UninstallAction::RemoveFile { place: Place::InstallDir, file: SideFile::AppNew },
            ),
        },
        UninstallStage::Removing(place, f) => {
            let next = match f {
                SideFile::AppNew => Some(SideFile::Version),
                SideFile::Version => Some(SideFile::Log),
                SideFile::Log => Some(SideFile::OldLog),
                _ => None,
            };
            match next {
                Some(g) => (
                    with_stage(s, UninstallStage::Removing(place, g)),
                    UninstallAction::RemoveFile { place, file: g },
                ),
                None => match place {
                    Place::InstallDir => match f {
                        SideFile::SetupCopy => (
                            with_stage(s, UninstallStage::AskingConfig),
                            UninstallAction::Ask(Question::ConfigLeft),
                        ),
                        _ => (
                            with_stage(s, UninstallStage::AskingWebview),
                            UninstallAction::Ask(Question::WebviewData),
                        ),
                    },
                    Place::Roaming => (
                        with_stage(s, UninstallStage::RoamingDir),
                        UninstallAction::RemoveEmptyDir(Place::Roaming),
                    ),
                },
            }
        },
        UninstallStage::AskingWebview => if answer {
            (with_stage(s, UninstallStage::ShowWebview), UninstallAction::Status(DELETING_WEBVIEW))
        } else {
            (
                with_stage(s, UninstallStage::Removing(Place::Roaming, SideFile::Version)),
                UninstallAction::RemoveFile { place: Place::Roaming, file: SideFile::Version },
            )
        },
        UninstallStage::ShowWebview => (
            with_stage(s, UninstallStage::RemovingWebview),
            UninstallAction::RemoveWebviewData,
        ),
        UninstallStage::RemovingWebview => (
            UninstallState {
                stage: UninstallStage::Removing(Place::Roaming, SideFile::Version),
                webview_left: !answer,
                ..s
            },
            UninstallAction::RemoveFile { place: Place::Roaming, file: SideFile::Version },
        ),
        UninstallStage::RoamingDir => (
            with_stage(s, UninstallStage::Downloads),
            UninstallAction::RemoveDownloads,
        ),
        UninstallStage::Downloads => (
            with_stage(s, UninstallStage::ShowSystem),
            UninstallAction::Step { idx: 2, status: SYSTEM, permille: Some(800) },
        ),
        UninstallStage::ShowSystem => (with_stage(s, UninstallStage::Shortcut), UninstallAction::RemoveShortcut),
        UninstallStage::Shortcut => (with_stage(s, UninstallStage::Unregistering), UninstallAction::Unregister),
        UninstallStage::Unregistering => (
            with_stage(s, UninstallStage::AskingSetupCopy),
            UninstallAction::Ask(Question::RunningFromSetupCopy),
        ),
        UninstallStage::AskingSetupCopy => if answer {
            (with_stage(s, UninstallStage::AskingConfig), UninstallAction::Ask(Question::ConfigLeft))
        } else {
            (
                with_stage(s, UninstallStage::Removing(Place::InstallDir, SideFile::SetupCopy)),
                UninstallAction::RemoveFile { place: Place::InstallDir, file: SideFile::SetupCopy },
            )
        },
        UninstallStage::AskingConfig => (
            UninstallState { stage: UninstallStage::InstallDir, config_left: answer, ..s },
            UninstallAction::RemoveEmptyDir(Place::InstallDir),
        ),
        UninstallStage::InstallDir => (with_stage(s, UninstallStage::Finished), UninstallAction::Finish(Ok(()))),
        UninstallStage::Finished => (s, UninstallAction::Nothing),
    }
}

/// The state before an uninstallation.
pub fn uninstall_start() -> (s: UninstallState)
    ensures
        s == (UninstallState {
            stage: UninstallStage::Idle,
            found: false,
            webview_left: false,
            config_left: false,
        }),
{
    UninstallState { stage: UninstallStage::Idle, found: false, webview_left: false, config_left: false }
}

/// No action of an uninstallation deletes the user's settings: the only
/// files it deletes by name are the binary and its side files, none of
/// which is [`CONFIG_FILE`]; the installation folder is only ever removed
/// when empty (never with what it holds), and only after asking whether
/// the settings stayed.
pub proof fn lemma_uninstall_spares_config(s: UninstallState, ev: UninstallEvent)
    ensures
        uninstall_next(s, ev).1 matches UninstallAction::RemoveFile { file, .. }
            ==> side_file_text(file) != CONFIG_FILE@,
        uninstall_next(s, ev).1 == UninstallAction::RemoveEmptyDir(Place::InstallDir)
            ==> s.stage == UninstallStage::AskingConfig,
        s.stage == UninstallStage::AskingConfig ==> uninstall_next(s, ev).0.config_left == yes(ev),
{
    reveal_strlit("config.toml");
    reveal_strlit("KeyPad.exe.new");
    reveal_strlit("version.txt");
    reveal_strlit("keypad.log");
    reveal_strlit("keypad.old.log");
    reveal_strlit("KeyPadSetup.exe");
    match uninstall_next(s, ev).1 {
        UninstallAction::RemoveFile { file, .. } => {
            assert(side_file_text(file).len() != CONFIG_FILE@.len() || side_file_text(file)[0]
                != CONFIG_FILE@[0]);
        },
        _ => {},
    }
}

/// When closing the application or deleting its binary fails, the
/// uninstallation ends with that error, and nothing else is removed.
pub proof fn lemma_uninstall_stops_on_failure(s: UninstallState, e: String)
    requires
        s.stage == UninstallStage::Closing || s.stage == UninstallStage::RemovingApp,
    ensures
        uninstall_next(s, UninstallEvent::Done(Err(e))) == (
            at(s, UninstallStage::Finished),
            UninstallAction::Finish(Err(e)),
        ),
        uninstall_next(at(s, UninstallStage::Finished), UninstallEvent::Done(Err(e))).1
            == UninstallAction::Nothing,
{
}

} // verus!
