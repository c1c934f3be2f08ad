//! Closing a running KeyPad before its files are overwritten or removed.
//!
//! The order matters: first POLITELY (WM_CLOSE to the main window), and
//! only when it has not ended within about three seconds, FORCIBLY. A
//! polite close lets the application send a neutral pad state, unhook the
//! keyboard and disconnect the virtual pad. Processes are found by the
//! PATH of the binary, not by name alone.
//!
//! The windows, processes and waiting are the caller's; here stand the
//! decisions: which windows get WM_CLOSE, and what to do next.
use vstd::prelude::*;
use crate::text::owned;

verus! {

/// Class of the application's main window (Tauri's default).
pub const MAIN_CLASS: &'static str = "Tauri Window";

/// A top-level window of one of the processes looked for.
#[derive(Clone, Copy, Debug, PartialEq, Eq, Structural)]
pub struct TopWindow {
    pub pid: u32,
    pub hwnd: isize,
    /// The application's main window (class [`MAIN_CLASS`]).
    pub main: bool,
    /// Visible and without WS_EX_TOOLWINDOW — a window the user sees on
    /// the task bar (even minimised).
    pub plain: bool,
}

/// Process `pid` has a main window among `wins`.
pub open spec fn has_main(wins: Seq<TopWindow>, pid: u32) -> bool {
    exists|j: int| 0 <= j < wins.len() && (#[trigger] wins[j]).pid == pid && wins[j].main
}

/// Window `w` gets WM_CLOSE: a main window always; another window only
/// when it is plain and its process has no main window.
pub open spec fn chosen(wins: Seq<TopWindow>, w: TopWindow) -> bool {
    w.main || (w.plain && !has_main(wins, w.pid))
}

/// The chosen windows among the first `n`, in their order.
pub open spec fn picked(wins: Seq<TopWindow>, n: int) -> Seq<isize>
    decreases n,
{
    if n <= 0 {
        Seq::empty()
    } else {
        let r = picked(wins, n - 1);
        if chosen(wins, wins[n - 1]) {
            r.push(wins[n - 1].hwnd)
        } else {
            r
        }
    }
}

fn pid_has_main(wins: &[TopWindow], pid: u32) -> (r: bool)
    ensures
        r == has_main(wins@, pid),
{
    let mut i: usize = 0;
    while i < wins.len()
        invariant
            i <= wins@.len(),
            forall|j: int| 0 <= j < i ==> !((#[trigger] wins@[j]).pid == pid && wins@[j].main),
        decreases wins@.len() - i,
    {
        if wins[i].pid == pid && wins[i].main {
            return true;
        }
        i = i + 1;
    }
    false
}

/// Which windows get WM_CLOSE.
///
/// A process with a main window gets the message only there — its other
/// windows are helpers (single instance, event loop) and closing them
/// would not end the application, only break it. Without a main window
/// the fallback is "the windows the user sees": hidden and tool windows
/// are skipped for the same reason.
pub fn pick(wins: &[TopWindow]) -> (r: Vec<isize>)
    ensures
        r@ == picked(wins@, wins@.len() as int),
{
    let mut r: Vec<isize> = Vec::new();
    let mut i: usize = 0;
    while i < wins.len()
        invariant
            i <= wins@.len(),
            r@ == picked(wins@, i as int),
        decreases wins@.len() - i,
    {
        let w = wins[i];
        if w.main || (w.plain && !pid_has_main(wins, w.pid)) {
            r.push(w.hwnd);
        }
        i = i + 1;
    }
    r
}

/// How closing ended — for the message in the window.
#[derive(Clone, Copy, Debug, PartialEq, Eq, Structural)]
pub enum Closed {
    /// Nothing was running.
    NotRunning,
    /// The application closed by itself after WM_CLOSE.
    Graceful,
    /// It had to be ended forcibly.
    Forced,
}

/// What the caller found out at each stage of closing.
#[derive(Clone, Copy, Debug, PartialEq, Eq, Structural)]
pub enum CloseProgress {
    /// So many processes run straight from the binary.
    Found(usize),
    /// After asking them politely and waiting: so many still run.
    AskedToClose(usize),
    /// After ending them forcibly and waiting: so many did not end.
    Killed(usize),
}

/// What the caller does next.
#[derive(Debug, PartialEq, Eq)]
pub enum CloseStep {
    /// Show `status`, send WM_CLOSE to the picked windows, wait, and
    /// report [`CloseProgress::AskedToClose`].
    AskToClose { status: String },
    /// Show `status`, end the processes still running, wait, and report
    /// [`CloseProgress::Killed`].
    Kill { status: String },
    /// Closing is over.
    Finished(Result<Closed, String>),
}

pub const ASKING: &'static str = "zavírám běžící KeyPad…";
pub const KILLING: &'static str = "KeyPad neodpovídá — ukončuji ho natvrdo…";
pub const STUCK: &'static str = "Běžící KeyPad se nepodařilo zavřít (možná běží jako správce) — zavři ho ručně a zkus to znovu.";

/// The next step of closing all processes run from the binary: politely
/// first, then forcibly. Nothing running is done at once; a process that
/// does not end even forcibly (typically one run as administrator, which
/// the installer may neither message nor end) is an error.
pub fn close_app(progress: CloseProgress) -> (s: CloseStep)
    ensures
        match progress {
            CloseProgress::Found(n) => if n == 0 {
                s == CloseStep::Finished(Ok(Closed::NotRunning))
            } else {
                s matches CloseStep::AskToClose { status } && status@ == ASKING@
            },
            CloseProgress::AskedToClose(n) => if n == 0 {
                s == CloseStep::Finished(Ok(Closed::Graceful))
            } else {
                s matches CloseStep::Kill { status } && status@ == KILLING@
            },
            CloseProgress::Killed(n) => if n == 0 {
                s == CloseStep::Finished(Ok(Closed::Forced))
            } else {
                s matches CloseStep::Finished(Err(e)) && e@ == STUCK@
            },
        },
{
    match progress {
        CloseProgress::Found(n) => if n == 0 {
            CloseStep::Finished(Ok(Closed::NotRunning))
        } else {
            CloseStep::AskToClose { status: owned(ASKING) }
        },
        CloseProgress::AskedToClose(n) => if n == 0 {
            CloseStep::Finished(Ok(Closed::Graceful))
        } else {
            CloseStep::Kill { status: owned(KILLING) }
        },
        CloseProgress::Killed(n) => if n == 0 {
            CloseStep::Finished(Ok(Closed::Forced))
        } else {
            CloseStep::Finished(Err(owned(STUCK)))
        },
    }
}

} // verus!
