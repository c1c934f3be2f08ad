//! The installer's decisions and messages: what an installation has to
//! do, how success is worded, what the user is told at the end, and the
//! command that removes the installer after uninstalling.
use vstd::prelude::*;
use vstd::string::StringExecFns;
use crate::text::{trimmed, trim, owned};
use crate::updater::{APP_EXE, APP_NAME, REPO, WEBVIEW2_URL};
use crate::prereq::VIGEMBUS_URL;
use crate::setup_window::Link;

verus! {

/// The user's key layout next to the application; uninstalling leaves it.
pub const CONFIG_FILE: &'static str = "config.toml";

/// What has to be done with respect to what is installed.
#[derive(Debug, PartialEq, Eq)]
pub enum Plan {
    /// Same version and KeyPad.exe in place — nothing is downloaded.
    UpToDate,
    /// Same version, but KeyPad.exe is missing.
    Repair,
    /// Another version than the one in the repository.
    Update { from: String, to: String },
    /// Nothing installed (or no version record).
    Fresh,
}

/// The installed version as far as it counts: present and not blank.
pub open spec fn installed_text(installed: Option<&str>) -> Option<Seq<char>> {
    match installed {
        Some(v) => if trimmed(v@).len() > 0 {
            Some(trimmed(v@))
        } else {
            None
        },
        None => None,
    }
}

/// `p` is the plan for the installed version (trimmed, `None` when there
/// is none), the repository's version and whether the binary is on disk.
pub open spec fn plan_fits(p: Plan, installed: Option<Seq<char>>, remote: Seq<char>, files_ok: bool) -> bool {
    match installed {
        Some(v) => if v == trimmed(remote) {
            if files_ok {
                p == Plan::UpToDate
            } else {
                p == Plan::Repair
            }
        } else {
            p matches Plan::Update { from, to } && from@ == v && to@ == trimmed(remote)
        },
        None => p == Plan::Fresh,
    }
}

/// Decides by the installed version, the repository's version and whether
/// the binary is on disk.
///
/// A matching version alone does not mean the application works: the
/// binary may have vanished, so "installed" is version plus file. A
/// missing version record next to a binary means an interrupted write
/// (the version is written last) — a fresh installation. Versions compare
/// on equality, not on "higher": a publisher may roll back to an older
/// build, and that too is a change to carry out. White space around the
/// versions does not count.
pub fn plan(installed: Option<&str>, remote: &str, files_ok: bool) -> (p: Plan)
    ensures
        plan_fits(p, installed_text(installed), remote@, files_ok),
{
    let remote = trim(remote);
    let installed = match installed {
        Some(v) => {
            let t = trim(v);
            if t.is_empty() {
                None
            } else {
                Some(t)
            }
        },
        None => None,
    };
    match installed {
        Some(v) => {
            let same = owned(v) == owned(remote);
            if same && files_ok {
                Plan::UpToDate
            } else if same {
                Plan::Repair
            } else {
                Plan::Update { from: owned(v), to: owned(remote) }
            }
        },
        None => Plan::Fresh,
    }
}

/// How success sounds for a plan.
pub open spec fn headline_text(plan: Plan, version: Seq<char>) -> Seq<char> {
    match plan {
        Plan::UpToDate => "KeyPad "@ + version + " je aktuální"@,
        Plan::Repair => "KeyPad "@ + version + " je opravený"@,
        Plan::Update { to, .. } => "KeyPad je aktualizovaný na "@ + to@,
        Plan::Fresh => "KeyPad "@ + version + " je nainstalovaný"@,
    }
}

/// How success sounds for a plan ("KeyPad … is …").
pub fn headline(plan: &Plan, version: &str) -> (r: String)
    ensures
        r@ == headline_text(*plan, version@),
{
    match plan {
        Plan::UpToDate => {
            let mut r = owned("KeyPad ");
            r.append(version);
            r.append(" je aktuální");
            r
        },
        Plan::Repair => {
            let mut r = owned("KeyPad ");
            r.append(version);
            r.append(" je opravený");
            r
        },
        Plan::Update { to, .. } => {
            let mut r = owned("KeyPad je aktualizovaný na ");
            r.append(to.as_str());
            r
        },
        Plan::Fresh => {
            let mut r = owned("KeyPad ");
            r.append(version);
            r.append(" je nainstalovaný");
            r
        },
    }
}

/// What the download step says is about to happen; nothing when the
/// installation is up to date.
pub open spec fn download_text(plan: Plan, version: Seq<char>) -> Option<Seq<char>> {
    match plan {
        Plan::UpToDate => None,
        Plan::Repair => Some("verze "@ + version + " sedí, ale chybí "@ + APP_EXE@ + " — opravuji"@),
        Plan::Update { from, to } => Some("aktualizuji "@ + from@ + " → "@ + to@),
        Plan::Fresh => Some("instaluji "@ + version),
    }
}

/// The status line of the download step: what is about to happen. An
/// installation that is up to date downloads nothing.
pub fn download_status(plan: &Plan, version: &str) -> (r: Option<String>)
    ensures
        match download_text(*plan, version@) {
            Some(t) => r is Some && r->Some_0@ == t,
            None => r is None,
        },
{
    match plan {
        Plan::UpToDate => None,
        Plan::Repair => {
            let mut r = owned("verze ");
            r.append(version);
            r.append(" sedí, ale chybí ");
            r.append(APP_EXE);
            r.append(" — opravuji");
            Some(r)
        },
        Plan::Update { from, to } => {
            let mut r = owned("aktualizuji ");
            r.append(from.as_str());
            r.append(" → ");
            r.append(to.as_str());
            Some(r)
        },
        Plan::Fresh => {
            let mut r = owned("instaluji ");
            r.append(version);
            Some(r)
        },
    }
}

/// An error from before anything was touched.
pub open spec fn untouched_text(what: Seq<char>, e: Seq<char>) -> Seq<char> {
    what + ": "@ + e + "."@ + UNCHANGED@
}

/// The end of every error from before anything was written.
pub const UNCHANGED: &'static str = "\nNa disku se nic nezměnilo.";

/// An error from before anything was touched: the user learns that the
/// old installation (if any) stayed whole.
pub fn untouched(what: &str, e: &str) -> (r: String)
    ensures
        r@ == untouched_text(what@, e@),
{
    let mut r = owned(what);
    r.append(": ");
    r.append(e);
    r.append(".");
    r.append(UNCHANGED);
    r
}

/// A successful end — what to show and whether the user still has to do
/// something.
#[derive(Debug, PartialEq, Eq)]
pub struct Done {
    pub message: String,
    /// The user has to do or know something (WebView2 missing, KeyPad did
    /// not start, a note "Pozor:") — the window does not close by itself,
    /// not even in quiet mode.
    pub attention: bool,
    /// Download page of what is missing.
    pub link: Option<Link>,
}

impl Done {
    /// Just a message: nothing more to do, no link.
    pub fn plain(message: &str) -> (d: Done)
        ensures
            d.message@ == message@,
            !d.attention,
            d.link is None,
    {
        Done { message: owned(message), attention: false, link: None }
    }
}

pub const VIGEM_NOTE: &'static str = "Chybí ještě ovladač ViGEmBus — bez něj KeyPad nevytvoří gamepad. Stáhneš ho z ";
pub const VIGEM_NOTE_END: &'static str = " (ovladač chce práva správce, KeyPad sám ne).";
pub const NO_WEBVIEW: &'static str = ", ale zatím ho nespouštím — chybí Microsoft Edge WebView2 Runtime, bez kterého se okno KeyPadu neotevře.\nNainstaluj ho z ";
pub const NO_WEBVIEW_END: &'static str = " a spusť KeyPadSetup znovu, víc není potřeba.";
pub const DONE: &'static str = "Hotovo — ";
pub const NOT_STARTED: &'static str = ", jen se ho nepodařilo spustit (";
pub const NOT_STARTED_END: &'static str = "). Spusť ho z nabídky Start.";
pub const RUNNING: &'static str = " a běží. Najdeš ho i v nabídce Start.";
pub const NOTE: &'static str = "\nPozor: ";
pub const WEBVIEW2_LABEL: &'static str = "Stáhnout WebView2";
pub const VIGEMBUS_LABEL: &'static str = "Stáhnout ViGEmBus";

/// The note about a missing ViGEmBus driver.
pub open spec fn vigem_note() -> Seq<char> {
    VIGEM_NOTE@ + VIGEMBUS_URL@ + VIGEM_NOTE_END@
}

/// Each note as a line of its own, after "Pozor: ".
pub open spec fn notes_text(notes: Seq<String>) -> Seq<char>
    decreases notes.len(),
{
    if notes.len() == 0 {
        Seq::empty()
    } else {
        notes_text(notes.drop_last()) + NOTE@ + notes.last()@
    }
}

/// The message of [`outcome`] before the notes.
pub open spec fn outcome_text(
    headline: Seq<char>,
    webview2: bool,
    launched: Option<Result<(), String>>,
    vigembus: bool,
) -> Seq<char> {
    let main = if !webview2 {
        headline + NO_WEBVIEW@ + WEBVIEW2_URL@ + NO_WEBVIEW_END@
    } else {
        match launched {
            Some(Err(e)) => DONE@ + headline + NOT_STARTED@ + e@ + NOT_STARTED_END@,
            _ => DONE@ + headline + RUNNING@,
        }
    };
    if !vigembus {
        main + "\n"@ + vigem_note()
    } else {
        main
    }
}

/// The link offered with the closing message: WebView2 when it is
/// missing, else ViGEmBus when that is missing, else none.
pub open spec fn outcome_link(link: Option<Link>, webview2: bool, vigembus: bool) -> bool {
    if !webview2 {
        link matches Some(l) && l.label@ == WEBVIEW2_LABEL@ && l.url@ == WEBVIEW2_URL@
    } else if !vigembus {
        link matches Some(l) && l.label@ == VIGEMBUS_LABEL@ && l.url@ == VIGEMBUS_URL@
    } else {
        link is None
    }
}

fn push_vigem_note(message: &mut String)
    ensures
        final(message)@ == old(message)@ + "\n"@ + vigem_note(),
{
    message.append("\n");
    message.append(VIGEM_NOTE);
    message.append(VIGEMBUS_URL);
    message.append(VIGEM_NOTE_END);
    proof {
        assert(final(message)@ =~= old(message)@ + "\n"@ + vigem_note());
    }
}

fn link_to(label: &str, url: &str) -> (l: Link)
    ensures
        l.label@ == label@,
        l.url@ == url@,
{
    Link { label: owned(label), url: owned(url) }
}

/// The closing message by the state of the system.
///
/// Without WebView2 the application is not started (it would start and
/// quit at once, showing nothing) and the message says what to do; the
/// link leads to WebView2 and the window stays. Otherwise a failed start
/// keeps the window open; a missing ViGEmBus is no error, but its note and
/// download link are added. Any note ("Pozor:", a missing shortcut…)
/// keeps the window open too.
pub fn outcome(
    headline: &str,
    webview2: bool,
    launched: Option<Result<(), String>>,
    vigembus: bool,
    notes: &[String],
) -> (d: Done)
    ensures
        d.message@ == outcome_text(headline@, webview2, launched, vigembus) + notes_text(notes@),
        d.attention == (!webview2 || (launched matches Some(Err(_))) || notes@.len() > 0),
        outcome_link(d.link, webview2, vigembus),
{
    let mut message: String;
    let link: Option<Link>;
    let mut attention: bool;
    if !webview2 {
        message = owned(headline);
        message.append(NO_WEBVIEW);
        message.append(WEBVIEW2_URL);
        message.append(NO_WEBVIEW_END);
        if !vigembus {
            push_vigem_note(&mut message);
        }
        link = Some(link_to(WEBVIEW2_LABEL, WEBVIEW2_URL));
        attention = true;
    } else {
        let failed_launch = matches!(launched, Some(Err(_)));
        message = owned(DONE);
        message.append(headline);
        match &launched {
            Some(Err(e)) => {
                message.append(NOT_STARTED);
                message.append(e.as_str());
                message.append(NOT_STARTED_END);
            },
            _ => {
                message.append(RUNNING);
            },
        }
        if !vigembus {
            push_vigem_note(&mut message);
            link = Some(link_to(VIGEMBUS_LABEL, VIGEMBUS_URL));
        } else {
            link = None;
        }
        attention = failed_launch;
    }
    proof {
        assert(message@ =~= outcome_text(headline@, webview2, launched, vigembus));
    }
    if notes.len() > 0 {
        attention = true;
    }
    let ghost main = message@;
    let mut i: usize = 0;
    while i < notes.len()
        invariant
            i <= notes@.len(),
            message@ == main + notes_text(notes@.subrange(0, i as int)),
        decreases notes@.len() - i,
    {
        message.append(NOTE);
        message.append(notes[i].as_str());
        proof {
            let t = notes@.subrange(0, i + 1);
            assert(t.drop_last() =~= notes@.subrange(0, i as int));
            assert(message@ =~= main + notes_text(t));
        }
        i = i + 1;
    }
    proof {
        assert(notes@.subrange(0, notes@.len() as int) =~= notes@);
    }
    Done { message, attention, link }
}

pub const NOT_INSTALLED: &'static str = "KeyPad tu nainstalovaný nebyl — nebylo co odebírat.";
pub const REMOVED: &'static str = "KeyPad je odebraný.";
pub const CONFIG_LEFT: &'static str = "\nTvoje nastavení (";
pub const CONFIG_LEFT_IN: &'static str = ") zůstalo v ";
pub const CONFIG_LEFT_END: &'static str = " — smaž ho ručně, pokud ho už nechceš.";
pub const WEBVIEW_LEFT: &'static str = "\nData okna (WebView2) v ";
pub const WEBVIEW_LEFT_END: &'static str = " se nepodařilo smazat celá — nejspíš je ještě drží dobíhající proces WebView2. Smaž tu složku ručně.";

/// The closing message of an uninstallation.
pub open spec fn uninstall_text(
    found: bool,
    config_left: bool,
    dir: Seq<char>,
    webview_left: Option<Seq<char>>,
) -> Seq<char> {
    let main = if !found {
        NOT_INSTALLED@
    } else if config_left {
        REMOVED@ + CONFIG_LEFT@ + CONFIG_FILE@ + CONFIG_LEFT_IN@ + dir + CONFIG_LEFT_END@
    } else {
        REMOVED@
    };
    match webview_left {
        Some(wv) => main + WEBVIEW_LEFT@ + wv + WEBVIEW_LEFT_END@,
        None => main,
    }
}

/// The closing message of an uninstallation: whether there was anything
/// to remove, that the user's settings stayed (and where), and where the
/// window's data could not be removed. Not an error: the application is
/// gone, but the user should know where megabytes were left.
pub fn uninstall_message(found: bool, config_left: bool, dir: &str, webview_left: Option<&str>) -> (r:
    String)
    ensures
        r@ == uninstall_text(
            found,
            config_left,
            dir@,
            match webview_left {
                Some(w) => Some(w@),
                None => None,
            },
        ),
{
    let mut msg = if !found {
        owned(NOT_INSTALLED)
    } else if config_left {
        let mut m = owned(REMOVED);
        m.append(CONFIG_LEFT);
        m.append(CONFIG_FILE);
        m.append(CONFIG_LEFT_IN);
        m.append(dir);
        m.append(CONFIG_LEFT_END);
        m
    } else {
        owned(REMOVED)
    };
    match webview_left {
        Some(wv) => {
            msg.append(WEBVIEW_LEFT);
            msg.append(wv);
            msg.append(WEBVIEW_LEFT_END);
        },
        None => {},
    }
    msg
}

/// Command line for `cmd.exe` that, after a while, removes the installer
/// and the empty installation folder.
///
/// It holds no paths — they come through environment variables
/// ([`cleanup_env`]). cmd expands `%…%` in the whole line, even inside
/// quotes; a path written into the line would be expanded again, and a
/// profile `x%OS%y` would turn into `xWindows_NTy` — a foreign file would
/// be deleted. A variable's value is expanded only once.
///
/// `/S /C "…"`: cmd strips only the first and the last quote, so the
/// variables can stand in quotes of their own. `/D` switches AutoRun off,
/// `/V:OFF` delayed expansion. `ping -n 3` waits about two seconds; by its
/// full path, so that cmd does not look for it in the working folder.
pub const CLEANUP_COMMAND: &'static str = "/D /V:OFF /S /C \"\"%KP_PING%\" -n 3 127.0.0.1 >nul & del /F /Q \"%KP_SETUP%\" 2>nul & rmdir \"%KP_DIR%\" 2>nul\"";

/// Environment variables for [`CLEANUP_COMMAND`]: the full path of
/// `PING.EXE`, the installer to delete and the folder to remove.
pub fn cleanup_env(ping: &str, setup: &str, dir: &str) -> (r: [(&'static str, String); 3])
    ensures
        r[0].0@ == "KP_PING"@ && r[0].1@ == ping@,
        r[1].0@ == "KP_SETUP"@ && r[1].1@ == setup@,
        r[2].0@ == "KP_DIR"@ && r[2].1@ == dir@,
{
    [("KP_PING", owned(ping)), ("KP_SETUP", owned(setup)), ("KP_DIR", owned(dir))]
}

/// A value in the entry of Settings → Apps.
#[derive(Debug, PartialEq, Eq)]
pub enum RegValue {
    Text(String),
    Number(u32),
}

/// `v` is the text `t`.
pub open spec fn is_text(v: RegValue, t: Seq<char>) -> bool {
    v matches RegValue::Text(x) && x@ == t
}

/// The values of the entry in Settings → Apps, name by name: the name,
/// version and publisher, where it lies, its icon, how to uninstall it
/// (the installer with `/uninstall`) and to change it (the installer
/// alone, which installs the current version again — a repair too), the
/// project page; changing is allowed, a separate repair is not; the size
/// in KiB.
pub fn uninstall_entry(setup_exe: &str, install_dir: &str, app: &str, version: &str, size_kb: u32) -> (r:
    Vec<(&'static str, RegValue)>)
    ensures
        r@.len() == 11,
        r@[0].0@ == "DisplayName"@ && is_text(r@[0].1, APP_NAME@),
        r@[1].0@ == "DisplayVersion"@ && is_text(r@[1].1, version@),
        r@[2].0@ == "Publisher"@ && is_text(r@[2].1, "KeyPad"@),
        r@[3].0@ == "InstallLocation"@ && is_text(r@[3].1, install_dir@),
        r@[4].0@ == "DisplayIcon"@ && is_text(r@[4].1, app@),
        r@[5].0@ == "UninstallString"@ && is_text(r@[5].1, "\""@ + setup_exe@ + "\" /uninstall"@),
        r@[6].0@ == "ModifyPath"@ && is_text(r@[6].1, "\""@ + setup_exe@ + "\""@),
        r@[7].0@ == "URLInfoAbout"@ && is_text(r@[7].1, "https://github.com/"@ + REPO@),
        r@[8].0@ == "NoModify"@ && r@[8].1 == RegValue::Number(0),
        r@[9].0@ == "NoRepair"@ && r@[9].1 == RegValue::Number(1),
        r@[10].0@ == "EstimatedSize"@ && r@[10].1 == RegValue::Number(size_kb),
{
    let mut uninstall = owned("\"");
    uninstall.append(setup_exe);
    uninstall.append("\" /uninstall");
    let mut modify = owned("\"");
    modify.append(setup_exe);
    modify.append("\"");
    let mut url = owned("https://github.com/");
    url.append(REPO);
    let mut r: Vec<(&'static str, RegValue)> = Vec::new();
    r.push(("DisplayName", RegValue::Text(owned(APP_NAME))));
    r.push(("DisplayVersion", RegValue::Text(owned(version))));
    r.push(("Publisher", RegValue::Text(owned("KeyPad"))));
    r.push(("InstallLocation", RegValue::Text(owned(install_dir))));
    r.push(("DisplayIcon", RegValue::Text(owned(app))));
    r.push(("UninstallString", RegValue::Text(uninstall)));
    r.push(("ModifyPath", RegValue::Text(modify)));
    r.push(("URLInfoAbout", RegValue::Text(url)));
    r.push(("NoModify", RegValue::Number(0)));
    r.push(("NoRepair", RegValue::Number(1)));
    r.push(("EstimatedSize", RegValue::Number(size_kb)));
    r
}

} // verus!
