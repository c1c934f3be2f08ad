//! Updating the application: whether an update is offered, which release
//! is installed, and the names of downloaded installers.
//!
//! The update itself is the installer's work: it is downloaded and run
//! with `/quiet`. It is offered only where the installer really carries
//! it out: to the copy in the installation folder, and only for a NEWER
//! version.
use vstd::prelude::*;
use vstd::string::StringExecFns;
use vstd::utf8::{encode_utf8, decode_utf8, is_char_boundary};
use vstd::string::StringSliceAdditionalSpecFns;
use crate::text::{chars_of, dec, trimmed, trim, owned, push_decimal};
use crate::updater::{newer, is_newer};
use crate::logger::ascii_lower;

verus! {

/// The answer for the window.
#[derive(Debug, PartialEq, Eq)]
pub struct UpdateInfo {
    /// The running version. Empty for a development build.
    pub current: String,
    /// The repository's version; empty when it could not be found out.
    pub latest: String,
    /// Is there anything to update? Only when both versions are known and
    /// the repository's is newer.
    pub available: bool,
    /// Why it could not be found out (network, development build,
    /// portable copy).
    pub error: Option<String>,
}

/// What the update check answers, from the running version and the
/// outcome of the check: the repository's version, or why there is none.
pub fn zjisti(current: String, outcome: Result<String, String>) -> (r: UpdateInfo)
    ensures
        r.current == current,
        match outcome {
            Ok(latest) => r.latest == latest && r.available == newer(latest@, current@)
                && r.error is None,
            Err(e) => r.latest@ == Seq::<char>::empty() && !r.available && r.error == Some(e),
        },
{
    match outcome {
        Ok(latest) => {
            let available = is_newer(latest.as_str(), current.as_str());
            UpdateInfo { current, latest, available, error: None }
        },
        Err(e) => UpdateInfo { current, latest: String::new(), available: false, error: Some(e) },
    }
}

pub const DEVELOPMENT: &'static str = "vývojová verze (vedle programu není version.txt) — aktualizace se nenabízí";
pub const PORTABLE: &'static str = "přenosná kopie (neběží z ";
pub const PORTABLE_END: &'static str = ") — aktualizuj přes KeyPadSetup.exe";

/// The running version — if the running copy can be updated; else why
/// not. A development build has no version file; a portable copy outside
/// the installation folder would not be the one the installer updates.
pub fn aktualizovatelna_verze(bezici: Option<String>, z_instalace: bool, instalace: &str) -> (r:
    Result<String, String>)
    ensures
        match bezici {
            None => r is Err && r->Err_0@ == DEVELOPMENT@,
            Some(v) => if z_instalace {
                r == Ok::<String, String>(v)
            } else {
                r is Err && r->Err_0@ == PORTABLE@ + instalace@ + PORTABLE_END@
            },
        },
{
    match bezici {
        None => Err(owned(DEVELOPMENT)),
        Some(v) => if z_instalace {
            Ok(v)
        } else {
            let mut e = owned(PORTABLE);
            e.append(instalace);
            e.append(PORTABLE_END);
            Err(e)
        },
    }
}

pub const NO_VERSION: &'static str = "vydání na GitHubu nemá verzi — zkus to za pár minut znovu";
pub const ALREADY: &'static str = "už máš nejnovější verzi ";
pub const ALREADY_END: &'static str = " (GitHub chvíli ukazoval jiný údaj) — kdyby nabídka nezmizela, zkus to za pár minut znovu";

/// Checks the version of the release about to be installed against the
/// running one: it must be there and be newer — else the installer would
/// install nothing and leave the window open.
pub fn nova_verze(current: &str, nova: &str) -> (r: Result<String, String>)
    ensures
        if trimmed(nova@).len() == 0 {
            r is Err && r->Err_0@ == NO_VERSION@
        } else if !newer(trimmed(nova@), current@) {
            r is Err && r->Err_0@ == ALREADY@ + current@ + ALREADY_END@
        } else {
            r is Ok && r->Ok_0@ == trimmed(nova@)
        },
{
    let t = trim(nova);
    if t.is_empty() {
        return Err(owned(NO_VERSION));
    }
    if !is_newer(t, current) {
        let mut e = owned(ALREADY);
        e.append(current);
        e.append(ALREADY_END);
        return Err(e);
    }
    Ok(owned(t))
}

/// The first seven bytes of a commit (as GitHub shows it), or the whole
/// text when it is shorter or the seventh byte is not a character boundary.
pub open spec fn short_sha(s: Seq<char>) -> Seq<char> {
    if is_char_boundary(encode_utf8(s), 7) {
        decode_utf8(encode_utf8(s).subrange(0, 7))
    } else {
        s
    }
}

/// The first seven characters of a commit (as on GitHub).
pub fn zkratka(sha: &str) -> (r: &str)
    ensures
        r@ == short_sha(sha@),
{
    if sha.is_char_boundary(7) {
        let (a, _) = sha.split_at(7);
        proof {
            vstd::utf8::encode_utf8_decode_utf8(a@);
        }
        a
    } else {
        sha
    }
}

/// Name of a downloaded installer.
pub open spec fn installer_name(sha: Seq<char>, ms: nat) -> Seq<char> {
    "KeyPadSetup-"@ + short_sha(sha) + "-"@ + dec(ms) + ".exe"@
}

/// Name of a downloaded installer — another one for every attempt.
///
/// The installer of the last attempt may still run (it ended with an error
/// and its window stayed open), and Windows keeps its file locked; the
/// same name would end the new attempt with a sharing error, and the
/// commit repeats. Hence the time in milliseconds; the commit is there
/// for reading the log.
pub fn jmeno_instalatoru(sha: &str, ms: u128) -> (r: String)
    ensures
        r@ == installer_name(sha@, ms as nat),
{
    let mut r = owned("KeyPadSetup-");
    r.append(zkratka(sha));
    r.append("-");
    push_decimal(&mut r, ms, 0);
    r.append(".exe");
    proof {
        assert(r@ =~= installer_name(sha@, ms as nat));
    }
    r
}

/// A file name is one of a downloaded installer: `keypadsetup-…` ending in
/// `.exe`, without regard to the case of ASCII letters.
pub open spec fn downloaded_installer(name: Seq<char>) -> bool {
    let l = name.map_values(|c: char| ascii_lower(c));
    &&& l.len() >= 12 && l.subrange(0, 12) == "keypadsetup-"@
    &&& l.len() >= 4 && l.subrange(l.len() - 4, l.len() as int) == ".exe"@
}

/// Is the file an installer downloaded by an update (see
/// [`jmeno_instalatoru`])?
pub fn je_stazeny_instalator(jmeno: &str) -> (r: bool)
    ensures
        r == downloaded_installer(jmeno@),
{
    let cs = chars_of(jmeno);
    let mut l: Vec<char> = Vec::new();
    let mut i: usize = 0;
    while i < cs.len()
        invariant
            i <= cs@.len(),
            l@ == cs@.subrange(0, i as int).map_values(|c: char| ascii_lower(c)),
        decreases cs@.len() - i,
    {
        let c = cs[i];
        l.push(if 'A' <= c && c <= 'Z' {
            ((c as u8) + 32) as char
        } else {
            c
        });
        i = i + 1;
        proof {
            assert(l@ =~= cs@.subrange(0, i as int).map_values(|c: char| ascii_lower(c)));
        }
    }
    proof {
        assert(cs@.subrange(0, cs@.len() as int) =~= cs@);
    }
    assert(l@ == jmeno@.map_values(|c: char| ascii_lower(c)));
    let pre = chars_of("keypadsetup-");
    let suf = chars_of(".exe");
    let n = l.len();
    if n < pre.len() || n < suf.len() {
        proof {
            reveal_strlit("keypadsetup-");
            reveal_strlit(".exe");
        }
        return false;
    }
    proof {
        reveal_strlit("keypadsetup-");
        reveal_strlit(".exe");
    }
    let mut k: usize = 0;
    while k < 12
        invariant
            pre@ == "keypadsetup-"@,
            pre@.len() == 12,
            n == l@.len(),
            n >= 12,
            k <= 12,
            l@ == jmeno@.map_values(|c: char| ascii_lower(c)),
            forall|j: int| 0 <= j < k ==> l@[j] == pre@[j],
        decreases 12 - k,
    {
        if l[k] != pre[k] {
            proof {
                assert(l@.subrange(0, 12)[k as int] != pre@[k as int]);
            }
            return false;
        }
        k = k + 1;
    }
    proof {
        assert(l@.subrange(0, 12) =~= pre@);
    }
    let mut k: usize = 0;
    while k < 4
        invariant
            suf@ == ".exe"@,
            suf@.len() == 4,
            n == l@.len(),
            n >= 12,
            k <= 4,
            l@ == jmeno@.map_values(|c: char| ascii_lower(c)),
            l@.subrange(0, 12) == "keypadsetup-"@,
            forall|j: int| 0 <= j < k ==> l@[n - 4 + j] == suf@[j],
        decreases 4 - k,
    {
        if l[n - 4 + k] != suf[k] {
            proof {
                assert(l@.subrange(n - 4, n as int)[k as int] != suf@[k as int]);
            }
            return false;
        }
        k = k + 1;
    }
    proof {
        assert(l@.subrange(n - 4, n as int) =~= suf@);
    }
    true
}

proof fn lemma_dec_nonempty(n: nat)
    ensures
        dec(n).len() >= 1,
    decreases n,
{
    if n >= 10 {
        lemma_dec_nonempty(n / 10);
    }
}

proof fn lemma_digit_injective(x: int, y: int)
    requires
        0 <= x < 10,
        0 <= y < 10,
        crate::text::digit(x) == crate::text::digit(y),
    ensures
        x == y,
{
    assert(crate::text::digit(x) as u32 == 48 + x);
    assert(crate::text::digit(y) as u32 == 48 + y);
}

proof fn lemma_dec_injective(a: nat, b: nat)
    requires
        dec(a) == dec(b),
    ensures
        a == b,
    decreases a,
{
    lemma_dec_nonempty(a / 10);
    lemma_dec_nonempty(b / 10);
    if a >= 10 && b >= 10 {
        assert(dec(a) == dec(a / 10).push(crate::text::digit((a % 10) as int)));
        assert(dec(b) == dec(b / 10).push(crate::text::digit((b % 10) as int)));
        let da = crate::text::digit((a % 10) as int);
        let db = crate::text::digit((b % 10) as int);
        assert(dec(a / 10).push(da).last() == da);
        assert(dec(b / 10).push(db).last() == db);
        assert(da == db);
        lemma_digit_injective((a % 10) as int, (b % 10) as int);
        assert(dec(a).drop_last() =~= dec(a / 10));
        assert(dec(b).drop_last() =~= dec(b / 10));
        lemma_dec_injective(a / 10, b / 10);
    } else if a < 10 && b < 10 {
        assert(dec(a) == seq![crate::text::digit(a as int)]);
        assert(dec(b) == seq![crate::text::digit(b as int)]);
        assert(seq![crate::text::digit(a as int)][0] == crate::text::digit(a as int));
        assert(seq![crate::text::digit(b as int)][0] == crate::text::digit(b as int));
        lemma_digit_injective(a as int, b as int);
    } else if a < 10 {
        assert(dec(a).len() == 1);
        assert(dec(b).len() == dec(b / 10).len() + 1);
    } else {
        assert(dec(b).len() == 1);
        assert(dec(a).len() == dec(a / 10).len() + 1);
    }
}

/// Every installer an update downloads is recognised by the clean-up, so
/// none is left behind.
pub proof fn lemma_installer_names_are_recognised(sha: Seq<char>, ms: nat)
    ensures
        downloaded_installer(installer_name(sha, ms)),
{
    reveal_strlit("KeyPadSetup-");
    reveal_strlit("keypadsetup-");
    reveal_strlit(".exe");
    reveal_strlit("-");
    let name = installer_name(sha, ms);
    let l = name.map_values(|c: char| ascii_lower(c));
    assert(l.subrange(0, 12) =~= "keypadsetup-"@);
    assert(l.subrange(l.len() - 4, l.len() as int) =~= ".exe"@);
}

/// Two attempts at different times never name their installers alike.
pub proof fn lemma_installer_names_differ(sha: Seq<char>, a: nat, b: nat)
    requires
        a != b,
    ensures
        installer_name(sha, a) != installer_name(sha, b),
{
    let q = "KeyPadSetup-"@ + short_sha(sha) + "-"@;
    let s = ".exe"@;
    let na = installer_name(sha, a);
    let nb = installer_name(sha, b);
    assert(na =~= q + dec(a) + s);
    assert(nb =~= q + dec(b) + s);
    if na == nb {
        assert(dec(a) =~= na.subrange(q.len() as int, na.len() - s.len()));
        assert(dec(b) =~= nb.subrange(q.len() as int, nb.len() - s.len()));
        lemma_dec_injective(a, b);
    }
}

/// The log line of an update check (the application logs it only when it
/// differs from the last one).
pub open spec fn check_log_text(info: UpdateInfo) -> Seq<char> {
    match info.error {
        Some(e) => "kontrola aktualizace: "@ + e@,
        None => if info.available {
            "je dostupná nová verze "@ + info.latest@ + " (běží "@ + info.current@ + ")"@
        } else {
            "aktualizace: verze "@ + info.current@ + " je aktuální (v repozitáři "@ + info.latest@
                + ")"@
        },
    }
}

/// The log line of an update check.
pub fn zaznam_kontroly(info: &UpdateInfo) -> (s: String)
    ensures
        s@ == check_log_text(*info),
{
    match &info.error {
        Some(e) => {
            let mut s = owned("kontrola aktualizace: ");
            s.append(e.as_str());
            s
        },
        None => if info.available {
            let mut s = owned("je dostupná nová verze ");
            s.append(info.latest.as_str());
            s.append(" (běží ");
            s.append(info.current.as_str());
            s.append(")");
            s
        } else {
            let mut s = owned("aktualizace: verze ");
            s.append(info.current.as_str());
            s.append(" je aktuální (v repozitáři ");
            s.append(info.latest.as_str());
            s.append(")");
            s
        },
    }
}

} // verus!
