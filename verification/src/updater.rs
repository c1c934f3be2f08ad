//! The release channel: names of the release files, reading the server's
//! answers, comparing versions and checking a download.
//!
//! A release is the folder `release/` of the repository:
//! `version.txt` (`0.1.0+YYYYMMDD.HHMM`, no line end), `KeyPad.exe` and
//! `KeyPadSetup.exe`.
use vstd::prelude::*;
use crate::text::{chars_of, string_of, trimmed, trim, owned};

verus! {

/// Public repository — no account or access needed.
pub const REPO: &'static str = "iva-exe/KeyPad";
pub const RAW_HOST: &'static str = "raw.githubusercontent.com";
pub const API_HOST: &'static str = "api.github.com";

/// Name of the application (folders, shortcut, entry in Apps).
pub const APP_NAME: &'static str = "KeyPad";
/// The application's binary.
pub const APP_EXE: &'static str = "KeyPad.exe";
/// The installer's binary.
pub const SETUP_EXE: &'static str = "KeyPadSetup.exe";
/// The version file — in `release/` and next to the installed application.
pub const VERSION_FILE: &'static str = "version.txt";

/// Microsoft's WebView2 Runtime installer (Evergreen Bootstrapper).
pub const WEBVIEW2_URL: &'static str = "https://go.microsoft.com/fwlink/p/?LinkId=2124703";

/// Identifier of the application; WebView2 keeps the window's data in a
/// folder of this name, and uninstalling finds it by it.
pub const APP_IDENTIFIER: &'static str = "cz.hexel.keypad";

// ── Commit of the main branch ────────────────────────────────────────

/// The key in front of the commit in the answer of
/// `GET /repos/{repo}/commits/main`: `"sha":"`.
pub open spec fn sha_key() -> Seq<char> {
    seq!['"', 's', 'h', 'a', '"', ':', '"']
}

/// The first position at or after `i` where the (non-empty) `pat` occurs
/// in `s`.
pub open spec fn find_from(s: Seq<char>, pat: Seq<char>, i: int) -> Option<int>
    decreases s.len() - i,
{
    if i < 0 || i >= s.len() || i + pat.len() > s.len() {
        None
    } else if s.subrange(i, i + pat.len()) == pat {
        Some(i)
    } else {
        find_from(s, pat, i + 1)
    }
}

proof fn lemma_find_from(s: Seq<char>, pat: Seq<char>, i: int)
    ensures
        find_from(s, pat, i) matches Some(p) ==> i <= p && p + pat.len() <= s.len() && s.subrange(
            p,
            p + pat.len(),
        ) == pat,
    decreases s.len() - i,
{
    if !(i < 0 || i >= s.len() || i + pat.len() > s.len()) && s.subrange(i, i + pat.len()) != pat {
        lemma_find_from(s, pat, i + 1);
    }
}

/// An ASCII hexadecimal digit.
pub open spec fn is_hex(c: char) -> bool {
    ('0' <= c && c <= '9') || ('a' <= c && c <= 'f') || ('A' <= c && c <= 'F')
}

/// The longest prefix of hexadecimal digits.
pub open spec fn hex_prefix(s: Seq<char>) -> Seq<char>
    decreases s.len(),
{
    if s.len() > 0 && is_hex(s[0]) {
        seq![s[0]] + hex_prefix(s.drop_first())
    } else {
        Seq::empty()
    }
}

/// The commit in an answer of the API: the hexadecimal digits right after
/// the first `"sha":"`, if there are at least seven of them.
pub open spec fn commit_sha(text: Seq<char>) -> Option<Seq<char>> {
    match find_from(text, sha_key(), 0) {
        Some(p) => {
            let h = hex_prefix(text.subrange(p + 7, text.len() as int));
            if h.len() >= 7 {
                Some(h)
            } else {
                None
            }
        },
        None => None,
    }
}

fn occurs_at(s: &Vec<char>, pat: &Vec<char>, i: usize) -> (r: bool)
    requires
        i + pat@.len() <= s@.len(),
    ensures
        r == (s@.subrange(i as int, i + pat@.len()) == pat@),
{
    let mut k: usize = 0;
    while k < pat.len()
        invariant
            i + pat@.len() <= s.len(),
            k <= pat@.len(),
            forall|j: int| 0 <= j < k ==> s@[i + j] == #[trigger] pat@[j],
        decreases pat@.len() - k,
    {
        if s[i + k] != pat[k] {
            proof {
                assert(s@.subrange(i as int, i + pat@.len())[k as int] != pat@[k as int]);
            }
            return false;
        }
        k = k + 1;
    }
    proof {
        assert(s@.subrange(i as int, i + pat@.len()) =~= pat@);
    }
    true
}

fn find(s: &Vec<char>, pat: &Vec<char>) -> (r: Option<usize>)
    requires
        pat@.len() > 0,
    ensures
        match r {
            Some(p) => find_from(s@, pat@, 0) == Some(p as int),
            None => find_from(s@, pat@, 0) is None,
        },
{
    let n = s.len();
    let m = pat.len();
    let mut i: usize = 0;
    while i < n && m <= n - i
        invariant
            n == s@.len(),
            m == pat@.len(),
            m > 0,
            i <= n,
            find_from(s@, pat@, 0) == find_from(s@, pat@, i as int),
        decreases n - i,
    {
        if occurs_at(s, pat, i) {
            return Some(i);
        }
        i = i + 1;
    }
    None
}

fn is_hex_char(c: char) -> (r: bool)
    ensures
        r == is_hex(c),
{
    ('0' <= c && c <= '9') || ('a' <= c && c <= 'f') || ('A' <= c && c <= 'F')
}

/// The commit out of the answer to `GET /repos/{repo}/commits/main`.
///
/// The answer starts with `{"sha":"…"`: the first occurrence is the commit
/// looked for. A commit needs at least seven hexadecimal digits.
#[verifier::spinoff_prover]
pub fn parse_commit_sha(text: &str) -> (r: Option<String>)
    ensures
        match r {
            Some(sha) => commit_sha(text@) == Some(sha@),
            None => commit_sha(text@) is None,
        },
{
    let cs = chars_of(text);
    let key: Vec<char> = vec!['"', 's', 'h', 'a', '"', ':', '"'];
    assert(key@ =~= sha_key());
    let n = cs.len();
    let p = match find(&cs, &key) {
        Some(p) => p,
        None => {
            return None;
        },
    };
    proof {
        lemma_find_from(text@, sha_key(), 0);
    }
    assert(find_from(text@, sha_key(), 0) == Some(p as int));
    let mut sha: Vec<char> = Vec::new();
    let mut j: usize = p + 7;
    let ghost tail = text@.subrange(p + 7, n as int);
    while j < n && is_hex_char(cs[j])
        invariant
            cs@ == text@,
            n == cs@.len(),
            p + 7 <= j <= n,
            tail == text@.subrange(p + 7, n as int),
            hex_prefix(tail) == sha@ + hex_prefix(text@.subrange(j as int, n as int)),
        decreases n - j,
    {
        proof {
            let rest = text@.subrange(j as int, n as int);
            assert(rest.drop_first() =~= text@.subrange(j + 1, n as int));
            assert(rest[0] == cs@[j as int]);
        }
        sha.push(cs[j]);
        j = j + 1;
        proof {
            assert(hex_prefix(tail) =~= sha@ + hex_prefix(text@.subrange(j as int, n as int)));
        }
    }
    proof {
        let rest = text@.subrange(j as int, n as int);
        if j < n {
            assert(rest[0] == cs@[j as int]);
        }
        assert(hex_prefix(rest) =~= Seq::<char>::empty());
        assert(hex_prefix(tail) =~= sha@);
    }
    if sha.len() >= 7 {
        Some(string_of(sha.as_slice()))
    } else {
        None
    }
}

/// What a finished request for the main branch's commit gives: the commit,
/// or why there is none. `response` is the body of the answer as text, or
/// the error of the request.
pub fn latest_commit(response: Result<&str, String>) -> (r: Result<String, String>)
    ensures
        match response {
            Err(e) => r == Err::<String, String>(e),
            Ok(body) => match commit_sha(body@) {
                Some(sha) => r is Ok && r->Ok_0@ == sha,
                None => r is Err && r->Err_0@
                    == "odpověď GitHubu neobsahuje platný commit"@,
            },
        },
{
    match response {
        Err(e) => Err(e),
        Ok(body) => match parse_commit_sha(body) {
            Some(sha) => Ok(sha),
            None => Err(owned("odpověď GitHubu neobsahuje platný commit")),
        },
    }
}

// ── Version text ─────────────────────────────────────────────────────

/// A version as read from `version.txt`: the text without surrounding
/// white space; `None` when nothing is left.
pub fn clean_version(text: &str) -> (r: Option<String>)
    ensures
        match r {
            Some(v) => v@ == trimmed(text@) && v@.len() > 0,
            None => trimmed(text@).len() == 0,
        },
{
    let t = trim(text);
    if t.is_empty() {
        None
    } else {
        Some(owned(t))
    }
}

/// What a finished request for `release/version.txt` of the main branch
/// gives: the version, or why there is none.
pub fn remote_version(response: Result<&str, String>) -> (r: Result<String, String>)
    ensures
        match response {
            Err(e) => r == Err::<String, String>(e),
            Ok(body) => if trimmed(body@).len() > 0 {
                r is Ok && r->Ok_0@ == trimmed(body@)
            } else {
                r is Err && r->Err_0@ == "server vrátil prázdnou verzi"@
            },
        },
{
    match response {
        Err(e) => Err(e),
        Ok(body) => match clean_version(body) {
            Some(v) => Ok(v),
            None => Err(owned("server vrátil prázdnou verzi")),
        },
    }
}

/// Path of a release file of a given commit on [`RAW_HOST`]:
/// `/{REPO}/{sha}/release/{name}`.
pub fn release_file_path(sha: &str, name: &str) -> (r: String)
    ensures
        r@ == "/"@ + REPO@ + "/"@ + sha@ + "/release/"@ + name@,
{
    let mut r = owned("/");
    r.append(REPO);
    r.append("/");
    r.append(sha);
    r.append("/release/");
    r.append(name);
    r
}

// ── Download check ───────────────────────────────────────────────────

/// Does the downloaded content look like an executable?
///
/// Every PE file starts with "MZ"; an HTML error page or a few bytes fail
/// here, not at launch. A truncated file is not caught here (its start is
/// fine).
pub fn looks_like_exe(data: &[u8]) -> (r: bool)
    ensures
        r == (data@.len() >= 100_000 && data@[0] == 0x4D && data@[1] == 0x5A),
{
    data.len() >= 100_000 && data[0] == 0x4D && data[1] == 0x5A
}

// ── Versions ─────────────────────────────────────────────────────────

/// An ASCII decimal digit.
pub open spec fn is_digit(c: char) -> bool {
    '0' <= c && c <= '9'
}

/// The value of a string of decimal digits.
pub open spec fn digits_value(p: Seq<char>) -> nat
    decreases p.len(),
{
    if p.len() == 0 {
        0
    } else {
        digits_value(p.drop_last()) * 10 + ((p.last() as int - 48) as nat)
    }
}

/// A number written without sign: at least one digit, only digits, and
/// no more than `u64::MAX`.
pub open spec fn number_of(p: Seq<char>) -> Option<u64> {
    if p.len() > 0 && (forall|i: int| 0 <= i < p.len() ==> is_digit(#[trigger] p[i]))
        && digits_value(p) <= u64::MAX {
        Some(digits_value(p) as u64)
    } else {
        None
    }
}

/// The parts of `s` between dots (`str::split('.')`): one more part than
/// there are dots; empty parts included.
pub open spec fn split_dots(s: Seq<char>) -> Seq<Seq<char>>
    decreases s.len(),
{
    if s.len() == 0 {
        seq![Seq::empty()]
    } else {
        let init = split_dots(s.drop_last());
        if s.last() == '.' {
            init.push(Seq::empty())
        } else {
            init.update(init.len() - 1, init.last().push(s.last()))
        }
    }
}

/// The numbers of all parts, if every part is one.
pub open spec fn numbers_of(parts: Seq<Seq<char>>) -> Option<Seq<u64>>
    decreases parts.len(),
{
    if parts.len() == 0 {
        Some(Seq::empty())
    } else {
        match (numbers_of(parts.drop_last()), number_of(parts.last())) {
            (Some(a), Some(b)) => Some(a.push(b)),
            _ => None,
        }
    }
}

/// A build stamp of the fixed shape `YYYYMMDD.HHMM`; with a fixed width
/// the order of the text is the order in time.
pub open spec fn stamp_ok(st: Seq<char>) -> bool {
    &&& st.len() == 13
    &&& forall|i: int|
        0 <= i < 13 ==> if i == 8 {
            #[trigger] st[i] == '.'
        } else {
            is_digit(st[i])
        }
}

/// A version `X.Y.Z+STAMP` (white space around it ignored): the numbers
/// of the base and the stamp.
pub open spec fn version_of(v: Seq<char>) -> Option<(Seq<u64>, Seq<char>)> {
    let t = trimmed(v);
    match find_from(t, seq!['+'], 0) {
        Some(i) => {
            let base = t.subrange(0, i);
            let stamp = t.subrange(i + 1, t.len() as int);
            match numbers_of(split_dots(base)) {
                Some(nums) => if stamp_ok(stamp) {
                    Some((nums, stamp))
                } else {
                    None
                },
                None => None,
            }
        },
        None => None,
    }
}

fn parse_number(p: &Vec<char>) -> (r: Option<u64>)
    ensures
        r == number_of(p@),
{
    let mut acc: u64 = 0;
    let mut over = false;
    let mut i: usize = 0;
    while i < p.len()
        invariant
            i <= p@.len(),
            forall|j: int| 0 <= j < i ==> is_digit(#[trigger] p@[j]),
            !over ==> acc == digits_value(p@.subrange(0, i as int)),
            over ==> digits_value(p@.subrange(0, i as int)) > u64::MAX,
        decreases p@.len() - i,
    {
        let c = p[i];
        if !('0' <= c && c <= '9') {
            proof {
                assert(!is_digit(p@[i as int]));
            }
            return None;
        }
        let d = (c as u32 - 48) as u64;
        proof {
            let q = p@.subrange(0, i + 1);
            assert(q.drop_last() =~= p@.subrange(0, i as int));
            assert(q.last() == c);
        }
        if !over {
            match acc.checked_mul(10) {
                Some(m) => match m.checked_add(d) {
                    Some(x) => {
                        acc = x;
                    },
                    None => {
                        over = true;
                    },
                },
                None => {
                    over = true;
                },
            }
        }
        i = i + 1;
    }
    proof {
        assert(p@.subrange(0, p@.len() as int) =~= p@);
    }
    if over || p.len() == 0 {
        None
    } else {
        Some(acc)
    }
}

fn stamp_is_ok(st: &Vec<char>) -> (r: bool)
    ensures
        r == stamp_ok(st@),
{
    if st.len() != 13 {
        return false;
    }
    let mut i: usize = 0;
    while i < 13
        invariant
            st@.len() == 13,
            i <= 13,
            forall|j: int|
                0 <= j < i ==> if j == 8 {
                    #[trigger] st@[j] == '.'
                } else {
                    is_digit(st@[j])
                },
        decreases 13 - i,
    {
        let c = st[i];
        let ok = if i == 8 {
            c == '.'
        } else {
            '0' <= c && c <= '9'
        };
        if !ok {
            return false;
        }
        i = i + 1;
    }
    true
}

/// `X.Y.Z+STAMP` → (numbers of the base, stamp). The stamp must have the
/// fixed shape `YYYYMMDD.HHMM`, else comparing it as text would lie.
#[verifier::spinoff_prover]
pub fn parse_version(v: &str) -> (r: Option<(Vec<u64>, String)>)
    ensures
        match r {
            Some((nums, stamp)) => version_of(v@) == Some((nums@, stamp@)),
            None => version_of(v@) is None,
        },
{
    let t = chars_of(trim(v));
    let plus: Vec<char> = vec!['+'];
    assert(plus@ =~= seq!['+']);
    let i = match find(&t, &plus) {
        Some(i) => i,
        None => {
            return None;
        },
    };
    proof {
        lemma_find_from(t@, plus@, 0);
    }
    let ghost base = t@.subrange(0, i as int);
    let mut nums: Vec<u64> = Vec::new();
    let mut ok = true;
    let mut cur: Vec<char> = Vec::new();
    let mut j: usize = 0;
    proof {
        assert(base.subrange(0, 0) =~= Seq::<char>::empty());
    }
    while j < i
        invariant
            i < t@.len(),
            base == t@.subrange(0, i as int),
            j <= i,
            split_dots(base.subrange(0, j as int)).last() == cur@,
            split_dots(base.subrange(0, j as int)).len() > 0,
            ok == (numbers_of(split_dots(base.subrange(0, j as int)).drop_last()) is Some),
            ok ==> numbers_of(split_dots(base.subrange(0, j as int)).drop_last()) == Some(nums@),
        decreases i - j,
    {
        let c = t[j];
        let ghost before = split_dots(base.subrange(0, j as int));
        proof {
            let q = base.subrange(0, j + 1);
            assert(q.drop_last() =~= base.subrange(0, j as int));
            assert(q.last() == c);
        }
        if c == '.' {
            proof {
                let after = split_dots(base.subrange(0, j + 1));
                assert(after.drop_last() =~= before);
                assert(before =~= before.drop_last().push(before.last()));
            }
            match parse_number(&cur) {
                Some(x) => {
                    if ok {
                        nums.push(x);
                    }
                },
                None => {
                    ok = false;
                },
            }
            cur = Vec::new();
        } else {
            proof {
                let after = split_dots(base.subrange(0, j + 1));
                assert(after.drop_last() =~= before.drop_last());
            }
            cur.push(c);
        }
        j = j + 1;
    }
    proof {
        assert(base.subrange(0, i as int) =~= base);
        let parts = split_dots(base);
        assert(parts =~= parts.drop_last().push(parts.last()));
    }
    match parse_number(&cur) {
        Some(x) => {
            if ok {
                nums.push(x);
            }
        },
        None => {
            ok = false;
        },
    }
    if !ok {
        return None;
    }
    let mut stamp: Vec<char> = Vec::new();
    assert(i + 1 <= t.len());
    let mut k: usize = i + 1;
    while k < t.len()
        invariant
            i < k <= t@.len(),
            stamp@ == t@.subrange(i + 1, k as int),
        decreases t@.len() - k,
    {
        stamp.push(t[k]);
        k = k + 1;
        proof {
            assert(stamp@ =~= t@.subrange(i + 1, k as int));
        }
    }
    if !stamp_is_ok(&stamp) {
        return None;
    }
    Some((nums, string_of(stamp.as_slice())))
}

/// Lexicographic order of lists of numbers (as `Vec<u64>` compares): the
/// first differing number decides; a proper prefix is smaller.
pub open spec fn nums_lt(a: Seq<u64>, b: Seq<u64>) -> bool
    decreases a.len(),
{
    if a.len() == 0 {
        b.len() > 0
    } else if b.len() == 0 {
        false
    } else if a[0] != b[0] {
        a[0] < b[0]
    } else {
        nums_lt(a.drop_first(), b.drop_first())
    }
}

/// Order of texts by character code (as `String` compares).
pub open spec fn text_lt(a: Seq<char>, b: Seq<char>) -> bool
    decreases a.len(),
{
    if a.len() == 0 {
        b.len() > 0
    } else if b.len() == 0 {
        false
    } else if a[0] != b[0] {
        (a[0] as u32) < (b[0] as u32)
    } else {
        text_lt(a.drop_first(), b.drop_first())
    }
}

/// Order of parsed versions: the numbers of the base first, then the stamp.
pub open spec fn version_lt(a: (Seq<u64>, Seq<char>), b: (Seq<u64>, Seq<char>)) -> bool {
    nums_lt(a.0, b.0) || (a.0 == b.0 && text_lt(a.1, b.1))
}

/// Is release `remote` newer than the running `current`? Versions of the
/// shape `X.Y.Z+YYYYMMDD.HHMM` are compared as versions; any other shape
/// only on being different.
pub open spec fn newer(remote: Seq<char>, current: Seq<char>) -> bool {
    match (version_of(remote), version_of(current)) {
        (Some(r), Some(c)) => version_lt(c, r),
        _ => remote != current,
    }
}

fn nums_less(a: &Vec<u64>, b: &Vec<u64>) -> (r: bool)
    ensures
        r == nums_lt(a@, b@),
{
    let mut i: usize = 0;
    proof {
        assert(a@.subrange(0, a@.len() as int) =~= a@);
        assert(b@.subrange(0, b@.len() as int) =~= b@);
    }
    while i < a.len() && i < b.len() && a[i] == b[i]
        invariant
            i <= a@.len(),
            i <= b@.len(),
            nums_lt(a@, b@) == nums_lt(a@.subrange(i as int, a@.len() as int), b@.subrange(i as int, b@.len() as int)),
        decreases a@.len() - i,
    {
        proof {
            let x = a@.subrange(i as int, a@.len() as int);
            let y = b@.subrange(i as int, b@.len() as int);
            assert(x.drop_first() =~= a@.subrange(i + 1, a@.len() as int));
            assert(y.drop_first() =~= b@.subrange(i + 1, b@.len() as int));
        }
        i = i + 1;
    }
    proof {
        let x = a@.subrange(i as int, a@.len() as int);
        let y = b@.subrange(i as int, b@.len() as int);
        if i < a@.len() && i < b@.len() {
            assert(x[0] == a@[i as int] && y[0] == b@[i as int]);
        }
    }
    if i == a.len() {
        i < b.len()
    } else if i == b.len() {
        false
    } else {
        a[i] < b[i]
    }
}

fn text_less(a: &Vec<char>, b: &Vec<char>) -> (r: bool)
    ensures
        r == text_lt(a@, b@),
{
    let mut i: usize = 0;
    proof {
        assert(a@.subrange(0, a@.len() as int) =~= a@);
        assert(b@.subrange(0, b@.len() as int) =~= b@);
    }
    while i < a.len() && i < b.len() && a[i] == b[i]
        invariant
            i <= a@.len(),
            i <= b@.len(),
            text_lt(a@, b@) == text_lt(a@.subrange(i as int, a@.len() as int), b@.subrange(i as int, b@.len() as int)),
        decreases a@.len() - i,
    {
        proof {
            let x = a@.subrange(i as int, a@.len() as int);
            let y = b@.subrange(i as int, b@.len() as int);
            assert(x.drop_first() =~= a@.subrange(i + 1, a@.len() as int));
            assert(y.drop_first() =~= b@.subrange(i + 1, b@.len() as int));
        }
        i = i + 1;
    }
    proof {
        let x = a@.subrange(i as int, a@.len() as int);
        let y = b@.subrange(i as int, b@.len() as int);
        if i < a@.len() && i < b@.len() {
            assert(x[0] == a@[i as int] && y[0] == b@[i as int]);
        }
    }
    if i == a.len() {
        i < b.len()
    } else if i == b.len() {
        false
    } else {
        (a[i] as u32) < (b[i] as u32)
    }
}

fn nums_same(a: &Vec<u64>, b: &Vec<u64>) -> (r: bool)
    ensures
        r == (a@ == b@),
{
    if a.len() != b.len() {
        return false;
    }
    let mut i: usize = 0;
    while i < a.len()
        invariant
            a@.len() == b@.len(),
            i <= a@.len(),
            forall|j: int| 0 <= j < i ==> a@[j] == b@[j],
        decreases a@.len() - i,
    {
        if a[i] != b[i] {
            return false;
        }
        i = i + 1;
    }
    proof {
        assert(a@ =~= b@);
    }
    true
}

fn chars_same(a: &Vec<char>, b: &Vec<char>) -> (r: bool)
    ensures
        r == (a@ == b@),
{
    if a.len() != b.len() {
        return false;
    }
    let mut i: usize = 0;
    while i < a.len()
        invariant
            a@.len() == b@.len(),
            i <= a@.len(),
            forall|j: int| 0 <= j < i ==> a@[j] == b@[j],
        decreases a@.len() - i,
    {
        if a[i] != b[i] {
            return false;
        }
        i = i + 1;
    }
    proof {
        assert(a@ =~= b@);
    }
    true
}

/// Is the release `remote` newer than the running `current`?
///
/// The shape is `X.Y.Z+YYYYMMDD.HHMM`: the base compares by numbers, the
/// build stamp as text — it has a fixed width, so the order of the text is
/// the order in time. Newer, not just different: a cache may for a while
/// hand out the previous version, and an older release is never offered.
/// Versions of another shape compare only on being different — better
/// offer a needless update than keep quiet about a real one.
pub fn is_newer(remote: &str, current: &str) -> (r: bool)
    ensures
        r == newer(remote@, current@),
{
    match (parse_version(remote), parse_version(current)) {
        (Some((rn, rs)), Some((cn, cs))) => {
            let rs = chars_of(rs.as_str());
            let cs = chars_of(cs.as_str());
            nums_less(&cn, &rn) || (nums_same(&cn, &rn) && text_less(&cs, &rs))
        },
        _ => !chars_same(&chars_of(remote), &chars_of(current)),
    }
}

proof fn lemma_nums_lt_order(a: Seq<u64>, b: Seq<u64>, c: Seq<u64>)
    ensures
        !nums_lt(a, a),
        nums_lt(a, b) ==> !nums_lt(b, a),
        nums_lt(a, b) && nums_lt(b, c) ==> nums_lt(a, c),
    decreases a.len(),
{
    if a.len() > 0 && b.len() > 0 && c.len() > 0 {
        lemma_nums_lt_order(a.drop_first(), b.drop_first(), c.drop_first());
    } else if a.len() > 0 {
        lemma_nums_lt_order(a.drop_first(), a.drop_first(), a.drop_first());
        if b.len() > 0 {
            lemma_nums_lt_order(a.drop_first(), b.drop_first(), b.drop_first());
        }
    }
}

proof fn lemma_text_lt_order(a: Seq<char>, b: Seq<char>, c: Seq<char>)
    ensures
        !text_lt(a, a),
        text_lt(a, b) ==> !text_lt(b, a),
        text_lt(a, b) && text_lt(b, c) ==> text_lt(a, c),
    decreases a.len(),
{
    if a.len() > 0 && b.len() > 0 && c.len() > 0 {
        lemma_text_lt_order(a.drop_first(), b.drop_first(), c.drop_first());
    } else if a.len() > 0 {
        lemma_text_lt_order(a.drop_first(), a.drop_first(), a.drop_first());
        if b.len() > 0 {
            lemma_text_lt_order(a.drop_first(), b.drop_first(), b.drop_first());
        }
    }
}

/// A version is never newer than itself; of two well-shaped versions at
/// most one is newer than the other, and "newer" chains: an update is
/// never offered back and forth.
pub proof fn lemma_newer_is_strict_order(a: Seq<char>, b: Seq<char>, c: Seq<char>)
    ensures
        !newer(a, a),
        version_of(a) is Some && version_of(b) is Some ==> !(newer(a, b) && newer(b, a)),
        version_of(a) is Some && version_of(b) is Some && version_of(c) is Some ==> (newer(a, b)
            && newer(b, c) ==> newer(a, c)),
{
    if let (Some(x), Some(y), Some(z)) = (version_of(a), version_of(b), version_of(c)) {
        lemma_nums_lt_order(z.0, y.0, x.0);
        lemma_nums_lt_order(y.0, x.0, z.0);
        lemma_nums_lt_order(x.0, y.0, z.0);
        lemma_text_lt_order(z.1, y.1, x.1);
        lemma_text_lt_order(y.1, x.1, z.1);
        lemma_text_lt_order(x.1, y.1, z.1);
    }
    if let Some(x) = version_of(a) {
        lemma_nums_lt_order(x.0, x.0, x.0);
        lemma_text_lt_order(x.1, x.1, x.1);
        if let Some(y) = version_of(b) {
            lemma_nums_lt_order(x.0, y.0, y.0);
            lemma_text_lt_order(x.1, y.1, y.1);
        }
    }
}

/// `b` is later than `a` as text of the same length: at the first place
/// where they differ, `b` has the greater character.
pub open spec fn later_at_first_difference(a: Seq<char>, b: Seq<char>) -> bool {
    exists|k: int|
        0 <= k < a.len() && #[trigger] a.subrange(0, k) == b.subrange(0, k) && (a[k] as u32) < (
        b[k] as u32)
}

proof fn lemma_text_lt_first_difference(a: Seq<char>, b: Seq<char>)
    requires
        a.len() == b.len(),
    ensures
        text_lt(a, b) == later_at_first_difference(a, b),
    decreases a.len(),
{
    if a.len() == 0 {
    } else if a[0] != b[0] {
        if text_lt(a, b) {
            assert(a.subrange(0, 0) =~= b.subrange(0, 0));
        }
        if later_at_first_difference(a, b) {
            let k = choose|k: int|
                0 <= k < a.len() && #[trigger] a.subrange(0, k) == b.subrange(0, k) && (
                a[k] as u32) < (b[k] as u32);
            if k > 0 {
                assert(a.subrange(0, k)[0] == b.subrange(0, k)[0]);
            }
        }
    } else {
        let x = a.drop_first();
        let y = b.drop_first();
        lemma_text_lt_first_difference(x, y);
        if later_at_first_difference(x, y) {
            let k = choose|k: int|
                0 <= k < x.len() && #[trigger] x.subrange(0, k) == y.subrange(0, k) && (
                x[k] as u32) < (y[k] as u32);
            assert(a.subrange(0, k + 1) =~= seq![a[0]] + x.subrange(0, k));
            assert(b.subrange(0, k + 1) =~= seq![b[0]] + y.subrange(0, k));
            assert(a[k + 1] == x[k] && b[k + 1] == y[k]);
        }
        if later_at_first_difference(a, b) {
            let k = choose|k: int|
                0 <= k < a.len() && #[trigger] a.subrange(0, k) == b.subrange(0, k) && (
                a[k] as u32) < (b[k] as u32);
            assert(k > 0);
            assert(x.subrange(0, k - 1) =~= a.subrange(0, k).drop_first());
            assert(y.subrange(0, k - 1) =~= b.subrange(0, k).drop_first());
            assert(x[k - 1] == a[k] && y[k - 1] == b[k]);
        }
    }
}

/// The numbers of a version's base (empty when it is not a version).
pub open spec fn base_of(v: Seq<char>) -> Seq<u64> {
    match version_of(v) {
        Some((nums, _)) => nums,
        None => Seq::empty(),
    }
}

/// A version's build stamp (empty when it is not a version).
pub open spec fn stamp_of(v: Seq<char>) -> Seq<char> {
    match version_of(v) {
        Some((_, stamp)) => stamp,
        None => Seq::empty(),
    }
}

/// Two releases of the same base version: the remote one is newer exactly
/// when its build stamp `YYYYMMDD.HHMM` is later — at the first of its
/// thirteen characters where the stamps differ, the remote one has the
/// greater digit, whether that is in the date or in the time. A second
/// release of the same day is newer than the first.
pub proof fn lemma_same_base_newer_by_stamp(remote: Seq<char>, current: Seq<char>)
    requires
        version_of(remote) is Some,
        version_of(current) is Some,
        base_of(remote) == base_of(current),
    ensures
        stamp_of(remote).len() == 13,
        stamp_of(current).len() == 13,
        newer(remote, current) == later_at_first_difference(stamp_of(current), stamp_of(remote)),
{
    let r = version_of(remote).unwrap();
    let c = version_of(current).unwrap();
    lemma_nums_lt_order(c.0, c.0, c.0);
    lemma_text_lt_first_difference(c.1, r.1);
}

} // verus!
