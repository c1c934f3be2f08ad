//! Log lines: whose messages they are, and the time stamp in front of
//! each line.
use vstd::prelude::*;
use vstd::string::StringExecFns;
use crate::text::{chars_of, dec, zero_pad, push_decimal};
use crate::updater::find_from;

verus! {

// ── Calendar ─────────────────────────────────────────────────────────

/// Leap year of the Gregorian calendar (extended to all years).
pub open spec fn is_leap(y: int) -> bool {
    y % 4 == 0 && (y % 100 != 0 || y % 400 == 0)
}

/// Days of month `m` (1–12) of year `y`.
pub open spec fn days_in_month(y: int, m: int) -> int {
    if m == 2 {
        if is_leap(y) {
            29
        } else {
            28
        }
    } else if m == 4 || m == 6 || m == 9 || m == 11 {
        30
    } else {
        31
    }
}

/// Days of the months before month `m` of year `y`.
pub open spec fn days_before_month(y: int, m: int) -> int
    decreases m,
{
    if m <= 1 {
        0
    } else {
        days_before_month(y, m - 1) + days_in_month(y, m - 1)
    }
}

/// Number of leap years before year `y`, counted from year 1 (negative
/// for years before it); the difference of two values counts the leap
/// years in between.
pub open spec fn leaps_before(y: int) -> int {
    (y - 1) / 4 - (y - 1) / 100 + (y - 1) / 400
}

/// The number of the day `d`. `m`. `y` counted from 1 January 1970 (day 0).
pub open spec fn days_from_civil(y: int, m: int, d: int) -> int {
    365 * (y - 1970) + leaps_before(y) - leaps_before(1970) + days_before_month(y, m) + d - 1
}

/// A real date.
pub open spec fn valid_date(y: int, m: int, d: int) -> bool {
    1 <= m <= 12 && 1 <= d <= days_in_month(y, m)
}

#[verifier::spinoff_prover]
proof fn lemma_era_year(doe: int)
    requires
        0 <= doe < 146097,
    ensures
        ({
            let yoe = (doe - doe / 1460 + doe / 36524 - doe / 146096) / 365;
            let start = 365 * yoe + yoe / 4 - yoe / 100;
            &&& 0 <= yoe <= 399
            &&& start <= doe
            &&& doe - start < 365 + if is_leap(yoe + 1) {
                1int
            } else {
                0int
            }
        }),
{
}

#[verifier::spinoff_prover]
proof fn lemma_month_of_year(doy: int, leap: bool)
    requires
        0 <= doy < 365 + if leap {
            1int
        } else {
            0int
        },
    ensures
        ({
            let mp = (5 * doy + 2) / 153;
            let d = doy - (153 * mp + 2) / 5 + 1;
            &&& 0 <= mp <= 11
            &&& 1 <= d
            &&& d <= if mp == 11 {
                if leap {
                    29int
                } else {
                    28int
                }
            } else if mp == 1 || mp == 3 || mp == 6 || mp == 8 {
                30int
            } else {
                31int
            }
        }),
{
}

#[verifier::spinoff_prover]
proof fn lemma_days_before_month(y: int, m: int)
    requires
        1 <= m <= 12,
    ensures
        days_before_month(y, m) == if m == 1 {
            0int
        } else if m == 2 {
            31int
        } else {
            59 + (if is_leap(y) {
                1int
            } else {
                0int
            }) + (153 * (m - 3) + 2) / 5
        },
{
    reveal_with_fuel(days_before_month, 12);
}

#[verifier::spinoff_prover]
proof fn lemma_leaps_in_era(era: int, yoe: int)
    requires
        0 <= yoe <= 399,
    ensures
        leaps_before(era * 400 + yoe + 1) == era * 97 + yoe / 4 - yoe / 100,
        is_leap(era * 400 + yoe + 1) == is_leap(yoe + 1),
{
    let yp = era * 400 + yoe;
    assert(yp / 4 == era * 100 + yoe / 4);
    assert(yp / 100 == era * 4 + yoe / 100);
    assert(yp / 400 == era);
    assert((yp + 1) % 4 == (yoe + 1) % 4);
    assert((yp + 1) % 100 == (yoe + 1) % 100);
    assert(((yp + 1) % 400 == 0) == ((yoe + 1) % 400 == 0));
}

#[verifier::spinoff_prover]
proof fn lemma_leaps_step(y: int)
    ensures
        leaps_before(y + 1) == leaps_before(y) + if is_leap(y) {
            1int
        } else {
            0int
        },
{
    assert(y / 4 - (y - 1) / 4 == if y % 4 == 0 {
        1int
    } else {
        0int
    });
    assert(y / 100 - (y - 1) / 100 == if y % 100 == 0 {
        1int
    } else {
        0int
    });
    assert(y / 400 - (y - 1) / 400 == if y % 400 == 0 {
        1int
    } else {
        0int
    });
    assert(y % 400 == 0 ==> y % 100 == 0);
    assert(y % 100 == 0 ==> y % 4 == 0);
}

#[verifier::spinoff_prover]
proof fn lemma_assemble(era: int, yoe: int, doy: int, mp: int, d: int)
    requires
        0 <= yoe <= 399,
        0 <= mp <= 11,
        doy == (153 * mp + 2) / 5 + d - 1,
    ensures
        ({
            let m = if mp < 10 {
                mp + 3
            } else {
                mp - 9
            };
            let y = yoe + era * 400 + if m <= 2 {
                1int
            } else {
                0int
            };
            days_from_civil(y, m, d) == era * 146097 + (365 * yoe + yoe / 4 - yoe / 100) + doy
                - 719468
        }),
{
    let m = if mp < 10 {
        mp + 3
    } else {
        mp - 9
    };
    let y = yoe + era * 400 + if m <= 2 {
        1int
    } else {
        0int
    };
    let yp = era * 400 + yoe;
    lemma_leaps_in_era(era, yoe);
    lemma_days_before_month(y, m);
    lemma_leaps_step(yp);
    assert(leaps_before(1970) == 477);
    if m <= 2 {
        assert(days_from_civil(y, m, d) == 365 * (yp + 1 - 1970) + (era * 97 + yoe / 4 - yoe / 100)
            - 477 + days_before_month(y, m) + d - 1);
    } else {
        assert(leaps_before(yp) + (if is_leap(yp) {
            1int
        } else {
            0int
        }) == era * 97 + yoe / 4 - yoe / 100);
    }
}

/// The civil date of a day counted from 1 January 1970.
#[verifier::spinoff_prover]
proof fn lemma_civil_from_days(z: int)
    ensures
        ({
            let era = z / 146097;
            let doe = z % 146097;
            let yoe = (doe - doe / 1460 + doe / 36524 - doe / 146096) / 365;
            let doy = doe - (365 * yoe + yoe / 4 - yoe / 100);
            let mp = (5 * doy + 2) / 153;
            let d = doy - (153 * mp + 2) / 5 + 1;
            let m = if mp < 10 {
                mp + 3
            } else {
                mp - 9
            };
            let y = yoe + era * 400 + if m <= 2 {
                1int
            } else {
                0int
            };
            &&& valid_date(y, m, d)
            &&& days_from_civil(y, m, d) == z - 719468
        }),
{
    let era = z / 146097;
    let doe = z % 146097;
    lemma_era_year(doe);
    let yoe = (doe - doe / 1460 + doe / 36524 - doe / 146096) / 365;
    let doy = doe - (365 * yoe + yoe / 4 - yoe / 100);
    lemma_month_of_year(doy, is_leap(yoe + 1));
    let mp = (5 * doy + 2) / 153;
    let d = doy - (153 * mp + 2) / 5 + 1;
    lemma_assemble(era, yoe, doy, mp, d);
    lemma_leaps_in_era(era, yoe);
    assert(z == era * 146097 + doe);
}


proof fn lemma_month_steps(y: int, m1: int, m2: int)
    requires
        1 <= m1 < m2 <= 12,
    ensures
        days_before_month(y, m1) + days_in_month(y, m1) <= days_before_month(y, m2),
    decreases m2 - m1,
{
    if m1 + 1 < m2 {
        lemma_month_steps(y, m1 + 1, m2);
    }
}

#[verifier::spinoff_prover]
proof fn lemma_years_step(y1: int, y2: int)
    requires
        y1 < y2,
    ensures
        days_from_civil(y1, 12, 31) < days_from_civil(y2, 1, 1),
    decreases y2 - y1,
{
    lemma_days_before_month(y1, 12);
    lemma_days_before_month(y1 + 1, 1);
    lemma_leaps_step(y1);
    if y1 + 1 < y2 {
        lemma_years_step(y1 + 1, y2);
        lemma_days_before_month(y1 + 1, 12);
    }
}

#[verifier::spinoff_prover]
proof fn lemma_earlier_date_earlier_day(y1: int, m1: int, d1: int, y2: int, m2: int, d2: int)
    requires
        valid_date(y1, m1, d1),
        valid_date(y2, m2, d2),
        y1 < y2 || (y1 == y2 && m1 < m2) || (y1 == y2 && m1 == m2 && d1 < d2),
    ensures
        days_from_civil(y1, m1, d1) < days_from_civil(y2, m2, d2),
{
    if y1 < y2 {
        lemma_years_step(y1, y2);
        if m1 < 12 {
            lemma_month_steps(y1, m1, 12);
        }
        if m2 > 1 {
            lemma_month_steps(y2, 1, m2);
        }
    } else if m1 < m2 {
        lemma_month_steps(y1, m1, m2);
    }
}

/// A day number names one date only: together with
/// [`Rozklad::z_unix_ms`]'s contract, the fields of an instant are
/// determined by it.
pub proof fn lemma_days_from_civil_injective(y1: int, m1: int, d1: int, y2: int, m2: int, d2: int)
    requires
        valid_date(y1, m1, d1),
        valid_date(y2, m2, d2),
        days_from_civil(y1, m1, d1) == days_from_civil(y2, m2, d2),
    ensures
        y1 == y2 && m1 == m2 && d1 == d2,
{
    if y1 < y2 || (y1 == y2 && m1 < m2) || (y1 == y2 && m1 == m2 && d1 < d2) {
        lemma_earlier_date_earlier_day(y1, m1, d1, y2, m2, d2);
    } else if y2 < y1 || (y1 == y2 && m2 < m1) || (y1 == y2 && m1 == m2 && d2 < d1) {
        lemma_earlier_date_earlier_day(y2, m2, d2, y1, m1, d1);
    }
}

// ── Time stamps ──────────────────────────────────────────────────────

/// A date and a time of day, split into fields.
#[derive(Clone, Copy, Debug, PartialEq, Eq, Structural)]
pub struct Rozklad {
    pub rok: i64,
    pub mesic: u32,
    pub den: u32,
    pub hodina: u32,
    pub minuta: u32,
    pub sekunda: u32,
    pub milis: u32,
}

/// The fields name the instant `ms` milliseconds after 1 January 1970
/// 00:00 UTC: a real date and a time of day that add up to it.
pub open spec fn names_instant(r: Rozklad, ms: int) -> bool {
    &&& valid_date(r.rok as int, r.mesic as int, r.den as int)
    &&& r.hodina < 24 && r.minuta < 60 && r.sekunda < 60 && r.milis < 1000
    &&& days_from_civil(r.rok as int, r.mesic as int, r.den as int) * 86_400_000 + r.hodina
        * 3_600_000 + r.minuta * 60_000 + r.sekunda * 1000 + r.milis == ms
}

/// A year as `{:04}` writes it: zero-padded to four places, a minus sign
/// in front of the digits of a negative year.
pub open spec fn year_text(y: int) -> Seq<char> {
    if y < 0 {
        seq!['-'] + zero_pad(dec((-y) as nat), 3)
    } else {
        zero_pad(dec(y as nat), 4)
    }
}

/// `YYYY-MM-DD HH:MM:SS.mmm` followed by `suffix`.
pub open spec fn stamp_text(r: Rozklad, suffix: Seq<char>) -> Seq<char> {
    year_text(r.rok as int) + seq!['-'] + zero_pad(dec(r.mesic as nat), 2) + seq!['-'] + zero_pad(
        dec(r.den as nat),
        2,
    ) + seq![' '] + zero_pad(dec(r.hodina as nat), 2) + seq![':'] + zero_pad(
        dec(r.minuta as nat),
        2,
    ) + seq![':'] + zero_pad(dec(r.sekunda as nat), 2) + seq!['.'] + zero_pad(
        dec(r.milis as nat),
        3,
    ) + suffix
}

/// Two splittings of one instant are the same: the contract of
/// [`Rozklad::z_unix_ms`] pins its result.
#[verifier::spinoff_prover]
pub proof fn lemma_instant_fields_unique(r1: Rozklad, r2: Rozklad, ms: int)
    requires
        names_instant(r1, ms),
        names_instant(r2, ms),
    ensures
        r1 == r2,
{
    let t1 = r1.hodina * 3_600_000 + r1.minuta * 60_000 + r1.sekunda * 1000 + r1.milis;
    let t2 = r2.hodina * 3_600_000 + r2.minuta * 60_000 + r2.sekunda * 1000 + r2.milis;
    let n1 = days_from_civil(r1.rok as int, r1.mesic as int, r1.den as int);
    let n2 = days_from_civil(r2.rok as int, r2.mesic as int, r2.den as int);
    assert(0 <= t1 < 86_400_000);
    assert(0 <= t2 < 86_400_000);
    assert(n1 == n2) by {
        assert(n1 * 86_400_000 + t1 == n2 * 86_400_000 + t2);
        if n1 < n2 {
            assert(n1 * 86_400_000 + 86_400_000 <= n2 * 86_400_000);
        } else if n2 < n1 {
            assert(n2 * 86_400_000 + 86_400_000 <= n1 * 86_400_000);
        }
    }
    lemma_days_from_civil_injective(
        r1.rok as int,
        r1.mesic as int,
        r1.den as int,
        r2.rok as int,
        r2.mesic as int,
        r2.den as int,
    );
}

proof fn lemma_time_of_day(ms: int, sekundy: int, milis: int, dny: int, v: int)
    requires
        ms == sekundy * 1000 + milis,
        0 <= milis < 1000,
        sekundy == dny * 86_400 + v,
        0 <= v < 86_400,
    ensures
        v / 3600 < 24,
        v % 3600 / 60 < 60,
        v % 60 < 60,
        ms == dny * 86_400_000 + (v / 3600) * 3_600_000 + (v % 3600 / 60) * 60_000 + (v % 60)
            * 1000 + milis,
{
    assert(v == (v / 3600) * 3600 + (v % 3600 / 60) * 60 + v % 60);
}

impl Rozklad {
    /// Splits milliseconds since the UNIX epoch into a UTC date and time.
    ///
    /// The conversion is Howard Hinnant's "civil_from_days"; it holds for
    /// the whole range of `i64`.
    #[verifier::spinoff_prover]
    #[verifier::rlimit(40)]
    pub fn z_unix_ms(ms: i64) -> (r: Rozklad)
        ensures
            names_instant(r, ms as int),
    {
        let sekundy: i64 = ms.checked_div_euclid(1000).unwrap();
        let milis: i64 = ms.checked_rem_euclid(1000).unwrap();
        let dny: i64 = sekundy.checked_div_euclid(86_400).unwrap();
        let v_dni: i64 = sekundy.checked_rem_euclid(86_400).unwrap();
        let z: i64 = dny + 719_468;
        let era: i64 = z.checked_div_euclid(146_097).unwrap();
        let doe: u64 = z.checked_rem_euclid(146_097).unwrap() as u64;
        let yoe: u64 = (doe - doe / 1460 + doe / 36_524 - doe / 146_096) / 365;
        proof {
            lemma_era_year(doe as int);
        }
        let doy: u64 = doe - (365 * yoe + yoe / 4 - yoe / 100);
        proof {
            lemma_month_of_year(doy as int, is_leap(yoe + 1));
        }
        let mp: u64 = (5 * doy + 2) / 153;
        let den: u64 = doy - (153 * mp + 2) / 5 + 1;
        let mesic: u64 = if mp < 10 {
            mp + 3
        } else {
            mp - 9
        };
        let rok: i64 = (yoe as i64) + era * 400 + if mesic <= 2 {
            1
        } else {
            0
        };
        let v: u64 = v_dni as u64;
        let r = Rozklad {
            rok,
            mesic: mesic as u32,
            den: den as u32,
            hodina: (v / 3600) as u32,
            minuta: (v % 3600 / 60) as u32,
            sekunda: (v % 60) as u32,
            milis: milis as u32,
        };
        proof {
            lemma_civil_from_days(z as int);
            lemma_time_of_day(ms as int, sekundy as int, milis as int, dny as int, v as int);
        }
        r
    }

    /// `YYYY-MM-DD HH:MM:SS.mmm` followed by `pripona`.
    pub fn text(&self, pripona: &str) -> (s: String)
        ensures
            s@ == stamp_text(*self, pripona@),
    {
        let mut s = String::new();
        if self.rok < 0 {
            s.append("-");
            let a: u128 = (0 - (self.rok as i128)) as u128;
            push_decimal(&mut s, a, 3);
        } else {
            push_decimal(&mut s, self.rok as u128, 4);
        }
        s.append("-");
        push_decimal(&mut s, self.mesic as u128, 2);
        s.append("-");
        push_decimal(&mut s, self.den as u128, 2);
        s.append(" ");
        push_decimal(&mut s, self.hodina as u128, 2);
        s.append(":");
        push_decimal(&mut s, self.minuta as u128, 2);
        s.append(":");
        push_decimal(&mut s, self.sekunda as u128, 2);
        s.append(".");
        push_decimal(&mut s, self.milis as u128, 3);
        s.append(pripona);
        proof {
            reveal_strlit("-");
            reveal_strlit(" ");
            reveal_strlit(":");
            reveal_strlit(".");
            assert(s@ =~= stamp_text(*self, pripona@));
        }
        s
    }
}

/// The time stamp of a log line: local time when converting `utc` to it
/// succeeded (`mistni`), else UTC with the suffix `Z`, so that the log
/// shows which one it is.
pub fn formatuj_cas(utc: &Rozklad, mistni: Option<Rozklad>) -> (s: String)
    ensures
        s@ == match mistni {
            Some(m) => stamp_text(m, Seq::empty()),
            None => stamp_text(*utc, seq!['Z']),
        },
{
    proof {
        reveal_strlit("");
        reveal_strlit("Z");
    }
    match mistni {
        Some(m) => m.text(""),
        None => utc.text("Z"),
    }
}

// ── Own targets ──────────────────────────────────────────────────────

/// `c` in lower case, for ASCII letters.
pub open spec fn ascii_lower(c: char) -> char {
    if 'A' <= c && c <= 'Z' {
        ((c as u32) + 32) as char
    } else {
        c
    }
}

/// Equal but for the case of ASCII letters.
pub open spec fn same_ignoring_case(a: Seq<char>, b: Seq<char>) -> bool {
    a.len() == b.len() && forall|i: int| 0 <= i < a.len() ==> ascii_lower(#[trigger] a[i])
        == ascii_lower(b[i])
}

/// The crate a target names: the part before the first `::`.
pub open spec fn target_root(t: Seq<char>) -> Seq<char> {
    match find_from(t, seq![':', ':'], 0) {
        Some(i) => t.subrange(0, i),
        None => t,
    }
}

/// The crates of this project.
pub open spec fn own_crate(root: Seq<char>) -> bool {
    same_ignoring_case(root, "keypad"@) || same_ignoring_case(root, "updater"@)
        || same_ignoring_case(root, "keypad_core"@)
}

fn lower(c: char) -> (r: char)
    ensures
        r == ascii_lower(c),
{
    if 'A' <= c && c <= 'Z' {
        ((c as u8) + 32) as char
    } else {
        c
    }
}

fn same_prefix_ignoring_case(a: &Vec<char>, n: usize, b: &str) -> (r: bool)
    requires
        n <= a@.len(),
    ensures
        r == same_ignoring_case(a@.subrange(0, n as int), b@),
{
    let bs = chars_of(b);
    if bs.len() != n {
        return false;
    }
    let mut i: usize = 0;
    while i < n
        invariant
            n <= a@.len(),
            bs@ == b@,
            bs@.len() == n,
            i <= n,
            forall|j: int| 0 <= j < i ==> ascii_lower(#[trigger] a@[j]) == ascii_lower(bs@[j]),
        decreases n - i,
    {
        if lower(a[i]) != lower(bs[i]) {
            proof {
                assert(a@.subrange(0, n as int)[i as int] == a@[i as int]);
            }
            return false;
        }
        i = i + 1;
    }
    proof {
        assert forall|j: int| 0 <= j < n implies ascii_lower(#[trigger] a@.subrange(0, n as int)[j])
            == ascii_lower(b@[j]) by {
            assert(a@.subrange(0, n as int)[j] == a@[j]);
        }
    }
    true
}

fn root_end(cs: &Vec<char>) -> (end: usize)
    ensures
        end <= cs@.len(),
        cs@.subrange(0, end as int) == target_root(cs@),
{
    let n = cs.len();
    let mut i: usize = 0;
    while i < n && 2 <= n - i
        invariant
            n == cs@.len(),
            i <= n,
            find_from(cs@, seq![':', ':'], 0) == find_from(cs@, seq![':', ':'], i as int),
        decreases n - i,
    {
        if cs[i] == ':' && cs[i + 1] == ':' {
            proof {
                assert(cs@.subrange(i as int, i + 2) =~= seq![':', ':']);
            }
            return i;
        }
        proof {
            assert(cs@.subrange(i as int, i + 2)[0] == cs@[i as int]);
            assert(cs@.subrange(i as int, i + 2)[1] == cs@[i + 1]);
        }
        i = i + 1;
    }
    proof {
        assert(cs@.subrange(0, n as int) =~= cs@);
    }
    n
}

/// Is a message from our own code? By its target, which `log` makes the
/// module path; without regard to case (the application crate is named
/// `KeyPad`).
pub fn je_vlastni(target: &str) -> (r: bool)
    ensures
        r == own_crate(target_root(target@)),
{
    let cs = chars_of(target);
    let end = root_end(&cs);
    same_prefix_ignoring_case(&cs, end, "keypad") || same_prefix_ignoring_case(&cs, end, "updater")
        || same_prefix_ignoring_case(&cs, end, "keypad_core")
}

} // verus!
