//! The sidecar formats persisted next to a finished recording: the zoom
//! marker timeline (`<path>.zoom.json`) and the cursor log
//! (`<path>.mouse.json`), both JSON arrays of flat records with numeric
//! fields.
//!
//! Reading is tolerant of the two marker schemas that exist on disk: the
//! current one (`start_ms`/`end_ms`) and the legacy one
//! (`timestamp_ms`/`duration_ms`), which is normalized into the current
//! shape. Fractional values are read as fixed-point hundredths, matching the
//! marker representation.
//!
//! Each reader and writer is specified against a spec-level grammar over the
//! character sequence; the executable code is proved to compute exactly what
//! the grammar says.

use vstd::prelude::*;

use crate::recording::ZoomMarker;
use crate::tracker::MousePosition;

verus! {

// ---------------------------------------------------------------------
// Characters
// ---------------------------------------------------------------------
/// JSON insignificant whitespace.
pub open spec fn is_ws(c: char) -> bool {
    c == ' ' || c == '\n' || c == '\t' || c == '\r'
}

/// A decimal digit.
pub open spec fn is_digit(c: char) -> bool {
    '0' <= c && c <= '9'
}

/// The value of a decimal digit.
pub open spec fn digit_val(c: char) -> int {
    c as int - '0' as int
}

/// The character of a decimal digit value.
pub open spec fn digit_char(d: int) -> char {
    if d == 0 {
        '0'
    } else if d == 1 {
        '1'
    } else if d == 2 {
        '2'
    } else if d == 3 {
        '3'
    } else if d == 4 {
        '4'
    } else if d == 5 {
        '5'
    } else if d == 6 {
        '6'
    } else if d == 7 {
        '7'
    } else if d == 8 {
        '8'
    } else {
        '9'
    }
}

// ---------------------------------------------------------------------
// Whitespace
// ---------------------------------------------------------------------
/// The first position at or after `i` that holds no whitespace.
pub open spec fn sp_ws(s: Seq<char>, i: int) -> int
    decreases s.len() - i,
{
    if 0 <= i < s.len() && is_ws(s[i]) {
        sp_ws(s, i + 1)
    } else {
        i
    }
}

/// Skipping whitespace never moves backwards nor past the end.
pub proof fn lemma_ws_bounds(s: Seq<char>, i: int)
    requires
        0 <= i <= s.len(),
    ensures
        i <= sp_ws(s, i) <= s.len(),
    decreases s.len() - i,
{
    if i < s.len() && is_ws(s[i]) {
        lemma_ws_bounds(s, i + 1);
    }
}

/// Executable whitespace skip.
fn skip_ws(s: &Vec<char>, i: usize) -> (r: usize)
    requires
        i <= s@.len(),
    ensures
        r == sp_ws(s@, i as int),
        i <= r <= s@.len(),
    decreases s@.len() - i,
{
    proof {
        lemma_ws_bounds(s@, i as int);
    }
    if i < s.len() {
        let c = s[i];
        if c == ' ' || c == '\n' || c == '\t' || c == '\r' {
            return skip_ws(s, i + 1);
        }
    }
    i
}

// ---------------------------------------------------------------------
// Digit runs and unsigned integers
// ---------------------------------------------------------------------
/// The end of the digit run starting at `i`.
pub open spec fn sp_digits_end(s: Seq<char>, i: int) -> int
    decreases s.len() - i,
{
    if 0 <= i < s.len() && is_digit(s[i]) {
        sp_digits_end(s, i + 1)
    } else {
        i
    }
}

/// A digit run never moves backwards nor past the end.
pub proof fn lemma_digits_end_bounds(s: Seq<char>, i: int)
    requires
        0 <= i <= s.len(),
    ensures
        i <= sp_digits_end(s, i) <= s.len(),
    decreases s.len() - i,
{
    if i < s.len() && is_digit(s[i]) {
        lemma_digits_end_bounds(s, i + 1);
    }
}

/// The value of the digits `s[i..end)`, most significant first.
pub open spec fn sp_digits_val(s: Seq<char>, i: int, end: int) -> int
    decreases end - i,
{
    if end <= i {
        0
    } else {
        sp_digits_val(s, i, end - 1) * 10 + digit_val(s[end - 1])
    }
}

/// The value of a digit run is never negative.
pub proof fn lemma_digits_val_nonneg(s: Seq<char>, i: int, end: int)
    requires
        forall|k: int| i <= k < end ==> is_digit(#[trigger] s[k]),
    ensures
        sp_digits_val(s, i, end) >= 0,
    decreases end - i,
{
    if end > i {
        lemma_digits_val_nonneg(s, i, end - 1);
    }
}

/// An unsigned integer at `i`: a non-empty digit run whose value fits.
pub open spec fn sp_u64(s: Seq<char>, i: int) -> Option<(u64, int)> {
    let end = sp_digits_end(s, i);
    if end == i {
        None
    } else if sp_digits_val(s, i, end) <= u64::MAX {
        Some((sp_digits_val(s, i, end) as u64, end))
    } else {
        None
    }
}

/// Executable unsigned integer parse.
fn parse_u64(s: &Vec<char>, i: usize) -> (r: Option<(u64, usize)>)
    requires
        i <= s@.len(),
    ensures
        match r {
            Some((v, j)) => sp_u64(s@, i as int) == Some((v, j as int)) && i < j <= s@.len(),
            None => sp_u64(s@, i as int) is None,
        },
{
    proof {
        lemma_digits_end_bounds(s@, i as int);
    }
    let mut j: usize = i;
    let mut acc: u64 = 0;
    let mut fits: bool = true;
    while j < s.len() && s[j] >= '0' && s[j] <= '9'
        invariant
            i <= j <= s@.len(),
            forall|k: int| i <= k < j ==> is_digit(#[trigger] s@[k]),
            sp_digits_end(s@, i as int) == sp_digits_end(s@, j as int),
            fits ==> acc == sp_digits_val(s@, i as int, j as int),
            !fits ==> sp_digits_val(s@, i as int, j as int) > u64::MAX,
        decreases s@.len() - j,
    {
        let d: u64 = (s[j] as u32 as u64) - 48;
        proof {
            assert(d == digit_val(s@[j as int]));
            assert(sp_digits_val(s@, i as int, j + 1 as int) == sp_digits_val(
                s@,
                i as int,
                j as int,
            ) * 10 + d);
            if !fits {
                lemma_digits_val_nonneg(s@, i as int, j as int);
            }
        }
        if fits {
            match acc.checked_mul(10) {
                Some(m) => {
                    match m.checked_add(d) {
                        Some(a) => {
                            acc = a;
                        },
                        None => {
                            fits = false;
                        },
                    }
                },
                None => {
                    fits = false;
                },
            }
        }
        j = j + 1;
    }
    proof {
        assert(sp_digits_end(s@, j as int) == j);
        if j > i {
            lemma_digits_val_nonneg(s@, i as int, j as int);
        }
    }
    if j == i {
        None
    } else if fits {
        Some((acc, j))
    } else {
        None
    }
}

/// A fixed-point number at `i`, in hundredths: a non-empty integer part,
/// optionally followed by a dot and a non-empty fraction, of which the first
/// two digits are kept. The combined value must fit.
pub open spec fn sp_centi(s: Seq<char>, i: int) -> Option<(u64, int)> {
    match sp_u64(s, i) {
        None => None,
        Some((ip, j)) => if j < s.len() && s[j] == '.' {
            let fe = sp_digits_end(s, j + 1);
            if fe == j + 1 {
                None
            } else {
                let f = if fe == j + 2 {
                    digit_val(s[j + 1]) * 10
                } else {
                    digit_val(s[j + 1]) * 10 + digit_val(s[j + 2])
                };
                if ip * 100 + f <= u64::MAX {
                    Some(((ip * 100 + f) as u64, fe))
                } else {
                    None
                }
            }
        } else {
            if ip * 100 <= u64::MAX {
                Some(((ip * 100) as u64, j))
            } else {
                None
            }
        },
    }
}

/// Executable fixed-point parse.
fn parse_centi(s: &Vec<char>, i: usize) -> (r: Option<(u64, usize)>)
    requires
        i <= s@.len(),
    ensures
        match r {
            Some((v, j)) => sp_centi(s@, i as int) == Some((v, j as int)) && i < j <= s@.len(),
            None => sp_centi(s@, i as int) is None,
        },
{
    let (ip, j) = match parse_u64(s, i) {
        Some(p) => p,
        None => {
            return None;
        },
    };
    if j < s.len() && s[j] == '.' {
        proof {
            lemma_digits_end_bounds(s@, j + 1 as int);
        }
        // scan the whole fraction run, keeping its first two digits
        let mut k: usize = j + 1;
        let mut d1: u64 = 0;
        let mut d2: u64 = 0;
        while k < s.len() && s[k] >= '0' && s[k] <= '9'
            invariant
                j + 1 <= k <= s@.len(),
                j < s@.len(),
                forall|m: int| j + 1 <= m < k ==> is_digit(#[trigger] s@[m]),
                sp_digits_end(s@, j + 1 as int) == sp_digits_end(s@, k as int),
                k > j + 1 ==> d1 == digit_val(s@[j + 1]),
                k > j + 2 ==> d2 == digit_val(s@[j + 2]),
                k <= j + 2 ==> d2 == 0,
            decreases s@.len() - k,
        {
            let d: u64 = (s[k] as u32 as u64) - 48;
            if k == j + 1 {
                d1 = d;
            } else if k == j + 2 {
                d2 = d;
            }
            k = k + 1;
        }
        proof {
            assert(sp_digits_end(s@, k as int) == k);
        }
        if k == j + 1 {
            return None;
        }
        let f: u64 = if k == j + 2 {
            d1 * 10
        } else {
            d1 * 10 + d2
        };
        match ip.checked_mul(100) {
            Some(m) => match m.checked_add(f) {
                Some(v) => Some((v, k)),
                None => None,
            },
            None => None,
        }
    } else {
        match ip.checked_mul(100) {
            Some(v) => Some((v, j)),
            None => None,
        }
    }
}

// ---------------------------------------------------------------------
// Literals and punctuation
// ---------------------------------------------------------------------
/// Whether the pattern occurs verbatim at `i`; on a match, the position
/// right after it.
pub open spec fn sp_lit(s: Seq<char>, i: int, pat: Seq<char>) -> Option<int> {
    if 0 <= i && i + pat.len() <= s.len() && s.subrange(i, i + pat.len()) == pat {
        Some(i + pat.len())
    } else {
        None
    }
}

/// Executable literal match.
pub(crate) fn match_lit(s: &Vec<char>, i: usize, pat: &str) -> (r: Option<usize>)
    requires
        i <= s@.len(),
    ensures
        match r {
            Some(j) => sp_lit(s@, i as int, pat@) == Some(j as int) && i <= j <= s@.len(),
            None => sp_lit(s@, i as int, pat@) is None,
        },
{
    let n = pat.unicode_len();
    let sl = s.len();
    if sl - i < n {
        proof {
            assert(sp_lit(s@, i as int, pat@) is None);
        }
        return None;
    }
    let mut k: usize = 0;
    while k < n
        invariant
            k <= n,
            n == pat@.len(),
            sl == s@.len(),
            i + n <= sl,
            forall|m: int| 0 <= m < k ==> s@[i + m] == pat@[m],
        decreases n - k,
    {
        if s[i + k] != pat.get_char(k) {
            proof {
                assert(s@.subrange(i as int, i + n as int)[k as int] != pat@[k as int]);
            }
            return None;
        }
        k = k + 1;
    }
    proof {
        assert(s@.subrange(i as int, i + n as int) =~= pat@);
    }
    Some(i + n)
}

/// Whitespace, then the given punctuation character; on a match, the
/// position right after it.
pub open spec fn sp_tok(s: Seq<char>, i: int, c: char) -> Option<int> {
    let j = sp_ws(s, i);
    if j < s.len() && s[j] == c {
        Some(j + 1)
    } else {
        None
    }
}

/// Executable punctuation token match.
fn tok(s: &Vec<char>, i: usize, c: char) -> (r: Option<usize>)
    requires
        i <= s@.len(),
    ensures
        match r {
            Some(j) => sp_tok(s@, i as int, c) == Some(j as int) && i < j <= s@.len(),
            None => sp_tok(s@, i as int, c) is None,
        },
{
    let j = skip_ws(s, i);
    if j < s.len() && s[j] == c {
        Some(j + 1)
    } else {
        None
    }
}

// ---------------------------------------------------------------------
// Key/value pairs
// ---------------------------------------------------------------------
/// Whitespace, the quoted key verbatim, a colon, then an unsigned integer.
pub open spec fn sp_kv_u64(s: Seq<char>, i: int, key: Seq<char>) -> Option<(u64, int)> {
    match sp_lit(s, sp_ws(s, i), key) {
        None => None,
        Some(j) => match sp_tok(s, j, ':') {
            None => None,
            Some(k) => sp_u64(s, sp_ws(s, k)),
        },
    }
}

/// Executable unsigned key/value parse.
fn kv_u64(s: &Vec<char>, i: usize, key: &str) -> (r: Option<(u64, usize)>)
    requires
        i <= s@.len(),
    ensures
        match r {
            Some((v, j)) => sp_kv_u64(s@, i as int, key@) == Some((v, j as int)) && i <= j
                <= s@.len(),
            None => sp_kv_u64(s@, i as int, key@) is None,
        },
{
    let j0 = skip_ws(s, i);
    let j = match match_lit(s, j0, key) {
        Some(j) => j,
        None => {
            return None;
        },
    };
    let k = match tok(s, j, ':') {
        Some(k) => k,
        None => {
            return None;
        },
    };
    let m = skip_ws(s, k);
    parse_u64(s, m)
}

/// Whitespace, the quoted key verbatim, a colon, then a fixed-point number.
pub open spec fn sp_kv_centi(s: Seq<char>, i: int, key: Seq<char>) -> Option<(u64, int)> {
    match sp_lit(s, sp_ws(s, i), key) {
        None => None,
        Some(j) => match sp_tok(s, j, ':') {
            None => None,
            Some(k) => sp_centi(s, sp_ws(s, k)),
        },
    }
}

/// Executable fixed-point key/value parse.
fn kv_centi(s: &Vec<char>, i: usize, key: &str) -> (r: Option<(u64, usize)>)
    requires
        i <= s@.len(),
    ensures
        match r {
            Some((v, j)) => sp_kv_centi(s@, i as int, key@) == Some((v, j as int)) && i <= j
                <= s@.len(),
            None => sp_kv_centi(s@, i as int, key@) is None,
        },
{
    let j0 = skip_ws(s, i);
    let j = match match_lit(s, j0, key) {
        Some(j) => j,
        None => {
            return None;
        },
    };
    let k = match tok(s, j, ':') {
        Some(k) => k,
        None => {
            return None;
        },
    };
    let m = skip_ws(s, k);
    parse_centi(s, m)
}

// ---------------------------------------------------------------------
// Zoom marker records
// ---------------------------------------------------------------------
/// One marker object at `i`, in one of the two schemas on disk. The current
/// schema carries `start_ms`/`end_ms` directly; the legacy schema carries
/// `timestamp_ms`/`duration_ms` and is normalized so that the marker starts
/// at the timestamp and ends after the duration.
pub open spec fn sp_marker(s: Seq<char>, i: int, legacy: bool) -> Option<(ZoomMarker, int)> {
    match sp_tok(s, i, '{') {
        None => None,
        Some(i0) => if legacy {
            match sp_kv_centi(s, i0, "\"x\""@) {
                None => None,
                Some((x, i1)) => match sp_tok(s, i1, ',') {
                    None => None,
                    Some(i2) => match sp_kv_centi(s, i2, "\"y\""@) {
                        None => None,
                        Some((y, i3)) => match sp_tok(s, i3, ',') {
                            None => None,
                            Some(i4) => match sp_kv_u64(s, i4, "\"timestamp_ms\""@) {
                                None => None,
                                Some((ts, i5)) => match sp_tok(s, i5, ',') {
                                    None => None,
                                    Some(i6) => match sp_kv_centi(s, i6, "\"scale\""@) {
                                        None => None,
                                        Some((sc, i7)) => match sp_tok(s, i7, ',') {
                                            None => None,
                                            Some(i8) => match sp_kv_u64(
                                                s,
                                                i8,
                                                "\"duration_ms\""@,
                                            ) {
                                                None => None,
                                                Some((dur, i9)) => match sp_tok(s, i9, '}') {
                                                    None => None,
                                                    Some(i10) => if ts + dur <= u64::MAX {
                                                        Some(
                                                            (
                                                                ZoomMarker {
                                                                    start_ms: ts,
                                                                    end_ms: (ts + dur) as u64,
                                                                    x_centi: x,
                                                                    y_centi: y,
                                                                    scale_centi: sc,
                                                                },
                                                                i10,
                                                            ),
                                                        )
                                                    } else {
                                                        None
                                                    },
                                                },
                                            },
                                        },
                                    },
                                },
                            },
                        },
                    },
                },
            }
        } else {
            match sp_kv_u64(s, i0, "\"start_ms\""@) {
                None => None,
                Some((st, i1)) => match sp_tok(s, i1, ',') {
                    None => None,
                    Some(i2) => match sp_kv_u64(s, i2, "\"end_ms\""@) {
                        None => None,
                        Some((en, i3)) => match sp_tok(s, i3, ',') {
                            None => None,
                            Some(i4) => match sp_kv_centi(s, i4, "\"x\""@) {
                                None => None,
                                Some((x, i5)) => match sp_tok(s, i5, ',') {
                                    None => None,
                                    Some(i6) => match sp_kv_centi(s, i6, "\"y\""@) {
                                        None => None,
                                        Some((y, i7)) => match sp_tok(s, i7, ',') {
                                            None => None,
                                            Some(i8) => match sp_kv_centi(s, i8, "\"scale\""@) {
                                                None => None,
                                                Some((sc, i9)) => match sp_tok(s, i9, '}') {
                                                    None => None,
                                                    Some(i10) => Some(
                                                        (
                                                            ZoomMarker {
                                                                start_ms: st,
                                                                end_ms: en,
                                                                x_centi: x,
                                                                y_centi: y,
                                                                scale_centi: sc,
                                                            },
                                                            i10,
                                                        ),
                                                    ),
                                                },
                                            },
                                        },
                                    },
                                },
                            },
                        },
                    },
                },
            }
        },
    }
}

/// Executable marker parse.
fn parse_marker(s: &Vec<char>, i: usize, legacy: bool) -> (r: Option<(ZoomMarker, usize)>)
    requires
        i <= s@.len(),
    ensures
        match r {
            Some((m, j)) => sp_marker(s@, i as int, legacy) == Some((m, j as int)) && i < j
                <= s@.len(),
            None => sp_marker(s@, i as int, legacy) is None,
        },
{
    let i0 = match tok(s, i, '{') {
        Some(j) => j,
        None => {
            return None;
        },
    };
    if legacy {
        let (x, i1) = match kv_centi(s, i0, "\"x\"") {
            Some(p) => p,
            None => {
                return None;
            },
        };
        let i2 = match tok(s, i1, ',') {
            Some(j) => j,
            None => {
                return None;
            },
        };
        let (y, i3) = match kv_centi(s, i2, "\"y\"") {
            Some(p) => p,
            None => {
                return None;
            },
        };
        let i4 = match tok(s, i3, ',') {
            Some(j) => j,
            None => {
                return None;
            },
        };
        let (ts, i5) = match kv_u64(s, i4, "\"timestamp_ms\"") {
            Some(p) => p,
            None => {
                return None;
            },
        };
        let i6 = match tok(s, i5, ',') {
            Some(j) => j,
            None => {
                return None;
            },
        };
        let (sc, i7) = match kv_centi(s, i6, "\"scale\"") {
            Some(p) => p,
            None => {
                return None;
            },
        };
        let i8 = match tok(s, i7, ',') {
            Some(j) => j,
            None => {
                return None;
            },
        };
        let (dur, i9) = match kv_u64(s, i8, "\"duration_ms\"") {
            Some(p) => p,
            None => {
                return None;
            },
        };
        let i10 = match tok(s, i9, '}') {
            Some(j) => j,
            None => {
                return None;
            },
        };
        let end = match ts.checked_add(dur) {
            Some(e) => e,
            None => {
                return None;
            },
        };
        Some(
            (
                ZoomMarker { start_ms: ts, end_ms: end, x_centi: x, y_centi: y, scale_centi: sc },
                i10,
            ),
        )
    } else {
        let (st, i1) = match kv_u64(s, i0, "\"start_ms\"") {
            Some(p) => p,
            None => {
                return None;
            },
        };
        let i2 = match tok(s, i1, ',') {
            Some(j) => j,
            None => {
                return None;
            },
        };
        let (en, i3) = match kv_u64(s, i2, "\"end_ms\"") {
            Some(p) => p,
            None => {
                return None;
            },
        };
        let i4 = match tok(s, i3, ',') {
            Some(j) => j,
            None => {
                return None;
            },
        };
        let (x, i5) = match kv_centi(s, i4, "\"x\"") {
            Some(p) => p,
            None => {
                return None;
            },
        };
        let i6 = match tok(s, i5, ',') {
            Some(j) => j,
            None => {
                return None;
            },
        };
        let (y, i7) = match kv_centi(s, i6, "\"y\"") {
            Some(p) => p,
            None => {
                return None;
            },
        };
        let i8 = match tok(s, i7, ',') {
            Some(j) => j,
            None => {
                return None;
            },
        };
        let (sc, i9) = match kv_centi(s, i8, "\"scale\"") {
            Some(p) => p,
            None => {
                return None;
            },
        };
        let i10 = match tok(s, i9, '}') {
            Some(j) => j,
            None => {
                return None;
            },
        };
        Some(
            (
                ZoomMarker { start_ms: st, end_ms: en, x_centi: x, y_centi: y, scale_centi: sc },
                i10,
            ),
        )
    }
}

/// The marker records of an array body, from the first record up to and
/// including the closing bracket.
pub open spec fn sp_markers_rest(s: Seq<char>, i: int, legacy: bool) -> Option<
    (Seq<ZoomMarker>, int),
>
    decreases s.len() - i,
{
    match sp_marker(s, i, legacy) {
        None => None,
        Some((m, j)) => if !(i < j <= s.len()) {
            None
        } else {
            match sp_tok(s, j, ']') {
                Some(k) => Some((seq![m], k)),
                None => match sp_tok(s, j, ',') {
                    None => None,
                    Some(k) => if !(j < k <= s.len()) {
                        None
                    } else {
                        match sp_markers_rest(s, k, legacy) {
                            None => None,
                            Some((ms, e)) => Some((seq![m].add(ms), e)),
                        }
                    },
                },
            }
        },
    }
}

/// Executable array-body parse.
fn parse_markers_rest(s: &Vec<char>, i: usize, legacy: bool) -> (r: Option<(Vec<ZoomMarker>, usize)>)
    requires
        i <= s@.len(),
    ensures
        match r {
            Some((ms, e)) => sp_markers_rest(s@, i as int, legacy) == Some((ms@, e as int)) && e
                <= s@.len(),
            None => sp_markers_rest(s@, i as int, legacy) is None,
        },
{
    let mut acc: Vec<ZoomMarker> = Vec::new();
    let mut cur: usize = i;
    loop
        invariant
            i <= cur <= s@.len(),
            match sp_markers_rest(s@, cur as int, legacy) {
                None => sp_markers_rest(s@, i as int, legacy) is None,
                Some((ms, e)) => sp_markers_rest(s@, i as int, legacy) == Some(
                    (acc@.add(ms), e),
                ),
            },
        decreases s@.len() - cur,
    {
        let (m, j) = match parse_marker(s, cur, legacy) {
            Some(p) => p,
            None => {
                return None;
            },
        };
        match tok(s, j, ']') {
            Some(k) => {
                proof {
                    assert(sp_markers_rest(s@, cur as int, legacy) == Some(
                        (seq![m], k as int),
                    ));
                }
                acc.push(m);
                proof {
                    assert(sp_markers_rest(s@, i as int, legacy) matches Some((ms, e)) && ms
                        =~= acc@ && e == k as int);
                }
                return Some((acc, k));
            },
            None => {},
        }
        let k = match tok(s, j, ',') {
            Some(k) => k,
            None => {
                return None;
            },
        };
        let ghost prev = acc@;
        acc.push(m);
        proof {
            match sp_markers_rest(s@, k as int, legacy) {
                None => {
                    assert(sp_markers_rest(s@, cur as int, legacy) is None);
                },
                Some((ms, e)) => {
                    assert(sp_markers_rest(s@, cur as int, legacy) == Some(
                        (seq![m].add(ms), e),
                    ));
                    assert(prev.add(seq![m].add(ms)) =~= acc@.add(ms));
                },
            }
        }
        cur = k;
    }
}

/// A whole marker sidecar document in one schema: a bracketed, possibly
/// empty array of records with nothing but whitespace after it.
pub open spec fn sp_markers_doc(s: Seq<char>, legacy: bool) -> Option<Seq<ZoomMarker>> {
    match sp_tok(s, 0, '[') {
        None => None,
        Some(i0) => {
            let j = sp_ws(s, i0);
            if j < s.len() && s[j] == ']' {
                if sp_ws(s, j + 1) == s.len() {
                    Some(Seq::empty())
                } else {
                    None
                }
            } else {
                match sp_markers_rest(s, i0, legacy) {
                    None => None,
                    Some((ms, e)) => if 0 <= e <= s.len() && sp_ws(s, e) == s.len() {
                        Some(ms)
                    } else {
                        None
                    },
                }
            }
        },
    }
}

/// Executable whole-document parse in one schema.
fn parse_markers_doc(s: &Vec<char>, legacy: bool) -> (r: Option<Vec<ZoomMarker>>)
    ensures
        match r {
            Some(ms) => sp_markers_doc(s@, legacy) == Some(ms@),
            None => sp_markers_doc(s@, legacy) is None,
        },
{
    let i0 = match tok(s, 0, '[') {
        Some(j) => j,
        None => {
            return None;
        },
    };
    let j = skip_ws(s, i0);
    if j < s.len() && s[j] == ']' {
        if skip_ws(s, j + 1) == s.len() {
            return Some(Vec::new());
        }
        return None;
    }
    match parse_markers_rest(s, i0, legacy) {
        Some((ms, e)) => {
            if skip_ws(s, e) == s.len() {
                Some(ms)
            } else {
                None
            }
        },
        None => None,
    }
}

/// What reading a marker sidecar text yields: the current schema if the
/// whole text parses as it, else the legacy schema normalized into the
/// current shape, else nothing — absence of data is not an error.
pub open spec fn sp_read_markers(s: Seq<char>) -> Seq<ZoomMarker> {
    match sp_markers_doc(s, false) {
        Some(ms) => ms,
        None => match sp_markers_doc(s, true) {
            Some(ms) => ms,
            None => Seq::empty(),
        },
    }
}

/// Read the zoom markers persisted in a sidecar text, tolerating both the
/// current and the legacy schema; a text in neither schema yields none.
pub fn read_zoom_markers(json: &str) -> (r: Vec<ZoomMarker>)
    ensures
        r@ == sp_read_markers(json@),
{
    let chars = str_chars(json);
    match parse_markers_doc(&chars, false) {
        Some(ms) => ms,
        None => match parse_markers_doc(&chars, true) {
            Some(ms) => ms,
            None => Vec::new(),
        },
    }
}

// ---------------------------------------------------------------------
// Cursor samples
// ---------------------------------------------------------------------
/// An unsigned integer at `i` whose optional fraction is read past and
/// dropped: on disk a coordinate may carry decimals, while the log keeps
/// whole screen points.
pub open spec fn sp_uint_trunc(s: Seq<char>, i: int) -> Option<(u64, int)> {
    let end = sp_digits_end(s, i);
    if end == i {
        None
    } else if sp_digits_val(s, i, end) > u64::MAX {
        None
    } else {
        let v = sp_digits_val(s, i, end) as u64;
        if end < s.len() && s[end] == '.' {
            let fe = sp_digits_end(s, end + 1);
            if fe == end + 1 {
                None
            } else {
                Some((v, fe))
            }
        } else {
            Some((v, end))
        }
    }
}

/// Executable truncating unsigned parse.
fn parse_uint_trunc(s: &Vec<char>, i: usize) -> (r: Option<(u64, usize)>)
    requires
        i <= s@.len(),
    ensures
        match r {
            Some((v, j)) => sp_uint_trunc(s@, i as int) == Some((v, j as int)) && i < j
                <= s@.len(),
            None => sp_uint_trunc(s@, i as int) is None,
        },
{
    let (v, j) = match parse_u64(s, i) {
        Some(p) => p,
        None => {
            return None;
        },
    };
    if j < s.len() && s[j] == '.' {
        proof {
            lemma_digits_end_bounds(s@, j + 1 as int);
        }
        let mut k: usize = j + 1;
        while k < s.len() && s[k] >= '0' && s[k] <= '9'
            invariant
                j + 1 <= k <= s@.len(),
                sp_digits_end(s@, j + 1 as int) == sp_digits_end(s@, k as int),
            decreases s@.len() - k,
        {
            k = k + 1;
        }
        proof {
            assert(sp_digits_end(s@, k as int) == k);
        }
        if k == j + 1 {
            None
        } else {
            Some((v, k))
        }
    } else {
        Some((v, j))
    }
}

/// A signed integer at `i`, fraction dropped, fitting a 64-bit signed
/// value.
pub open spec fn sp_int(s: Seq<char>, i: int) -> Option<(i64, int)> {
    if 0 <= i < s.len() && s[i] == '-' {
        match sp_uint_trunc(s, i + 1) {
            None => None,
            Some((v, j)) => if v <= 9223372036854775808u64 {
                Some(((-(v as int)) as i64, j))
            } else {
                None
            },
        }
    } else {
        match sp_uint_trunc(s, i) {
            None => None,
            Some((v, j)) => if v <= i64::MAX as u64 {
                Some((v as i64, j))
            } else {
                None
            },
        }
    }
}

/// Executable signed parse.
fn parse_int(s: &Vec<char>, i: usize) -> (r: Option<(i64, usize)>)
    requires
        i <= s@.len(),
    ensures
        match r {
            Some((v, j)) => sp_int(s@, i as int) == Some((v, j as int)) && i < j <= s@.len(),
            None => sp_int(s@, i as int) is None,
        },
{
    if i < s.len() && s[i] == '-' {
        let (v, j) = match parse_uint_trunc(s, i + 1) {
            Some(p) => p,
            None => {
                return None;
            },
        };
        if v <= 9223372036854775807u64 {
            Some((-(v as i64), j))
        } else if v == 9223372036854775808u64 {
            Some((i64::MIN, j))
        } else {
            None
        }
    } else {
        let (v, j) = match parse_uint_trunc(s, i) {
            Some(p) => p,
            None => {
                return None;
            },
        };
        if v <= 9223372036854775807u64 {
            Some((v as i64, j))
        } else {
            None
        }
    }
}

/// Whitespace, the quoted key verbatim, a colon, then a signed integer.
pub open spec fn sp_kv_int(s: Seq<char>, i: int, key: Seq<char>) -> Option<(i64, int)> {
    match sp_lit(s, sp_ws(s, i), key) {
        None => None,
        Some(j) => match sp_tok(s, j, ':') {
            None => None,
            Some(k) => sp_int(s, sp_ws(s, k)),
        },
    }
}

/// Executable signed key/value parse.
fn kv_int(s: &Vec<char>, i: usize, key: &str) -> (r: Option<(i64, usize)>)
    requires
        i <= s@.len(),
    ensures
        match r {
            Some((v, j)) => sp_kv_int(s@, i as int, key@) == Some((v, j as int)) && i <= j
                <= s@.len(),
            None => sp_kv_int(s@, i as int, key@) is None,
        },
{
    let j0 = skip_ws(s, i);
    let j = match match_lit(s, j0, key) {
        Some(j) => j,
        None => {
            return None;
        },
    };
    let k = match tok(s, j, ':') {
        Some(k) => k,
        None => {
            return None;
        },
    };
    let m = skip_ws(s, k);
    parse_int(s, m)
}

/// One cursor sample record at `i`.
pub open spec fn sp_sample(s: Seq<char>, i: int) -> Option<(MousePosition, int)> {
    match sp_tok(s, i, '{') {
        None => None,
        Some(i0) => match sp_kv_int(s, i0, "\"x\""@) {
            None => None,
            Some((x, i1)) => match sp_tok(s, i1, ',') {
                None => None,
                Some(i2) => match sp_kv_int(s, i2, "\"y\""@) {
                    None => None,
                    Some((y, i3)) => match sp_tok(s, i3, ',') {
                        None => None,
                        Some(i4) => match sp_kv_u64(s, i4, "\"timestamp_ms\""@) {
                            None => None,
                            Some((ts, i5)) => match sp_tok(s, i5, '}') {
                                None => None,
                                Some(i6) => Some(
                                    (MousePosition { x, y, timestamp_ms: ts }, i6),
                                ),
                            },
                        },
                    },
                },
            },
        },
    }
}

/// Executable sample parse.
fn parse_sample(s: &Vec<char>, i: usize) -> (r: Option<(MousePosition, usize)>)
    requires
        i <= s@.len(),
    ensures
        match r {
            Some((m, j)) => sp_sample(s@, i as int) == Some((m, j as int)) && i < j <= s@.len(),
            None => sp_sample(s@, i as int) is None,
        },
{
    let i0 = match tok(s, i, '{') {
        Some(j) => j,
        None => {
            return None;
        },
    };
    let (x, i1) = match kv_int(s, i0, "\"x\"") {
        Some(p) => p,
        None => {
            return None;
        },
    };
    let i2 = match tok(s, i1, ',') {
        Some(j) => j,
        None => {
            return None;
        },
    };
    let (y, i3) = match kv_int(s, i2, "\"y\"") {
        Some(p) => p,
        None => {
            return None;
        },
    };
    let i4 = match tok(s, i3, ',') {
        Some(j) => j,
        None => {
            return None;
        },
    };
    let (ts, i5) = match kv_u64(s, i4, "\"timestamp_ms\"") {
        Some(p) => p,
        None => {
            return None;
        },
    };
    let i6 = match tok(s, i5, '}') {
        Some(j) => j,
        None => {
            return None;
        },
    };
    Some((MousePosition { x, y, timestamp_ms: ts }, i6))
}

/// The sample records of an array body, up to and including the closing
/// bracket.
pub open spec fn sp_samples_rest(s: Seq<char>, i: int) -> Option<(Seq<MousePosition>, int)>
    decreases s.len() - i,
{
    match sp_sample(s, i) {
        None => None,
        Some((m, j)) => if !(i < j <= s.len()) {
            None
        } else {
            match sp_tok(s, j, ']') {
                Some(k) => Some((seq![m], k)),
                None => match sp_tok(s, j, ',') {
                    None => None,
                    Some(k) => if !(j < k <= s.len()) {
                        None
                    } else {
                        match sp_samples_rest(s, k) {
                            None => None,
                            Some((ms, e)) => Some((seq![m].add(ms), e)),
                        }
                    },
                },
            }
        },
    }
}

/// Executable sample array-body parse.
fn parse_samples_rest(s: &Vec<char>, i: usize) -> (r: Option<(Vec<MousePosition>, usize)>)
    requires
        i <= s@.len(),
    ensures
        match r {
            Some((ms, e)) => sp_samples_rest(s@, i as int) == Some((ms@, e as int)) && e
                <= s@.len(),
            None => sp_samples_rest(s@, i as int) is None,
        },
{
    let mut acc: Vec<MousePosition> = Vec::new();
    let mut cur: usize = i;
    loop
        invariant
            i <= cur <= s@.len(),
            match sp_samples_rest(s@, cur as int) {
                None => sp_samples_rest(s@, i as int) is None,
                Some((ms, e)) => sp_samples_rest(s@, i as int) == Some((acc@.add(ms), e)),
            },
        decreases s@.len() - cur,
    {
        let (m, j) = match parse_sample(s, cur) {
            Some(p) => p,
            None => {
                return None;
            },
        };
        match tok(s, j, ']') {
            Some(k) => {
                proof {
                    assert(sp_samples_rest(s@, cur as int) == Some((seq![m], k as int)));
                }
                acc.push(m);
                proof {
                    assert(sp_samples_rest(s@, i as int) matches Some((ms, e)) && ms =~= acc@ && e
                        == k as int);
                }
                return Some((acc, k));
            },
            None => {},
        }
        let k = match tok(s, j, ',') {
            Some(k) => k,
            None => {
                return None;
            },
        };
        let ghost prev = acc@;
        acc.push(m);
        proof {
            match sp_samples_rest(s@, k as int) {
                None => {
                    assert(sp_samples_rest(s@, cur as int) is None);
                },
                Some((ms, e)) => {
                    assert(sp_samples_rest(s@, cur as int) == Some((seq![m].add(ms), e)));
                    assert(prev.add(seq![m].add(ms)) =~= acc@.add(ms));
                },
            }
        }
        cur = k;
    }
}

/// A whole cursor sidecar document: a bracketed, possibly empty array of
/// sample records with nothing but whitespace after it.
pub open spec fn sp_samples_doc(s: Seq<char>) -> Option<Seq<MousePosition>> {
    match sp_tok(s, 0, '[') {
        None => None,
        Some(i0) => {
            let j = sp_ws(s, i0);
            if j < s.len() && s[j] == ']' {
                if sp_ws(s, j + 1) == s.len() {
                    Some(Seq::empty())
                } else {
                    None
                }
            } else {
                match sp_samples_rest(s, i0) {
                    None => None,
                    Some((ms, e)) => if 0 <= e <= s.len() && sp_ws(s, e) == s.len() {
                        Some(ms)
                    } else {
                        None
                    },
                }
            }
        },
    }
}

/// Parse a cursor sidecar text; a text that is not such a document yields
/// nothing, which the caller reports as a parse failure.
pub fn parse_mouse_samples(json: &str) -> (r: Option<Vec<MousePosition>>)
    ensures
        match r {
            Some(ms) => sp_samples_doc(json@) == Some(ms@),
            None => sp_samples_doc(json@) is None,
        },
{
    let chars = str_chars(json);
    let i0 = match tok(&chars, 0, '[') {
        Some(j) => j,
        None => {
            return None;
        },
    };
    let j = skip_ws(&chars, i0);
    if j < chars.len() && chars[j] == ']' {
        if skip_ws(&chars, j + 1) == chars.len() {
            return Some(Vec::new());
        }
        return None;
    }
    match parse_samples_rest(&chars, i0) {
        Some((ms, e)) => {
            if skip_ws(&chars, e) == chars.len() {
                Some(ms)
            } else {
                None
            }
        },
        None => None,
    }
}

// ---------------------------------------------------------------------
// Writers
// ---------------------------------------------------------------------
/// The decimal text of a non-negative number.
pub open spec fn sp_fmt_u64(n: int) -> Seq<char>
    decreases n,
{
    if n < 10 {
        seq![digit_char(n)]
    } else {
        sp_fmt_u64(n / 10) + seq![digit_char(n % 10)]
    }
}

/// The decimal text of a signed number.
pub open spec fn sp_fmt_i64(v: int) -> Seq<char> {
    if v >= 0 {
        sp_fmt_u64(v)
    } else {
        seq!['-'] + sp_fmt_u64(-v)
    }
}

/// The decimal text of a fixed-point number in hundredths, always with two
/// fraction digits.
pub open spec fn sp_fmt_centi(v: int) -> Seq<char> {
    sp_fmt_u64(v / 100) + seq!['.'] + seq![digit_char((v % 100) / 10), digit_char(v % 10)]
}

/// The text of one decimal digit.
fn digit_str(d: u64) -> (r: &'static str)
    requires
        d < 10,
    ensures
        r@ == seq![digit_char(d as int)],
{
    proof {
        reveal_strlit("0");
        reveal_strlit("1");
        reveal_strlit("2");
        reveal_strlit("3");
        reveal_strlit("4");
        reveal_strlit("5");
        reveal_strlit("6");
        reveal_strlit("7");
        reveal_strlit("8");
        reveal_strlit("9");
    }
    let r: &'static str = if d == 0 {
        "0"
    } else if d == 1 {
        "1"
    } else if d == 2 {
        "2"
    } else if d == 3 {
        "3"
    } else if d == 4 {
        "4"
    } else if d == 5 {
        "5"
    } else if d == 6 {
        "6"
    } else if d == 7 {
        "7"
    } else if d == 8 {
        "8"
    } else {
        "9"
    };
    proof {
        assert(r@ =~= seq![digit_char(d as int)]);
    }
    r
}

/// Format a number in decimal.
fn fmt_u64(n: u64) -> (r: String)
    ensures
        r@ == sp_fmt_u64(n as int),
    decreases n,
{
    if n < 10 {
        digit_str(n).to_owned()
    } else {
        let mut s = fmt_u64(n / 10);
        s.append(digit_str(n % 10));
        proof {
            assert(s@ =~= sp_fmt_u64(n as int));
        }
        s
    }
}

/// Format a signed number in decimal.
fn fmt_i64(v: i64) -> (r: String)
    ensures
        r@ == sp_fmt_i64(v as int),
{
    proof {
        reveal_strlit("-");
    }
    if v >= 0 {
        fmt_u64(v as u64)
    } else {
        let m: u64 = if v == i64::MIN {
            9223372036854775808u64
        } else {
            (-v) as u64
        };
        let mut s = "-".to_owned();
        let digits = fmt_u64(m);
        s.append(digits.as_str());
        proof {
            assert(s@ =~= sp_fmt_i64(v as int));
        }
        s
    }
}

/// Format a fixed-point number in hundredths with two fraction digits.
fn fmt_centi(v: u64) -> (r: String)
    ensures
        r@ == sp_fmt_centi(v as int),
{
    proof {
        reveal_strlit(".");
    }
    let mut s = fmt_u64(v / 100);
    s.append(".");
    s.append(digit_str((v % 100) / 10));
    s.append(digit_str(v % 10));
    proof {
        assert(s@ =~= sp_fmt_centi(v as int));
    }
    s
}

/// The sidecar text of one marker, in the current schema.
pub open spec fn sp_marker_json(m: ZoomMarker) -> Seq<char> {
    "{\"start_ms\":"@ + sp_fmt_u64(m.start_ms as int) + ",\"end_ms\":"@ + sp_fmt_u64(
        m.end_ms as int,
    ) + ",\"x\":"@ + sp_fmt_centi(m.x_centi as int) + ",\"y\":"@ + sp_fmt_centi(m.y_centi as int)
        + ",\"scale\":"@ + sp_fmt_centi(m.scale_centi as int) + "}"@
}

/// The record list of a marker sidecar, comma separated.
pub open spec fn sp_markers_items(ms: Seq<ZoomMarker>) -> Seq<char>
    decreases ms.len(),
{
    if ms.len() == 0 {
        Seq::empty()
    } else if ms.len() == 1 {
        sp_marker_json(ms[0])
    } else {
        sp_markers_items(ms.drop_last()) + ","@ + sp_marker_json(ms.last())
    }
}

/// The whole marker sidecar text.
pub open spec fn sp_markers_json(ms: Seq<ZoomMarker>) -> Seq<char> {
    "["@ + sp_markers_items(ms) + "]"@
}

/// Format one marker record.
fn marker_json(m: &ZoomMarker) -> (r: String)
    ensures
        r@ == sp_marker_json(*m),
{
    let mut s = "{\"start_ms\":".to_owned();
    let part = fmt_u64(m.start_ms);
    s.append(part.as_str());
    s.append(",\"end_ms\":");
    let part = fmt_u64(m.end_ms);
    s.append(part.as_str());
    s.append(",\"x\":");
    let part = fmt_centi(m.x_centi);
    s.append(part.as_str());
    s.append(",\"y\":");
    let part = fmt_centi(m.y_centi);
    s.append(part.as_str());
    s.append(",\"scale\":");
    let part = fmt_centi(m.scale_centi);
    s.append(part.as_str());
    s.append("}");
    proof {
        assert(s@ =~= sp_marker_json(*m));
    }
    s
}

/// Write the zoom marker sidecar text for the given markers: the exact
/// array the reader accepts in the current schema.
pub fn write_zoom_markers(ms: &Vec<ZoomMarker>) -> (r: String)
    ensures
        r@ == sp_markers_json(ms@),
{
    let mut s = "[".to_owned();
    let mut i: usize = 0;
    while i < ms.len()
        invariant
            i <= ms@.len(),
            s@ == "["@ + sp_markers_items(ms@.take(i as int)),
        decreases ms@.len() - i,
    {
        proof {
            assert(ms@.take(i + 1 as int).drop_last() =~= ms@.take(i as int));
            assert(ms@.take(i + 1 as int).last() == ms@[i as int]);
        }
        if i > 0 {
            s.append(",");
        }
        let part = marker_json(&ms[i]);
        s.append(part.as_str());
        proof {
            if i == 0 {
                assert(ms@.take(1).len() == 1 && ms@.take(1)[0] == ms@[0]);
            }
            assert(s@ =~= "["@ + sp_markers_items(ms@.take(i + 1 as int)));
        }
        i = i + 1;
    }
    s.append("]");
    proof {
        assert(ms@.take(ms@.len() as int) =~= ms@);
        assert(s@ =~= sp_markers_json(ms@));
    }
    s
}

/// The sidecar text of one cursor sample.
pub open spec fn sp_sample_json(m: MousePosition) -> Seq<char> {
    "{\"x\":"@ + sp_fmt_i64(m.x as int) + ",\"y\":"@ + sp_fmt_i64(m.y as int)
        + ",\"timestamp_ms\":"@ + sp_fmt_u64(m.timestamp_ms as int) + "}"@
}

/// The record list of a cursor sidecar, comma separated.
pub open spec fn sp_samples_items(ms: Seq<MousePosition>) -> Seq<char>
    decreases ms.len(),
{
    if ms.len() == 0 {
        Seq::empty()
    } else if ms.len() == 1 {
        sp_sample_json(ms[0])
    } else {
        sp_samples_items(ms.drop_last()) + ","@ + sp_sample_json(ms.last())
    }
}

/// The whole cursor sidecar text.
pub open spec fn sp_samples_json(ms: Seq<MousePosition>) -> Seq<char> {
    "["@ + sp_samples_items(ms) + "]"@
}

/// Format one cursor sample record.
fn sample_json(m: &MousePosition) -> (r: String)
    ensures
        r@ == sp_sample_json(*m),
{
    let mut s = "{\"x\":".to_owned();
    let part = fmt_i64(m.x);
    s.append(part.as_str());
    s.append(",\"y\":");
    let part = fmt_i64(m.y);
    s.append(part.as_str());
    s.append(",\"timestamp_ms\":");
    let part = fmt_u64(m.timestamp_ms);
    s.append(part.as_str());
    s.append("}");
    proof {
        assert(s@ =~= sp_sample_json(*m));
    }
    s
}

/// Write the cursor sidecar text for the given samples: the exact array the
/// reader accepts.
pub fn write_mouse_samples(ms: &Vec<MousePosition>) -> (r: String)
    ensures
        r@ == sp_samples_json(ms@),
{
    let mut s = "[".to_owned();
    let mut i: usize = 0;
    while i < ms.len()
        invariant
            i <= ms@.len(),
            s@ == "["@ + sp_samples_items(ms@.take(i as int)),
        decreases ms@.len() - i,
    {
        proof {
            assert(ms@.take(i + 1 as int).drop_last() =~= ms@.take(i as int));
            assert(ms@.take(i + 1 as int).last() == ms@[i as int]);
        }
        if i > 0 {
            s.append(",");
        }
        let part = sample_json(&ms[i]);
        s.append(part.as_str());
        proof {
            if i == 0 {
                assert(ms@.take(1).len() == 1 && ms@.take(1)[0] == ms@[0]);
            }
            assert(s@ =~= "["@ + sp_samples_items(ms@.take(i + 1 as int)));
        }
        i = i + 1;
    }
    s.append("]");
    proof {
        assert(ms@.take(ms@.len() as int) =~= ms@);
        assert(s@ =~= sp_samples_json(ms@));
    }
    s
}

// ---------------------------------------------------------------------
// Round trip: reading back what was written
// ---------------------------------------------------------------------
/// The value of a digit run depends only on the characters in it.
proof fn lemma_digits_val_congruent(s1: Seq<char>, i1: int, s2: Seq<char>, i2: int, len: int)
    requires
        forall|k: int| 0 <= k < len ==> s1[i1 + k] == #[trigger] s2[i2 + k],
    ensures
        sp_digits_val(s1, i1, i1 + len) == sp_digits_val(s2, i2, i2 + len),
    decreases len,
{
    if len > 0 {
        lemma_digits_val_congruent(s1, i1, s2, i2, len - 1);
        assert(s1[i1 + (len - 1)] == s2[i2 + (len - 1)]);
    }
}

/// A digit run bounded by a non-digit (or the end) ends exactly there.
proof fn lemma_digits_end_of_run(s: Seq<char>, i: int, e: int)
    requires
        0 <= i <= e <= s.len(),
        forall|k: int| i <= k < e ==> is_digit(#[trigger] s[k]),
        e == s.len() || !is_digit(s[e]),
    ensures
        sp_digits_end(s, i) == e,
    decreases e - i,
{
    if i < e {
        lemma_digits_end_of_run(s, i + 1, e);
    }
}

/// Formatted numbers are non-empty strings of digits.
proof fn lemma_fmt_u64_wf(n: int)
    requires
        n >= 0,
    ensures
        sp_fmt_u64(n).len() >= 1,
        forall|k: int| 0 <= k < sp_fmt_u64(n).len() ==> is_digit(#[trigger] sp_fmt_u64(n)[k]),
    decreases n,
{
    if n >= 10 {
        lemma_fmt_u64_wf(n / 10);
    }
}

/// Reading the digits of a formatted number gives the number back.
proof fn lemma_fmt_u64_val(n: int)
    requires
        n >= 0,
    ensures
        sp_digits_val(sp_fmt_u64(n), 0, sp_fmt_u64(n).len() as int) == n,
    decreases n,
{
    let t = sp_fmt_u64(n);
    if n < 10 {
        assert(sp_digits_val(t, 0, 0) == 0);
        assert(sp_digits_val(t, 0, 1) == digit_val(t[0]));
    } else {
        let pre = sp_fmt_u64(n / 10);
        lemma_fmt_u64_val(n / 10);
        lemma_digits_val_congruent(t, 0, pre, 0, pre.len() as int);
        assert(sp_digits_val(t, 0, t.len() as int) == sp_digits_val(t, 0, t.len() - 1) * 10
            + digit_val(t[t.len() - 1]));
    }
}

/// A formatted number embedded in a larger text, delimited by a non-digit,
/// parses back to itself.
proof fn lemma_parse_u64_embedded(s: Seq<char>, i: int, n: u64)
    requires
        0 <= i,
        i + sp_fmt_u64(n as int).len() <= s.len(),
        s.subrange(i, i + sp_fmt_u64(n as int).len()) == sp_fmt_u64(n as int),
        i + sp_fmt_u64(n as int).len() == s.len() || !is_digit(s[i + sp_fmt_u64(n as int).len()]),
    ensures
        sp_u64(s, i) == Some((n, i + sp_fmt_u64(n as int).len())),
{
    let t = sp_fmt_u64(n as int);
    let e = i + t.len();
    lemma_fmt_u64_wf(n as int);
    assert(forall|k: int| 0 <= k < t.len() ==> s[i + k] == t[k]);
    assert forall|k: int| i <= k < e implies is_digit(#[trigger] s[k]) by {
        assert(s[k] == t[k - i]);
    }
    lemma_digits_end_of_run(s, i, e);
    lemma_digits_val_congruent(s, i, t, 0, t.len() as int);
    lemma_fmt_u64_val(n as int);
}

/// A formatted fixed-point number embedded in a larger text, delimited by a
/// non-digit, parses back to itself.
proof fn lemma_parse_centi_embedded(s: Seq<char>, i: int, v: u64)
    requires
        0 <= i,
        i + sp_fmt_centi(v as int).len() <= s.len(),
        s.subrange(i, i + sp_fmt_centi(v as int).len()) == sp_fmt_centi(v as int),
        i + sp_fmt_centi(v as int).len() == s.len() || !is_digit(
            s[i + sp_fmt_centi(v as int).len()],
        ),
    ensures
        sp_centi(s, i) == Some((v, i + sp_fmt_centi(v as int).len())),
{
    let ip = sp_fmt_u64(v as int / 100);
    let t = sp_fmt_centi(v as int);
    let dot = i + ip.len();
    let e = i + t.len();
    lemma_fmt_u64_wf(v as int / 100);
    assert(t.len() == ip.len() + 3);
    assert forall|k: int| 0 <= k < t.len() implies s[i + k] == t[k] by {
        assert(s.subrange(i, i + t.len())[k] == t[k]);
    }
    assert(t[ip.len() as int] == '.');
    assert(t[ip.len() + 1 as int] == digit_char((v as int % 100) / 10));
    assert(t[ip.len() + 2 as int] == digit_char(v as int % 10));
    assert(forall|k: int| 0 <= k < ip.len() ==> t[k] == ip[k]);
    assert(s.subrange(i, dot) =~= ip);
    assert(s[dot] == t[ip.len() as int]);
    assert(s[dot + 1] == t[ip.len() + 1 as int]);
    assert(s[dot + 2] == t[ip.len() + 2 as int]);
    lemma_parse_u64_embedded(s, i, (v / 100) as u64);
    assert(sp_u64(s, i) == Some(((v / 100) as u64, dot)));
    assert(is_digit(s[dot + 1]) && is_digit(s[dot + 2]));
    lemma_digits_end_of_run(s, dot + 1, e);
    assert(digit_val(s[dot + 1]) == (v as int % 100) / 10);
    assert(digit_val(s[dot + 2]) == v as int % 10);
    assert((v as int / 100) * 100 + ((v as int % 100) / 10) * 10 + (v as int % 10) == v as int);
}

/// The emitted key-and-value text of an unsigned field parses back to the
/// value: the quoted key, a colon, then the digits, with a non-digit after.
proof fn lemma_kv_u64_embedded(s: Seq<char>, i: int, key: Seq<char>, n: u64)
    requires
        0 <= i,
        key.len() >= 1,
        !is_ws(key[0]),
        i + key.len() + 1 + sp_fmt_u64(n as int).len() <= s.len(),
        s.subrange(i, i + key.len()) == key,
        s[i + key.len()] == ':',
        s.subrange(
            i + key.len() + 1,
            i + key.len() + 1 + sp_fmt_u64(n as int).len(),
        ) == sp_fmt_u64(n as int),
        i + key.len() + 1 + sp_fmt_u64(n as int).len() == s.len() || !is_digit(
            s[i + key.len() + 1 + sp_fmt_u64(n as int).len()],
        ),
    ensures
        sp_kv_u64(s, i, key) == Some((n, i + key.len() + 1 + sp_fmt_u64(n as int).len())),
{
    assert(s[i] == key[0]) by {
        assert(s.subrange(i, i + key.len())[0] == key[0]);
    }
    assert(sp_ws(s, i) == i);
    assert(sp_lit(s, i, key) == Some(i + key.len()));
    let j = i + key.len();
    assert(sp_ws(s, j) == j);
    assert(sp_tok(s, j, ':') == Some(j + 1));
    lemma_fmt_u64_wf(n as int);
    assert(s[j + 1] == sp_fmt_u64(n as int)[0]) by {
        assert(s.subrange(j + 1, j + 1 + sp_fmt_u64(n as int).len())[0] == sp_fmt_u64(n as int)[0]);
    }
    assert(sp_ws(s, j + 1) == j + 1);
    lemma_parse_u64_embedded(s, j + 1, n);
}

/// The emitted key-and-value text of a fixed-point field parses back to the
/// value.
proof fn lemma_kv_centi_embedded(s: Seq<char>, i: int, key: Seq<char>, v: u64)
    requires
        0 <= i,
        key.len() >= 1,
        !is_ws(key[0]),
        i + key.len() + 1 + sp_fmt_centi(v as int).len() <= s.len(),
        s.subrange(i, i + key.len()) == key,
        s[i + key.len()] == ':',
        s.subrange(
            i + key.len() + 1,
            i + key.len() + 1 + sp_fmt_centi(v as int).len(),
        ) == sp_fmt_centi(v as int),
        i + key.len() + 1 + sp_fmt_centi(v as int).len() == s.len() || !is_digit(
            s[i + key.len() + 1 + sp_fmt_centi(v as int).len()],
        ),
    ensures
        sp_kv_centi(s, i, key) == Some((v, i + key.len() + 1 + sp_fmt_centi(v as int).len())),
{
    assert(s[i] == key[0]) by {
        assert(s.subrange(i, i + key.len())[0] == key[0]);
    }
    assert(sp_ws(s, i) == i);
    assert(sp_lit(s, i, key) == Some(i + key.len()));
    let j = i + key.len();
    assert(sp_ws(s, j) == j);
    assert(sp_tok(s, j, ':') == Some(j + 1));
    lemma_fmt_u64_wf(v as int / 100);
    assert(s[j + 1] == sp_fmt_centi(v as int)[0]) by {
        assert(s.subrange(j + 1, j + 1 + sp_fmt_centi(v as int).len())[0] == sp_fmt_centi(
            v as int,
        )[0]);
        assert(sp_fmt_centi(v as int)[0] == sp_fmt_u64(v as int / 100)[0]);
    }
    assert(sp_ws(s, j + 1) == j + 1);
    lemma_parse_centi_embedded(s, j + 1, v);
}

/// A subrange that reads as a concatenation splits into its two parts.
proof fn lemma_subrange_cat(s: Seq<char>, i: int, a: Seq<char>, b: Seq<char>)
    requires
        0 <= i,
        i + a.len() + b.len() <= s.len(),
        s.subrange(i, i + a.len() + b.len()) == a + b,
    ensures
        s.subrange(i, i + a.len()) == a,
        s.subrange(i + a.len(), i + a.len() + b.len()) == b,
{
    assert forall|k: int| 0 <= k < a.len() implies s.subrange(i, i + a.len())[k] == a[k] by {
        assert(s.subrange(i, i + a.len() + b.len())[k] == (a + b)[k]);
    }
    assert(s.subrange(i, i + a.len()) =~= a);
    assert forall|k: int| 0 <= k < b.len() implies s.subrange(
        i + a.len(),
        i + a.len() + b.len(),
    )[k] == b[k] by {
        assert(s.subrange(i, i + a.len() + b.len())[a.len() + k] == (a + b)[a.len() + k]);
        assert((a + b)[a.len() + k] == b[k]);
        assert(s.subrange(i + a.len(), i + a.len() + b.len())[k] == s[i + a.len() + k]);
        assert(s.subrange(i, i + a.len() + b.len())[a.len() + k] == s[i + a.len() + k]);
    }
    assert(s.subrange(i + a.len(), i + a.len() + b.len()) =~= b);
}

/// Where each piece of one emitted marker lies when the marker text sits at
/// position `i`: the five quoted fields in order, each number delimited by
/// the following punctuation.
pub open spec fn marker_layout(s: Seq<char>, i: int, m: ZoomMarker) -> bool {
    let d0 = sp_fmt_u64(m.start_ms as int).len() as int;
    let d1 = sp_fmt_u64(m.end_ms as int).len() as int;
    let c0 = sp_fmt_centi(m.x_centi as int).len() as int;
    let c1 = sp_fmt_centi(m.y_centi as int).len() as int;
    let c2 = sp_fmt_centi(m.scale_centi as int).len() as int;
    &&& 0 <= i
    &&& i + 42 + d0 + d1 + c0 + c1 + c2 <= s.len()
    &&& s.subrange(i, i + 12) == "{\"start_ms\":"@
    &&& s.subrange(i + 12, i + 12 + d0) == sp_fmt_u64(m.start_ms as int)
    &&& s.subrange(i + 12 + d0, i + 22 + d0) == ",\"end_ms\":"@
    &&& s.subrange(i + 22 + d0, i + 22 + d0 + d1) == sp_fmt_u64(m.end_ms as int)
    &&& s.subrange(i + 22 + d0 + d1, i + 27 + d0 + d1) == ",\"x\":"@
    &&& s.subrange(i + 27 + d0 + d1, i + 27 + d0 + d1 + c0) == sp_fmt_centi(m.x_centi as int)
    &&& s.subrange(i + 27 + d0 + d1 + c0, i + 32 + d0 + d1 + c0) == ",\"y\":"@
    &&& s.subrange(i + 32 + d0 + d1 + c0, i + 32 + d0 + d1 + c0 + c1) == sp_fmt_centi(
        m.y_centi as int,
    )
    &&& s.subrange(i + 32 + d0 + d1 + c0 + c1, i + 41 + d0 + d1 + c0 + c1) == ",\"scale\":"@
    &&& s.subrange(i + 41 + d0 + d1 + c0 + c1, i + 41 + d0 + d1 + c0 + c1 + c2) == sp_fmt_centi(
        m.scale_centi as int,
    )
    &&& s[i + 41 + d0 + d1 + c0 + c1 + c2] == '}'
}

/// A marker text found verbatim in a larger text lays its pieces out as
/// [`marker_layout`] says.
proof fn lemma_marker_layout(s: Seq<char>, i: int, m: ZoomMarker)
    requires
        0 <= i,
        i + sp_marker_json(m).len() <= s.len(),
        s.subrange(i, i + sp_marker_json(m).len()) == sp_marker_json(m),
    ensures
        marker_layout(s, i, m),
        sp_marker_json(m).len() == 42 + sp_fmt_u64(m.start_ms as int).len() + sp_fmt_u64(
            m.end_ms as int,
        ).len() + sp_fmt_centi(m.x_centi as int).len() + sp_fmt_centi(m.y_centi as int).len()
            + sp_fmt_centi(m.scale_centi as int).len(),
{
    reveal_strlit("{\"start_ms\":");
    reveal_strlit(",\"end_ms\":");
    reveal_strlit(",\"x\":");
    reveal_strlit(",\"y\":");
    reveal_strlit(",\"scale\":");
    reveal_strlit("}");
    let l0 = "{\"start_ms\":"@;
    let l1 = ",\"end_ms\":"@;
    let l2 = ",\"x\":"@;
    let l3 = ",\"y\":"@;
    let l4 = ",\"scale\":"@;
    let l5 = "}"@;
    let d0 = sp_fmt_u64(m.start_ms as int);
    let d1 = sp_fmt_u64(m.end_ms as int);
    let c0 = sp_fmt_centi(m.x_centi as int);
    let c1 = sp_fmt_centi(m.y_centi as int);
    let c2 = sp_fmt_centi(m.scale_centi as int);
    let p9 = l0 + d0 + l1 + d1 + l2 + c0 + l3 + c1 + l4 + c2;
    let p8 = l0 + d0 + l1 + d1 + l2 + c0 + l3 + c1 + l4;
    let p7 = l0 + d0 + l1 + d1 + l2 + c0 + l3 + c1;
    let p6 = l0 + d0 + l1 + d1 + l2 + c0 + l3;
    let p5 = l0 + d0 + l1 + d1 + l2 + c0;
    let p4 = l0 + d0 + l1 + d1 + l2;
    let p3 = l0 + d0 + l1 + d1;
    let p2 = l0 + d0 + l1;
    let p1 = l0 + d0;
    lemma_subrange_cat(s, i, p9, l5);
    lemma_subrange_cat(s, i, p8, c2);
    lemma_subrange_cat(s, i, p7, l4);
    lemma_subrange_cat(s, i, p6, c1);
    lemma_subrange_cat(s, i, p5, l3);
    lemma_subrange_cat(s, i, p4, c0);
    lemma_subrange_cat(s, i, p3, l2);
    lemma_subrange_cat(s, i, p2, d1);
    lemma_subrange_cat(s, i, p1, l1);
    lemma_subrange_cat(s, i, l0, d0);
    let last = i + p9.len();
    assert(s[last] == '}') by {
        assert(s.subrange(last, last + 1)[0] == l5[0]);
    }
}

/// With the pieces laid out, the two unsigned fields and their surrounding
/// punctuation parse as the grammar walks them.
proof fn lemma_marker_fields_u64(s: Seq<char>, i: int, m: ZoomMarker)
    requires
        marker_layout(s, i, m),
    ensures
        ({
            let d0 = sp_fmt_u64(m.start_ms as int).len() as int;
            let d1 = sp_fmt_u64(m.end_ms as int).len() as int;
            &&& sp_tok(s, i, '{') == Some(i + 1)
            &&& sp_kv_u64(s, i + 1, "\"start_ms\""@) == Some((m.start_ms, i + 12 + d0))
            &&& sp_tok(s, i + 12 + d0, ',') == Some(i + 13 + d0)
            &&& sp_kv_u64(s, i + 13 + d0, "\"end_ms\""@) == Some((m.end_ms, i + 22 + d0 + d1))
            &&& sp_tok(s, i + 22 + d0 + d1, ',') == Some(i + 23 + d0 + d1)
        }),
{
    reveal_strlit("{\"start_ms\":");
    reveal_strlit(",\"end_ms\":");
    reveal_strlit(",\"x\":");
    reveal_strlit("\"start_ms\"");
    reveal_strlit("\"end_ms\"");
    let k0 = "\"start_ms\""@;
    let k1 = "\"end_ms\""@;
    let d0 = sp_fmt_u64(m.start_ms as int).len() as int;
    let d1 = sp_fmt_u64(m.end_ms as int).len() as int;
    assert("{\"start_ms\":"@ =~= seq!['{'] + (k0 + seq![':']));
    lemma_subrange_cat(s, i, seq!['{'], k0 + seq![':']);
    lemma_subrange_cat(s, i + 1, k0, seq![':']);
    assert(s[i] == '{') by {
        assert(s.subrange(i, i + 1)[0] == seq!['{'][0]);
    }
    assert(s[i + 11] == ':') by {
        assert(s.subrange(i + 11, i + 12)[0] == seq![':'][0]);
    }
    assert(",\"end_ms\":"@ =~= seq![','] + (k1 + seq![':']));
    lemma_subrange_cat(s, i + 12 + d0, seq![','], k1 + seq![':']);
    lemma_subrange_cat(s, i + 13 + d0, k1, seq![':']);
    assert(s[i + 12 + d0] == ',') by {
        assert(s.subrange(i + 12 + d0, i + 13 + d0)[0] == seq![','][0]);
    }
    assert(s[i + 21 + d0] == ':') by {
        assert(s.subrange(i + 21 + d0, i + 22 + d0)[0] == seq![':'][0]);
    }
    assert(s[i + 22 + d0 + d1] == ',') by {
        assert(s.subrange(i + 22 + d0 + d1, i + 27 + d0 + d1)[0] == ",\"x\":"@[0]);
    }
    assert(sp_ws(s, i) == i);
    lemma_kv_u64_embedded(s, i + 1, k0, m.start_ms);
    assert(sp_ws(s, i + 12 + d0) == i + 12 + d0);
    lemma_kv_u64_embedded(s, i + 13 + d0, k1, m.end_ms);
    assert(sp_ws(s, i + 22 + d0 + d1) == i + 22 + d0 + d1);
}

/// With the pieces laid out, the three fixed-point fields and the closing
/// brace parse as the grammar walks them.
proof fn lemma_marker_fields_centi(s: Seq<char>, i: int, m: ZoomMarker)
    requires
        marker_layout(s, i, m),
    ensures
        ({
            let d0 = sp_fmt_u64(m.start_ms as int).len() as int;
            let d1 = sp_fmt_u64(m.end_ms as int).len() as int;
            let c0 = sp_fmt_centi(m.x_centi as int).len() as int;
            let c1 = sp_fmt_centi(m.y_centi as int).len() as int;
            let c2 = sp_fmt_centi(m.scale_centi as int).len() as int;
            let b = i + d0 + d1;
            &&& sp_kv_centi(s, b + 23, "\"x\""@) == Some((m.x_centi, b + 27 + c0))
            &&& sp_tok(s, b + 27 + c0, ',') == Some(b + 28 + c0)
            &&& sp_kv_centi(s, b + 28 + c0, "\"y\""@) == Some((m.y_centi, b + 32 + c0 + c1))
            &&& sp_tok(s, b + 32 + c0 + c1, ',') == Some(b + 33 + c0 + c1)
            &&& sp_kv_centi(s, b + 33 + c0 + c1, "\"scale\""@) == Some(
                (m.scale_centi, b + 41 + c0 + c1 + c2),
            )
            &&& sp_tok(s, b + 41 + c0 + c1 + c2, '}') == Some(b + 42 + c0 + c1 + c2)
        }),
{
    reveal_strlit(",\"x\":");
    reveal_strlit(",\"y\":");
    reveal_strlit(",\"scale\":");
    reveal_strlit("\"x\"");
    reveal_strlit("\"y\"");
    reveal_strlit("\"scale\"");
    let k2 = "\"x\""@;
    let k3 = "\"y\""@;
    let k4 = "\"scale\""@;
    let d0 = sp_fmt_u64(m.start_ms as int).len() as int;
    let d1 = sp_fmt_u64(m.end_ms as int).len() as int;
    let c0 = sp_fmt_centi(m.x_centi as int).len() as int;
    let c1 = sp_fmt_centi(m.y_centi as int).len() as int;
    let c2 = sp_fmt_centi(m.scale_centi as int).len() as int;
    let b = i + d0 + d1;
    assert(",\"x\":"@ =~= seq![','] + (k2 + seq![':']));
    lemma_subrange_cat(s, b + 22, seq![','], k2 + seq![':']);
    lemma_subrange_cat(s, b + 23, k2, seq![':']);
    assert(s[b + 26] == ':') by {
        assert(s.subrange(b + 26, b + 27)[0] == seq![':'][0]);
    }
    assert(",\"y\":"@ =~= seq![','] + (k3 + seq![':']));
    lemma_subrange_cat(s, b + 27 + c0, seq![','], k3 + seq![':']);
    lemma_subrange_cat(s, b + 28 + c0, k3, seq![':']);
    assert(s[b + 27 + c0] == ',') by {
        assert(s.subrange(b + 27 + c0, b + 28 + c0)[0] == seq![','][0]);
    }
    assert(s[b + 31 + c0] == ':') by {
        assert(s.subrange(b + 31 + c0, b + 32 + c0)[0] == seq![':'][0]);
    }
    assert(",\"scale\":"@ =~= seq![','] + (k4 + seq![':']));
    lemma_subrange_cat(s, b + 32 + c0 + c1, seq![','], k4 + seq![':']);
    lemma_subrange_cat(s, b + 33 + c0 + c1, k4, seq![':']);
    assert(s[b + 32 + c0 + c1] == ',') by {
        assert(s.subrange(b + 32 + c0 + c1, b + 33 + c0 + c1)[0] == seq![','][0]);
    }
    assert(s[b + 40 + c0 + c1] == ':') by {
        assert(s.subrange(b + 40 + c0 + c1, b + 41 + c0 + c1)[0] == seq![':'][0]);
    }
    lemma_kv_centi_embedded(s, b + 23, k2, m.x_centi);
    assert(sp_ws(s, b + 27 + c0) == b + 27 + c0);
    lemma_kv_centi_embedded(s, b + 28 + c0, k3, m.y_centi);
    assert(sp_ws(s, b + 32 + c0 + c1) == b + 32 + c0 + c1);
    lemma_kv_centi_embedded(s, b + 33 + c0 + c1, k4, m.scale_centi);
    assert(sp_ws(s, b + 41 + c0 + c1 + c2) == b + 41 + c0 + c1 + c2);
}

/// The emitted text of one marker, embedded in a larger text, parses back to
/// exactly that marker in the current schema.
proof fn lemma_marker_roundtrip(s: Seq<char>, i: int, m: ZoomMarker)
    requires
        0 <= i,
        i + sp_marker_json(m).len() <= s.len(),
        s.subrange(i, i + sp_marker_json(m).len()) == sp_marker_json(m),
    ensures
        sp_marker(s, i, false) == Some((m, i + sp_marker_json(m).len())),
{
    lemma_marker_layout(s, i, m);
    lemma_marker_fields_u64(s, i, m);
    lemma_marker_fields_centi(s, i, m);
}

/// The emitted text of a marker is non-empty and opens with its brace.
proof fn lemma_marker_json_shape(m: ZoomMarker)
    ensures
        sp_marker_json(m).len() >= 1,
        sp_marker_json(m)[0] == '{',
{
    reveal_strlit("{\"start_ms\":");
    assert(sp_marker_json(m)[0] == "{\"start_ms\":"@[0]);
}

/// The emitted record list is non-empty and opens with a brace.
proof fn lemma_items_shape(ms: Seq<ZoomMarker>)
    requires
        ms.len() >= 1,
    ensures
        sp_markers_items(ms).len() >= 1,
        sp_markers_items(ms)[0] == '{',
    decreases ms.len(),
{
    if ms.len() == 1 {
        lemma_marker_json_shape(ms[0]);
    } else {
        lemma_items_shape(ms.drop_last());
        assert(sp_markers_items(ms)[0] == sp_markers_items(ms.drop_last())[0]);
    }
}

/// The record list read from the front: the first record, a comma, then the
/// list of the remaining records.
proof fn lemma_items_head(ms: Seq<ZoomMarker>)
    requires
        ms.len() >= 2,
    ensures
        sp_markers_items(ms) == sp_marker_json(ms[0]) + (seq![','] + sp_markers_items(
            ms.drop_first(),
        )),
    decreases ms.len(),
{
    reveal_strlit(",");
    assert(","@ =~= seq![',']);
    if ms.len() == 2 {
        assert(ms.drop_last().len() == 1);
        assert(ms.drop_last()[0] == ms[0]);
        assert(ms.drop_first().len() == 1);
        assert(ms.drop_first()[0] == ms[1]);
        assert(sp_markers_items(ms) =~= sp_marker_json(ms[0]) + (seq![','] + sp_markers_items(
            ms.drop_first(),
        )));
    } else {
        lemma_items_head(ms.drop_last());
        assert(ms.drop_last().drop_first() =~= ms.drop_first().drop_last());
        assert(ms.drop_last()[0] == ms[0]);
        assert(ms.drop_first().last() == ms.last());
        assert(ms.drop_first().len() >= 2);
        assert(sp_markers_items(ms.drop_first()) == sp_markers_items(ms.drop_first().drop_last())
            + ","@ + sp_marker_json(ms.drop_first().last()));
        let a = sp_marker_json(ms[0]);
        let b: Seq<char> = seq![','];
        let t1 = sp_markers_items(ms.drop_first().drop_last());
        let jl = sp_marker_json(ms.last());
        assert(sp_markers_items(ms.drop_last()) == a + (b + t1));
        assert(sp_markers_items(ms) == (a + (b + t1)) + ","@ + jl);
        assert((a + (b + t1)) + b =~= (a + b) + (t1 + b));
        assert(sp_markers_items(ms) =~= ((a + b) + (t1 + b)) + jl);
        assert(sp_markers_items(ms.drop_first()) =~= (t1 + b) + jl);
        assert((a + b) + ((t1 + b) + jl) =~= ((a + b) + (t1 + b)) + jl);
        assert(a + (b + sp_markers_items(ms.drop_first())) =~= (a + b) + ((t1 + b) + jl));
        assert(sp_markers_items(ms) =~= sp_marker_json(ms[0]) + (seq![','] + sp_markers_items(
            ms.drop_first(),
        )));
    }
}

/// The emitted record list followed by the closing bracket parses back to
/// exactly the records it was written from.
#[verifier::rlimit(60)]
proof fn lemma_rest_roundtrip(s: Seq<char>, i: int, ms: Seq<ZoomMarker>)
    requires
        ms.len() >= 1,
        0 <= i,
        i + sp_markers_items(ms).len() + 1 <= s.len(),
        s.subrange(i, i + sp_markers_items(ms).len() + 1) == sp_markers_items(ms) + seq![']'],
    ensures
        sp_markers_rest(s, i, false) == Some((ms, i + sp_markers_items(ms).len() + 1)),
    decreases ms.len(),
{
    let items = sp_markers_items(ms);
    let e = i + items.len() + 1;
    if ms.len() == 1 {
        let json = sp_marker_json(ms[0]);
        assert(items == json);
        lemma_subrange_cat(s, i, json, seq![']']);
        lemma_marker_roundtrip(s, i, ms[0]);
        lemma_marker_json_shape(ms[0]);
        let j = i + json.len();
        assert(s[j] == ']') by {
            assert(s.subrange(j, j + 1)[0] == seq![']'][0]);
        }
        assert(sp_ws(s, j) == j);
        assert(sp_tok(s, j, ']') == Some(j + 1));
        assert(seq![ms[0]] =~= ms);
    } else {
        lemma_items_head(ms);
        let json = sp_marker_json(ms[0]);
        let tail = ms.drop_first();
        let items_tail = sp_markers_items(tail);
        assert(items + seq![']'] =~= json + (seq![','] + (items_tail + seq![']'])));
        lemma_subrange_cat(s, i, json, seq![','] + (items_tail + seq![']']));
        let j = i + json.len();
        lemma_subrange_cat(s, j, seq![','], items_tail + seq![']']);
        lemma_marker_roundtrip(s, i, ms[0]);
        lemma_marker_json_shape(ms[0]);
        assert(s[j] == ',') by {
            assert(s.subrange(j, j + 1)[0] == seq![','][0]);
        }
        assert(sp_ws(s, j) == j);
        assert(sp_tok(s, j, ']') is None);
        assert(sp_tok(s, j, ',') == Some(j + 1));
        lemma_rest_roundtrip(s, j + 1, tail);
        assert(sp_markers_rest(s, j + 1, false) == Some((tail, e)));
        assert(seq![ms[0]].add(tail) =~= ms);
    }
}

/// Law: reading a marker sidecar text back yields exactly the markers it was
/// written from — the writer and the tolerant reader agree on every
/// timeline.
pub proof fn lemma_markers_roundtrip(ms: Seq<ZoomMarker>)
    ensures
        sp_read_markers(sp_markers_json(ms)) == ms,
{
    reveal_strlit("[");
    reveal_strlit("]");
    let s = sp_markers_json(ms);
    let items = sp_markers_items(ms);
    assert("["@ =~= seq!['[']);
    assert("]"@ =~= seq![']']);
    assert(s =~= seq!['['] + (items + seq![']']));
    assert(s.subrange(0, s.len() as int) =~= s);
    lemma_subrange_cat(s, 0, seq!['['], items + seq![']']);
    assert(s[0] == '[') by {
        assert(s.subrange(0, 1)[0] == seq!['['][0]);
    }
    assert(sp_ws(s, 0) == 0);
    assert(sp_tok(s, 0, '[') == Some(1int));
    if ms.len() == 0 {
        assert(s.len() == 2);
        assert(s[1] == ']') by {
            assert(s.subrange(1, 2)[0] == seq![']'][0]);
        }
        assert(sp_ws(s, 1) == 1);
        assert(sp_ws(s, 2) == 2);
        assert(sp_markers_doc(s, false) == Some(Seq::<ZoomMarker>::empty()));
        assert(sp_read_markers(s) =~= ms);
    } else {
        lemma_items_shape(ms);
        assert(s[1] == '{') by {
            assert(s.subrange(1, s.len() as int)[0] == (items + seq![']'])[0]);
        }
        assert(sp_ws(s, 1) == 1);
        lemma_rest_roundtrip(s, 1, ms);
        assert(sp_ws(s, s.len() as int) == s.len());
        assert(sp_markers_doc(s, false) == Some(ms));
    }
}

/// A formatted number embedded in a larger text, delimited by anything that
/// is neither a digit nor a dot, parses back to itself under truncation.
proof fn lemma_parse_uint_trunc_embedded(s: Seq<char>, i: int, n: u64)
    requires
        0 <= i,
        i + sp_fmt_u64(n as int).len() <= s.len(),
        s.subrange(i, i + sp_fmt_u64(n as int).len()) == sp_fmt_u64(n as int),
        i + sp_fmt_u64(n as int).len() == s.len() || (!is_digit(s[i + sp_fmt_u64(n as int).len()])
            && s[i + sp_fmt_u64(n as int).len()] != '.'),
    ensures
        sp_uint_trunc(s, i) == Some((n, i + sp_fmt_u64(n as int).len())),
{
    let t = sp_fmt_u64(n as int);
    let e = i + t.len();
    lemma_fmt_u64_wf(n as int);
    assert(forall|k: int| 0 <= k < t.len() ==> s[i + k] == t[k]);
    assert forall|k: int| i <= k < e implies is_digit(#[trigger] s[k]) by {
        assert(s[k] == t[k - i]);
    }
    lemma_digits_end_of_run(s, i, e);
    lemma_digits_val_congruent(s, i, t, 0, t.len() as int);
    lemma_fmt_u64_val(n as int);
}

/// A formatted signed number embedded in a larger text, delimited by
/// anything that is neither a digit nor a dot, parses back to itself.
proof fn lemma_parse_i64_embedded(s: Seq<char>, i: int, v: i64)
    requires
        0 <= i,
        i + sp_fmt_i64(v as int).len() <= s.len(),
        s.subrange(i, i + sp_fmt_i64(v as int).len()) == sp_fmt_i64(v as int),
        i + sp_fmt_i64(v as int).len() == s.len() || (!is_digit(s[i + sp_fmt_i64(v as int).len()])
            && s[i + sp_fmt_i64(v as int).len()] != '.'),
    ensures
        sp_int(s, i) == Some((v, i + sp_fmt_i64(v as int).len())),
{
    let t = sp_fmt_i64(v as int);
    let e = i + t.len();
    if v >= 0 {
        lemma_fmt_u64_wf(v as int);
        assert(s[i] == t[0]) by {
            assert(s.subrange(i, e)[0] == t[0]);
        }
        assert(is_digit(s[i]) && s[i] != '-');
        lemma_parse_uint_trunc_embedded(s, i, v as u64);
    } else {
        let mag = sp_fmt_u64(-(v as int));
        assert(t == seq!['-'] + mag);
        lemma_subrange_cat(s, i, seq!['-'], mag);
        assert(s[i] == '-') by {
            assert(s.subrange(i, i + 1)[0] == seq!['-'][0]);
        }
        let n: u64 = (-(v as int)) as u64;
        lemma_parse_uint_trunc_embedded(s, i + 1, n);
        assert(n <= 9223372036854775808u64);
        assert((-(n as int)) as i64 == v);
    }
}

/// The emitted key-and-value text of a signed field parses back to the
/// value.
proof fn lemma_kv_int_embedded(s: Seq<char>, i: int, key: Seq<char>, v: i64)
    requires
        0 <= i,
        key.len() >= 1,
        !is_ws(key[0]),
        i + key.len() + 1 + sp_fmt_i64(v as int).len() <= s.len(),
        s.subrange(i, i + key.len()) == key,
        s[i + key.len()] == ':',
        s.subrange(
            i + key.len() + 1,
            i + key.len() + 1 + sp_fmt_i64(v as int).len(),
        ) == sp_fmt_i64(v as int),
        i + key.len() + 1 + sp_fmt_i64(v as int).len() == s.len() || (!is_digit(
            s[i + key.len() + 1 + sp_fmt_i64(v as int).len()],
        ) && s[i + key.len() + 1 + sp_fmt_i64(v as int).len()] != '.'),
    ensures
        sp_kv_int(s, i, key) == Some((v, i + key.len() + 1 + sp_fmt_i64(v as int).len())),
{
    assert(s[i] == key[0]) by {
        assert(s.subrange(i, i + key.len())[0] == key[0]);
    }
    assert(sp_ws(s, i) == i);
    assert(sp_lit(s, i, key) == Some(i + key.len()));
    let j = i + key.len();
    assert(sp_ws(s, j) == j);
    assert(sp_tok(s, j, ':') == Some(j + 1));
    let t = sp_fmt_i64(v as int);
    assert(s[j + 1] == t[0]) by {
        assert(s.subrange(j + 1, j + 1 + t.len())[0] == t[0]);
    }
    assert(!is_ws(t[0])) by {
        if v >= 0 {
            lemma_fmt_u64_wf(v as int);
        } else {
            assert(t[0] == '-');
        }
    }
    assert(sp_ws(s, j + 1) == j + 1);
    lemma_parse_i64_embedded(s, j + 1, v);
}

/// Where each piece of one emitted cursor sample lies when the sample text
/// sits at position `i`.
pub open spec fn sample_layout(s: Seq<char>, i: int, m: MousePosition) -> bool {
    let d0 = sp_fmt_i64(m.x as int).len() as int;
    let d1 = sp_fmt_i64(m.y as int).len() as int;
    let d2 = sp_fmt_u64(m.timestamp_ms as int).len() as int;
    &&& 0 <= i
    &&& i + 27 + d0 + d1 + d2 <= s.len()
    &&& s.subrange(i, i + 5) == "{\"x\":"@
    &&& s.subrange(i + 5, i + 5 + d0) == sp_fmt_i64(m.x as int)
    &&& s.subrange(i + 5 + d0, i + 10 + d0) == ",\"y\":"@
    &&& s.subrange(i + 10 + d0, i + 10 + d0 + d1) == sp_fmt_i64(m.y as int)
    &&& s.subrange(i + 10 + d0 + d1, i + 26 + d0 + d1) == ",\"timestamp_ms\":"@
    &&& s.subrange(i + 26 + d0 + d1, i + 26 + d0 + d1 + d2) == sp_fmt_u64(m.timestamp_ms as int)
    &&& s[i + 26 + d0 + d1 + d2] == '}'
}

/// A sample text found verbatim in a larger text lays its pieces out as
/// [`sample_layout`] says.
proof fn lemma_sample_layout(s: Seq<char>, i: int, m: MousePosition)
    requires
        0 <= i,
        i + sp_sample_json(m).len() <= s.len(),
        s.subrange(i, i + sp_sample_json(m).len()) == sp_sample_json(m),
    ensures
        sample_layout(s, i, m),
        sp_sample_json(m).len() == 27 + sp_fmt_i64(m.x as int).len() + sp_fmt_i64(
            m.y as int,
        ).len() + sp_fmt_u64(m.timestamp_ms as int).len(),
{
    reveal_strlit("{\"x\":");
    reveal_strlit(",\"y\":");
    reveal_strlit(",\"timestamp_ms\":");
    reveal_strlit("}");
    let l0 = "{\"x\":"@;
    let l1 = ",\"y\":"@;
    let l2 = ",\"timestamp_ms\":"@;
    let l3 = "}"@;
    let d0 = sp_fmt_i64(m.x as int);
    let d1 = sp_fmt_i64(m.y as int);
    let d2 = sp_fmt_u64(m.timestamp_ms as int);
    let p5 = l0 + d0 + l1 + d1 + l2;
    let p4 = l0 + d0 + l1 + d1;
    let p3 = l0 + d0 + l1;
    let p2 = l0 + d0;
    lemma_subrange_cat(s, i, p5 + d2, l3);
    lemma_subrange_cat(s, i, p5, d2);
    lemma_subrange_cat(s, i, p4, l2);
    lemma_subrange_cat(s, i, p3, d1);
    lemma_subrange_cat(s, i, p2, l1);
    lemma_subrange_cat(s, i, l0, d0);
    let last = i + (p5 + d2).len();
    assert(s[last] == '}') by {
        assert(s.subrange(last, last + 1)[0] == l3[0]);
    }
}

/// With the pieces laid out, the three fields of a sample and their
/// surrounding punctuation parse as the grammar walks them.
proof fn lemma_sample_fields(s: Seq<char>, i: int, m: MousePosition)
    requires
        sample_layout(s, i, m),
    ensures
        ({
            let d0 = sp_fmt_i64(m.x as int).len() as int;
            let d1 = sp_fmt_i64(m.y as int).len() as int;
            let d2 = sp_fmt_u64(m.timestamp_ms as int).len() as int;
            &&& sp_tok(s, i, '{') == Some(i + 1)
            &&& sp_kv_int(s, i + 1, "\"x\""@) == Some((m.x, i + 5 + d0))
            &&& sp_tok(s, i + 5 + d0, ',') == Some(i + 6 + d0)
            &&& sp_kv_int(s, i + 6 + d0, "\"y\""@) == Some((m.y, i + 10 + d0 + d1))
            &&& sp_tok(s, i + 10 + d0 + d1, ',') == Some(i + 11 + d0 + d1)
            &&& sp_kv_u64(s, i + 11 + d0 + d1, "\"timestamp_ms\""@) == Some(
                (m.timestamp_ms, i + 26 + d0 + d1 + d2),
            )
            &&& sp_tok(s, i + 26 + d0 + d1 + d2, '}') == Some(i + 27 + d0 + d1 + d2)
        }),
{
    reveal_strlit("{\"x\":");
    reveal_strlit(",\"y\":");
    reveal_strlit(",\"timestamp_ms\":");
    reveal_strlit("\"x\"");
    reveal_strlit("\"y\"");
    reveal_strlit("\"timestamp_ms\"");
    let k0 = "\"x\""@;
    let k1 = "\"y\""@;
    let k2 = "\"timestamp_ms\""@;
    let d0 = sp_fmt_i64(m.x as int).len() as int;
    let d1 = sp_fmt_i64(m.y as int).len() as int;
    let d2 = sp_fmt_u64(m.timestamp_ms as int).len() as int;
    assert("{\"x\":"@ =~= seq!['{'] + (k0 + seq![':']));
    lemma_subrange_cat(s, i, seq!['{'], k0 + seq![':']);
    lemma_subrange_cat(s, i + 1, k0, seq![':']);
    assert(s[i] == '{') by {
        assert(s.subrange(i, i + 1)[0] == seq!['{'][0]);
    }
    assert(s[i + 4] == ':') by {
        assert(s.subrange(i + 4, i + 5)[0] == seq![':'][0]);
    }
    assert(",\"y\":"@ =~= seq![','] + (k1 + seq![':']));
    lemma_subrange_cat(s, i + 5 + d0, seq![','], k1 + seq![':']);
    lemma_subrange_cat(s, i + 6 + d0, k1, seq![':']);
    assert(s[i + 5 + d0] == ',') by {
        assert(s.subrange(i + 5 + d0, i + 6 + d0)[0] == seq![','][0]);
    }
    assert(s[i + 9 + d0] == ':') by {
        assert(s.subrange(i + 9 + d0, i + 10 + d0)[0] == seq![':'][0]);
    }
    assert(",\"timestamp_ms\":"@ =~= seq![','] + (k2 + seq![':']));
    lemma_subrange_cat(s, i + 10 + d0 + d1, seq![','], k2 + seq![':']);
    lemma_subrange_cat(s, i + 11 + d0 + d1, k2, seq![':']);
    assert(s[i + 10 + d0 + d1] == ',') by {
        assert(s.subrange(i + 10 + d0 + d1, i + 11 + d0 + d1)[0] == seq![','][0]);
    }
    assert(s[i + 25 + d0 + d1] == ':') by {
        assert(s.subrange(i + 25 + d0 + d1, i + 26 + d0 + d1)[0] == seq![':'][0]);
    }
    assert(sp_ws(s, i) == i);
    lemma_kv_int_embedded(s, i + 1, k0, m.x);
    assert(sp_ws(s, i + 5 + d0) == i + 5 + d0);
    lemma_kv_int_embedded(s, i + 6 + d0, k1, m.y);
    assert(sp_ws(s, i + 10 + d0 + d1) == i + 10 + d0 + d1);
    lemma_kv_u64_embedded(s, i + 11 + d0 + d1, k2, m.timestamp_ms);
    assert(sp_ws(s, i + 26 + d0 + d1 + d2) == i + 26 + d0 + d1 + d2);
}

/// The emitted text of one cursor sample, embedded in a larger text, parses
/// back to exactly that sample.
proof fn lemma_sample_roundtrip(s: Seq<char>, i: int, m: MousePosition)
    requires
        0 <= i,
        i + sp_sample_json(m).len() <= s.len(),
        s.subrange(i, i + sp_sample_json(m).len()) == sp_sample_json(m),
    ensures
        sp_sample(s, i) == Some((m, i + sp_sample_json(m).len())),
{
    lemma_sample_layout(s, i, m);
    lemma_sample_fields(s, i, m);
}

/// The emitted text of a sample is non-empty and opens with its brace.
proof fn lemma_sample_json_shape(m: MousePosition)
    ensures
        sp_sample_json(m).len() >= 1,
        sp_sample_json(m)[0] == '{',
{
    reveal_strlit("{\"x\":");
    assert(sp_sample_json(m)[0] == "{\"x\":"@[0]);
}

/// The emitted sample list is non-empty and opens with a brace.
proof fn lemma_samples_items_shape(ms: Seq<MousePosition>)
    requires
        ms.len() >= 1,
    ensures
        sp_samples_items(ms).len() >= 1,
        sp_samples_items(ms)[0] == '{',
    decreases ms.len(),
{
    if ms.len() == 1 {
        lemma_sample_json_shape(ms[0]);
    } else {
        lemma_samples_items_shape(ms.drop_last());
        assert(sp_samples_items(ms)[0] == sp_samples_items(ms.drop_last())[0]);
    }
}

/// The sample list read from the front: the first record, a comma, then the
/// list of the remaining records.
proof fn lemma_samples_items_head(ms: Seq<MousePosition>)
    requires
        ms.len() >= 2,
    ensures
        sp_samples_items(ms) == sp_sample_json(ms[0]) + (seq![','] + sp_samples_items(
            ms.drop_first(),
        )),
    decreases ms.len(),
{
    reveal_strlit(",");
    assert(","@ =~= seq![',']);
    if ms.len() == 2 {
        assert(ms.drop_last().len() == 1);
        assert(ms.drop_last()[0] == ms[0]);
        assert(ms.drop_first().len() == 1);
        assert(ms.drop_first()[0] == ms[1]);
        assert(sp_samples_items(ms) =~= sp_sample_json(ms[0]) + (seq![','] + sp_samples_items(
            ms.drop_first(),
        )));
    } else {
        lemma_samples_items_head(ms.drop_last());
        assert(ms.drop_last().drop_first() =~= ms.drop_first().drop_last());
        assert(ms.drop_last()[0] == ms[0]);
        assert(ms.drop_first().last() == ms.last());
        assert(ms.drop_first().len() >= 2);
        assert(sp_samples_items(ms.drop_first()) == sp_samples_items(
            ms.drop_first().drop_last(),
        ) + ","@ + sp_sample_json(ms.drop_first().last()));
        let a = sp_sample_json(ms[0]);
        let b: Seq<char> = seq![','];
        let t1 = sp_samples_items(ms.drop_first().drop_last());
        let jl = sp_sample_json(ms.last());
        assert(sp_samples_items(ms.drop_last()) == a + (b + t1));
        assert(sp_samples_items(ms) == (a + (b + t1)) + ","@ + jl);
        assert((a + (b + t1)) + b =~= (a + b) + (t1 + b));
        assert(sp_samples_items(ms) =~= ((a + b) + (t1 + b)) + jl);
        assert(sp_samples_items(ms.drop_first()) =~= (t1 + b) + jl);
        assert((a + b) + ((t1 + b) + jl) =~= ((a + b) + (t1 + b)) + jl);
        assert(a + (b + sp_samples_items(ms.drop_first())) =~= (a + b) + ((t1 + b) + jl));
        assert(sp_samples_items(ms) =~= sp_sample_json(ms[0]) + (seq![','] + sp_samples_items(
            ms.drop_first(),
        )));
    }
}

/// The emitted sample list followed by the closing bracket parses back to
/// exactly the samples it was written from.
#[verifier::rlimit(60)]
proof fn lemma_samples_rest_roundtrip(s: Seq<char>, i: int, ms: Seq<MousePosition>)
    requires
        ms.len() >= 1,
        0 <= i,
        i + sp_samples_items(ms).len() + 1 <= s.len(),
        s.subrange(i, i + sp_samples_items(ms).len() + 1) == sp_samples_items(ms) + seq![']'],
    ensures
        sp_samples_rest(s, i) == Some((ms, i + sp_samples_items(ms).len() + 1)),
    decreases ms.len(),
{
    let items = sp_samples_items(ms);
    let e = i + items.len() + 1;
    if ms.len() == 1 {
        let json = sp_sample_json(ms[0]);
        assert(items == json);
        lemma_subrange_cat(s, i, json, seq![']']);
        lemma_sample_roundtrip(s, i, ms[0]);
        lemma_sample_json_shape(ms[0]);
        let j = i + json.len();
        assert(s[j] == ']') by {
            assert(s.subrange(j, j + 1)[0] == seq![']'][0]);
        }
        assert(sp_ws(s, j) == j);
        assert(sp_tok(s, j, ']') == Some(j + 1));
        assert(seq![ms[0]] =~= ms);
    } else {
        lemma_samples_items_head(ms);
        let json = sp_sample_json(ms[0]);
        let tail = ms.drop_first();
        let items_tail = sp_samples_items(tail);
        assert(items + seq![']'] =~= json + (seq![','] + (items_tail + seq![']'])));
        lemma_subrange_cat(s, i, json, seq![','] + (items_tail + seq![']']));
        let j = i + json.len();
        lemma_subrange_cat(s, j, seq![','], items_tail + seq![']']);
        lemma_sample_roundtrip(s, i, ms[0]);
        lemma_sample_json_shape(ms[0]);
        assert(s[j] == ',') by {
            assert(s.subrange(j, j + 1)[0] == seq![','][0]);
        }
        assert(sp_ws(s, j) == j);
        assert(sp_tok(s, j, ']') is None);
        assert(sp_tok(s, j, ',') == Some(j + 1));
        lemma_samples_rest_roundtrip(s, j + 1, tail);
        assert(sp_samples_rest(s, j + 1) == Some((tail, e)));
        assert(seq![ms[0]].add(tail) =~= ms);
    }
}

/// Law: parsing a cursor sidecar text back yields exactly the samples it was
/// written from — what the tracker saves, a later load reads back unchanged.
pub proof fn lemma_samples_roundtrip(ms: Seq<MousePosition>)
    ensures
        sp_samples_doc(sp_samples_json(ms)) == Some(ms),
{
    reveal_strlit("[");
    reveal_strlit("]");
    let s = sp_samples_json(ms);
    let items = sp_samples_items(ms);
    assert("["@ =~= seq!['[']);
    assert("]"@ =~= seq![']']);
    assert(s =~= seq!['['] + (items + seq![']']));
    assert(s.subrange(0, s.len() as int) =~= s);
    lemma_subrange_cat(s, 0, seq!['['], items + seq![']']);
    assert(s[0] == '[') by {
        assert(s.subrange(0, 1)[0] == seq!['['][0]);
    }
    assert(sp_ws(s, 0) == 0);
    assert(sp_tok(s, 0, '[') == Some(1int));
    if ms.len() == 0 {
        assert(s.len() == 2);
        assert(s[1] == ']') by {
            assert(s.subrange(1, 2)[0] == seq![']'][0]);
        }
        assert(sp_ws(s, 1) == 1);
        assert(sp_ws(s, 2) == 2);
        assert(sp_samples_doc(s) == Some(Seq::<MousePosition>::empty()));
        assert(sp_samples_doc(s) == Some(ms)) by {
            assert(Seq::<MousePosition>::empty() =~= ms);
        }
    } else {
        lemma_samples_items_shape(ms);
        assert(s[1] == '{') by {
            assert(s.subrange(1, s.len() as int)[0] == (items + seq![']'])[0]);
        }
        assert(sp_ws(s, 1) == 1);
        lemma_samples_rest_roundtrip(s, 1, ms);
        assert(sp_ws(s, s.len() as int) == s.len());
        assert(sp_samples_doc(s) == Some(ms));
    }
}

/// Turn a string into its character sequence for indexed parsing.
pub(crate) fn str_chars(s: &str) -> (r: Vec<char>)
    ensures
        r@ == s@,
{
    let n = s.unicode_len();
    let mut v: Vec<char> = Vec::new();
    let mut i: usize = 0;
    while i < n
        invariant
            i <= n,
            n == s@.len(),
            v@ == s@.take(i as int),
        decreases n - i,
    {
        v.push(s.get_char(i));
        proof {
            assert(v@ =~= s@.take(i + 1 as int));
        }
        i = i + 1;
    }
    proof {
        assert(s@.take(n as int) =~= s@);
    }
    v
}

} // verus!
