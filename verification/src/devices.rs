//! Device-listing text analysis: picking apart the device lines an encoder
//! prints when asked to enumerate capture devices, classifying device names,
//! and the window filter used when enumerating capturable windows.
//!
//! The listing itself comes from outside (a process's diagnostic output);
//! everything here is pure text logic over what was read.

use vstd::prelude::*;

use crate::sidecar::is_ws;
use crate::sidecar::is_digit;
use crate::sidecar::digit_val;
use crate::sidecar::sp_digits_end;
use crate::sidecar::sp_digits_val;
use crate::sidecar::sp_lit;

verus! {

// ---------------------------------------------------------------------
// Scanning helpers
// ---------------------------------------------------------------------
/// The first position at or after `i` holding the character, if any.
pub open spec fn sp_find(s: Seq<char>, i: int, c: char) -> Option<int>
    decreases s.len() - i,
{
    if 0 <= i < s.len() {
        if s[i] == c {
            Some(i)
        } else {
            sp_find(s, i + 1, c)
        }
    } else {
        None
    }
}

/// Executable character search.
fn find_char(s: &Vec<char>, i: usize, c: char) -> (r: Option<usize>)
    requires
        i <= s@.len(),
    ensures
        match r {
            Some(j) => sp_find(s@, i as int, c) == Some(j as int) && i <= j < s@.len(),
            None => sp_find(s@, i as int, c) is None,
        },
    decreases s@.len() - i,
{
    if i < s.len() {
        if s[i] == c {
            Some(i)
        } else {
            find_char(s, i + 1, c)
        }
    } else {
        None
    }
}

/// The first non-whitespace position at or after `i`, stopping at `hi`.
pub open spec fn sp_skip_ws_to(s: Seq<char>, i: int, hi: int) -> int
    decreases hi - i,
{
    if i < hi && 0 <= i < s.len() && is_ws(s[i]) {
        sp_skip_ws_to(s, i + 1, hi)
    } else {
        i
    }
}

/// The position after the last non-whitespace character in `[lo, j)`.
pub open spec fn sp_rskip_ws(s: Seq<char>, lo: int, j: int) -> int
    decreases j - lo,
{
    if j > lo && 0 <= j - 1 < s.len() && is_ws(s[j - 1]) {
        sp_rskip_ws(s, lo, j - 1)
    } else {
        j
    }
}

/// Forward whitespace skip within a range never leaves the range.
pub proof fn lemma_skip_ws_to_bounds(s: Seq<char>, i: int, hi: int)
    requires
        i <= hi,
    ensures
        i <= sp_skip_ws_to(s, i, hi) <= hi,
    decreases hi - i,
{
    if i < hi && 0 <= i < s.len() && is_ws(s[i]) {
        lemma_skip_ws_to_bounds(s, i + 1, hi);
    }
}

/// Backward whitespace skip within a range never leaves the range.
pub proof fn lemma_rskip_ws_bounds(s: Seq<char>, lo: int, j: int)
    requires
        lo <= j,
    ensures
        lo <= sp_rskip_ws(s, lo, j) <= j,
    decreases j - lo,
{
    if j > lo && 0 <= j - 1 < s.len() && is_ws(s[j - 1]) {
        lemma_rskip_ws_bounds(s, lo, j - 1);
    }
}

/// Executable forward whitespace skip within a range.
fn skip_ws_to(s: &Vec<char>, i: usize, hi: usize) -> (r: usize)
    requires
        i <= hi <= s@.len(),
    ensures
        r == sp_skip_ws_to(s@, i as int, hi as int),
        i <= r <= hi,
    decreases hi - i,
{
    if i < hi {
        let c = s[i];
        if c == ' ' || c == '\n' || c == '\t' || c == '\r' {
            return skip_ws_to(s, i + 1, hi);
        }
    }
    i
}

/// Executable backward whitespace skip within a range.
fn rskip_ws(s: &Vec<char>, lo: usize, j: usize) -> (r: usize)
    requires
        lo <= j <= s@.len(),
    ensures
        r == sp_rskip_ws(s@, lo as int, j as int),
        lo <= r <= j,
    decreases j - lo,
{
    if j > lo {
        let c = s[j - 1];
        if c == ' ' || c == '\n' || c == '\t' || c == '\r' {
            return rskip_ws(s, lo, j - 1);
        }
    }
    j
}

// ---------------------------------------------------------------------
// Device lines
// ---------------------------------------------------------------------
/// The whole trimmed range `[lo, hi)` read as a decimal number fitting a
/// 32-bit value: it must be non-empty and all digits.
pub open spec fn sp_trimmed_u32(s: Seq<char>, lo: int, hi: int) -> Option<u32> {
    let a = sp_skip_ws_to(s, lo, hi);
    let b = sp_rskip_ws(s, a, hi);
    if b <= a {
        None
    } else if (forall|k: int| a <= k < b ==> is_digit(#[trigger] s[k])) && sp_digits_val(s, a, b)
        <= u32::MAX {
        Some(sp_digits_val(s, a, b) as u32)
    } else {
        None
    }
}

/// Executable trimmed 32-bit number parse.
fn parse_trimmed_u32(s: &Vec<char>, lo: usize, hi: usize) -> (r: Option<u32>)
    requires
        lo <= hi <= s@.len(),
    ensures
        r == sp_trimmed_u32(s@, lo as int, hi as int),
{
    let a = skip_ws_to(s, lo, hi);
    let b = rskip_ws(s, a, hi);
    if b <= a {
        return None;
    }
    let mut k: usize = a;
    let mut acc: u64 = 0;
    let mut fits: bool = true;
    while k < b
        invariant
            a <= k <= b <= s@.len(),
            b == sp_rskip_ws(s@, a as int, hi as int),
            a == sp_skip_ws_to(s@, lo as int, hi as int),
            forall|m: int| a <= m < k ==> is_digit(#[trigger] s@[m]),
            fits ==> acc == sp_digits_val(s@, a as int, k as int) && acc <= 0xffff_ffff,
            !fits ==> sp_digits_val(s@, a as int, k as int) > u32::MAX,
        decreases b - k,
    {
        let c = s[k];
        if !(c >= '0' && c <= '9') {
            proof {
                assert(!is_digit(s@[k as int]));
                assert(sp_trimmed_u32(s@, lo as int, hi as int) is None);
            }
            return None;
        }
        let d: u64 = (c as u32 as u64) - 48;
        proof {
            assert(d == digit_val(s@[k as int]));
            assert(sp_digits_val(s@, a as int, k + 1 as int) == sp_digits_val(
                s@,
                a as int,
                k as int,
            ) * 10 + d);
            if !fits {
                crate::sidecar::lemma_digits_val_nonneg(s@, a as int, k as int);
            }
        }
        if fits {
            let next: u64 = acc * 10 + d;
            if next > 0xffff_ffff {
                fits = false;
                proof {
                    assert(sp_digits_val(s@, a as int, k + 1 as int) == next);
                }
            } else {
                acc = next;
            }
        }
        k = k + 1;
    }
    if fits {
        Some(acc as u32)
    } else {
        None
    }
}

/// What a device line of an encoder listing parses to: the content of the
/// second bracket pair, read as a trimmed device index, and everything
/// after the second closing bracket of the line, trimmed, as the device
/// name. A line without two bracket pairs is no device line.
pub open spec fn sp_parse_device_line(s: Seq<char>) -> Option<(u32, Seq<char>)> {
    match sp_find(s, 0, '[') {
        None => None,
        Some(o0) => match sp_find(s, o0 + 1, ']') {
            None => None,
            Some(c0) => match sp_find(s, c0 + 1, '[') {
                None => None,
                Some(o1) => match sp_find(s, o1 + 1, ']') {
                    None => None,
                    Some(c1) => match sp_trimmed_u32(s, o1 + 1, c1) {
                        None => None,
                        Some(idx) => match sp_find(s, 0, ']') {
                            None => None,
                            Some(f0) => match sp_find(s, f0 + 1, ']') {
                                None => None,
                                Some(f1) => {
                                    let a = sp_skip_ws_to(s, f1 + 1, s.len() as int);
                                    let b = sp_rskip_ws(s, a, s.len() as int);
                                    Some((idx, s.subrange(a, b)))
                                },
                            },
                        },
                    },
                },
            },
        },
    }
}

/// Parse one line of an encoder's device listing into a device index and a
/// device name: the second bracketed field must be a number, and the name is
/// what follows the second closing bracket.
pub fn parse_device_line(line: &str) -> (r: Option<(u32, String)>)
    ensures
        match r {
            Some((idx, name)) => sp_parse_device_line(line@) matches Some((i2, n2)) && idx == i2
                && name@ == n2,
            None => sp_parse_device_line(line@) is None,
        },
{
    let chars = crate::sidecar::str_chars(line);
    let o0 = match find_char(&chars, 0, '[') {
        Some(j) => j,
        None => {
            return None;
        },
    };
    let c0 = match find_char(&chars, o0 + 1, ']') {
        Some(j) => j,
        None => {
            return None;
        },
    };
    let o1 = match find_char(&chars, c0 + 1, '[') {
        Some(j) => j,
        None => {
            return None;
        },
    };
    let c1 = match find_char(&chars, o1 + 1, ']') {
        Some(j) => j,
        None => {
            return None;
        },
    };
    let idx = match parse_trimmed_u32(&chars, o1 + 1, c1) {
        Some(v) => v,
        None => {
            return None;
        },
    };
    let f0 = match find_char(&chars, 0, ']') {
        Some(j) => j,
        None => {
            return None;
        },
    };
    let f1 = match find_char(&chars, f0 + 1, ']') {
        Some(j) => j,
        None => {
            return None;
        },
    };
    let a = skip_ws_to(&chars, f1 + 1, chars.len());
    let b = rskip_ws(&chars, a, chars.len());
    let name = line.substring_char(a, b).to_owned();
    Some((idx, name))
}

/// What a resolution probe line parses to: a width and a height joined by
/// exactly one separator, each a trimmed decimal number.
pub open spec fn sp_parse_resolution(s: Seq<char>) -> Option<(u32, u32)> {
    match sp_find(s, 0, 'x') {
        None => None,
        Some(p) => if sp_find(s, p + 1, 'x') is Some {
            None
        } else {
            match sp_trimmed_u32(s, 0, p) {
                None => None,
                Some(w) => match sp_trimmed_u32(s, p + 1, s.len() as int) {
                    None => None,
                    Some(h) => Some((w, h)),
                },
            }
        },
    }
}

/// Parse the probed resolution of a video stream, written as width and
/// height joined by an `x`.
pub fn parse_resolution(line: &str) -> (r: Option<(u32, u32)>)
    ensures
        r == sp_parse_resolution(line@),
{
    let chars = crate::sidecar::str_chars(line);
    let p = match find_char(&chars, 0, 'x') {
        Some(p) => p,
        None => {
            return None;
        },
    };
    match find_char(&chars, p + 1, 'x') {
        Some(_) => None,
        None => {
            let w = match parse_trimmed_u32(&chars, 0, p) {
                Some(w) => w,
                None => {
                    return None;
                },
            };
            let h = match parse_trimmed_u32(&chars, p + 1, chars.len()) {
                Some(h) => h,
                None => {
                    return None;
                },
            };
            Some((w, h))
        },
    }
}

// ---------------------------------------------------------------------
// Name classification
// ---------------------------------------------------------------------
/// ASCII lowercase of one character.
pub open spec fn lower_char(s: char) -> char {
    if 'A' <= s && s <= 'Z' {
        ((s as u32) + 32) as char
    } else {
        s
    }
}

/// ASCII lowercase of a character sequence.
pub open spec fn sp_lower(s: Seq<char>) -> Seq<char> {
    s.map_values(|c: char| lower_char(c))
}

/// Whether the pattern occurs somewhere in the sequence.
pub open spec fn sp_contains(hay: Seq<char>, needle: Seq<char>) -> bool {
    exists|i: int| sp_lit(hay, i, needle) is Some
}

/// Executable ASCII lowercase.
fn lower_chars(s: &Vec<char>) -> (r: Vec<char>)
    ensures
        r@ == sp_lower(s@),
{
    let mut out: Vec<char> = Vec::new();
    let mut i: usize = 0;
    while i < s.len()
        invariant
            i <= s@.len(),
            out@ == sp_lower(s@.take(i as int)),
        decreases s@.len() - i,
    {
        let c = s[i];
        let l: char = if c >= 'A' && c <= 'Z' {
            (((c as u8) + 32) as char)
        } else {
            c
        };
        proof {
            assert(l == lower_char(s@[i as int]));
        }
        out.push(l);
        proof {
            assert(out@ =~= sp_lower(s@.take(i + 1 as int)));
        }
        i = i + 1;
    }
    proof {
        assert(s@.take(s@.len() as int) =~= s@);
    }
    out
}

/// Executable substring search.
fn contains_pat(hay: &Vec<char>, needle: &str) -> (r: bool)
    ensures
        r == sp_contains(hay@, needle@),
{
    let n = needle.unicode_len();
    if n > hay.len() {
        proof {
            assert forall|i: int| sp_lit(hay@, i, needle@) is None by {}
        }
        return false;
    }
    if n == 0 {
        proof {
            assert(hay@.subrange(0, 0) =~= needle@);
            assert(sp_lit(hay@, 0, needle@) is Some);
        }
        return true;
    }
    let mut i: usize = 0;
    while i <= hay.len() - n
        invariant
            n == needle@.len(),
            1 <= n <= hay@.len(),
            i <= hay@.len() - n + 1,
            forall|j: int| 0 <= j < i ==> sp_lit(hay@, j, needle@) is None,
        decreases hay@.len() + 1 - n - i,
    {
        match crate::sidecar::match_lit(hay, i, needle) {
            Some(_) => {
                return true;
            },
            None => {},
        }
        i = i + 1;
    }
    proof {
        assert forall|j: int| sp_lit(hay@, j, needle@) is None by {
            if 0 <= j && j + needle@.len() <= hay@.len() {
                assert(j < i);
            }
        }
    }
    false
}

/// Whether a device name of a video listing names a screen rather than a
/// camera: its lowercase form mentions a screen, a display or a capture.
pub open spec fn sp_is_screen_name(name: Seq<char>) -> bool {
    sp_contains(sp_lower(name), "screen"@) || sp_contains(sp_lower(name), "display"@)
        || sp_contains(sp_lower(name), "capture"@)
}

/// Classify a video device name as a screen source.
pub fn is_screen_device_name(name: &str) -> (r: bool)
    ensures
        r == sp_is_screen_name(name@),
{
    let chars = crate::sidecar::str_chars(name);
    let lower = lower_chars(&chars);
    contains_pat(&lower, "screen") || contains_pat(&lower, "display") || contains_pat(
        &lower,
        "capture",
    )
}

/// Whether a device name of a video listing names a camera: its lowercase
/// form mentions neither a screen nor a display nor a screen capture.
pub open spec fn sp_is_camera_name(name: Seq<char>) -> bool {
    !sp_contains(sp_lower(name), "screen"@) && !sp_contains(sp_lower(name), "display"@)
        && !sp_contains(sp_lower(name), "capture screen"@)
}

/// Classify a video device name as a camera.
pub fn is_camera_device_name(name: &str) -> (r: bool)
    ensures
        r == sp_is_camera_name(name@),
{
    let chars = crate::sidecar::str_chars(name);
    let lower = lower_chars(&chars);
    !contains_pat(&lower, "screen") && !contains_pat(&lower, "display") && !contains_pat(
        &lower,
        "capture screen",
    )
}

// ---------------------------------------------------------------------
// Device id resolution
// ---------------------------------------------------------------------
/// Whether one of the listed device ids reads as the given text.
pub open spec fn has_device_id(ids: Seq<String>, id: Seq<char>) -> bool {
    exists|i: int| 0 <= i < ids.len() && ids[i]@ == id
}

/// A whole text read as a decimal index: non-empty, digits only.
pub open spec fn sp_parse_index(s: Seq<char>) -> Option<u64> {
    if s.len() > 0 && sp_digits_end(s, 0) == s.len() && sp_digits_val(s, 0, s.len() as int)
        <= u64::MAX {
        Some(sp_digits_val(s, 0, s.len() as int) as u64)
    } else {
        None
    }
}

/// What a screen request resolves to: the requested id where the listing
/// knows it, else the first listed screen, else the request unchanged.
pub open spec fn sp_resolve_screen(ids: Seq<String>, requested: Seq<char>) -> Seq<char> {
    if has_device_id(ids, requested) {
        requested
    } else if ids.len() > 0 {
        ids[0]@
    } else {
        requested
    }
}

/// What a camera request resolves to: the requested id where the listing
/// knows it, else the listed camera at the requested position where the
/// request is a plain index, else the first listed camera, else the request
/// unchanged.
pub open spec fn sp_resolve_camera(ids: Seq<String>, requested: Seq<char>) -> Seq<char> {
    if has_device_id(ids, requested) {
        requested
    } else {
        match sp_parse_index(requested) {
            Some(i) => if i < ids.len() {
                ids[i as int]@
            } else if ids.len() > 0 {
                ids[0]@
            } else {
                requested
            },
            None => if ids.len() > 0 {
                ids[0]@
            } else {
                requested
            },
        }
    }
}

/// The position of the requested id within the listing, if any.
fn find_device_id(ids: &Vec<String>, requested: &str) -> (r: Option<usize>)
    ensures
        match r {
            Some(i) => 0 <= i < ids@.len() && ids@[i as int]@ == requested@,
            None => !has_device_id(ids@, requested@),
        },
{
    let key: String = requested.to_owned();
    let mut i: usize = 0;
    while i < ids.len()
        invariant
            i <= ids@.len(),
            key@ == requested@,
            forall|j: int| 0 <= j < i ==> ids@[j]@ != requested@,
        decreases ids@.len() - i,
    {
        if ids[i].eq(&key) {
            return Some(i);
        }
        i = i + 1;
    }
    None
}

/// The whole text read as a decimal index, if it is one.
fn parse_index(s: &str) -> (r: Option<u64>)
    ensures
        r == sp_parse_index(s@),
{
    let chars = crate::sidecar::str_chars(s);
    if chars.len() == 0 {
        return None;
    }
    let mut k: usize = 0;
    let mut acc: u64 = 0;
    let mut fits: bool = true;
    while k < chars.len()
        invariant
            k <= chars@.len(),
            chars@ == s@,
            forall|m: int| 0 <= m < k ==> is_digit(#[trigger] s@[m]),
            sp_digits_end(s@, 0) == sp_digits_end(s@, k as int),
            fits ==> acc == sp_digits_val(s@, 0, k as int),
            !fits ==> sp_digits_val(s@, 0, k as int) > u64::MAX,
        decreases chars@.len() - k,
    {
        let c = chars[k];
        if !(c >= '0' && c <= '9') {
            proof {
                assert(sp_digits_end(s@, k as int) == k);
                assert(sp_digits_end(s@, 0) != s@.len());
            }
            return None;
        }
        let d: u64 = (c as u32 as u64) - 48;
        proof {
            assert(d == digit_val(s@[k as int]));
            assert(sp_digits_val(s@, 0, k + 1 as int) == sp_digits_val(s@, 0, k as int) * 10 + d);
            if !fits {
                crate::sidecar::lemma_digits_val_nonneg(s@, 0, k as int);
            }
        }
        if fits {
            match acc.checked_mul(10) {
                Some(m) => {
                    match m.checked_add(d) {
                        Some(a) => {
                            acc = a;
                        },
                        None => {
                            fits = false;
                        },
                    }
                },
                None => {
                    fits = false;
                },
            }
        }
        k = k + 1;
    }
    proof {
        assert(sp_digits_end(s@, k as int) == k);
    }
    if fits {
        Some(acc)
    } else {
        None
    }
}

/// Resolve a requested screen to a listed screen device id: an id the
/// listing knows is kept, anything else falls back to the first listed
/// screen, or stands unchanged when nothing was listed.
pub fn resolve_screen_index(ids: &Vec<String>, screen_id: &str) -> (r: String)
    ensures
        r@ == sp_resolve_screen(ids@, screen_id@),
{
    match find_device_id(ids, screen_id) {
        Some(_) => screen_id.to_owned(),
        None => {
            if ids.len() > 0 {
                ids[0].clone()
            } else {
                screen_id.to_owned()
            }
        },
    }
}

/// Resolve a requested camera to a listed camera device id: a known id is
/// kept, a plain index picks the camera at that position, and anything else
/// falls back to the first listed camera, or stands unchanged when nothing
/// was listed.
pub fn resolve_camera_index(ids: &Vec<String>, camera_id: &str) -> (r: String)
    ensures
        r@ == sp_resolve_camera(ids@, camera_id@),
{
    match find_device_id(ids, camera_id) {
        Some(_) => camera_id.to_owned(),
        None => {
            match parse_index(camera_id) {
                Some(i) => {
                    if i < ids.len() as u64 {
                        ids[i as usize].clone()
                    } else if ids.len() > 0 {
                        ids[0].clone()
                    } else {
                        camera_id.to_owned()
                    }
                },
                None => {
                    if ids.len() > 0 {
                        ids[0].clone()
                    } else {
                        camera_id.to_owned()
                    }
                },
            }
        },
    }
}

// ---------------------------------------------------------------------
// Window filtering
// ---------------------------------------------------------------------
/// Whether the owner is one of the system processes whose windows are never
/// offered for capture.
pub open spec fn sp_is_system_owner(owner: Seq<char>) -> bool {
    ||| owner == "Window Server"@
    ||| owner == "Dock"@
    ||| owner == "SystemUIServer"@
    ||| owner == "Control Center"@
    ||| owner == "Notification Center"@
    ||| owner == "Spotlight"@
    ||| owner == "loginwindow"@
    ||| owner == "AirPlayUIAgent"@
    ||| owner == "TextInputMenuAgent"@
    ||| owner == "universalAccessAuthWarn"@
}

/// Whether the owner is an application whose windows are offered even with
/// an empty title.
pub open spec fn sp_allows_empty_title(owner: Seq<char>) -> bool {
    ||| sp_contains(owner, "Finder"@)
    ||| sp_contains(owner, "Terminal"@)
    ||| sp_contains(owner, "iTerm2"@)
    ||| sp_contains(owner, "Visual Studio Code"@)
    ||| sp_contains(owner, "Cursor"@)
}

/// Whether a window is filtered out of the capturable list: anything not on
/// the normal layer, windows of system processes, and untitled windows of
/// applications not known to use them.
pub open spec fn sp_should_filter_window(owner: Seq<char>, title: Seq<char>, layer: int) -> bool {
    if layer != 0 {
        true
    } else if sp_is_system_owner(owner) {
        true
    } else if title.len() == 0 && !sp_allows_empty_title(owner) {
        true
    } else {
        false
    }
}

/// Executable string equality.
fn eq_str(a: &str, b: &str) -> (r: bool)
    ensures
        r == (a@ == b@),
{
    let n = a.unicode_len();
    if n != b.unicode_len() {
        return false;
    }
    let mut i: usize = 0;
    while i < n
        invariant
            i <= n,
            n == a@.len(),
            n == b@.len(),
            forall|j: int| 0 <= j < i ==> a@[j] == b@[j],
        decreases n - i,
    {
        if a.get_char(i) != b.get_char(i) {
            return false;
        }
        i = i + 1;
    }
    proof {
        assert(a@ =~= b@);
    }
    true
}

/// Decide whether an enumerated window is hidden from users: system-layer
/// and system-owned windows are dropped, and untitled windows are dropped
/// unless their application is known to use them.
pub fn should_filter_window(owner_name: &str, title: &str, layer: i32) -> (r: bool)
    ensures
        r == sp_should_filter_window(owner_name@, title@, layer as int),
{
    if layer != 0 {
        return true;
    }
    if eq_str(owner_name, "Window Server") || eq_str(owner_name, "Dock") || eq_str(
        owner_name,
        "SystemUIServer",
    ) || eq_str(owner_name, "Control Center") || eq_str(owner_name, "Notification Center")
        || eq_str(owner_name, "Spotlight") || eq_str(owner_name, "loginwindow") || eq_str(
        owner_name,
        "AirPlayUIAgent",
    ) || eq_str(owner_name, "TextInputMenuAgent") || eq_str(
        owner_name,
        "universalAccessAuthWarn",
    ) {
        return true;
    }
    if title.unicode_len() == 0 {
        let chars = crate::sidecar::str_chars(owner_name);
        if !(contains_pat(&chars, "Finder") || contains_pat(&chars, "Terminal") || contains_pat(
            &chars,
            "iTerm2",
        ) || contains_pat(&chars, "Visual Studio Code") || contains_pat(&chars, "Cursor")) {
            return true;
        }
    }
    false
}

/// Placeholder audio recorder: recording is carried out by the encoder
/// process, so this holds no state of its own.
pub struct AudioRecorder;

impl AudioRecorder {
    pub fn new() -> (r: Self) {
        AudioRecorder
    }
}

/// Placeholder camera recorder: the camera is captured by the caller's own
/// media pipeline and merged afterwards.
pub struct CameraRecorder;

impl CameraRecorder {
    pub fn new() -> (r: Self) {
        CameraRecorder
    }
}

/// Placeholder screen recorder: screen capture is carried out by the
/// encoder process driven by the recording session.
pub struct ScreenRecorder;

impl ScreenRecorder {
    pub fn new() -> (r: Self) {
        ScreenRecorder
    }
}

} // verus!
