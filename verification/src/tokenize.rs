//! The command-language tokenizer.
//!
//! A chat line is a sequence of tokens that must tile the whole line, with
//! only the grammar's optional whitespace between them: a joystick token
//! (optional integer strength percentage with `%`, a direction keyword,
//! optional duration), a button token (a button name from the capability
//! table, optional duration), or a delay token (a parenthesized duration,
//! or one of the shorthands `+`, `!`, `.`).  Matching is case-insensitive
//! for ASCII letters.  The grammar is driven by the capability table: the
//! recognised button names are exactly the table's buttons, and the
//! direction keywords are active only for the joysticks the table declares.
//!
//! Numeric fields are read with saturation at [`DIGIT_SAT`]: every
//! validation threshold downstream is far below the saturation point, so a
//! saturated value is rejected exactly like the full value would be.

use vstd::prelude::*;
use crate::caps::Capability;

verus! {

/// Saturation bound for numeric fields; far above every duration cap.
pub const DIGIT_SAT: u64 = 1_000_000_000;

/// Grammar whitespace: ASCII space, tab, line feed, vertical tab, form
/// feed, carriage return.
pub open spec fn is_ws(b: u8) -> bool {
    b == 32 || b == 9 || b == 10 || b == 11 || b == 12 || b == 13
}

/// ASCII decimal digit.
pub open spec fn is_digit(b: u8) -> bool {
    48 <= b && b <= 57
}

/// First position at or after `i` holding a non-whitespace byte (or the
/// end of the line).
pub open spec fn skip_ws(s: Seq<u8>, i: int) -> int
    decreases s.len() - i,
{
    if 0 <= i && i < s.len() && is_ws(s[i]) {
        skip_ws(s, i + 1)
    } else {
        i
    }
}

/// First position at or after `i` holding a non-digit byte (or the end of
/// the line).
pub open spec fn scan_digits(s: Seq<u8>, i: int) -> int
    decreases s.len() - i,
{
    if 0 <= i && i < s.len() && is_digit(s[i]) {
        scan_digits(s, i + 1)
    } else {
        i
    }
}

/// The decimal value of the digits `s[i..j)`, saturated at [`DIGIT_SAT`].
pub open spec fn digits_sat(s: Seq<u8>, i: int, j: int) -> int
    decreases j - i,
{
    if i >= j {
        0
    } else {
        let p = digits_sat(s, i, j - 1) * 10 + (s[j - 1] - 48);
        if p > DIGIT_SAT {
            DIGIT_SAT as int
        } else {
            p
        }
    }
}

/// Case-insensitive match of a single byte against a lower-case pattern
/// byte: equal, or the upper-case form of a letter.
pub open spec fn ci_eq(b: u8, a: u8) -> bool {
    b == a || (97 <= a && a <= 122 && b == a - 32)
}

/// The keyword `kw` (lower-case) matches at position `i`, ignoring ASCII
/// case.
pub open spec fn match_kw(s: Seq<u8>, i: int, kw: Seq<u8>) -> bool {
    &&& 0 <= i
    &&& i + kw.len() <= s.len()
    &&& forall|k: int| 0 <= k < kw.len() ==> ci_eq(s[i + k], #[trigger] kw[k])
}

pub proof fn lemma_skip_ws_range(s: Seq<u8>, i: int)
    requires
        0 <= i <= s.len(),
    ensures
        i <= skip_ws(s, i) <= s.len(),
        forall|p: int| i <= p < skip_ws(s, i) ==> is_ws(#[trigger] s[p]),
        skip_ws(s, i) < s.len() ==> !is_ws(s[skip_ws(s, i)]),
    decreases s.len() - i,
{
    if i < s.len() && is_ws(s[i]) {
        lemma_skip_ws_range(s, i + 1);
    }
}

pub proof fn lemma_scan_digits_range(s: Seq<u8>, i: int)
    requires
        0 <= i <= s.len(),
    ensures
        i <= scan_digits(s, i) <= s.len(),
        forall|p: int| i <= p < scan_digits(s, i) ==> is_digit(#[trigger] s[p]),
        scan_digits(s, i) < s.len() ==> !is_digit(s[scan_digits(s, i)]),
        i < s.len() && is_digit(s[i]) ==> scan_digits(s, i) > i,
    decreases s.len() - i,
{
    if i < s.len() && is_digit(s[i]) {
        lemma_scan_digits_range(s, i + 1);
    }
}

pub proof fn lemma_digits_sat_range(s: Seq<u8>, i: int, j: int)
    requires
        forall|p: int| i <= p < j ==> is_digit(#[trigger] s[p]),
    ensures
        0 <= digits_sat(s, i, j) <= DIGIT_SAT,
    decreases j - i,
{
    if i < j {
        lemma_digits_sat_range(s, i, j - 1);
    }
}

/// Advance past whitespace.
pub fn skip_ws_x(s: &[u8], i: usize) -> (r: usize)
    requires
        i <= s@.len(),
    ensures
        r == skip_ws(s@, i as int),
        i <= r <= s@.len(),
    decreases s@.len() - i,
{
    if i < s.len() {
        let b = s[i];
        if b == 32 || b == 9 || b == 10 || b == 11 || b == 12 || b == 13 {
            return skip_ws_x(s, i + 1);
        }
    }
    i
}

/// Advance past decimal digits.
pub fn scan_digits_x(s: &[u8], i: usize) -> (r: usize)
    requires
        i <= s@.len(),
    ensures
        r == scan_digits(s@, i as int),
        i <= r <= s@.len(),
    decreases s@.len() - i,
{
    if i < s.len() {
        let b = s[i];
        if 48 <= b && b <= 57 {
            return scan_digits_x(s, i + 1);
        }
    }
    i
}

/// Read the decimal value of the digit run `s[i..j)`, saturated.
pub fn digits_sat_x(s: &[u8], i: usize, j: usize) -> (r: u64)
    requires
        i <= j <= s@.len(),
        forall|p: int| i <= p < j ==> is_digit(#[trigger] s@[p]),
    ensures
        r == digits_sat(s@, i as int, j as int),
        r <= DIGIT_SAT,
    decreases j - i,
{
    proof {
        lemma_digits_sat_range(s@, i as int, j as int);
    }
    if i >= j {
        0
    } else {
        let p = digits_sat_x(s, i, j - 1);
        let d = s[j - 1] - 48;
        let q = p * 10 + (d as u64);
        if q > DIGIT_SAT {
            DIGIT_SAT
        } else {
            q
        }
    }
}

/// Case-insensitive keyword match at position `i`.
pub fn match_kw_x(s: &[u8], i: usize, kw: &[u8]) -> (r: bool)
    requires
        i <= s@.len(),
    ensures
        r == match_kw(s@, i as int, kw@),
{
    let slen = s.len();
    if kw.len() > slen - i {
        return false;
    }
    let n = kw.len();
    let mut k: usize = 0;
    while k < n
        invariant
            n == kw@.len(),
            slen == s@.len(),
            i + n <= slen,
            k <= n,
            forall|q: int| 0 <= q < k ==> ci_eq(s@[i + q], #[trigger] kw@[q]),
        decreases n - k,
    {
        let a = kw[k];
        let b = s[i + k];
        if !(b == a || (97 <= a && a <= 122 && b == a - 32)) {
            return false;
        }
        k = k + 1;
    }
    true
}

} // verus!

verus! {

/// One grammar token.
#[derive(Clone, Copy)]
pub enum Tok {
    /// A joystick vote: the joystick's index in the capability table, a
    /// direction in degrees, the written strength percentage (if any) and
    /// the written duration in milliseconds (if any), both saturated.
    Joy { stick: usize, direction_deg: u16, strength_sat: Option<u64>, duration_ms_sat: Option<u64> },
    /// A button vote: the button's index in the capability table and the
    /// written duration in milliseconds (if any), saturated.
    Btn { button: usize, duration_ms_sat: Option<u64> },
    /// An explicit parenthesized delay, in milliseconds, saturated.
    DelayMs { delay_ms_sat: u64 },
    /// `+`: one frame of delay.
    DelayFrame,
    /// `!`: wait for the previous command to finish, then one frame.
    DelayFinishFrame,
    /// `.`: wait for the previous command to finish, then a longer pause.
    DelayFinishDot,
}

pub open spec fn control_stick_name() -> Seq<u8> {
    seq![99u8, 111u8, 110u8, 116u8, 114u8, 111u8, 108u8, 95u8, 115u8, 116u8, 105u8, 99u8, 107u8]
}

pub open spec fn c_stick_name() -> Seq<u8> {
    seq![99u8, 95u8, 115u8, 116u8, 105u8, 99u8, 107u8]
}

pub open spec fn kw_cup() -> Seq<u8> {
    seq![99u8, 117u8, 112u8]
}

pub open spec fn kw_cdown() -> Seq<u8> {
    seq![99u8, 100u8, 111u8, 119u8, 110u8]
}

pub open spec fn kw_cleft() -> Seq<u8> {
    seq![99u8, 108u8, 101u8, 102u8, 116u8]
}

pub open spec fn kw_cright() -> Seq<u8> {
    seq![99u8, 114u8, 105u8, 103u8, 104u8, 116u8]
}

pub open spec fn kw_up() -> Seq<u8> {
    seq![117u8, 112u8]
}

pub open spec fn kw_down() -> Seq<u8> {
    seq![100u8, 111u8, 119u8, 110u8]
}

pub open spec fn kw_left() -> Seq<u8> {
    seq![108u8, 101u8, 102u8, 116u8]
}

pub open spec fn kw_right() -> Seq<u8> {
    seq![114u8, 105u8, 103u8, 104u8, 116u8]
}

/// An optional duration suffix after a joystick direction or button name:
/// optional whitespace, digits, and a unit (`s` or `ms`).  Returns the
/// duration in milliseconds (saturated) and the position after the suffix;
/// without a valid suffix the token ends at `p` itself.
pub open spec fn scan_duration(s: Seq<u8>, p: int) -> (Option<u64>, int) {
    let k = skip_ws(s, p);
    if k < s.len() && is_digit(s[k]) {
        let m = scan_digits(s, k);
        if m < s.len() && s[m] == 115 {
            (Some(((digits_sat(s, k, m) * 1000) as u64)), m + 1)
        } else if m + 1 < s.len() && s[m] == 109 && s[m + 1] == 115 {
            (Some((digits_sat(s, k, m) as u64)), m + 2)
        } else {
            (None, p)
        }
    } else {
        (None, p)
    }
}

/// A matched direction keyword of length `kwlen`, bound to the joystick
/// named `stick`: the token covers the keyword and an optional duration
/// suffix.  If the capability table has no such joystick the keyword is
/// not part of the grammar.
pub open spec fn joy_fin(
    s: Seq<u8>,
    caps: Capability,
    p: int,
    st: Option<u64>,
    kwlen: int,
    deg: u16,
    stick: Seq<u8>,
) -> Option<(Tok, int)> {
    match caps.spec_find_joystick(stick) {
        Option::None => None,
        Option::Some(j) => {
            let du = scan_duration(s, p + kwlen);
            Some(
                (
                    Tok::Joy {
                        stick: j as usize,
                        direction_deg: deg,
                        strength_sat: st,
                        duration_ms_sat: du.0,
                    },
                    du.1,
                ),
            )
        },
    }
}

/// A direction keyword at position `p`, with an already-read strength.
pub open spec fn dir_at(s: Seq<u8>, caps: Capability, p: int, st: Option<u64>) -> Option<
    (Tok, int),
> {
    if match_kw(s, p, kw_cup()) {
        joy_fin(s, caps, p, st, 3, 90, c_stick_name())
    } else if match_kw(s, p, kw_cdown()) {
        joy_fin(s, caps, p, st, 5, 270, c_stick_name())
    } else if match_kw(s, p, kw_cleft()) {
        joy_fin(s, caps, p, st, 5, 180, c_stick_name())
    } else if match_kw(s, p, kw_cright()) {
        joy_fin(s, caps, p, st, 6, 0, c_stick_name())
    } else if match_kw(s, p, kw_up()) {
        joy_fin(s, caps, p, st, 2, 90, control_stick_name())
    } else if match_kw(s, p, kw_down()) {
        joy_fin(s, caps, p, st, 4, 270, control_stick_name())
    } else if match_kw(s, p, kw_left()) {
        joy_fin(s, caps, p, st, 4, 180, control_stick_name())
    } else if match_kw(s, p, kw_right()) {
        joy_fin(s, caps, p, st, 5, 0, control_stick_name())
    } else {
        None
    }
}

/// A joystick token at position `i`: an optional strength percentage
/// (digits and `%`, then optional whitespace) followed by a direction
/// keyword and an optional duration.
pub open spec fn joy_at(s: Seq<u8>, caps: Capability, i: int) -> Option<(Tok, int)> {
    if 0 <= i && i < s.len() && is_digit(s[i]) {
        let j = scan_digits(s, i);
        if j < s.len() && s[j] == 37 {
            dir_at(s, caps, skip_ws(s, j + 1), Some(digits_sat(s, i, j) as u64))
        } else {
            None
        }
    } else {
        dir_at(s, caps, i, None)
    }
}

/// The button (by capability index) whose name matches at position `i`,
/// preferring the longest name, then the smallest index, considering only
/// buttons at positions `k` and later.
pub open spec fn best_button_from(s: Seq<u8>, caps: Capability, i: int, k: int) -> Option<int>
    decreases caps.buttons@.len() - k,
{
    if k < 0 || k >= caps.buttons@.len() {
        None
    } else {
        let rest = best_button_from(s, caps, i, k + 1);
        if !match_kw(s, i, caps.button_name(k)) {
            rest
        } else {
            match rest {
                Option::None => Some(k),
                Option::Some(m) => if caps.button_name(m).len() > caps.button_name(k).len() {
                    Some(m)
                } else {
                    Some(k)
                },
            }
        }
    }
}

pub proof fn lemma_best_button_props(s: Seq<u8>, caps: Capability, i: int, k: int)
    requires
        k >= 0,
    ensures
        match best_button_from(s, caps, i, k) {
            Option::Some(m) => k <= m < caps.buttons@.len() && match_kw(s, i, caps.button_name(m)),
            Option::None => true,
        },
    decreases caps.buttons@.len() - k,
{
    if 0 <= k < caps.buttons@.len() {
        lemma_best_button_props(s, caps, i, k + 1);
    }
}

/// A button token at position `i`: the longest matching button name,
/// then an optional duration suffix.
pub open spec fn btn_at(s: Seq<u8>, caps: Capability, i: int) -> Option<(Tok, int)> {
    match best_button_from(s, caps, i, 0) {
        Option::None => None,
        Option::Some(b) => {
            let du = scan_duration(s, i + caps.button_name(b).len());
            Some((Tok::Btn { button: b as usize, duration_ms_sat: du.0 }, du.1))
        },
    }
}

/// A delay token at position `i`: `(<digits>s)` or `(<digits>ms)`, with
/// no interior whitespace, or one of the one-byte shorthands.
pub open spec fn delay_at(s: Seq<u8>, i: int) -> Option<(Tok, int)> {
    if !(0 <= i && i < s.len()) {
        None
    } else if s[i] == 40 {
        let k = i + 1;
        if k < s.len() && is_digit(s[k]) {
            let m = scan_digits(s, k);
            let v = digits_sat(s, k, m);
            if m < s.len() && s[m] == 115 {
                if m + 1 < s.len() && s[m + 1] == 41 {
                    Some((Tok::DelayMs { delay_ms_sat: (v * 1000) as u64 }, m + 2))
                } else {
                    None
                }
            } else if m + 1 < s.len() && s[m] == 109 && s[m + 1] == 115 {
                if m + 2 < s.len() && s[m + 2] == 41 {
                    Some((Tok::DelayMs { delay_ms_sat: v as u64 }, m + 3))
                } else {
                    None
                }
            } else {
                None
            }
        } else {
            None
        }
    } else if s[i] == 43 {
        Some((Tok::DelayFrame, i + 1))
    } else if s[i] == 33 {
        Some((Tok::DelayFinishFrame, i + 1))
    } else if s[i] == 46 {
        Some((Tok::DelayFinishDot, i + 1))
    } else {
        None
    }
}

/// The token starting at position `i`: joystick tokens take precedence
/// over button tokens, which take precedence over delay tokens.
pub open spec fn token_at(s: Seq<u8>, caps: Capability, i: int) -> Option<(Tok, int)> {
    match joy_at(s, caps, i) {
        Option::Some(r) => Some(r),
        Option::None => match btn_at(s, caps, i) {
            Option::Some(r) => Some(r),
            Option::None => delay_at(s, i),
        },
    }
}

pub proof fn lemma_scan_duration_range(s: Seq<u8>, p: int)
    requires
        0 <= p <= s.len(),
    ensures
        p <= scan_duration(s, p).1 <= s.len(),
        scan_duration(s, p).0 is Some ==> scan_duration(s, p).1 > skip_ws(s, p),
{
    lemma_skip_ws_range(s, p);
    let k = skip_ws(s, p);
    if k < s.len() && is_digit(s[k]) {
        lemma_scan_digits_range(s, k);
    }
}

/// A matched direction token covers at least the keyword.
pub proof fn lemma_dir_progress(s: Seq<u8>, caps: Capability, p: int, st: Option<u64>)
    requires
        0 <= p <= s.len(),
    ensures
        match dir_at(s, caps, p, st) {
            Option::Some(r) => p < r.1 <= s.len(),
            Option::None => true,
        },
{
    if match_kw(s, p, kw_cup()) {
        lemma_scan_duration_range(s, p + 3);
    } else if match_kw(s, p, kw_cdown()) {
        lemma_scan_duration_range(s, p + 5);
    } else if match_kw(s, p, kw_cleft()) {
        lemma_scan_duration_range(s, p + 5);
    } else if match_kw(s, p, kw_cright()) {
        lemma_scan_duration_range(s, p + 6);
    } else if match_kw(s, p, kw_up()) {
        lemma_scan_duration_range(s, p + 2);
    } else if match_kw(s, p, kw_down()) {
        lemma_scan_duration_range(s, p + 4);
    } else if match_kw(s, p, kw_left()) {
        lemma_scan_duration_range(s, p + 4);
    } else if match_kw(s, p, kw_right()) {
        lemma_scan_duration_range(s, p + 5);
    }
}

pub proof fn lemma_joy_progress(s: Seq<u8>, caps: Capability, i: int)
    requires
        0 <= i <= s.len(),
    ensures
        match joy_at(s, caps, i) {
            Option::Some(r) => i < r.1 <= s.len(),
            Option::None => true,
        },
{
    if i < s.len() && is_digit(s[i]) {
        lemma_scan_digits_range(s, i);
        let j = scan_digits(s, i);
        if j < s.len() && s[j] == 37 {
            lemma_skip_ws_range(s, j + 1);
            let p0 = skip_ws(s, j + 1);
            lemma_dir_progress(s, caps, p0, Some(digits_sat(s, i, j) as u64));
        }
    } else {
        lemma_dir_progress(s, caps, i, None);
    }
}

pub proof fn lemma_btn_progress(s: Seq<u8>, caps: Capability, i: int)
    requires
        0 <= i <= s.len(),
        caps.wf(),
    ensures
        match btn_at(s, caps, i) {
            Option::Some(r) => i < r.1 <= s.len(),
            Option::None => true,
        },
{
    lemma_best_button_props(s, caps, i, 0);
    match best_button_from(s, caps, i, 0) {
        Option::Some(b) => {
            assert(caps.buttons@[b].max_duration_ms >= 0);
            assert(crate::caps::name_ok(caps.button_name(b)));
            lemma_scan_duration_range(s, i + caps.button_name(b).len());
        },
        Option::None => {},
    }
}

pub proof fn lemma_delay_progress(s: Seq<u8>, i: int)
    requires
        0 <= i <= s.len(),
    ensures
        match delay_at(s, i) {
            Option::Some(r) => i < r.1 <= s.len(),
            Option::None => true,
        },
{
    if i < s.len() && s[i] == 40 {
        lemma_scan_digits_range(s, i + 1);
    }
}

/// Every token covers at least one byte and ends within the line.
pub proof fn lemma_token_at_progress(s: Seq<u8>, caps: Capability, i: int)
    requires
        0 <= i <= s.len(),
        caps.wf(),
    ensures
        match token_at(s, caps, i) {
            Option::Some(r) => i < r.1 <= s.len(),
            Option::None => true,
        },
{
    lemma_joy_progress(s, caps, i);
    lemma_btn_progress(s, caps, i);
    lemma_delay_progress(s, i);
}

} // verus!

verus! {

/// The token sequence from position `i` to the end of the line, if tokens
/// tile it completely (whitespace between tokens allowed).
pub open spec fn tokenize_from(s: Seq<u8>, caps: Capability, i: int) -> Option<Seq<Tok>>
    decreases s.len() - i,
        when 0 <= i <= s.len() && caps.wf()
        via tokenize_from_dec
{
    let j = skip_ws(s, i);
    if j >= s.len() {
        Some(Seq::empty())
    } else {
        match token_at(s, caps, j) {
            Option::None => None,
            Option::Some(r) => match tokenize_from(s, caps, r.1) {
                Option::None => None,
                Option::Some(rest) => Some(seq![r.0] + rest),
            },
        }
    }
}

#[via_fn]
proof fn tokenize_from_dec(s: Seq<u8>, caps: Capability, i: int) {
    lemma_skip_ws_range(s, i);
    let j = skip_ws(s, i);
    if j < s.len() {
        lemma_token_at_progress(s, caps, j);
    }
}

/// The whole line as a token sequence: tokens must tile the line from its
/// first byte to its last, and a line without any token (empty, or only
/// whitespace) is not a command line.
pub open spec fn spec_tokenize(s: Seq<u8>, caps: Capability) -> Option<Seq<Tok>> {
    match tokenize_from(s, caps, 0) {
        Option::None => None,
        Option::Some(t) => if t.len() == 0 {
            None
        } else {
            Some(t)
        },
    }
}

pub open spec fn append_opt(pre: Seq<Tok>, tail: Option<Seq<Tok>>) -> Option<Seq<Tok>> {
    match tail {
        Option::None => None,
        Option::Some(t) => Some(pre + t),
    }
}

fn control_stick_name_x() -> (v: Vec<u8>)
    ensures
        v@ == control_stick_name(),
{
    let v: Vec<u8> = vec![99, 111, 110, 116, 114, 111, 108, 95, 115, 116, 105, 99, 107];
    proof {
        assert(v@ =~= control_stick_name());
    }
    v
}

fn c_stick_name_x() -> (v: Vec<u8>)
    ensures
        v@ == c_stick_name(),
{
    let v: Vec<u8> = vec![99, 95, 115, 116, 105, 99, 107];
    proof {
        assert(v@ =~= c_stick_name());
    }
    v
}

/// The duration suffix, if present, and the position after the token.
fn scan_duration_x(s: &[u8], p: usize) -> (r: (Option<u64>, usize))
    requires
        p <= s@.len(),
    ensures
        r.0 == scan_duration(s@, p as int).0,
        r.1 == scan_duration(s@, p as int).1,
        p <= r.1 <= s@.len(),
{
    proof {
        lemma_skip_ws_range(s@, p as int);
    }
    let k = skip_ws_x(s, p);
    if k < s.len() && 48 <= s[k] && s[k] <= 57 {
        let m = scan_digits_x(s, k);
        proof {
            lemma_scan_digits_range(s@, k as int);
        }
        if m < s.len() && s[m] == 115 {
            let v = digits_sat_x(s, k, m);
            (Some(v * 1000), m + 1)
        } else if m < s.len() && s[m] == 109 && m + 1 < s.len() && s[m + 1] == 115 {
            let v = digits_sat_x(s, k, m);
            (Some(v), m + 2)
        } else {
            (None, p)
        }
    } else {
        (None, p)
    }
}

/// Finish a joystick token whose direction keyword has matched.
fn joy_fin_x(
    s: &[u8],
    caps: &Capability,
    p: usize,
    st: Option<u64>,
    kwlen: usize,
    deg: u16,
    c_stick: bool,
) -> (r: Option<(Tok, usize)>)
    requires
        p + kwlen <= s@.len(),
    ensures
        ({
            let name = if c_stick {
                c_stick_name()
            } else {
                control_stick_name()
            };
            match r {
                Option::Some(t) => joy_fin(s@, *caps, p as int, st, kwlen as int, deg, name)
                    == Some((t.0, t.1 as int)),
                Option::None => joy_fin(s@, *caps, p as int, st, kwlen as int, deg, name) is None,
            }
        }),
{
    let slen = s.len();
    proof {
        assert(p + kwlen <= slen);
    }
    let name: Vec<u8> = if c_stick {
        c_stick_name_x()
    } else {
        control_stick_name_x()
    };
    match caps.find_joystick(name.as_slice()) {
        Option::None => None,
        Option::Some(j) => {
            let du = scan_duration_x(s, p + kwlen);
            Some(
                (
                    Tok::Joy {
                        stick: j,
                        direction_deg: deg,
                        strength_sat: st,
                        duration_ms_sat: du.0,
                    },
                    du.1,
                ),
            )
        },
    }
}

/// A direction keyword at `p`, tried in a fixed order; at most one can
/// match since the keywords' leading bytes differ.
fn dir_at_x(s: &[u8], caps: &Capability, p: usize, st: Option<u64>) -> (r: Option<(Tok, usize)>)
    requires
        p <= s@.len(),
    ensures
        match r {
            Option::Some(t) => dir_at(s@, *caps, p as int, st) == Some((t.0, t.1 as int)),
            Option::None => dir_at(s@, *caps, p as int, st) is None,
        },
{
    let kcup: Vec<u8> = vec![99, 117, 112];
    let kcdown: Vec<u8> = vec![99, 100, 111, 119, 110];
    let kcleft: Vec<u8> = vec![99, 108, 101, 102, 116];
    let kcright: Vec<u8> = vec![99, 114, 105, 103, 104, 116];
    let kup: Vec<u8> = vec![117, 112];
    let kdown: Vec<u8> = vec![100, 111, 119, 110];
    let kleft: Vec<u8> = vec![108, 101, 102, 116];
    let kright: Vec<u8> = vec![114, 105, 103, 104, 116];
    proof {
        assert(kcup@ =~= kw_cup());
        assert(kcdown@ =~= kw_cdown());
        assert(kcleft@ =~= kw_cleft());
        assert(kcright@ =~= kw_cright());
        assert(kup@ =~= kw_up());
        assert(kdown@ =~= kw_down());
        assert(kleft@ =~= kw_left());
        assert(kright@ =~= kw_right());
    }
    if match_kw_x(s, p, kcup.as_slice()) {
        joy_fin_x(s, caps, p, st, 3, 90, true)
    } else if match_kw_x(s, p, kcdown.as_slice()) {
        joy_fin_x(s, caps, p, st, 5, 270, true)
    } else if match_kw_x(s, p, kcleft.as_slice()) {
        joy_fin_x(s, caps, p, st, 5, 180, true)
    } else if match_kw_x(s, p, kcright.as_slice()) {
        joy_fin_x(s, caps, p, st, 6, 0, true)
    } else if match_kw_x(s, p, kup.as_slice()) {
        joy_fin_x(s, caps, p, st, 2, 90, false)
    } else if match_kw_x(s, p, kdown.as_slice()) {
        joy_fin_x(s, caps, p, st, 4, 270, false)
    } else if match_kw_x(s, p, kleft.as_slice()) {
        joy_fin_x(s, caps, p, st, 4, 180, false)
    } else if match_kw_x(s, p, kright.as_slice()) {
        joy_fin_x(s, caps, p, st, 5, 0, false)
    } else {
        None
    }
}

/// A joystick token at `i`.
fn joy_at_x(s: &[u8], caps: &Capability, i: usize) -> (r: Option<(Tok, usize)>)
    requires
        i <= s@.len(),
    ensures
        match r {
            Option::Some(t) => joy_at(s@, *caps, i as int) == Some((t.0, t.1 as int)),
            Option::None => joy_at(s@, *caps, i as int) is None,
        },
{
    if i < s.len() && 48 <= s[i] && s[i] <= 57 {
        let j = scan_digits_x(s, i);
        proof {
            lemma_scan_digits_range(s@, i as int);
        }
        if j < s.len() && s[j] == 37 {
            let st = digits_sat_x(s, i, j);
            let p0 = skip_ws_x(s, j + 1);
            dir_at_x(s, caps, p0, Some(st))
        } else {
            None
        }
    } else {
        dir_at_x(s, caps, i, None)
    }
}

/// The longest button name matching at `i`, smallest capability index on
/// ties.
fn best_button_x(s: &[u8], caps: &Capability, i: usize) -> (r: Option<usize>)
    requires
        i <= s@.len(),
    ensures
        match r {
            Option::Some(b) => b < caps.buttons@.len() && best_button_from(s@, *caps, i as int, 0)
                == Some(b as int),
            Option::None => best_button_from(s@, *caps, i as int, 0) is None,
        },
{
    let n = caps.buttons.len();
    let mut k = n;
    let mut best: Option<usize> = None;
    while k > 0
        invariant
            n == caps.buttons@.len(),
            i <= s@.len(),
            k <= n,
            match best {
                Option::Some(b) => b < n && best_button_from(s@, *caps, i as int, k as int)
                    == Some(b as int),
                Option::None => best_button_from(s@, *caps, i as int, k as int) is None,
            },
        decreases k,
    {
        k = k - 1;
        if match_kw_x(s, i, caps.buttons[k].name.as_slice()) {
            best = match best {
                Option::None => Some(k),
                Option::Some(m) => {
                    if caps.buttons[m].name.len() > caps.buttons[k].name.len() {
                        Some(m)
                    } else {
                        Some(k)
                    }
                },
            };
        }
    }
    best
}

/// A button token at `i`.
fn btn_at_x(s: &[u8], caps: &Capability, i: usize) -> (r: Option<(Tok, usize)>)
    requires
        i <= s@.len(),
    ensures
        match r {
            Option::Some(t) => btn_at(s@, *caps, i as int) == Some((t.0, t.1 as int)),
            Option::None => btn_at(s@, *caps, i as int) is None,
        },
{
    match best_button_x(s, caps, i) {
        Option::None => None,
        Option::Some(b) => {
            proof {
                lemma_best_button_props(s@, *caps, i as int, 0);
            }
            let slen = s.len();
            let namelen = caps.buttons[b].name.len();
            proof {
                assert(i + namelen <= slen);
            }
            let du = scan_duration_x(s, i + namelen);
            Some((Tok::Btn { button: b, duration_ms_sat: du.0 }, du.1))
        },
    }
}

/// A delay token at `i`.
fn delay_at_x(s: &[u8], i: usize) -> (r: Option<(Tok, usize)>)
    requires
        i <= s@.len(),
    ensures
        match r {
            Option::Some(t) => delay_at(s@, i as int) == Some((t.0, t.1 as int)),
            Option::None => delay_at(s@, i as int) is None,
        },
{
    if i >= s.len() {
        return None;
    }
    let b0 = s[i];
    if b0 == 40 {
        let k = i + 1;
        if k < s.len() && 48 <= s[k] && s[k] <= 57 {
            let m = scan_digits_x(s, k);
            proof {
                lemma_scan_digits_range(s@, k as int);
            }
            if m < s.len() && s[m] == 115 {
                if m + 1 < s.len() && s[m + 1] == 41 {
                    let v = digits_sat_x(s, k, m);
                    Some((Tok::DelayMs { delay_ms_sat: v * 1000 }, m + 2))
                } else {
                    None
                }
            } else if m < s.len() && s[m] == 109 && m + 1 < s.len() && s[m + 1] == 115 {
                if m + 2 < s.len() && s[m + 2] == 41 {
                    let v = digits_sat_x(s, k, m);
                    Some((Tok::DelayMs { delay_ms_sat: v }, m + 3))
                } else {
                    None
                }
            } else {
                None
            }
        } else {
            None
        }
    } else if b0 == 43 {
        Some((Tok::DelayFrame, i + 1))
    } else if b0 == 33 {
        Some((Tok::DelayFinishFrame, i + 1))
    } else if b0 == 46 {
        Some((Tok::DelayFinishDot, i + 1))
    } else {
        None
    }
}

/// The token starting at `i`, if any.
fn token_at_x(s: &[u8], caps: &Capability, i: usize) -> (r: Option<(Tok, usize)>)
    requires
        i <= s@.len(),
        caps.wf(),
    ensures
        match r {
            Option::Some(t) => token_at(s@, *caps, i as int) == Some((t.0, t.1 as int)) && i < t.1
                <= s@.len(),
            Option::None => token_at(s@, *caps, i as int) is None,
        },
{
    proof {
        lemma_token_at_progress(s@, *caps, i as int);
    }
    match joy_at_x(s, caps, i) {
        Option::Some(r) => Some(r),
        Option::None => match btn_at_x(s, caps, i) {
            Option::Some(r) => Some(r),
            Option::None => delay_at_x(s, i),
        },
    }
}

/// Split a line into grammar tokens.  Returns `None` unless the tokens
/// tile the whole line, from its first byte to its last, with only
/// whitespace between them, and at least one token was found.
pub fn tokenize(s: &[u8], caps: &Capability) -> (r: Option<Vec<Tok>>)
    requires
        caps.wf(),
    ensures
        match r {
            Option::Some(v) => spec_tokenize(s@, *caps) == Some(v@),
            Option::None => spec_tokenize(s@, *caps) is None,
        },
{
    let mut toks: Vec<Tok> = Vec::new();
    let mut i: usize = 0;
    let mut ok = true;
    proof {
        match tokenize_from(s@, *caps, 0) {
            Option::None => {},
            Option::Some(t) => {
                assert(Seq::<Tok>::empty() + t =~= t);
            },
        }
    }
    loop
        invariant_except_break
            caps.wf(),
            i <= s@.len(),
            ok,
            tokenize_from(s@, *caps, 0) == append_opt(toks@, tokenize_from(s@, *caps, i as int)),
        ensures
            ok ==> tokenize_from(s@, *caps, 0) == Some(toks@),
            !ok ==> tokenize_from(s@, *caps, 0) is None,
        decreases s@.len() - i,
    {
        proof {
            lemma_skip_ws_range(s@, i as int);
        }
        let j = skip_ws_x(s, i);
        if j >= s.len() {
            proof {
                assert(tokenize_from(s@, *caps, i as int) == Some(Seq::<Tok>::empty()));
                assert(toks@ + Seq::<Tok>::empty() =~= toks@);
            }
            break;
        }
        match token_at_x(s, caps, j) {
            Option::None => {
                ok = false;
                proof {
                    assert(tokenize_from(s@, *caps, i as int) is None);
                }
                break;
            },
            Option::Some((t, end)) => {
                proof {
                    let ghost old_toks = toks@;
                    match tokenize_from(s@, *caps, end as int) {
                        Option::None => {},
                        Option::Some(rest) => {
                            assert(old_toks + (seq![t] + rest) =~= (old_toks + seq![t]) + rest);
                        },
                    }
                }
                let ghost old_toks = toks@;
                toks.push(t);
                proof {
                    assert(toks@ =~= old_toks + seq![t]);
                }
                i = end;
            },
        }
    }
    if ok {
        if toks.len() == 0 {
            None
        } else {
            Some(toks)
        }
    } else {
        None
    }
}

} // verus!

verus! {

/// A token's references and numeric fields are sound with respect to the
/// capability table: indices in range, directions cardinal, numbers
/// within the saturation bound.
pub open spec fn tok_wf(t: Tok, caps: Capability) -> bool {
    match t {
        Tok::Joy { stick, direction_deg, strength_sat, duration_ms_sat } => {
            &&& (stick as int) < caps.joysticks@.len()
            &&& (direction_deg == 0 || direction_deg == 90 || direction_deg == 180
                || direction_deg == 270)
            &&& match strength_sat {
                Option::None => true,
                Option::Some(v) => v <= DIGIT_SAT,
            }
            &&& match duration_ms_sat {
                Option::None => true,
                Option::Some(v) => v <= DIGIT_SAT * 1000,
            }
        },
        Tok::Btn { button, duration_ms_sat } => {
            &&& (button as int) < caps.buttons@.len()
            &&& match duration_ms_sat {
                Option::None => true,
                Option::Some(v) => v <= DIGIT_SAT * 1000,
            }
        },
        Tok::DelayMs { delay_ms_sat } => delay_ms_sat <= DIGIT_SAT * 1000,
        Tok::DelayFrame => true,
        Tok::DelayFinishFrame => true,
        Tok::DelayFinishDot => true,
    }
}

pub proof fn lemma_scan_duration_wf(s: Seq<u8>, p: int)
    requires
        0 <= p <= s.len(),
    ensures
        match scan_duration(s, p).0 {
            Option::Some(v) => v <= DIGIT_SAT * 1000,
            Option::None => true,
        },
{
    lemma_skip_ws_range(s, p);
    let k = skip_ws(s, p);
    if k < s.len() && is_digit(s[k]) {
        lemma_scan_digits_range(s, k);
        let m = scan_digits(s, k);
        lemma_digits_sat_range(s, k, m);
    }
}

pub proof fn lemma_dir_wf(s: Seq<u8>, caps: Capability, p: int, st: Option<u64>)
    requires
        0 <= p <= s.len(),
        match st {
            Option::Some(v) => v <= DIGIT_SAT,
            Option::None => true,
        },
    ensures
        match dir_at(s, caps, p, st) {
            Option::Some(r) => tok_wf(r.0, caps),
            Option::None => true,
        },
{
    crate::caps::lemma_name_index_from_range(
        caps.joysticks@.map(|i: int, j: crate::caps::JoystickDef| j.name@),
        c_stick_name(),
        0,
    );
    crate::caps::lemma_name_index_from_range(
        caps.joysticks@.map(|i: int, j: crate::caps::JoystickDef| j.name@),
        control_stick_name(),
        0,
    );
    if match_kw(s, p, kw_cup()) {
        lemma_scan_duration_wf(s, p + 3);
    } else if match_kw(s, p, kw_cdown()) {
        lemma_scan_duration_wf(s, p + 5);
    } else if match_kw(s, p, kw_cleft()) {
        lemma_scan_duration_wf(s, p + 5);
    } else if match_kw(s, p, kw_cright()) {
        lemma_scan_duration_wf(s, p + 6);
    } else if match_kw(s, p, kw_up()) {
        lemma_scan_duration_wf(s, p + 2);
    } else if match_kw(s, p, kw_down()) {
        lemma_scan_duration_wf(s, p + 4);
    } else if match_kw(s, p, kw_left()) {
        lemma_scan_duration_wf(s, p + 4);
    } else if match_kw(s, p, kw_right()) {
        lemma_scan_duration_wf(s, p + 5);
    }
}

pub proof fn lemma_token_at_wf(s: Seq<u8>, caps: Capability, i: int)
    requires
        0 <= i <= s.len(),
    ensures
        match token_at(s, caps, i) {
            Option::Some(r) => tok_wf(r.0, caps),
            Option::None => true,
        },
{
    if i < s.len() && is_digit(s[i]) {
        lemma_scan_digits_range(s, i);
        let j = scan_digits(s, i);
        if j < s.len() && s[j] == 37 {
            lemma_digits_sat_range(s, i, j);
            lemma_skip_ws_range(s, j + 1);
            lemma_dir_wf(s, caps, skip_ws(s, j + 1), Some(digits_sat(s, i, j) as u64));
        }
    } else {
        lemma_dir_wf(s, caps, i, None);
    }
    lemma_best_button_props(s, caps, i, 0);
    match best_button_from(s, caps, i, 0) {
        Option::Some(b) => {
            lemma_scan_duration_wf(s, i + caps.button_name(b).len());
        },
        Option::None => {},
    }
    if 0 <= i < s.len() && s[i] == 40 {
        lemma_scan_digits_range(s, i + 1);
        let m = scan_digits(s, i + 1);
        lemma_digits_sat_range(s, i + 1, m);
    }
}

/// Every token of a tokenized line is well formed.
pub proof fn lemma_tokenize_from_wf(s: Seq<u8>, caps: Capability, i: int)
    requires
        0 <= i <= s.len(),
        caps.wf(),
    ensures
        match tokenize_from(s, caps, i) {
            Option::Some(toks) => forall|k: int|
                0 <= k < toks.len() ==> tok_wf(#[trigger] toks[k], caps),
            Option::None => true,
        },
    decreases s.len() - i,
{
    lemma_skip_ws_range(s, i);
    let j = skip_ws(s, i);
    if j < s.len() {
        lemma_token_at_progress(s, caps, j);
        lemma_token_at_wf(s, caps, j);
        match token_at(s, caps, j) {
            Option::Some(r) => {
                lemma_tokenize_from_wf(s, caps, r.1);
            },
            Option::None => {},
        }
    }
}

} // verus!

verus! {

/// Position `p` lies inside one of the tokens of the tiling that starts
/// at position `i`.
pub open spec fn in_token(s: Seq<u8>, caps: Capability, i: int, p: int) -> bool
    decreases s.len() - i,
        when 0 <= i <= s.len() && caps.wf()
        via in_token_dec
{
    let j = skip_ws(s, i);
    if j >= s.len() {
        false
    } else {
        match token_at(s, caps, j) {
            Option::None => false,
            Option::Some(r) => (j <= p < r.1) || in_token(s, caps, r.1, p),
        }
    }
}

#[via_fn]
proof fn in_token_dec(s: Seq<u8>, caps: Capability, i: int, p: int) {
    lemma_skip_ws_range(s, i);
    let j = skip_ws(s, i);
    if j < s.len() {
        lemma_token_at_progress(s, caps, j);
    }
}

/// Complete tiling of accepted lines: on a line the tokenizer accepts,
/// every byte that is not grammar whitespace lies inside one of the
/// matched tokens.  A line with any unmatched byte, or with matches that
/// do not reach from the first byte to the last, is rejected as a whole.
pub proof fn lemma_accepted_line_is_tiled(s: Seq<u8>, caps: Capability, p: int)
    requires
        caps.wf(),
        spec_tokenize(s, caps) is Some,
        0 <= p < s.len(),
        !is_ws(s[p]),
    ensures
        in_token(s, caps, 0, p),
{
    lemma_tiled_from(s, caps, 0, p);
}

proof fn lemma_tiled_from(s: Seq<u8>, caps: Capability, i: int, p: int)
    requires
        caps.wf(),
        0 <= i <= s.len(),
        tokenize_from(s, caps, i) is Some,
        i <= p < s.len(),
        !is_ws(s[p]),
    ensures
        in_token(s, caps, i, p),
    decreases s.len() - i,
{
    lemma_skip_ws_range(s, i);
    let j = skip_ws(s, i);
    assert(p >= j);
    lemma_token_at_progress(s, caps, j);
    match token_at(s, caps, j) {
        Option::None => {},
        Option::Some(r) => {
            if p >= r.1 {
                lemma_tiled_from(s, caps, r.1, p);
            }
        },
    }
}

} // verus!
