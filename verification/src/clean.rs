//! Canonical volume filename cleaning: parenthesized groups are removed,
//! whitespace runs collapse, `v12_13`-style underscore tails are dropped,
//! and the volume marker `v<n>` is normalized (optionally zero-padded),
//! with the title re-assembled around it.

use vstd::prelude::*;

use crate::names::{dot_ext_of, split_name, stem_of};
use crate::text::{chars_of, dec, string_of, u64_string};

verus! {

/// Unicode whitespace, as filenames carry it.
pub open spec fn is_ws(c: char) -> bool {
    ||| c == ' '
    ||| c == '\t'
    ||| c == '\n'
    ||| c == '\u{0B}'
    ||| c == '\u{0C}'
    ||| c == '\r'
    ||| c == '\u{85}'
    ||| c == '\u{A0}'
    ||| c == '\u{1680}'
    ||| ('\u{2000}' <= c && c <= '\u{200A}')
    ||| c == '\u{2028}'
    ||| c == '\u{2029}'
    ||| c == '\u{202F}'
    ||| c == '\u{205F}'
    ||| c == '\u{3000}'
}

fn is_ws_exec(c: char) -> (r: bool)
    ensures
        r == is_ws(c),
{
    c == ' ' || c == '\t' || c == '\n' || c == '\u{0B}' || c == '\u{0C}' || c == '\r' || c
        == '\u{85}' || c == '\u{A0}' || c == '\u{1680}' || ('\u{2000}' <= c && c <= '\u{200A}')
        || c == '\u{2028}' || c == '\u{2029}' || c == '\u{202F}' || c == '\u{205F}' || c
        == '\u{3000}'
}

/// An ASCII decimal digit.
pub open spec fn is_digit(c: char) -> bool {
    '0' <= c && c <= '9'
}

/// A word character, for the volume marker's word boundary.
pub open spec fn is_word(c: char) -> bool {
    ('a' <= c && c <= 'z') || ('A' <= c && c <= 'Z') || is_digit(c) || c == '_'
}

/// End of the whitespace run starting at `i`.
pub open spec fn ws_end(s: Seq<char>, i: int) -> int
    decreases s.len() - i,
{
    if i >= s.len() {
        s.len() as int
    } else if !is_ws(s[i]) {
        i
    } else {
        ws_end(s, i + 1)
    }
}

pub proof fn lemma_ws_end_bounds(s: Seq<char>, i: int)
    requires
        0 <= i,
    ensures
        ws_end(s, i) <= s.len(),
        i <= s.len() ==> i <= ws_end(s, i),
    decreases s.len() - i,
{
    if i < s.len() && is_ws(s[i]) {
        lemma_ws_end_bounds(s, i + 1);
    }
}

/// Position of the first `c` at or after `i`, or the length if none.
pub open spec fn next_ch(s: Seq<char>, i: int, c: char) -> int
    decreases s.len() - i,
{
    if i >= s.len() {
        s.len() as int
    } else if s[i] == c {
        i
    } else {
        next_ch(s, i + 1, c)
    }
}

pub proof fn lemma_next_ch_bounds(s: Seq<char>, i: int, c: char)
    requires
        0 <= i,
    ensures
        next_ch(s, i, c) <= s.len(),
        i <= s.len() ==> i <= next_ch(s, i, c),
    decreases s.len() - i,
{
    if i < s.len() && s[i] != c {
        lemma_next_ch_bounds(s, i + 1, c);
    }
}

/// End of the digit run starting at `i`.
pub open spec fn digit_end(s: Seq<char>, i: int) -> int
    decreases s.len() - i,
{
    if i >= s.len() {
        s.len() as int
    } else if !is_digit(s[i]) {
        i
    } else {
        digit_end(s, i + 1)
    }
}

pub proof fn lemma_digit_end_bounds(s: Seq<char>, i: int)
    requires
        0 <= i,
    ensures
        digit_end(s, i) <= s.len(),
        i <= s.len() ==> i <= digit_end(s, i),
    decreases s.len() - i,
{
    if i < s.len() && is_digit(s[i]) {
        lemma_digit_end_bounds(s, i + 1);
    }
}

/// The text with every (whitespace-prefixed) parenthesized group removed:
/// at each position, a whitespace run followed by `(` with a matching `)`
/// later is dropped whole, and scanning resumes after the `)`.
pub open spec fn strip_parens_from(s: Seq<char>, i: int) -> Seq<char>
    decreases s.len() - i,
    via strip_parens_decreases
{
    if i < 0 || i >= s.len() {
        Seq::empty()
    } else {
        let k = ws_end(s, i);
        if k < s.len() && s[k] == '(' && next_ch(s, k + 1, ')') < s.len() {
            strip_parens_from(s, next_ch(s, k + 1, ')') + 1)
        } else {
            seq![s[i]] + strip_parens_from(s, i + 1)
        }
    }
}

#[via_fn]
proof fn strip_parens_decreases(s: Seq<char>, i: int) {
    if 0 <= i < s.len() {
        lemma_ws_end_bounds(s, i);
        let k = ws_end(s, i);
        if k < s.len() && s[k] == '(' {
            lemma_next_ch_bounds(s, k + 1, ')');
        }
    }
}

/// Position after the last non-whitespace character.
pub open spec fn rtrim_end(s: Seq<char>) -> int
    decreases s.len(),
{
    if s.len() == 0 {
        0
    } else if is_ws(s.last()) {
        rtrim_end(s.drop_last())
    } else {
        s.len() as int
    }
}

pub proof fn lemma_rtrim_bounds(s: Seq<char>)
    ensures
        0 <= rtrim_end(s) <= s.len(),
    decreases s.len(),
{
    if s.len() > 0 && is_ws(s.last()) {
        lemma_rtrim_bounds(s.drop_last());
    }
}

/// Whitespace trimmed from both ends.
pub open spec fn trim_ws(s: Seq<char>) -> Seq<char> {
    if ws_end(s, 0) >= rtrim_end(s) {
        Seq::empty()
    } else {
        s.subrange(ws_end(s, 0), rtrim_end(s))
    }
}

/// Each run of two or more whitespace characters becomes a single space;
/// lone whitespace characters stay as they are.
pub open spec fn collapse_from(s: Seq<char>, i: int) -> Seq<char>
    decreases s.len() - i,
    via collapse_decreases
{
    if i < 0 || i >= s.len() {
        Seq::empty()
    } else if is_ws(s[i]) && i + 1 < s.len() && is_ws(s[i + 1]) {
        seq![' '] + collapse_from(s, ws_end(s, i))
    } else {
        seq![s[i]] + collapse_from(s, i + 1)
    }
}

#[via_fn]
proof fn collapse_decreases(s: Seq<char>, i: int) {
    if 0 <= i < s.len() && is_ws(s[i]) && i + 1 < s.len() && is_ws(s[i + 1]) {
        lemma_ws_end_bounds(s, i + 2);
        assert(ws_end(s, i) == ws_end(s, i + 1));
        assert(ws_end(s, i + 1) == ws_end(s, i + 2));
    }
}

/// End of the underscore-digit groups (`_12_034...`) starting at `j`.
pub open spec fn groups_end(s: Seq<char>, j: int) -> int
    decreases s.len() - j,
    via groups_decreases
{
    if j < 0 || j >= s.len() {
        if j < 0 {
            0
        } else {
            s.len() as int
        }
    } else if s[j] == '_' && digit_end(s, j + 1) > j + 1 {
        groups_end(s, digit_end(s, j + 1))
    } else {
        j
    }
}

#[via_fn]
proof fn groups_decreases(s: Seq<char>, j: int) {
    if 0 <= j < s.len() && s[j] == '_' {
        lemma_digit_end_bounds(s, j + 1);
    }
}

pub proof fn lemma_groups_end_bounds(s: Seq<char>, j: int)
    requires
        0 <= j,
    ensures
        groups_end(s, j) <= s.len(),
        j <= s.len() ==> j <= groups_end(s, j),
    decreases s.len() - j,
{
    if j < s.len() && s[j] == '_' && digit_end(s, j + 1) > j + 1 {
        lemma_digit_end_bounds(s, j + 1);
        lemma_groups_end_bounds(s, digit_end(s, j + 1));
    }
}

/// Whether a `v<digits>` marker followed by at least one `_<digits>` group
/// starts at `i`; such tails are dropped, keeping the `v<digits>` part.
pub open spec fn v_groups_at(s: Seq<char>, i: int) -> bool {
    &&& 0 <= i < s.len()
    &&& s[i] == 'v'
    &&& digit_end(s, ws_end(s, i + 1)) > ws_end(s, i + 1)
    &&& groups_end(s, digit_end(s, ws_end(s, i + 1))) > digit_end(s, ws_end(s, i + 1))
}

/// The text with every `v<digits>(_<digits>)+` tail reduced to `v<digits>`.
pub open spec fn strip_v_groups_from(s: Seq<char>, i: int) -> Seq<char>
    decreases s.len() - i,
    via strip_v_groups_decreases
{
    if i < 0 || i >= s.len() {
        Seq::empty()
    } else if v_groups_at(s, i) {
        let d = digit_end(s, ws_end(s, i + 1));
        s.subrange(i, d) + strip_v_groups_from(s, groups_end(s, d))
    } else {
        seq![s[i]] + strip_v_groups_from(s, i + 1)
    }
}

#[via_fn]
proof fn strip_v_groups_decreases(s: Seq<char>, i: int) {
    if 0 <= i < s.len() && v_groups_at(s, i) {
        lemma_ws_end_bounds(s, i + 1);
        lemma_digit_end_bounds(s, ws_end(s, i + 1));
        lemma_groups_end_bounds(s, digit_end(s, ws_end(s, i + 1)));
    }
}

/// A volume marker at `p`: a `v` on a word boundary followed by optional
/// whitespace and at least one digit.
pub open spec fn vol_match_at(s: Seq<char>, p: int) -> bool {
    &&& 0 <= p < s.len()
    &&& s[p] == 'v'
    &&& (p == 0 || !is_word(s[p - 1]))
    &&& digit_end(s, ws_end(s, p + 1)) > ws_end(s, p + 1)
}

/// The first volume marker at or after `i`, or the length if none.
pub open spec fn find_vol(s: Seq<char>, i: int) -> int
    decreases s.len() - i,
{
    if i < 0 || i >= s.len() {
        s.len() as int
    } else if vol_match_at(s, i) {
        i
    } else {
        find_vol(s, i + 1)
    }
}

pub proof fn lemma_find_vol_bounds(s: Seq<char>, i: int)
    requires
        0 <= i <= s.len(),
    ensures
        i <= find_vol(s, i) <= s.len(),
        find_vol(s, i) < s.len() ==> vol_match_at(s, find_vol(s, i)),
    decreases s.len() - i,
{
    if i < s.len() && !vol_match_at(s, i) {
        lemma_find_vol_bounds(s, i + 1);
    }
}

/// The numeric value of the digit run `s[a..b)`.
pub open spec fn digits_val(s: Seq<char>, a: int, b: int) -> nat
    decreases b - a,
{
    if a >= b {
        0
    } else {
        (digits_val(s, a, b - 1) * 10 + (s[b - 1] as int - '0' as int)) as nat
    }
}

/// The numeral of `n` left-padded with zeros to three digits.
pub open spec fn pad3(n: nat) -> Seq<char> {
    if dec(n).len() >= 3 {
        dec(n)
    } else if dec(n).len() == 2 {
        seq!['0'] + dec(n)
    } else {
        seq!['0', '0'] + dec(n)
    }
}

/// The normalized volume part: `v<n>`, zero-padded to three digits on demand.
pub open spec fn vpart(n: nat, pad_to_3: bool) -> Seq<char> {
    seq!['v'] + (if pad_to_3 {
        pad3(n)
    } else {
        dec(n)
    })
}

/// The cleaned stem: parenthesized groups removed, whitespace trimmed and
/// collapsed, underscore tails after volume markers dropped.
pub open spec fn cleaned_stem(stem: Seq<char>) -> Seq<char> {
    strip_v_groups_from(collapse_from(trim_ws(strip_parens_from(stem, 0)), 0), 0)
}

/// The cleaned file name: when the cleaned stem carries a volume marker
/// whose number fits, the name becomes `<title> v<n><ext>` (or `v<n><ext>`
/// for an empty title); otherwise the cleaned stem keeps its extension.
pub open spec fn clean_name(src: Seq<char>, pad_to_3: bool) -> Seq<char> {
    let ext = dot_ext_of(src);
    let s3 = cleaned_stem(stem_of(src));
    let p = find_vol(s3, 0);
    let a = ws_end(s3, p + 1);
    let b = digit_end(s3, a);
    if p < s3.len() && digits_val(s3, a, b) <= u32::MAX {
        let title = collapse_from(trim_ws(s3.take(p)), 0);
        if title.len() == 0 {
            vpart(digits_val(s3, a, b), pad_to_3) + ext
        } else {
            title + seq![' '] + vpart(digits_val(s3, a, b), pad_to_3) + ext
        }
    } else {
        s3 + ext
    }
}

/// End of the whitespace run at `i`.
fn ws_end_exec(v: &Vec<char>, i: usize) -> (r: usize)
    requires
        i <= v@.len(),
    ensures
        r as int == ws_end(v@, i as int),
        i <= r <= v@.len(),
    decreases v@.len() - i,
{
    proof {
        lemma_ws_end_bounds(v@, i as int);
    }
    if i >= v.len() {
        v.len()
    } else if !is_ws_exec(v[i]) {
        i
    } else {
        ws_end_exec(v, i + 1)
    }
}

/// Position of the first `c` at or after `i`.
fn next_ch_exec(v: &Vec<char>, i: usize, c: char) -> (r: usize)
    requires
        i <= v@.len(),
    ensures
        r as int == next_ch(v@, i as int, c),
        i <= r <= v@.len(),
    decreases v@.len() - i,
{
    proof {
        lemma_next_ch_bounds(v@, i as int, c);
    }
    if i >= v.len() {
        v.len()
    } else if v[i] == c {
        i
    } else {
        next_ch_exec(v, i + 1, c)
    }
}

/// End of the digit run at `i`.
fn digit_end_exec(v: &Vec<char>, i: usize) -> (r: usize)
    requires
        i <= v@.len(),
    ensures
        r as int == digit_end(v@, i as int),
        i <= r <= v@.len(),
    decreases v@.len() - i,
{
    proof {
        lemma_digit_end_bounds(v@, i as int);
    }
    if i >= v.len() {
        v.len()
    } else if !('0' <= v[i] && v[i] <= '9') {
        i
    } else {
        digit_end_exec(v, i + 1)
    }
}

fn strip_parens_exec(v: &Vec<char>, i: usize) -> (r: Vec<char>)
    ensures
        r@ == strip_parens_from(v@, i as int),
    decreases v@.len() - i,
{
    if i >= v.len() {
        return Vec::new();
    }
    let k = ws_end_exec(v, i);
    if k < v.len() && v[k] == '(' {
        let m = next_ch_exec(v, k + 1, ')');
        if m < v.len() {
            return strip_parens_exec(v, m + 1);
        }
    }
    let rest = strip_parens_exec(v, i + 1);
    let mut out: Vec<char> = Vec::new();
    out.push(v[i]);
    let mut tail = rest;
    out.append(&mut tail);
    proof {
        assert(out@ =~= seq![v@[i as int]] + strip_parens_from(v@, i + 1));
    }
    out
}

pub fn trim_ws_exec(v: &Vec<char>) -> (r: Vec<char>)
    ensures
        r@ == trim_ws(v@),
{
    proof {
        lemma_ws_end_bounds(v@, 0);
        lemma_rtrim_bounds(v@);
    }
    let a = ws_end_exec(v, 0);
    let b = rtrim_end_exec(v);
    if a >= b {
        Vec::new()
    } else {
        crate::names::sub_vec(v, a, b)
    }
}

fn rtrim_end_exec(v: &Vec<char>) -> (r: usize)
    ensures
        r as int == rtrim_end(v@),
        r <= v@.len(),
{
    proof {
        lemma_rtrim_bounds(v@);
    }
    let mut i: usize = v.len();
    proof {
        assert(v@.take(v@.len() as int) =~= v@);
    }
    while i > 0
        invariant
            i <= v@.len(),
            rtrim_end(v@) == rtrim_end(v@.take(i as int)),
        decreases i,
    {
        proof {
            assert(v@.take(i as int).last() == v@[i - 1]);
            assert(v@.take(i as int).drop_last() =~= v@.take(i - 1));
        }
        if !is_ws_exec(v[i - 1]) {
            proof {
                lemma_rtrim_bounds(v@.take(i as int));
            }
            return i;
        }
        i = i - 1;
    }
    proof {
        assert(v@.take(0) =~= Seq::<char>::empty());
    }
    0
}

fn collapse_exec(v: &Vec<char>, i: usize) -> (r: Vec<char>)
    ensures
        r@ == collapse_from(v@, i as int),
    decreases v@.len() - i,
{
    if i >= v.len() {
        return Vec::new();
    }
    if is_ws_exec(v[i]) && i + 1 < v.len() && is_ws_exec(v[i + 1]) {
        let k = ws_end_exec(v, i);
        proof {
            assert(ws_end(v@, i as int) == ws_end(v@, i + 1));
            assert(ws_end(v@, i + 1) == ws_end(v@, i + 2));
            lemma_ws_end_bounds(v@, i + 2);
        }
        let rest = collapse_exec(v, k);
        let mut out: Vec<char> = Vec::new();
        out.push(' ');
        let mut tail = rest;
        out.append(&mut tail);
        proof {
            assert(out@ =~= seq![' '] + collapse_from(v@, ws_end(v@, i as int)));
        }
        out
    } else {
        let rest = collapse_exec(v, i + 1);
        let mut out: Vec<char> = Vec::new();
        out.push(v[i]);
        let mut tail = rest;
        out.append(&mut tail);
        proof {
            assert(out@ =~= seq![v@[i as int]] + collapse_from(v@, i + 1));
        }
        out
    }
}

fn groups_end_exec(v: &Vec<char>, j: usize) -> (r: usize)
    requires
        j <= v@.len(),
    ensures
        r as int == groups_end(v@, j as int),
        j <= r <= v@.len(),
    decreases v@.len() - j,
{
    proof {
        lemma_groups_end_bounds(v@, j as int);
    }
    if j >= v.len() {
        return v.len();
    }
    if v[j] == '_' {
        let d = digit_end_exec(v, j + 1);
        if d > j + 1 {
            return groups_end_exec(v, d);
        }
    }
    j
}

fn strip_v_groups_exec(v: &Vec<char>, i: usize) -> (r: Vec<char>)
    ensures
        r@ == strip_v_groups_from(v@, i as int),
    decreases v@.len() - i,
{
    if i >= v.len() {
        return Vec::new();
    }
    if v[i] == 'v' {
        let a = ws_end_exec(v, i + 1);
        let d = digit_end_exec(v, a);
        if d > a {
            let g = groups_end_exec(v, d);
            if g > d {
                assert(v_groups_at(v@, i as int));
                let head = crate::names::sub_vec(v, i, d);
                let rest = strip_v_groups_exec(v, g);
                let mut out = head;
                let mut tail = rest;
                out.append(&mut tail);
                proof {
                    assert(out@ =~= v@.subrange(i as int, d as int) + strip_v_groups_from(
                        v@,
                        groups_end(v@, d as int),
                    ));
                }
                return out;
            }
        }
        assert(!v_groups_at(v@, i as int));
    }
    let rest = strip_v_groups_exec(v, i + 1);
    let mut out: Vec<char> = Vec::new();
    out.push(v[i]);
    let mut tail = rest;
    out.append(&mut tail);
    proof {
        assert(out@ =~= seq![v@[i as int]] + strip_v_groups_from(v@, i + 1));
    }
    out
}

fn find_vol_exec(v: &Vec<char>, i: usize) -> (r: usize)
    requires
        i <= v@.len(),
    ensures
        r as int == find_vol(v@, i as int),
        i <= r <= v@.len(),
    decreases v@.len() - i,
{
    proof {
        lemma_find_vol_bounds(v@, i as int);
    }
    if i >= v.len() {
        return v.len();
    }
    if v[i] == 'v' && (i == 0 || !is_word_exec(v[i - 1])) {
        let a = ws_end_exec(v, i + 1);
        let d = digit_end_exec(v, a);
        if d > a {
            assert(vol_match_at(v@, i as int));
            return i;
        }
    }
    assert(!vol_match_at(v@, i as int));
    find_vol_exec(v, i + 1)
}

fn is_word_exec(c: char) -> (r: bool)
    ensures
        r == is_word(c),
{
    ('a' <= c && c <= 'z') || ('A' <= c && c <= 'Z') || ('0' <= c && c <= '9') || c == '_'
}

/// The value of the digit run `v[a..b)`, or `None` when it exceeds `u32`.
fn digits_val_exec(v: &Vec<char>, a: usize, b: usize) -> (r: Option<u32>)
    requires
        a <= b <= v@.len(),
        forall|k: int| a <= k < b ==> is_digit(v@[k]),
    ensures
        match r {
            Some(n) => n as nat == digits_val(v@, a as int, b as int) && digits_val(
                v@,
                a as int,
                b as int,
            ) <= u32::MAX,
            None => digits_val(v@, a as int, b as int) > u32::MAX,
        },
    decreases b - a,
{
    if a >= b {
        return Some(0);
    }
    match digits_val_exec(v, a, b - 1) {
        None => {
            proof {
                assert(is_digit(v@[b - 1]));
                assert(v@[b - 1] as int - '0' as int >= 0);
                assert(digits_val(v@, a as int, b as int) == (digits_val(v@, a as int, b - 1) * 10
                    + (v@[b - 1] as int - '0' as int)) as nat);
                assert(digits_val(v@, a as int, b - 1) * 10 > u32::MAX as nat) by (nonlinear_arith)
                    requires
                        digits_val(v@, a as int, b - 1) > u32::MAX,
                ;
            }
            None
        },
        Some(hi) => {
            let c = v[b - 1];
            let digit: u32 = (c as u32) - 48;
            proof {
                assert(is_digit(v@[b - 1]));
                assert('0' as int == 48);
                assert(digit as int == v@[b - 1] as int - '0' as int);
                assert(0 <= digit <= 9);
                assert(digits_val(v@, a as int, b as int) == (digits_val(v@, a as int, b - 1) * 10
                    + digit as int) as nat);
            }
            if hi > (u32::MAX - digit) / 10 {
                proof {
                    assert(hi as nat * 10 + digit as nat > u32::MAX as nat) by (nonlinear_arith)
                        requires
                            hi as nat > ((u32::MAX - digit) as nat) / 10,
                            digit <= 9,
                    ;
                }
                None
            } else {
                proof {
                    assert(hi as nat * 10 + digit as nat <= u32::MAX as nat) by (nonlinear_arith)
                        requires
                            hi as nat <= ((u32::MAX - digit) as nat) / 10,
                            digit <= 9,
                    ;
                }
                Some(hi * 10 + digit)
            }
        },
    }
}

/// The zero-padded numeral of `n`, three digits wide at least.
fn pad3_exec(n: u32) -> (r: Vec<char>)
    ensures
        r@ == pad3(n as nat),
{
    let digits = u64_string(n as u64);
    let dv = chars_of(digits.as_str());
    proof {
        crate::text::lemma_dec_len(n as nat);
    }
    let mut out: Vec<char> = Vec::new();
    if dv.len() == 1 {
        out.push('0');
        out.push('0');
    } else if dv.len() == 2 {
        out.push('0');
    }
    let mut tail = dv;
    out.append(&mut tail);
    proof {
        if dec(n as nat).len() >= 3 {
            assert(out@ =~= dec(n as nat));
        } else if dec(n as nat).len() == 2 {
            assert(out@ =~= seq!['0'] + dec(n as nat));
        } else {
            assert(out@ =~= seq!['0', '0'] + dec(n as nat));
        }
    }
    out
}

/// Cleans one volume file name: strips parenthesized groups, collapses
/// whitespace, drops underscore tails after the volume marker, and
/// normalizes the marker to `v<n>` (three digits when `pad_to_3`), keeping
/// the extension.
pub fn clean_volume_filename(src_name: &str, pad_to_3: bool) -> (r: String)
    ensures
        r@ == clean_name(src_name@, pad_to_3),
{
    let sv = chars_of(src_name);
    let (stem, ext) = split_name(&sv);
    let s1 = strip_parens_exec(&stem, 0);
    let s1t = trim_ws_exec(&s1);
    let s2 = collapse_exec(&s1t, 0);
    let s3 = strip_v_groups_exec(&s2, 0);
    let p = find_vol_exec(&s3, 0);
    proof {
        lemma_find_vol_bounds(s3@, 0);
        lemma_ws_end_bounds(s3@, p + 1);
    }
    if p < s3.len() {
        let a = ws_end_exec(&s3, p + 1);
        let b = digit_end_exec(&s3, a);
        proof {
            lemma_digit_run_digits(s3@, a as int);
        }
        match digits_val_exec(&s3, a, b) {
            Some(n) => {
                let prefix = crate::names::sub_vec(&s3, 0, p);
                proof {
                    assert(s3@.subrange(0, p as int) =~= s3@.take(p as int));
                }
                let pt = trim_ws_exec(&prefix);
                let title = collapse_exec(&pt, 0);
                let vp = if pad_to_3 {
                    pad3_exec(n)
                } else {
                    chars_of(u64_string(n as u64).as_str())
                };
                let mut out: Vec<char> = Vec::new();
                if title.len() == 0 {
                    out.push('v');
                    let mut t1 = vp;
                    out.append(&mut t1);
                    let mut t2 = ext;
                    out.append(&mut t2);
                    proof {
                        assert(out@ =~= vpart(n as nat, pad_to_3) + dot_ext_of(src_name@));
                    }
                } else {
                    let mut t0 = title;
                    out.append(&mut t0);
                    out.push(' ');
                    out.push('v');
                    let mut t1 = vp;
                    out.append(&mut t1);
                    let mut t2 = ext;
                    out.append(&mut t2);
                    proof {
                        assert(out@ =~= collapse_from(trim_ws(cleaned_stem(stem_of(src_name@)).take(
                            p as int,
                        )), 0) + seq![' '] + vpart(n as nat, pad_to_3) + dot_ext_of(src_name@));
                    }
                }
                string_of(&out)
            },
            None => {
                let mut out = s3;
                let mut t2 = ext;
                out.append(&mut t2);
                proof {
                    assert(out@ =~= cleaned_stem(stem_of(src_name@)) + dot_ext_of(src_name@));
                }
                string_of(&out)
            },
        }
    } else {
        let mut out = s3;
        let mut t2 = ext;
        out.append(&mut t2);
        proof {
            assert(out@ =~= cleaned_stem(stem_of(src_name@)) + dot_ext_of(src_name@));
        }
        string_of(&out)
    }
}

/// Every character of the digit run `[i, digit_end(s, i))` is a digit.
proof fn lemma_digit_run_digits(s: Seq<char>, i: int)
    requires
        0 <= i,
    ensures
        forall|k: int| i <= k < digit_end(s, i) ==> is_digit(s[k]),
    decreases s.len() - i,
{
    lemma_digit_end_bounds(s, i);
    if i < s.len() && is_digit(s[i]) {
        lemma_digit_run_digits(s, i + 1);
    }
}

} // verus!
