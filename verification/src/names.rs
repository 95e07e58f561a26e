//! Filename logic: hidden-file and archive-junk detection, extension
//! classification, stem/extension splitting, path leaves and joins, and
//! collision-free name generation (`name (2).ext`, `cover_old_2.jpg`, ...).

use vstd::prelude::*;

use crate::text::{chars_of, contains_string, contains_view, dec, lemma_dec_injective, string_of,
    u64_string};

verus! {

/// Hidden files and macOS resource-fork companions: any name that starts
/// with a dot.
pub open spec fn junk_name(s: Seq<char>) -> bool {
    s.len() > 0 && s[0] == '.'
}

/// Whether `name` is a hidden file or macOS metadata companion.
pub fn is_hidden_or_macos_junk(name: &str) -> (r: bool)
    ensures
        r == junk_name(name@),
{
    name.unicode_len() > 0 && name.get_char(0) == '.'
}

/// `c` equals the lowercase character `p`, ignoring ASCII case.
pub open spec fn char_matches_lower(c: char, p: char) -> bool {
    c == p || (65 <= c as u32 <= 90 && c as u32 + 32 == p as u32)
}

/// `s` ends with `pat` (a lowercase pattern), ignoring ASCII case.
pub open spec fn ends_ci(s: Seq<char>, pat: Seq<char>) -> bool {
    s.len() >= pat.len() && forall|k: int|
        0 <= k < pat.len() ==> char_matches_lower(s[s.len() - pat.len() + k], #[trigger] pat[k])
}

fn char_matches_lower_exec(c: char, p: char) -> (r: bool)
    ensures
        r == char_matches_lower(c, p),
{
    let cu = c as u32;
    let pu = p as u32;
    cu == pu || (65 <= cu && cu <= 90 && cu + 32 == pu)
}

/// `v` ends with the characters of `pat`, ignoring ASCII case.
pub fn ends_ci_exec(v: &Vec<char>, pat: &str) -> (r: bool)
    ensures
        r == ends_ci(v@, pat@),
{
    let pl = pat.unicode_len();
    let n = v.len();
    if n < pl {
        return false;
    }
    let p = chars_of(pat);
    let mut k: usize = 0;
    while k < pl
        invariant
            k <= pl,
            pl == pat@.len(),
            p@ == pat@,
            n == v@.len(),
            n >= pl,
            forall|j: int| 0 <= j < k ==> char_matches_lower(v@[n - pl + j], #[trigger] pat@[j]),
        decreases pl - k,
    {
        if !char_matches_lower_exec(v[n - pl + k], p[k]) {
            return false;
        }
        k = k + 1;
    }
    true
}

/// Volume archive extensions: `.cbz`, `.cbr`, `.cb7`, `.zip`.
pub open spec fn is_volume_name(s: Seq<char>) -> bool {
    ||| ends_ci(s, ".cbz"@)
    ||| ends_ci(s, ".cbr"@)
    ||| ends_ci(s, ".cb7"@)
    ||| ends_ci(s, ".zip"@)
}

/// Image extensions: `.jpg`, `.jpeg`, `.png`, `.webp`, `.bmp`, `.gif`.
pub open spec fn is_image_name(s: Seq<char>) -> bool {
    ||| ends_ci(s, ".jpg"@)
    ||| ends_ci(s, ".jpeg"@)
    ||| ends_ci(s, ".png"@)
    ||| ends_ci(s, ".webp"@)
    ||| ends_ci(s, ".bmp"@)
    ||| ends_ci(s, ".gif"@)
}

/// Whether `name` has a recognized volume archive extension.
pub fn is_volume_file(name: &str) -> (r: bool)
    ensures
        r == is_volume_name(name@),
{
    let v = chars_of(name);
    ends_ci_exec(&v, ".cbz") || ends_ci_exec(&v, ".cbr") || ends_ci_exec(&v, ".cb7")
        || ends_ci_exec(&v, ".zip")
}

/// Whether `name` has a recognized image extension.
pub fn is_image_file(name: &str) -> (r: bool)
    ensures
        r == is_image_name(name@),
{
    let v = chars_of(name);
    ends_ci_exec(&v, ".jpg") || ends_ci_exec(&v, ".jpeg") || ends_ci_exec(&v, ".png")
        || ends_ci_exec(&v, ".webp") || ends_ci_exec(&v, ".bmp") || ends_ci_exec(&v, ".gif")
}

/// Index of the last `.` in `s`, or `-1` if there is none.
pub open spec fn rindex_dot(s: Seq<char>) -> int
    decreases s.len(),
{
    if s.len() == 0 {
        -1
    } else if s.last() == '.' {
        s.len() - 1
    } else {
        rindex_dot(s.drop_last())
    }
}

pub proof fn lemma_rindex_dot_bounds(s: Seq<char>)
    ensures
        -1 <= rindex_dot(s) < s.len(),
        rindex_dot(s) >= 0 ==> s[rindex_dot(s)] == '.',
    decreases s.len(),
{
    if s.len() > 0 && s.last() != '.' {
        lemma_rindex_dot_bounds(s.drop_last());
    }
}

/// The stem of a file name: everything before the last dot, unless the only
/// dot is the leading character (hidden files keep their full name).
pub open spec fn stem_of(s: Seq<char>) -> Seq<char> {
    if rindex_dot(s) <= 0 {
        s
    } else {
        s.take(rindex_dot(s))
    }
}

/// The extension of a file name including its dot, or empty if there is none.
pub open spec fn dot_ext_of(s: Seq<char>) -> Seq<char> {
    if rindex_dot(s) <= 0 {
        Seq::empty()
    } else {
        s.skip(rindex_dot(s))
    }
}

/// Index of the last `.` of `v`, or `None`.
fn rindex_dot_exec(v: &Vec<char>) -> (r: Option<usize>)
    ensures
        match r {
            Some(i) => rindex_dot(v@) == i as int,
            None => rindex_dot(v@) == -1,
        },
{
    let mut i: usize = v.len();
    proof {
        assert(v@.take(v@.len() as int) =~= v@);
    }
    while i > 0
        invariant
            i <= v@.len(),
            rindex_dot(v@) == rindex_dot(v@.take(i as int)),
        decreases i,
    {
        proof {
            assert(v@.take(i as int).last() == v@[i - 1]);
            assert(v@.take(i as int).drop_last() =~= v@.take(i - 1));
        }
        if v[i - 1] == '.' {
            return Some(i - 1);
        }
        i = i - 1;
    }
    proof {
        assert(v@.take(0) =~= Seq::<char>::empty());
    }
    None
}

/// Copy of `v[a..b]`.
pub fn sub_vec(v: &Vec<char>, a: usize, b: usize) -> (r: Vec<char>)
    requires
        a <= b <= v@.len(),
    ensures
        r@ == v@.subrange(a as int, b as int),
{
    let mut r: Vec<char> = Vec::new();
    let mut i: usize = a;
    while i < b
        invariant
            a <= i <= b <= v@.len(),
            r@ == v@.subrange(a as int, i as int),
        decreases b - i,
    {
        r.push(v[i]);
        proof {
            assert(v@.subrange(a as int, i + 1 as int) =~= v@.subrange(a as int, i as int).push(
                v@[i as int]));
        }
        i = i + 1;
    }
    r
}

/// Splits a file name into stem and dotted extension.
pub fn split_name(v: &Vec<char>) -> (r: (Vec<char>, Vec<char>))
    ensures
        r.0@ == stem_of(v@),
        r.1@ == dot_ext_of(v@),
{
    proof {
        lemma_rindex_dot_bounds(v@);
    }
    match rindex_dot_exec(v) {
        Some(i) if i > 0 => {
            let stem = sub_vec(v, 0, i);
            let ext = sub_vec(v, i, v.len());
            proof {
                assert(v@.subrange(0, i as int) =~= v@.take(i as int));
                assert(v@.subrange(i as int, v@.len() as int) =~= v@.skip(i as int));
            }
            (stem, ext)
        },
        _ => {
            let stem = sub_vec(v, 0, v.len());
            proof {
                assert(v@.subrange(0, v@.len() as int) =~= v@);
            }
            (stem, Vec::new())
        },
    }
}

/// `pre`, then the numeral of `i`, then `post`: the shape of every generated
/// fallback name.
pub open spec fn wrap_name(pre: Seq<char>, post: Seq<char>, i: nat) -> Seq<char> {
    pre + dec(i) + post
}

/// The alternative name `stem (i).ext` derived from `file`.
pub open spec fn numbered_name(file: Seq<char>, i: nat) -> Seq<char> {
    wrap_name(stem_of(file) + " ("@, ")"@ + dot_ext_of(file), i)
}

/// The archived-cover name `cover_old_i.jpg`.
pub open spec fn cover_old_name(i: nat) -> Seq<char> {
    wrap_name("cover_old_"@, ".jpg"@, i)
}

/// Distinct indices give distinct generated names.
pub proof fn lemma_wrap_injective(pre: Seq<char>, post: Seq<char>, i: nat, j: nat)
    requires
        wrap_name(pre, post, i) == wrap_name(pre, post, j),
    ensures
        i == j,
{
    let a = wrap_name(pre, post, i);
    let b = wrap_name(pre, post, j);
    assert(a.len() == pre.len() + dec(i).len() + post.len());
    assert(b.len() == pre.len() + dec(j).len() + post.len());
    assert(dec(i).len() == dec(j).len());
    assert forall|k: int| 0 <= k < dec(i).len() implies dec(i)[k] == dec(j)[k] by {
        assert(a[pre.len() + k] == dec(i)[k]);
        assert(b[pre.len() + k] == dec(j)[k]);
    }
    assert(dec(i) =~= dec(j));
    lemma_dec_injective(i, j);
}

/// The views of the strings in `s`, as a set.
pub open spec fn view_set(s: Seq<String>) -> Set<Seq<char>> {
    s.map_values(|x: String| x@).to_set()
}

proof fn lemma_view_set(s: Seq<String>)
    ensures
        view_set(s).finite(),
        view_set(s).len() <= s.len(),
{
    let m = s.map_values(|x: String| x@);
    m.lemma_cardinality_of_set();
}

proof fn lemma_view_set_contains(s: Seq<String>, t: Seq<char>)
    ensures
        contains_view(s, t) <==> view_set(s).contains(t),
{
    let m = s.map_values(|x: String| x@);
    if contains_view(s, t) {
        let i = choose|i: int| 0 <= i < s.len() && s[i]@ == t;
        assert(m[i] == t);
        assert(m.contains(t));
    }
    if view_set(s).contains(t) {
        assert(m.contains(t));
        let i = choose|i: int| 0 <= i < m.len() && m[i] == t;
        assert(s[i]@ == t);
    }
}

/// Smallest `i >= 2` such that `pre + dec(i) + post` occurs neither in
/// `existing` nor in `reserved`; returns the index and the name.
fn first_free_wrap(pre: &Vec<char>, post: &Vec<char>, existing: &Vec<String>, reserved: &Vec<
    String,
>) -> (r: (u64, String))
    requires
        existing@.len() + reserved@.len() + 2 < u64::MAX,
    ensures
        2 <= r.0,
        r.1@ == wrap_name(pre@, post@, r.0 as nat),
        !contains_view(existing@, r.1@),
        !contains_view(reserved@, r.1@),
        forall|j: nat|
            2 <= j < r.0 ==> contains_view(existing@, #[trigger] wrap_name(pre@, post@, j))
                || contains_view(reserved@, wrap_name(pre@, post@, j)),
{
    let ghost pool = view_set(existing@).union(view_set(reserved@));
    proof {
        lemma_view_set(existing@);
        lemma_view_set(reserved@);
        vstd::set_lib::lemma_len_union(view_set(existing@), view_set(reserved@));
    }
    let mut i: u64 = 2;
    let ghost mut used: Set<Seq<char>> = Set::empty();
    loop
        invariant
            2 <= i,
            used.finite(),
            used.len() == i - 2,
            used.subset_of(pool),
            pool == view_set(existing@).union(view_set(reserved@)),
            pool.finite(),
            pool.len() <= existing@.len() + reserved@.len(),
            existing@.len() + reserved@.len() + 2 < u64::MAX,
            forall|j: nat| 2 <= j < i ==> used.contains(#[trigger] wrap_name(pre@, post@, j)),
            forall|t: Seq<char>|
                used.contains(t) ==> exists|j: nat| 2 <= j < i && t == wrap_name(pre@, post@, j),
            forall|j: nat|
                2 <= j < i ==> contains_view(existing@, #[trigger] wrap_name(pre@, post@, j))
                    || contains_view(reserved@, wrap_name(pre@, post@, j)),
        decreases existing@.len() + reserved@.len() + 2 - i,
    {
        proof {
            vstd::set_lib::lemma_len_subset(used, pool);
        }
        let digits = u64_string(i);
        let mut name = string_of(pre);
        name.append(digits.as_str());
        let tail = string_of(post);
        name.append(tail.as_str());
        assert(name@ == wrap_name(pre@, post@, i as nat));
        let in_existing = contains_string(existing, &name);
        let in_reserved = contains_string(reserved, &name);
        if !in_existing && !in_reserved {
            return (i, name);
        }
        proof {
            let t = wrap_name(pre@, post@, i as nat);
            lemma_view_set_contains(existing@, t);
            lemma_view_set_contains(reserved@, t);
            assert(contains_view(existing@, t) || contains_view(reserved@, t));
            assert(pool.contains(t));
            if used.contains(t) {
                let j = choose|j: nat| 2 <= j < i && t == wrap_name(pre@, post@, j);
                lemma_wrap_injective(pre@, post@, i as nat, j);
                assert(false);
            }
            used = used.insert(t);
            vstd::set_lib::lemma_len_subset(used, pool);
        }
        i = i + 1;
    }
}

/// A name for `filename` inside a folder already holding `existing`: the name
/// itself when free, else `stem (i).ext` for the smallest free `i >= 2`.
pub fn unique_path(existing: &Vec<String>, filename: &str) -> (r: String)
    requires
        existing@.len() + 2 < u64::MAX,
    ensures
        !contains_view(existing@, r@),
        !contains_view(existing@, filename@) ==> r@ == filename@,
        contains_view(existing@, filename@) ==> exists|i: nat|
            2 <= i && r@ == #[trigger] numbered_name(filename@, i) && forall|j: nat|
                2 <= j < i ==> contains_view(existing@, #[trigger] numbered_name(filename@, j)),
{
    let reserved: Vec<String> = Vec::new();
    unique_name_with(existing, &reserved, filename)
}

/// As `unique_path`, but names handed out earlier in the same planning pass
/// (`reserved`) also count as taken; the chosen name is appended to it.
pub fn unique_path_reserved(existing: &Vec<String>, filename: &str, reserved: &mut Vec<String>) -> (r:
    String)
    requires
        existing@.len() + old(reserved)@.len() + 2 < u64::MAX,
    ensures
        !contains_view(existing@, r@),
        !contains_view(old(reserved)@, r@),
        !contains_view(existing@, filename@) && !contains_view(old(reserved)@, filename@) ==> r@
            == filename@,
        contains_view(existing@, filename@) || contains_view(old(reserved)@, filename@)
            ==> exists|i: nat|
            2 <= i && r@ == #[trigger] numbered_name(filename@, i) && forall|j: nat|
                2 <= j < i ==> contains_view(existing@, #[trigger] numbered_name(filename@, j))
                    || contains_view(old(reserved)@, numbered_name(filename@, j)),
        final(reserved)@.len() == old(reserved)@.len() + 1,
        forall|k: int| 0 <= k < old(reserved)@.len() ==> final(reserved)@[k] == old(reserved)@[k],
        final(reserved)@.last()@ == r@,
{
    let name = unique_name_with(existing, reserved, filename);
    let copy = name.clone();
    reserved.push(copy);
    name
}

/// Shared search behind `unique_path` and `unique_path_reserved`.
fn unique_name_with(existing: &Vec<String>, reserved: &Vec<String>, filename: &str) -> (r: String)
    requires
        existing@.len() + reserved@.len() + 2 < u64::MAX,
    ensures
        !contains_view(existing@, r@),
        !contains_view(reserved@, r@),
        !contains_view(existing@, filename@) && !contains_view(reserved@, filename@) ==> r@
            == filename@,
        contains_view(existing@, filename@) || contains_view(reserved@, filename@) ==> exists|
            i: nat,
        |
            2 <= i && r@ == #[trigger] numbered_name(filename@, i) && forall|j: nat|
                2 <= j < i ==> contains_view(existing@, #[trigger] numbered_name(filename@, j))
                    || contains_view(reserved@, numbered_name(filename@, j)),
{
    let name = filename.to_owned();
    let in_existing = contains_string(existing, &name);
    let in_reserved = contains_string(reserved, &name);
    if !in_existing && !in_reserved {
        return name;
    }
    let f = chars_of(filename);
    let (stem, ext) = split_name(&f);
    let mut pre = stem;
    pre.push(' ');
    pre.push('(');
    let mut post: Vec<char> = Vec::new();
    post.push(')');
    let mut ext_tail = ext;
    post.append(&mut ext_tail);
    proof {
        reveal_strlit(" (");
        reveal_strlit(")");
        assert(pre@ =~= stem_of(filename@) + " ("@);
        assert(post@ =~= ")"@ + dot_ext_of(filename@));
    }
    let (i, r) = first_free_wrap(&pre, &post, existing, reserved);
    assert(r@ == numbered_name(filename@, i as nat));
    assert forall|j: nat| 2 <= j < i implies contains_view(existing@,
        #[trigger] numbered_name(filename@, j)) || contains_view(reserved@, numbered_name(
        filename@,
        j,
    )) by {
        assert(numbered_name(filename@, j) == wrap_name(pre@, post@, j));
    }
    r
}

/// The archived-cover name for a batch folder holding `existing`:
/// `cover_old.jpg` when free, else `cover_old_i.jpg` for the smallest free
/// `i >= 2`.  The result never collides with `existing`, so archiving can
/// never overwrite a previously preserved cover.
pub fn unique_cover_old_path(existing: &Vec<String>) -> (r: String)
    requires
        existing@.len() + 2 < u64::MAX,
    ensures
        !contains_view(existing@, r@),
        !contains_view(existing@, "cover_old.jpg"@) ==> r@ == "cover_old.jpg"@,
        contains_view(existing@, "cover_old.jpg"@) ==> exists|i: nat|
            2 <= i && r@ == #[trigger] cover_old_name(i) && forall|j: nat|
                2 <= j < i ==> contains_view(existing@, #[trigger] cover_old_name(j)),
{
    let name = "cover_old.jpg".to_owned();
    if !contains_string(existing, &name) {
        return name;
    }
    let pre = chars_of("cover_old_");
    let post = chars_of(".jpg");
    let reserved: Vec<String> = Vec::new();
    let (i, r) = first_free_wrap(&pre, &post, existing, &reserved);
    assert(r@ == cover_old_name(i as nat));
    assert forall|j: nat| 2 <= j < i implies contains_view(existing@,
        #[trigger] cover_old_name(j)) by {
        assert(cover_old_name(j) == wrap_name(pre@, post@, j));
    }
    r
}

/// Whether position `q` starts a path component of `s`.
pub open spec fn comp_start(s: Seq<char>, q: int) -> bool {
    0 <= q < s.len() && (q == 0 || s[q - 1] == '/')
}

/// The component at `q` is exactly `.` or `..` (path navigation, not a name).
pub open spec fn dot_comp(s: Seq<char>, q: int) -> bool {
    s[q] == '.' && (q + 1 == s.len() || s[q + 1] == '/' || (s[q + 1] == '.' && (q + 2 == s.len()
        || s[q + 2] == '/')))
}

/// The component at `q` is exactly `__MACOSX`.
pub open spec fn macosx_comp(s: Seq<char>, q: int) -> bool {
    q + 8 <= s.len() && s[q] == '_' && s[q + 1] == '_' && s[q + 2] == 'M' && s[q + 3] == 'A' && s[q
        + 4] == 'C' && s[q + 5] == 'O' && s[q + 6] == 'S' && s[q + 7] == 'X' && (q + 8 == s.len()
        || s[q + 8] == '/')
}

/// No path component of `s` is hidden (leading dot) or macOS resource junk.
pub open spec fn entry_parts_ok(s: Seq<char>) -> bool {
    forall|q: int|
        #[trigger] comp_start(s, q) ==> !(s[q] == '.' && !dot_comp(s, q)) && !macosx_comp(s, q)
}

/// An archive entry worth extracting: an image file, with no hidden or
/// macOS-metadata path component.
pub open spec fn zip_image_entry(s: Seq<char>) -> bool {
    is_image_name(s) && entry_parts_ok(s)
}

/// Whether the archive entry `entry_name` is an image to consider for the
/// cover: image extension, and no component hidden or `__MACOSX`.
pub fn zip_entry_is_image(entry_name: &str) -> (r: bool)
    ensures
        r == zip_image_entry(entry_name@),
{
    let v = chars_of(entry_name);
    if !is_image_file(entry_name) {
        return false;
    }
    let n = v.len();
    let mut q: usize = 0;
    while q < n
        invariant
            q <= n,
            n == v@.len(),
            v@ == entry_name@,
            is_image_name(entry_name@),
            forall|p: int|
                comp_start(v@, p) && p < q ==> !(v@[p] == '.' && !dot_comp(v@, p)) && !macosx_comp(
                    v@,
                    p,
                ),
        decreases n - q,
    {
        if q == 0 || v[q - 1] == '/' {
            // `q` starts a component: test the two rejection rules.
            assert(comp_start(v@, q as int));
            if v[q] == '.' && !dot_nav_at(&v, q) {
                assert(!entry_parts_ok(v@));
                return false;
            }
            if macosx_at(&v, q) {
                assert(!entry_parts_ok(v@));
                return false;
            }
        }
        q = q + 1;
    }
    true
}

/// Whether the component at `q` is the navigation entry `.` or `..`.
fn dot_nav_at(v: &Vec<char>, q: usize) -> (r: bool)
    requires
        q < v@.len(),
        v@[q as int] == '.',
    ensures
        r == dot_comp(v@, q as int),
{
    let n = v.len();
    if q + 1 == n {
        true
    } else if v[q + 1] == '/' {
        true
    } else if v[q + 1] == '.' {
        q + 2 == n || v[q + 2] == '/'
    } else {
        false
    }
}

/// Whether the component at `q` is exactly `__MACOSX`.
fn macosx_at(v: &Vec<char>, q: usize) -> (r: bool)
    requires
        q < v@.len(),
    ensures
        r == macosx_comp(v@, q as int),
{
    let n = v.len();
    n - q >= 8 && v[q] == '_' && v[q + 1] == '_' && v[q + 2] == 'M' && v[q + 3] == 'A' && v[q + 4]
        == 'C' && v[q + 5] == 'O' && v[q + 6] == 'S' && v[q + 7] == 'X' && (q + 8 == n || v[q + 8]
        == '/')
}

/// Index of the last `/` in `s`, or `-1`.
pub open spec fn rindex_slash(s: Seq<char>) -> int
    decreases s.len(),
{
    if s.len() == 0 {
        -1
    } else if s.last() == '/' {
        s.len() - 1
    } else {
        rindex_slash(s.drop_last())
    }
}

pub proof fn lemma_rindex_slash_bounds(s: Seq<char>)
    ensures
        -1 <= rindex_slash(s) < s.len(),
    decreases s.len(),
{
    if s.len() > 0 && s.last() != '/' {
        lemma_rindex_slash_bounds(s.drop_last());
    }
}

/// The last path component of `s` (everything after the final `/`).
pub open spec fn leaf_of(s: Seq<char>) -> Seq<char> {
    s.skip(rindex_slash(s) + 1)
}

/// The directory part of `s` (everything before the final `/`), or `None`
/// when `s` has no separator; the parent of `/x` is `/`.
pub open spec fn parent_of(s: Seq<char>) -> Option<Seq<char>> {
    if rindex_slash(s) < 0 {
        Option::None
    } else if rindex_slash(s) == 0 {
        Option::Some("/"@)
    } else {
        Option::Some(s.take(rindex_slash(s)))
    }
}

/// The file name part of `path`.
pub fn file_name_text(path: &str) -> (r: String)
    ensures
        r@ == leaf_of(path@),
{
    let v = chars_of(path);
    let mut i: usize = v.len();
    proof {
        assert(v@.take(v@.len() as int) =~= v@);
    }
    while i > 0
        invariant
            i <= v@.len(),
            v@ == path@,
            rindex_slash(v@) == rindex_slash(v@.take(i as int)),
        decreases i,
    {
        proof {
            assert(v@.take(i as int).last() == v@[i - 1]);
            assert(v@.take(i as int).drop_last() =~= v@.take(i - 1));
        }
        if v[i - 1] == '/' {
            let tail = sub_vec(&v, i, v.len());
            proof {
                lemma_rindex_slash_bounds(v@);
                assert(v@.subrange(i as int, v@.len() as int) =~= v@.skip(i as int));
            }
            return string_of(&tail);
        }
        i = i - 1;
    }
    proof {
        assert(v@.take(0) =~= Seq::<char>::empty());
        assert(v@.skip(0) =~= v@);
    }
    string_of(&v)
}

/// The directory part of `path`, or `None` when it has no separator.
pub fn parent_dir(path: &str) -> (r: Option<String>)
    ensures
        match r {
            Option::Some(p) => parent_of(path@) == Option::Some(p@),
            Option::None => parent_of(path@) == Option::None::<Seq<char>>,
        },
{
    let v = chars_of(path);
    let mut i: usize = v.len();
    proof {
        assert(v@.take(v@.len() as int) =~= v@);
    }
    while i > 0
        invariant
            i <= v@.len(),
            v@ == path@,
            rindex_slash(v@) == rindex_slash(v@.take(i as int)),
        decreases i,
    {
        proof {
            assert(v@.take(i as int).last() == v@[i - 1]);
            assert(v@.take(i as int).drop_last() =~= v@.take(i - 1));
        }
        if v[i - 1] == '/' {
            if i - 1 == 0 {
                return Some("/".to_owned());
            }
            let head = sub_vec(&v, 0, i - 1);
            proof {
                assert(v@.subrange(0, i - 1 as int) =~= v@.take(i - 1 as int));
            }
            return Some(string_of(&head));
        }
        i = i - 1;
    }
    proof {
        assert(v@.take(0) =~= Seq::<char>::empty());
    }
    None
}

/// `dir` and `name` joined with a single separator.
pub open spec fn joined(dir: Seq<char>, name: Seq<char>) -> Seq<char> {
    dir + "/"@ + name
}

/// Joins a directory path and a file name.
pub fn join_path(dir: &str, name: &str) -> (r: String)
    ensures
        r@ == joined(dir@, name@),
{
    let mut s = dir.to_owned();
    s.append("/");
    s.append(name);
    s
}

} // verus!
