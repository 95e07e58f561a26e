//! The cover source resolver: a strict-priority cascade that obtains a
//! series cover from the first volume archive, an existing local image, or a
//! remote provider, never aborting on a soft failure.
//!
//! The resolution protocol is a state machine: the host performs one
//! filesystem, archive or network operation per step and feeds its outcome
//! back as a [`ResolveEvent`]; `ensure_series_cover` makes every decision and
//! answers with the next [`ResolveAction`], plus the log lines to emit.

use vstd::prelude::*;

use crate::names::{dot_ext_of, ends_ci, is_image_name, is_volume_name, joined, join_path,
    junk_name, zip_image_entry};
use crate::natural::{nat_sorted, natural_sort_strings, seq_views};
use crate::render::{decodes_ok, encodes_ok, jpeg95_of, transcode_to_jpeg, TranscodeFailure};
use crate::text::chars_of;

verus! {

/// One entry of a directory listing.
#[derive(Debug, Clone)]
pub struct DirEntry {
    pub name: String,
    pub is_file: bool,
}

/// One entry of an archive listing.
#[derive(Debug, Clone)]
pub struct ZipEntry {
    pub name: String,
    pub is_dir: bool,
}

/// A remote provider's answer: where it found a cover.
#[derive(Debug, Clone)]
pub struct CoverResult {
    pub source: String,
    pub url: String,
}

/// The chosen first-volume extraction: which archive, which entry inside it,
/// and where the extracted cover is written.
#[derive(Debug, Clone)]
pub struct VolumeCoverResult {
    pub volume_file: String,
    pub image_entry: String,
    pub output_file: String,
}

impl CoverResult {
    /// A copy with the same characters in both fields.
    pub fn duplicate(&self) -> (r: CoverResult)
        ensures
            r.source@ == self.source@,
            r.url@ == self.url@,
    {
        CoverResult { source: self.source.clone(), url: self.url.clone() }
    }
}

/// The names of volume archives among `entries`: plain files, not hidden,
/// with a volume extension.
pub open spec fn volume_name_views(entries: Seq<DirEntry>) -> Seq<Seq<char>> {
    entries.filter(
        |e: DirEntry| e.is_file && !junk_name(e.name@) && is_volume_name(e.name@),
    ).map_values(|e: DirEntry| e.name@)
}

/// The names of image files among `entries`: plain files, not hidden, with an
/// image extension.
pub open spec fn image_name_views(entries: Seq<DirEntry>) -> Seq<Seq<char>> {
    entries.filter(
        |e: DirEntry| e.is_file && !junk_name(e.name@) && is_image_name(e.name@),
    ).map_values(|e: DirEntry| e.name@)
}

/// The extractable image entries of an archive listing.
pub open spec fn zip_image_views(entries: Seq<ZipEntry>) -> Seq<Seq<char>> {
    entries.filter(|e: ZipEntry| !e.is_dir && zip_image_entry(e.name@)).map_values(
        |e: ZipEntry| e.name@,
    )
}

proof fn lemma_filter_map_push<A>(s: Seq<A>, e: A, pred: spec_fn(A) -> bool, f: spec_fn(A) -> Seq<
    char,
>)
    ensures
        pred(e) ==> s.push(e).filter(pred).map_values(f) =~= s.filter(pred).map_values(f).push(
            f(e),
        ),
        !pred(e) ==> s.push(e).filter(pred).map_values(f) =~= s.filter(pred).map_values(f),
{
    reveal(Seq::filter);
    assert(s.push(e).drop_last() =~= s);
    assert(s.push(e).last() == e);
    if pred(e) {
        assert(s.push(e).filter(pred) =~= s.filter(pred).push(e));
    } else {
        assert(s.push(e).filter(pred) =~= s.filter(pred));
    }
}

/// Volume archives among `entries`, naturally sorted.
pub fn select_volumes(entries: &Vec<DirEntry>) -> (r: Vec<String>)
    ensures
        nat_sorted(r@),
        seq_views(r@).to_multiset() == volume_name_views(entries@).to_multiset(),
        r@.len() == volume_name_views(entries@).len(),
{
    let mut out: Vec<String> = Vec::new();
    let mut i: usize = 0;
    proof {
        assert(entries@.take(0) =~= Seq::<DirEntry>::empty());
        assert(volume_name_views(entries@.take(0)) =~= Seq::<Seq<char>>::empty());
        assert(seq_views(out@) =~= Seq::<Seq<char>>::empty());
    }
    while i < entries.len()
        invariant
            i <= entries@.len(),
            seq_views(out@) =~= volume_name_views(entries@.take(i as int)),
        decreases entries@.len() - i,
    {
        let e = &entries[i];
        let keep = e.is_file && !crate::names::is_hidden_or_macos_junk(e.name.as_str())
            && crate::names::is_volume_file(e.name.as_str());
        let ghost pre = out@;
        if keep {
            out.push(e.name.clone());
        }
        proof {
            assert(entries@.take(i + 1) =~= entries@.take(i as int).push(entries@[i as int]));
            lemma_filter_map_push(
                entries@.take(i as int),
                entries@[i as int],
                |x: DirEntry| x.is_file && !junk_name(x.name@) && is_volume_name(x.name@),
                |x: DirEntry| x.name@,
            );
            if keep {
                assert(seq_views(out@) =~= seq_views(pre).push(entries@[i as int].name@));
            } else {
                assert(seq_views(out@) =~= seq_views(pre));
            }
        }
        i = i + 1;
    }
    proof {
        assert(entries@.take(entries@.len() as int) =~= entries@);
        broadcast use vstd::seq_lib::group_to_multiset_ensures;

    }
    natural_sort_strings(&mut out);
    out
}

/// Image files among `entries`, naturally sorted.
pub fn select_local_images(entries: &Vec<DirEntry>) -> (r: Vec<String>)
    ensures
        nat_sorted(r@),
        seq_views(r@).to_multiset() == image_name_views(entries@).to_multiset(),
        r@.len() == image_name_views(entries@).len(),
{
    let mut out: Vec<String> = Vec::new();
    let mut i: usize = 0;
    proof {
        assert(entries@.take(0) =~= Seq::<DirEntry>::empty());
        assert(image_name_views(entries@.take(0)) =~= Seq::<Seq<char>>::empty());
        assert(seq_views(out@) =~= Seq::<Seq<char>>::empty());
    }
    while i < entries.len()
        invariant
            i <= entries@.len(),
            seq_views(out@) =~= image_name_views(entries@.take(i as int)),
        decreases entries@.len() - i,
    {
        let e = &entries[i];
        let keep = e.is_file && !crate::names::is_hidden_or_macos_junk(e.name.as_str())
            && crate::names::is_image_file(e.name.as_str());
        let ghost pre = out@;
        if keep {
            out.push(e.name.clone());
        }
        proof {
            assert(entries@.take(i + 1) =~= entries@.take(i as int).push(entries@[i as int]));
            lemma_filter_map_push(
                entries@.take(i as int),
                entries@[i as int],
                |x: DirEntry| x.is_file && !junk_name(x.name@) && is_image_name(x.name@),
                |x: DirEntry| x.name@,
            );
            if keep {
                assert(seq_views(out@) =~= seq_views(pre).push(entries@[i as int].name@));
            } else {
                assert(seq_views(out@) =~= seq_views(pre));
            }
        }
        i = i + 1;
    }
    proof {
        assert(entries@.take(entries@.len() as int) =~= entries@);
        broadcast use vstd::seq_lib::group_to_multiset_ensures;

    }
    natural_sort_strings(&mut out);
    out
}

/// Extractable image entries of an archive, naturally sorted.
pub fn select_zip_images(entries: &Vec<ZipEntry>) -> (r: Vec<String>)
    ensures
        nat_sorted(r@),
        seq_views(r@).to_multiset() == zip_image_views(entries@).to_multiset(),
        r@.len() == zip_image_views(entries@).len(),
{
    let mut out: Vec<String> = Vec::new();
    let mut i: usize = 0;
    proof {
        assert(entries@.take(0) =~= Seq::<ZipEntry>::empty());
        assert(zip_image_views(entries@.take(0)) =~= Seq::<Seq<char>>::empty());
        assert(seq_views(out@) =~= Seq::<Seq<char>>::empty());
    }
    while i < entries.len()
        invariant
            i <= entries@.len(),
            seq_views(out@) =~= zip_image_views(entries@.take(i as int)),
        decreases entries@.len() - i,
    {
        let e = &entries[i];
        let keep = !e.is_dir && crate::names::zip_entry_is_image(e.name.as_str());
        let ghost pre = out@;
        if keep {
            out.push(e.name.clone());
        }
        proof {
            assert(entries@.take(i + 1) =~= entries@.take(i as int).push(entries@[i as int]));
            lemma_filter_map_push(
                entries@.take(i as int),
                entries@[i as int],
                |x: ZipEntry| !x.is_dir && zip_image_entry(x.name@),
                |x: ZipEntry| x.name@,
            );
            if keep {
                assert(seq_views(out@) =~= seq_views(pre).push(entries@[i as int].name@));
            } else {
                assert(seq_views(out@) =~= seq_views(pre));
            }
        }
        i = i + 1;
    }
    proof {
        assert(entries@.take(entries@.len() as int) =~= entries@);
        broadcast use vstd::seq_lib::group_to_multiset_ensures;

    }
    natural_sort_strings(&mut out);
    out
}

/// ASCII lowercasing of one character.
pub open spec fn lower_char(c: char) -> char {
    if c == 'A' {
        'a'
    } else if c == 'B' {
        'b'
    } else if c == 'C' {
        'c'
    } else if c == 'D' {
        'd'
    } else if c == 'E' {
        'e'
    } else if c == 'F' {
        'f'
    } else if c == 'G' {
        'g'
    } else if c == 'H' {
        'h'
    } else if c == 'I' {
        'i'
    } else if c == 'J' {
        'j'
    } else if c == 'K' {
        'k'
    } else if c == 'L' {
        'l'
    } else if c == 'M' {
        'm'
    } else if c == 'N' {
        'n'
    } else if c == 'O' {
        'o'
    } else if c == 'P' {
        'p'
    } else if c == 'Q' {
        'q'
    } else if c == 'R' {
        'r'
    } else if c == 'S' {
        's'
    } else if c == 'T' {
        't'
    } else if c == 'U' {
        'u'
    } else if c == 'V' {
        'v'
    } else if c == 'W' {
        'w'
    } else if c == 'X' {
        'x'
    } else if c == 'Y' {
        'y'
    } else if c == 'Z' {
        'z'
    } else {
        c
    }
}

fn lower_char_exec(c: char) -> (r: char)
    ensures
        r == lower_char(c),
{
    if c == 'A' {
        'a'
    } else if c == 'B' {
        'b'
    } else if c == 'C' {
        'c'
    } else if c == 'D' {
        'd'
    } else if c == 'E' {
        'e'
    } else if c == 'F' {
        'f'
    } else if c == 'G' {
        'g'
    } else if c == 'H' {
        'h'
    } else if c == 'I' {
        'i'
    } else if c == 'J' {
        'j'
    } else if c == 'K' {
        'k'
    } else if c == 'L' {
        'l'
    } else if c == 'M' {
        'm'
    } else if c == 'N' {
        'n'
    } else if c == 'O' {
        'o'
    } else if c == 'P' {
        'p'
    } else if c == 'Q' {
        'q'
    } else if c == 'R' {
        'r'
    } else if c == 'S' {
        's'
    } else if c == 'T' {
        't'
    } else if c == 'U' {
        'u'
    } else if c == 'V' {
        'v'
    } else if c == 'W' {
        'w'
    } else if c == 'X' {
        'x'
    } else if c == 'Y' {
        'y'
    } else if c == 'Z' {
        'z'
    } else {
        c
    }
}

/// ASCII lowercasing of a string.
pub open spec fn lower_ascii(s: Seq<char>) -> Seq<char> {
    s.map_values(|c: char| lower_char(c))
}

/// Lowercases the ASCII letters of `v`.
fn to_lower_ascii(v: &Vec<char>) -> (r: Vec<char>)
    ensures
        r@ == lower_ascii(v@),
{
    let mut r: Vec<char> = Vec::new();
    let mut i: usize = 0;
    while i < v.len()
        invariant
            i <= v@.len(),
            r@ =~= lower_ascii(v@.take(i as int)),
        decreases v@.len() - i,
    {
        let low = lower_char_exec(v[i]);
        r.push(low);
        proof {
            assert(v@.take(i + 1) =~= v@.take(i as int).push(v@[i as int]));
            assert(lower_ascii(v@.take(i + 1)) =~= lower_ascii(v@.take(i as int)).push(
                lower_char(v@[i as int])));
        }
        i = i + 1;
    }
    proof {
        assert(v@.take(v@.len() as int) =~= v@);
    }
    r
}

/// A title reduced for matching: ASCII-lowercased, with everything but
/// ASCII letters and digits dropped.
pub open spec fn normalized_title(s: Seq<char>) -> Seq<char>
    decreases s.len(),
{
    if s.len() == 0 {
        Seq::empty()
    } else {
        let c = lower_char(s[0]);
        (if ('a' <= c && c <= 'z') || ('0' <= c && c <= '9') {
            seq![c]
        } else {
            Seq::empty()
        }) + normalized_title(s.drop_first())
    }
}

/// Reduces a title for comparison across providers: ASCII-lowercase, keep
/// only ASCII letters and digits.
pub fn normalize_title(input: &str) -> (r: String)
    ensures
        r@ == normalized_title(input@),
{
    let v = chars_of(input);
    let out = normalize_from(&v, 0);
    proof {
        assert(v@.skip(0) =~= v@);
    }
    crate::text::string_of(&out)
}

fn normalize_from(v: &Vec<char>, i: usize) -> (r: Vec<char>)
    requires
        i <= v@.len(),
    ensures
        r@ == normalized_title(v@.skip(i as int)),
    decreases v@.len() - i,
{
    if i >= v.len() {
        proof {
            assert(v@.skip(i as int) =~= Seq::<char>::empty());
        }
        return Vec::new();
    }
    let c = lower_char_exec(v[i]);
    let rest = normalize_from(v, i + 1);
    proof {
        let tail = v@.skip(i as int);
        assert(tail[0] == v@[i as int]);
        assert(tail.drop_first() =~= v@.skip(i + 1));
    }
    if ('a' <= c && c <= 'z') || ('0' <= c && c <= '9') {
        let mut out: Vec<char> = Vec::new();
        out.push(c);
        let mut t = rest;
        out.append(&mut t);
        proof {
            assert(out@ =~= seq![lower_char(v@[i as int])] + normalized_title(v@.skip(i + 1)));
        }
        out
    } else {
        proof {
            assert(rest@ =~= Seq::<char>::empty() + normalized_title(v@.skip(i + 1)));
        }
        rest
    }
}

/// The archive extensions the local extraction step supports.
pub open spec fn extract_supported(name: Seq<char>) -> bool {
    ends_ci(name, ".cbz"@) || ends_ci(name, ".zip"@)
}

/// The printable extension of a first volume the extractor cannot open.
pub open spec fn shown_ext(name: Seq<char>) -> Seq<char> {
    if dot_ext_of(name).len() == 0 {
        "(none)"@
    } else {
        lower_ascii(dot_ext_of(name))
    }
}

/// The soft error recorded when the first volume is not a zip-family archive.
pub open spec fn msg_bad_ext(name: Seq<char>) -> Seq<char> {
    "first volume is "@ + shown_ext(name)
        + " (local extraction currently supports .cbz/.zip only)"@
}

/// The soft error recorded when the first volume holds no image entries.
pub open spec fn msg_no_images(vol: Seq<char>) -> Seq<char> {
    "no image files found in first volume archive: "@ + vol
}

/// The soft error recorded when the chosen archive entry does not decode.
pub open spec fn msg_decode_failed() -> Seq<char> {
    "failed to decode image from archive"@
}

/// The soft error recorded when the decoded entry cannot be encoded as the
/// JPEG at `path`.
pub open spec fn msg_encode_failed(path: Seq<char>) -> Seq<char> {
    "failed to encode JPEG: "@ + path
}

/// The log line for a successful first-volume extraction.
pub open spec fn extract_log(dir: Seq<char>, vol: Seq<char>, entry: Seq<char>) -> Seq<char> {
    "[COVER] Extracted series cover from first volume: "@ + joined(dir, "cover.jpg"@)
        + " (source="@ + vol + ":"@ + entry + ")"@
}

/// The log line for a successful remote download.
pub open spec fn download_log(path: Seq<char>, source: Seq<char>) -> Seq<char> {
    "[COVER] Downloaded series cover: "@ + path + " (source="@ + source + ")"@
}

/// The warning for a failed first-volume extraction, surfaced at exhaustion.
pub open spec fn warn_extract(e: Seq<char>) -> Seq<char> {
    "[WARN] Failed to extract first-volume cover. Last error: "@ + e
}

/// The warning for a failed remote download, surfaced at exhaustion.
pub open spec fn warn_download(e: Seq<char>) -> Seq<char> {
    "[WARN] Failed to download series cover. Last error: "@ + e
}

/// The warning when every provider came back empty.
pub open spec fn warn_no_results() -> Seq<char> {
    "[WARN] Failed to download series cover (no results)."@
}

/// The warnings emitted when resolution ends without a cover.
pub open spec fn warn_logs(first_vol_err: Option<Seq<char>>, last_err: Option<Seq<char>>) -> Seq<
    Seq<char>,
> {
    (match first_vol_err {
        Option::Some(e) => seq![warn_extract(e)],
        Option::None => seq![],
    }) + seq![
        match last_err {
            Option::Some(e) => warn_download(e),
            Option::None => warn_no_results(),
        },
    ]
}

/// `logs` spells out exactly the lines `want`.
pub open spec fn logs_match(logs: Seq<String>, want: Seq<Seq<char>>) -> bool {
    logs.len() == want.len() && forall|i: int| 0 <= i < logs.len() ==> logs[i]@ == #[trigger] want[i]
}

/// The ranked conventional cover file names.
pub open spec fn cover_candidate(i: int) -> Seq<char> {
    if i == 0 {
        "cover.jpg"@
    } else if i == 1 {
        "cover.jpeg"@
    } else if i == 2 {
        "cover.png"@
    } else if i == 3 {
        "poster.jpg"@
    } else if i == 4 {
        "poster.png"@
    } else {
        "cover_old.jpg"@
    }
}

/// The ranked conventional cover file names, in priority order.
pub fn cover_candidate_names() -> (r: Vec<String>)
    ensures
        r@.len() == 6,
        forall|i: int| 0 <= i < 6 ==> r@[i]@ == #[trigger] cover_candidate(i),
{
    let mut v: Vec<String> = Vec::new();
    v.push("cover.jpg".to_owned());
    v.push("cover.jpeg".to_owned());
    v.push("cover.png".to_owned());
    v.push("poster.jpg".to_owned());
    v.push("poster.png".to_owned());
    v.push("cover_old.jpg".to_owned());
    v
}

/// Index of the first `true` at or after `i`, or the length if none.
pub open spec fn first_true(flags: Seq<bool>, i: int) -> int
    decreases flags.len() - i,
{
    if i < 0 || i >= flags.len() {
        flags.len() as int
    } else if flags[i] {
        i
    } else {
        first_true(flags, i + 1)
    }
}

/// The existing local cover, if any: the first present ranked candidate name,
/// else the naturally-first image file in the folder.  `flags[i]` tells
/// whether ranked candidate `i` exists as a file in `series_dir`.
pub fn choose_series_cover(series_dir: &str, flags: &Vec<bool>, entries: &Vec<DirEntry>) -> (r:
    Option<String>)
    requires
        flags@.len() == 6,
    ensures
        first_true(flags@, 0) < 6 ==> (r matches Some(p) && p@ == joined(
            series_dir@,
            cover_candidate(first_true(flags@, 0)),
        )),
        first_true(flags@, 0) == 6 && image_name_views(entries@).len() == 0 ==> r is None,
        first_true(flags@, 0) == 6 && image_name_views(entries@).len() > 0 ==> exists|
            imgs: Seq<String>,
        |
            #![auto]
            nat_sorted(imgs) && seq_views(imgs).to_multiset() == image_name_views(
                entries@,
            ).to_multiset() && imgs.len() > 0 && (r matches Some(p) && p@ == joined(
                series_dir@,
                imgs[0]@,
            )),
{
    let names = cover_candidate_names();
    let mut i: usize = 0;
    while i < 6
        invariant
            i <= 6,
            flags@.len() == 6,
            names@.len() == 6,
            forall|k: int| 0 <= k < 6 ==> names@[k]@ == #[trigger] cover_candidate(k),
            first_true(flags@, 0) == first_true(flags@, i as int),
        decreases 6 - i,
    {
        if flags[i] {
            proof {
                assert(first_true(flags@, i as int) == i);
            }
            return Some(join_path(series_dir, names[i].as_str()));
        }
        proof {
            assert(first_true(flags@, i as int) == first_true(flags@, i + 1));
        }
        i = i + 1;
    }
    proof {
        assert(first_true(flags@, 6) == 6);
    }
    let imgs = select_local_images(entries);
    proof {
        broadcast use vstd::seq_lib::group_to_multiset_ensures;

    }
    if imgs.len() > 0 {
        let p = join_path(series_dir, imgs[0].as_str());
        proof {
            assert(seq_views(imgs@).to_multiset().len() == image_name_views(
                entries@,
            ).to_multiset().len());
        }
        Some(p)
    } else {
        None
    }
}

/// The first-volume selection: the naturally-first volume archive of the
/// folder, when it is of a kind the extractor can open.  Returns the volume
/// file name, or the soft error explaining why extraction cannot start; both
/// empty when the folder has no volumes at all.
pub fn find_first_volume_cover(series_dir: &str, entries: &Vec<DirEntry>) -> (r: (
    Option<String>,
    Option<String>,
))
    ensures
        volume_name_views(entries@).len() == 0 ==> r.0 is None && r.1 is None,
        volume_name_views(entries@).len() > 0 ==> exists|vols: Seq<String>|
            #![auto]
            nat_sorted(vols) && seq_views(vols).to_multiset() == volume_name_views(
                entries@,
            ).to_multiset() && vols.len() > 0 && (if extract_supported(vols[0]@) {
                (r.0 matches Some(v) && v@ == vols[0]@) && r.1 is None
            } else {
                r.0 is None && (r.1 matches Some(m) && m@ == msg_bad_ext(vols[0]@))
            }),
{
    let vols = select_volumes(entries);
    proof {
        broadcast use vstd::seq_lib::group_to_multiset_ensures;

    }
    if vols.len() == 0 {
        return (None, None);
    }
    let first = vols[0].clone();
    let fv = chars_of(first.as_str());
    if crate::names::ends_ci_exec(&fv, ".cbz") || crate::names::ends_ci_exec(&fv, ".zip") {
        (Some(first), None)
    } else {
        (None, Some(bad_ext_message(first.as_str())))
    }
}

/// Builds the unsupported-extension message for a first volume `name`.
fn bad_ext_message(name: &str) -> (r: String)
    ensures
        r@ == msg_bad_ext(name@),
{
    let v = chars_of(name);
    let (_stem, ext) = crate::names::split_name(&v);
    let mut shown: String;
    if ext.len() == 0 {
        shown = "(none)".to_owned();
    } else {
        let low = to_lower_ascii(&ext);
        shown = crate::text::string_of(&low);
    }
    let mut s = "first volume is ".to_owned();
    s.append(shown.as_str());
    s.append(" (local extraction currently supports .cbz/.zip only)");
    s
}

/// The remote cascade's verdict over the providers' outcomes, in priority
/// order: the first hit wins and clears any earlier error; at exhaustion the
/// latest error, if any, is kept.
pub open spec fn remote_pick_from(outcomes: Seq<Result<Option<CoverResult>, String>>, i: int) -> (
    Option<CoverResult>,
    Option<String>,
)
    decreases outcomes.len() - i,
{
    if i < 0 || i >= outcomes.len() {
        (Option::None, Option::None)
    } else {
        match outcomes[i] {
            Result::Ok(opt) => match opt {
                Option::Some(c) => (Option::Some(c), Option::None),
                Option::None => remote_pick_from(outcomes, i + 1),
            },
            Result::Err(e) => {
                let rest = remote_pick_from(outcomes, i + 1);
                if rest.0 is Some {
                    rest
                } else if rest.1 is Some {
                    (Option::None, rest.1)
                } else {
                    (Option::None, Option::Some(e))
                }
            },
        }
    }
}

/// Two optional covers agree, compared by characters.
pub open spec fn opt_cover_eq(a: Option<CoverResult>, b: Option<CoverResult>) -> bool {
    match (a, b) {
        (Option::None, Option::None) => true,
        (Option::Some(x), Option::Some(y)) => x.source@ == y.source@ && x.url@ == y.url@,
        _ => false,
    }
}

/// Two optional strings agree, compared by characters.
pub open spec fn opt_str_eq(a: Option<String>, b: Option<String>) -> bool {
    match (a, b) {
        (Option::None, Option::None) => true,
        (Option::Some(x), Option::Some(y)) => x@ == y@,
        _ => false,
    }
}

/// Scans provider outcomes in priority order: the first found cover wins;
/// when all are exhausted, the last provider error (if any) is surfaced.
pub fn find_remote_cover(outcomes: &Vec<Result<Option<CoverResult>, String>>) -> (r: (
    Option<CoverResult>,
    Option<String>,
))
    ensures
        opt_cover_eq(r.0, remote_pick_from(outcomes@, 0).0),
        opt_str_eq(r.1, remote_pick_from(outcomes@, 0).1),
{
    remote_pick_exec(outcomes, 0)
}

/// Where the resolution protocol stands: which outcome it is waiting for.
#[derive(Debug)]
pub enum ResolvePhase {
    AwaitVolumes,
    AwaitArchive { volume: String },
    AwaitEntryBytes { volume: String, entry: String },
    AwaitCoverWrite { volume: String, entry: String },
    AwaitLocalFlags,
    AwaitLocalListing,
    AwaitProvider { index: u8 },
    AwaitDownload { source: String },
    Finished,
}

/// The resolver's state between steps.
#[derive(Debug)]
pub struct CoverResolver {
    pub series_dir: String,
    pub title: String,
    pub phase: ResolvePhase,
    pub first_vol_err: Option<String>,
    pub last_err: Option<String>,
}

/// The outcome of the operation the resolver last asked for.
#[derive(Debug)]
pub enum ResolveEvent {
    SeriesListing(Result<Vec<DirEntry>, String>),
    ArchiveEntries(Result<Vec<ZipEntry>, String>),
    EntryBytes(Result<Vec<u8>, String>),
    WriteDone(Result<(), String>),
    LocalFlags(Vec<bool>),
    LocalListing(Result<Vec<DirEntry>, String>),
    ProviderReply(Result<Option<CoverResult>, String>),
    DownloadDone(Result<(), String>),
}

/// What the host must do next.
#[derive(Debug)]
pub enum ResolveAction {
    /// List the series folder; answer with `SeriesListing`.
    ListSeriesDir,
    /// List the entries of the archive at `path`; answer with `ArchiveEntries`.
    ListArchive { path: String },
    /// Read `res.image_entry` out of `res.volume_file`; answer with `EntryBytes`.
    ExtractEntry { res: VolumeCoverResult },
    /// Write `data` to `path`; answer with `WriteDone`.
    WriteFile { path: String, data: Vec<u8> },
    /// Report which ranked cover names exist as files; answer with `LocalFlags`.
    ProbeLocalCovers,
    /// List the series folder again; answer with `LocalListing`.
    ListSeriesDirForImages,
    /// Query remote provider `index` for `title`; answer with `ProviderReply`.
    QueryProvider { index: u8, title: String },
    /// Download `url` to `path`; answer with `DownloadDone`.
    Download { url: String, path: String },
    /// Resolution is over: the cover path, `None` for "no cover", or the
    /// hard error from scanning the folder.
    Finish { cover: Result<Option<String>, String> },
}

/// One step's answer: the next action, and the log lines to emit.
pub struct ResolveOutput {
    pub action: ResolveAction,
    pub logs: Vec<String>,
}

/// The event kind each phase waits for.
pub open spec fn expects(phase: ResolvePhase, event: ResolveEvent) -> bool {
    match phase {
        ResolvePhase::AwaitVolumes => event is SeriesListing,
        ResolvePhase::AwaitArchive { .. } => event is ArchiveEntries,
        ResolvePhase::AwaitEntryBytes { .. } => event is EntryBytes,
        ResolvePhase::AwaitCoverWrite { .. } => event is WriteDone,
        ResolvePhase::AwaitLocalFlags => event matches ResolveEvent::LocalFlags(f) && f@.len()
            == 6,
        ResolvePhase::AwaitLocalListing => event is LocalListing,
        ResolvePhase::AwaitProvider { index } => event is ProviderReply && index < 3,
        ResolvePhase::AwaitDownload { .. } => event is DownloadDone,
        ResolvePhase::Finished => false,
    }
}

/// The view of an optional string.
pub open spec fn opt_view(o: Option<String>) -> Option<Seq<char>> {
    match o {
        Option::Some(s) => Option::Some(s@),
        Option::None => Option::None,
    }
}

/// Both resolvers describe the same series.
pub open spec fn same_core(pre: CoverResolver, post: CoverResolver) -> bool {
    post.series_dir@ == pre.series_dir@ && post.title@ == pre.title@
}

/// The step advanced to the local tier, recording `err` as the extraction
/// failure, and asks for the ranked-candidate probe.
pub open spec fn advances_to_local(
    pre: CoverResolver,
    post: CoverResolver,
    out: ResolveOutput,
    err: Option<Seq<char>>,
) -> bool {
    &&& same_core(pre, post)
    &&& post.phase is AwaitLocalFlags
    &&& opt_view(post.first_vol_err) == err
    &&& opt_view(post.last_err) == opt_view(pre.last_err)
    &&& out.action is ProbeLocalCovers
    &&& out.logs@.len() == 0
}

/// The step ended resolution: `cover` is the verdict.
pub open spec fn finishes_ok(
    pre: CoverResolver,
    post: CoverResolver,
    out: ResolveOutput,
    cover: Option<Seq<char>>,
) -> bool {
    &&& same_core(pre, post)
    &&& post.phase is Finished
    &&& match cover {
        Option::Some(p) => out.action matches ResolveAction::Finish { cover: c } && (
        c matches Result::Ok(o) && o matches Option::Some(q) && q@ == p),
        Option::None => out.action matches ResolveAction::Finish { cover: c } && (
        c matches Result::Ok(o) && o is None),
    }
}

/// Starts resolving a cover for `series_dir` (searched remotely as `title`).
/// The host's first task is to list the series folder.
pub fn start_cover_resolution(series_dir: String, title: String) -> (r: (
    CoverResolver,
    ResolveAction,
))
    ensures
        r.0.series_dir@ == series_dir@,
        r.0.title@ == title@,
        r.0.phase is AwaitVolumes,
        r.0.first_vol_err is None,
        r.0.last_err is None,
        r.1 is ListSeriesDir,
{
    (
        CoverResolver {
            series_dir,
            title,
            phase: ResolvePhase::AwaitVolumes,
            first_vol_err: None,
            last_err: None,
        },
        ResolveAction::ListSeriesDir,
    )
}

/// The series listing's verdict, judged against `vols`: the sorted volume
/// list.  No volumes falls through; a zip-family first volume starts the
/// archive listing; anything else records the unsupported-extension error.
pub open spec fn volumes_verdict(
    pre: CoverResolver,
    entries: Seq<DirEntry>,
    post: CoverResolver,
    out: ResolveOutput,
    vols: Seq<String>,
) -> bool {
    &&& nat_sorted(vols)
    &&& seq_views(vols).to_multiset() == volume_name_views(entries).to_multiset()
    &&& (if vols.len() == 0 {
        advances_to_local(pre, post, out, Option::None)
    } else if extract_supported(vols[0]@) {
        &&& same_core(pre, post)
        &&& post.phase matches ResolvePhase::AwaitArchive { volume } && volume@ == vols[0]@
        &&& opt_view(post.first_vol_err) == opt_view(pre.first_vol_err)
        &&& opt_view(post.last_err) == opt_view(pre.last_err)
        &&& out.action matches ResolveAction::ListArchive { path } && path@ == joined(
            pre.series_dir@,
            vols[0]@,
        )
        &&& out.logs@.len() == 0
    } else {
        advances_to_local(pre, post, out, Option::Some(msg_bad_ext(vols[0]@)))
    })
}

/// The archive listing's verdict, judged against `imgs`: the sorted image
/// entries.  No images records the soft error; otherwise the first entry is
/// extracted.
pub open spec fn archive_verdict(
    pre: CoverResolver,
    volume: Seq<char>,
    entries: Seq<ZipEntry>,
    post: CoverResolver,
    out: ResolveOutput,
    imgs: Seq<String>,
) -> bool {
    &&& nat_sorted(imgs)
    &&& seq_views(imgs).to_multiset() == zip_image_views(entries).to_multiset()
    &&& (if imgs.len() == 0 {
        advances_to_local(pre, post, out, Option::Some(msg_no_images(volume)))
    } else {
        &&& same_core(pre, post)
        &&& post.phase matches ResolvePhase::AwaitEntryBytes { volume: v2, entry } && v2@ == volume
            && entry@ == imgs[0]@
        &&& opt_view(post.first_vol_err) == opt_view(pre.first_vol_err)
        &&& opt_view(post.last_err) == opt_view(pre.last_err)
        &&& out.action matches ResolveAction::ExtractEntry { res: sel } && sel.volume_file@
            == joined(pre.series_dir@, volume) && sel.image_entry@ == imgs[0]@ && sel.output_file@
            == joined(pre.series_dir@, "cover.jpg"@)
        &&& out.logs@.len() == 0
    })
}

/// The second listing's verdict, judged against `imgs`: the sorted local
/// image files.  The naturally-first image wins; an empty folder moves on to
/// the remote providers.
pub open spec fn local_listing_verdict(
    pre: CoverResolver,
    entries: Seq<DirEntry>,
    post: CoverResolver,
    out: ResolveOutput,
    imgs: Seq<String>,
) -> bool {
    &&& nat_sorted(imgs)
    &&& seq_views(imgs).to_multiset() == image_name_views(entries).to_multiset()
    &&& (if imgs.len() > 0 {
        finishes_ok(pre, post, out, Option::Some(joined(pre.series_dir@, imgs[0]@)))
            && out.logs@.len() == 0
    } else {
        &&& same_core(pre, post)
        &&& post.phase matches ResolvePhase::AwaitProvider { index: 0u8 }
        &&& opt_view(post.first_vol_err) == opt_view(pre.first_vol_err)
        &&& opt_view(post.last_err) == opt_view(pre.last_err)
        &&& out.action matches ResolveAction::QueryProvider { index: 0u8, title } && title@
            == pre.title@
        &&& out.logs@.len() == 0
    })
}

/// A copy of an optional string with the same characters.
fn clone_opt_str(o: &Option<String>) -> (r: Option<String>)
    ensures
        opt_view(r) == opt_view(*o),
{
    match o {
        Some(s) => Some(s.clone()),
        None => None,
    }
}

/// The first present ranked candidate, as an index into the six names.
fn first_true_exec(flags: &Vec<bool>) -> (i: usize)
    requires
        flags@.len() == 6,
    ensures
        i as int == first_true(flags@, 0),
        i <= 6,
{
    let mut i: usize = 0;
    while i < 6
        invariant
            i <= 6,
            flags@.len() == 6,
            first_true(flags@, 0) == first_true(flags@, i as int),
        decreases 6 - i,
    {
        if flags[i] {
            proof {
                assert(first_true(flags@, i as int) == i);
            }
            return i;
        }
        proof {
            assert(first_true(flags@, i as int) == first_true(flags@, i + 1));
        }
        i = i + 1;
    }
    proof {
        assert(first_true(flags@, 6) == 6);
    }
    6
}

/// One step of the cover resolution protocol: strict priority order (first
/// volume extraction, then an existing local image, then remote providers),
/// each failure soft until every source is exhausted.
#[verifier::rlimit(100)]
pub fn ensure_series_cover(r: CoverResolver, event: ResolveEvent) -> (out: (
    CoverResolver,
    ResolveOutput,
))
    requires
        expects(r.phase, event),
    ensures
        // Tier 1a: the series listing chooses the first volume.
        r.phase is AwaitVolumes ==> (event matches ResolveEvent::SeriesListing(res) ==> match res {
            Result::Err(e) => advances_to_local(r, out.0, out.1, Option::Some(e@)),
            Result::Ok(entries) => exists|vols: Seq<String>|
                #[trigger] volumes_verdict(r, entries@, out.0, out.1, vols),
        }),
        // Tier 1b: the archive listing chooses the image entry.
        r.phase matches ResolvePhase::AwaitArchive { volume } ==> (event matches
            ResolveEvent::ArchiveEntries(res) ==> match res {
            Result::Err(e) => advances_to_local(r, out.0, out.1, Option::Some(e@)),
            Result::Ok(entries) => exists|imgs: Seq<String>|
                #[trigger] archive_verdict(r, volume@, entries@, out.0, out.1, imgs),
        }),
        // Tier 1c: the entry's bytes are transcoded to the cover JPEG.
        r.phase matches ResolvePhase::AwaitEntryBytes { volume, entry } ==> (event matches
            ResolveEvent::EntryBytes(res) ==> match res {
            Result::Err(e) => advances_to_local(r, out.0, out.1, Option::Some(e@)),
            Result::Ok(bytes) => (if decodes_ok(bytes@) && encodes_ok(bytes@) {
                &&& same_core(r, out.0)
                &&& out.0.phase matches ResolvePhase::AwaitCoverWrite { volume: v2, entry: e2 }
                    && v2@ == volume@ && e2@ == entry@
                &&& opt_view(out.0.first_vol_err) == opt_view(r.first_vol_err)
                &&& opt_view(out.0.last_err) == opt_view(r.last_err)
                &&& out.1.action matches ResolveAction::WriteFile { path, data } && path@
                    == joined(r.series_dir@, "cover.jpg"@) && data@ == jpeg95_of(bytes@)
                &&& out.1.logs@.len() == 0
            } else if !decodes_ok(bytes@) {
                advances_to_local(r, out.0, out.1, Option::Some(msg_decode_failed()))
            } else {
                advances_to_local(
                    r,
                    out.0,
                    out.1,
                    Option::Some(msg_encode_failed(joined(r.series_dir@, "cover.jpg"@))),
                )
            }),
        }),
        // Tier 1d: the cover file is on disk; extraction succeeded.
        r.phase matches ResolvePhase::AwaitCoverWrite { volume, entry } ==> (event matches
            ResolveEvent::WriteDone(res) ==> match res {
            Result::Err(e) => advances_to_local(r, out.0, out.1, Option::Some(e@)),
            Result::Ok(u) => {
                &&& finishes_ok(r, out.0, out.1, Option::Some(joined(r.series_dir@, "cover.jpg"@)))
                &&& out.1.logs@.len() == 1
                &&& out.1.logs@[0]@ == extract_log(r.series_dir@, volume@, entry@)
            },
        }),
        // Tier 2a: a ranked candidate file wins outright.
        r.phase is AwaitLocalFlags ==> (event matches ResolveEvent::LocalFlags(flags) ==> (if
        first_true(flags@, 0) < 6 {
            &&& finishes_ok(
                r,
                out.0,
                out.1,
                Option::Some(joined(r.series_dir@, cover_candidate(first_true(flags@, 0)))),
            )
            &&& out.1.logs@.len() == 0
        } else {
            &&& same_core(r, out.0)
            &&& out.0.phase is AwaitLocalListing
            &&& opt_view(out.0.first_vol_err) == opt_view(r.first_vol_err)
            &&& opt_view(out.0.last_err) == opt_view(r.last_err)
            &&& out.1.action is ListSeriesDirForImages
            &&& out.1.logs@.len() == 0
        })),
        // Tier 2b: else the naturally-first local image, else the remote tier.
        r.phase is AwaitLocalListing ==> (event matches ResolveEvent::LocalListing(res) ==> match
            res {
            Result::Err(e) => {
                &&& same_core(r, out.0)
                &&& out.0.phase is Finished
                &&& out.1.action matches ResolveAction::Finish { cover } && (
                cover matches Result::Err(m) && m@ == e@)
                &&& out.1.logs@.len() == 0
            },
            Result::Ok(entries) => exists|imgs: Seq<String>|
                #[trigger] local_listing_verdict(r, entries@, out.0, out.1, imgs),
        }),
        // Tier 3a: providers in fixed order; the first hit is downloaded.
        r.phase matches ResolvePhase::AwaitProvider { index } ==> (event matches
            ResolveEvent::ProviderReply(res) ==> match res {
            Result::Ok(opt) => match opt {
                Option::Some(c) => {
                    &&& same_core(r, out.0)
                    &&& out.0.phase matches ResolvePhase::AwaitDownload { source } && source@
                        == c.source@
                    &&& opt_view(out.0.first_vol_err) == opt_view(r.first_vol_err)
                    &&& opt_view(out.0.last_err) == opt_view(r.last_err)
                    &&& out.1.action matches ResolveAction::Download { url, path } && url@
                        == c.url@ && path@ == joined(r.series_dir@, "cover.jpg"@)
                    &&& out.1.logs@.len() == 0
                },
                Option::None => (if index < 2 {
                    &&& same_core(r, out.0)
                    &&& out.0.phase matches ResolvePhase::AwaitProvider { index: j } && j == index
                        + 1
                    &&& opt_view(out.0.first_vol_err) == opt_view(r.first_vol_err)
                    &&& opt_view(out.0.last_err) == opt_view(r.last_err)
                    &&& out.1.action matches ResolveAction::QueryProvider { index: j, title } && j
                        == index + 1 && title@ == r.title@
                    &&& out.1.logs@.len() == 0
                } else {
                    finishes_ok(r, out.0, out.1, Option::None) && logs_match(
                        out.1.logs@,
                        warn_logs(opt_view(r.first_vol_err), opt_view(r.last_err)),
                    )
                }),
            },
            Result::Err(e) => (if index < 2 {
                &&& same_core(r, out.0)
                &&& out.0.phase matches ResolvePhase::AwaitProvider { index: j } && j == index + 1
                &&& opt_view(out.0.first_vol_err) == opt_view(r.first_vol_err)
                &&& opt_view(out.0.last_err) == Option::Some(e@)
                &&& out.1.action matches ResolveAction::QueryProvider { index: j, title } && j
                    == index + 1 && title@ == r.title@
                &&& out.1.logs@.len() == 0
            } else {
                finishes_ok(r, out.0, out.1, Option::None) && logs_match(
                    out.1.logs@,
                    warn_logs(opt_view(r.first_vol_err), Option::Some(e@)),
                )
            }),
        }),
        // Tier 3b: the download settles resolution either way.
        r.phase matches ResolvePhase::AwaitDownload { source } ==> (event matches
            ResolveEvent::DownloadDone(res) ==> match res {
            Result::Ok(u) => {
                &&& finishes_ok(r, out.0, out.1, Option::Some(joined(r.series_dir@, "cover.jpg"@)))
                &&& out.1.logs@.len() == 1
                &&& out.1.logs@[0]@ == download_log(joined(r.series_dir@, "cover.jpg"@), source@)
            },
            Result::Err(e) => finishes_ok(r, out.0, out.1, Option::None) && logs_match(
                out.1.logs@,
                warn_logs(opt_view(r.first_vol_err), Option::Some(e@)),
            ),
        }),
{
    let dir = r.series_dir.clone();
    let ttl = r.title.clone();
    let fve = clone_opt_str(&r.first_vol_err);
    let lerr = clone_opt_str(&r.last_err);
    match (&r.phase, event) {
        (ResolvePhase::AwaitVolumes, ResolveEvent::SeriesListing(res)) => match res {
            Err(e) => to_local(dir, ttl, Some(e), lerr),
            Ok(entries) => {
                let vols = select_volumes(&entries);
                if vols.len() == 0 {
                    let out = to_local(dir, ttl, None, lerr);
                    proof {
                        assert(volumes_verdict(r, entries@, out.0, out.1, vols@));
                    }
                    out
                } else {
                    let first = vols[0].clone();
                    let fv = chars_of(first.as_str());
                    if crate::names::ends_ci_exec(&fv, ".cbz") || crate::names::ends_ci_exec(
                        &fv,
                        ".zip",
                    ) {
                        let path = join_path(dir.as_str(), first.as_str());
                        let out = (
                            CoverResolver {
                                series_dir: dir,
                                title: ttl,
                                phase: ResolvePhase::AwaitArchive { volume: first },
                                first_vol_err: fve,
                                last_err: lerr,
                            },
                            ResolveOutput {
                                action: ResolveAction::ListArchive { path },
                                logs: Vec::new(),
                            },
                        );
                        proof {
                            assert(volumes_verdict(r, entries@, out.0, out.1, vols@));
                        }
                        out
                    } else {
                        let msg = bad_ext_message(first.as_str());
                        let out = to_local(dir, ttl, Some(msg), lerr);
                        proof {
                            assert(volumes_verdict(r, entries@, out.0, out.1, vols@));
                        }
                        out
                    }
                }
            },
        },
        (ResolvePhase::AwaitArchive { volume }, ResolveEvent::ArchiveEntries(res)) => match res {
            Err(e) => to_local(dir, ttl, Some(e), lerr),
            Ok(entries) => {
                let imgs = select_zip_images(&entries);
                if imgs.len() == 0 {
                    let mut msg = "no image files found in first volume archive: ".to_owned();
                    msg.append(volume.as_str());
                    let out = to_local(dir, ttl, Some(msg), lerr);
                    proof {
                        assert(archive_verdict(r, volume@, entries@, out.0, out.1, imgs@));
                    }
                    out
                } else {
                    let entry = imgs[0].clone();
                    let sel = VolumeCoverResult {
                        volume_file: join_path(dir.as_str(), volume.as_str()),
                        image_entry: entry.clone(),
                        output_file: join_path(dir.as_str(), "cover.jpg"),
                    };
                    let out = (
                        CoverResolver {
                            series_dir: dir,
                            title: ttl,
                            phase: ResolvePhase::AwaitEntryBytes {
                                volume: volume.clone(),
                                entry,
                            },
                            first_vol_err: fve,
                            last_err: lerr,
                        },
                        ResolveOutput {
                            action: ResolveAction::ExtractEntry { res: sel },
                            logs: Vec::new(),
                        },
                    );
                    proof {
                        assert(archive_verdict(r, volume@, entries@, out.0, out.1, imgs@));
                    }
                    out
                }
            },
        },
        (ResolvePhase::AwaitEntryBytes { volume, entry }, ResolveEvent::EntryBytes(res)) => match
            res {
            Err(e) => to_local(dir, ttl, Some(e), lerr),
            Ok(bytes) => match transcode_to_jpeg(&bytes) {
                Ok(data) => {
                    let path = join_path(dir.as_str(), "cover.jpg");
                    (
                        CoverResolver {
                            series_dir: dir,
                            title: ttl,
                            phase: ResolvePhase::AwaitCoverWrite {
                                volume: volume.clone(),
                                entry: entry.clone(),
                            },
                            first_vol_err: fve,
                            last_err: lerr,
                        },
                        ResolveOutput {
                            action: ResolveAction::WriteFile { path, data },
                            logs: Vec::new(),
                        },
                    )
                },
                Err(TranscodeFailure::Decode) => {
                    let msg = "failed to decode image from archive".to_owned();
                    to_local(dir, ttl, Some(msg), lerr)
                },
                Err(TranscodeFailure::Encode) => {
                    let mut msg = "failed to encode JPEG: ".to_owned();
                    let path = join_path(dir.as_str(), "cover.jpg");
                    msg.append(path.as_str());
                    to_local(dir, ttl, Some(msg), lerr)
                },
            },
        },
        (ResolvePhase::AwaitCoverWrite { volume, entry }, ResolveEvent::WriteDone(res)) => match
            res {
            Err(e) => to_local(dir, ttl, Some(e), lerr),
            Ok(_u) => {
                let cover = join_path(dir.as_str(), "cover.jpg");
                let mut line = "[COVER] Extracted series cover from first volume: ".to_owned();
                line.append(cover.as_str());
                line.append(" (source=");
                line.append(volume.as_str());
                line.append(":");
                line.append(entry.as_str());
                line.append(")");
                let mut logs: Vec<String> = Vec::new();
                logs.push(line);
                (
                    CoverResolver {
                        series_dir: dir,
                        title: ttl,
                        phase: ResolvePhase::Finished,
                        first_vol_err: fve,
                        last_err: lerr,
                    },
                    ResolveOutput { action: ResolveAction::Finish { cover: Ok(Some(cover)) }, logs },
                )
            },
        },
        (ResolvePhase::AwaitLocalFlags, ResolveEvent::LocalFlags(flags)) => {
            let names = cover_candidate_names();
            let i = first_true_exec(&flags);
            if i < 6 {
                let cover = join_path(dir.as_str(), names[i].as_str());
                (
                    CoverResolver {
                        series_dir: dir,
                        title: ttl,
                        phase: ResolvePhase::Finished,
                        first_vol_err: fve,
                        last_err: lerr,
                    },
                    ResolveOutput {
                        action: ResolveAction::Finish { cover: Ok(Some(cover)) },
                        logs: Vec::new(),
                    },
                )
            } else {
                (
                    CoverResolver {
                        series_dir: dir,
                        title: ttl,
                        phase: ResolvePhase::AwaitLocalListing,
                        first_vol_err: fve,
                        last_err: lerr,
                    },
                    ResolveOutput {
                        action: ResolveAction::ListSeriesDirForImages,
                        logs: Vec::new(),
                    },
                )
            }
        },
        (ResolvePhase::AwaitLocalListing, ResolveEvent::LocalListing(res)) => match res {
            Err(e) => (
                CoverResolver {
                    series_dir: dir,
                    title: ttl,
                    phase: ResolvePhase::Finished,
                    first_vol_err: fve,
                    last_err: lerr,
                },
                ResolveOutput { action: ResolveAction::Finish { cover: Err(e) }, logs: Vec::new() },
            ),
            Ok(entries) => {
                let imgs = select_local_images(&entries);
                if imgs.len() > 0 {
                    let cover = join_path(dir.as_str(), imgs[0].as_str());
                    let out = (
                        CoverResolver {
                            series_dir: dir,
                            title: ttl,
                            phase: ResolvePhase::Finished,
                            first_vol_err: fve,
                            last_err: lerr,
                        },
                        ResolveOutput {
                            action: ResolveAction::Finish { cover: Ok(Some(cover)) },
                            logs: Vec::new(),
                        },
                    );
                    proof {
                        assert(local_listing_verdict(r, entries@, out.0, out.1, imgs@));
                    }
                    out
                } else {
                    let out = (
                        CoverResolver {
                            series_dir: dir,
                            title: ttl,
                            phase: ResolvePhase::AwaitProvider { index: 0 },
                            first_vol_err: fve,
                            last_err: lerr,
                        },
                        ResolveOutput {
                            action: ResolveAction::QueryProvider { index: 0, title: r.title.clone() },
                            logs: Vec::new(),
                        },
                    );
                    proof {
                        assert(local_listing_verdict(r, entries@, out.0, out.1, imgs@));
                    }
                    out
                }
            },
        },
        (ResolvePhase::AwaitProvider { index }, ResolveEvent::ProviderReply(res)) => match res {
            Ok(opt) => match opt {
                Some(c) => {
                    let path = join_path(dir.as_str(), "cover.jpg");
                    (
                        CoverResolver {
                            series_dir: dir,
                            title: ttl,
                            phase: ResolvePhase::AwaitDownload { source: c.source },
                            first_vol_err: fve,
                            last_err: lerr,
                        },
                        ResolveOutput {
                            action: ResolveAction::Download { url: c.url, path },
                            logs: Vec::new(),
                        },
                    )
                },
                None => {
                    if *index < 2 {
                        (
                            CoverResolver {
                                series_dir: dir,
                                title: ttl,
                                phase: ResolvePhase::AwaitProvider { index: *index + 1 },
                                first_vol_err: fve,
                                last_err: lerr,
                            },
                            ResolveOutput {
                                action: ResolveAction::QueryProvider {
                                    index: *index + 1,
                                    title: r.title.clone(),
                                },
                                logs: Vec::new(),
                            },
                        )
                    } else {
                        finish_exhausted(dir, ttl, fve, lerr)
                    }
                },
            },
            Err(e) => {
                if *index < 2 {
                    (
                        CoverResolver {
                            series_dir: dir,
                            title: ttl,
                            phase: ResolvePhase::AwaitProvider { index: *index + 1 },
                            first_vol_err: fve,
                            last_err: Some(e),
                        },
                        ResolveOutput {
                            action: ResolveAction::QueryProvider {
                                index: *index + 1,
                                title: r.title.clone(),
                            },
                            logs: Vec::new(),
                        },
                    )
                } else {
                    finish_exhausted(dir, ttl, fve, Some(e))
                }
            },
        },
        (ResolvePhase::AwaitDownload { source }, ResolveEvent::DownloadDone(res)) => match res {
            Ok(_u) => {
                let cover = join_path(dir.as_str(), "cover.jpg");
                let mut line = "[COVER] Downloaded series cover: ".to_owned();
                line.append(cover.as_str());
                line.append(" (source=");
                line.append(source.as_str());
                line.append(")");
                let mut logs: Vec<String> = Vec::new();
                logs.push(line);
                (
                    CoverResolver {
                        series_dir: dir,
                        title: ttl,
                        phase: ResolvePhase::Finished,
                        first_vol_err: fve,
                        last_err: lerr,
                    },
                    ResolveOutput { action: ResolveAction::Finish { cover: Ok(Some(cover)) }, logs },
                )
            },
            Err(e) => finish_exhausted(dir, ttl, fve, Some(e)),
        },
        _ => {
            proof {
                assert(false);
            }
            unreached()
        },
    }
}

/// Advances to the local tier with `err` recorded as the extraction failure.
fn to_local(
    series_dir: String,
    title: String,
    first_vol_err: Option<String>,
    last_err: Option<String>,
) -> (out: (CoverResolver, ResolveOutput))
    ensures
        out.0.series_dir@ == series_dir@,
        out.0.title@ == title@,
        out.0.phase is AwaitLocalFlags,
        out.0.first_vol_err == first_vol_err,
        out.0.last_err == last_err,
        out.1.action is ProbeLocalCovers,
        out.1.logs@.len() == 0,
{
    (
        CoverResolver {
            series_dir,
            title,
            phase: ResolvePhase::AwaitLocalFlags,
            first_vol_err,
            last_err,
        },
        ResolveOutput { action: ResolveAction::ProbeLocalCovers, logs: Vec::new() },
    )
}

/// Ends resolution with "no cover", emitting the accumulated warnings.
fn finish_exhausted(
    series_dir: String,
    title: String,
    first_vol_err: Option<String>,
    last_err: Option<String>,
) -> (out: (CoverResolver, ResolveOutput))
    ensures
        out.0.series_dir@ == series_dir@,
        out.0.title@ == title@,
        out.0.phase is Finished,
        out.1.action matches ResolveAction::Finish { cover } && (cover matches Result::Ok(o)
            && o is None),
        logs_match(out.1.logs@, warn_logs(opt_view(first_vol_err), opt_view(last_err))),
{
    let mut logs: Vec<String> = Vec::new();
    match &first_vol_err {
        Some(e) => {
            let mut line = "[WARN] Failed to extract first-volume cover. Last error: ".to_owned();
            line.append(e.as_str());
            logs.push(line);
        },
        None => {},
    }
    match &last_err {
        Some(e) => {
            let mut line = "[WARN] Failed to download series cover. Last error: ".to_owned();
            line.append(e.as_str());
            logs.push(line);
        },
        None => {
            logs.push("[WARN] Failed to download series cover (no results).".to_owned());
        },
    }
    proof {
        assert(logs_match(logs@, warn_logs(opt_view(first_vol_err), opt_view(last_err))));
    }
    (
        CoverResolver {
            series_dir,
            title,
            phase: ResolvePhase::Finished,
            first_vol_err,
            last_err,
        },
        ResolveOutput { action: ResolveAction::Finish { cover: Ok(None) }, logs },
    )
}

fn remote_pick_exec(outcomes: &Vec<Result<Option<CoverResult>, String>>, i: usize) -> (r: (
    Option<CoverResult>,
    Option<String>,
))
    requires
        i <= outcomes@.len(),
    ensures
        opt_cover_eq(r.0, remote_pick_from(outcomes@, i as int).0),
        opt_str_eq(r.1, remote_pick_from(outcomes@, i as int).1),
    decreases outcomes@.len() - i,
{
    if i >= outcomes.len() {
        return (None, None);
    }
    match &outcomes[i] {
        Ok(opt) => match opt {
            Some(c) => (Some(c.duplicate()), None),
            None => remote_pick_exec(outcomes, i + 1),
        },
        Err(e) => {
            let rest = remote_pick_exec(outcomes, i + 1);
            match rest.0 {
                Some(c) => (Some(c), rest.1),
                None => match rest.1 {
                    Some(err) => (None, Some(err)),
                    None => (None, Some(e.clone())),
                },
            }
        },
    }
}


/// Cover source priority is strict.  Whenever the series listing shows a
/// supported first volume — whatever else the folder holds, a `cover.jpg`
/// included — the resolver's next move is to open that archive: it neither
/// probes the local candidate files nor queries any remote provider, and it
/// does not finish.
pub proof fn law_first_volume_priority(
    pre: CoverResolver,
    entries: Seq<DirEntry>,
    post: CoverResolver,
    out: ResolveOutput,
    vols: Seq<String>,
)
    requires
        volumes_verdict(pre, entries, post, out, vols),
        vols.len() > 0,
        extract_supported(vols[0]@),
    ensures
        post.phase is AwaitArchive,
        out.action is ListArchive,
        !(out.action is ProbeLocalCovers),
        !(out.action is QueryProvider),
        !(out.action is Finish),
{
}

} // verus!
