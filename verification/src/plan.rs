//! Batch planning and execution: canonical renaming of volumes into
//! fixed-size numbered batch folders, the plan report, the ordered list of
//! filesystem steps a run performs, and the per-batch cover writing plan.

use vstd::prelude::*;

use crate::clean::{clean_name, clean_volume_filename, trim_ws};
use crate::names::{cover_old_name, joined, join_path, leaf_of, numbered_name, parent_of,
    unique_cover_old_path, unique_path_reserved};
use crate::text::{contains_string, contains_view, dec, repeat_char, repeat_ch, u64_string,
    usize_string};

verus! {

/// Volumes per batch folder.
pub const FILES_PER_FOLDER: usize = 20;

/// The three operations the interface offers.
#[derive(Debug, Clone, Copy, PartialEq, Eq, Structural)]
pub enum UiAction {
    ShowCover,
    Preview,
    Process,
}

impl UiAction {
    /// The button label for this action.
    pub fn label(self) -> (r: &'static str)
        ensures
            self == UiAction::ShowCover ==> r@ == "Show Cover"@,
            self == UiAction::Preview ==> r@ == "Show Plan"@,
            self == UiAction::Process ==> r@ == "Commit + Process"@,
    {
        match self {
            UiAction::ShowCover => "Show Cover",
            UiAction::Preview => "Show Plan",
            UiAction::Process => "Commit + Process",
        }
    }

    /// The headline for this action.
    pub fn action_title(self) -> (r: &'static str)
        ensures
            self == UiAction::ShowCover ==> r@ == "SHOW COVER"@,
            self == UiAction::Preview ==> r@ == "SHOW PLAN"@,
            self == UiAction::Process ==> r@ == "COMMIT + PROCESS"@,
    {
        match self {
            UiAction::ShowCover => "SHOW COVER",
            UiAction::Preview => "SHOW PLAN",
            UiAction::Process => "COMMIT + PROCESS",
        }
    }
}

/// One planned rename: full source and destination paths, and the
/// destination file name.
#[derive(Debug, Clone)]
pub struct FileMove {
    pub src: String,
    pub dst: String,
    pub dst_name: String,
}

/// One planned batch folder.
#[derive(Debug, Clone)]
pub struct BatchPlan {
    pub batch_index: usize,
    pub batch_dir: String,
    pub moves: Vec<FileMove>,
    pub will_make_cover: bool,
}

/// What an action run hands back to the interface.
#[derive(Debug, Clone)]
pub struct ActionOutput {
    pub action: UiAction,
    pub cover_path: Option<String>,
}

/// Expansion of a leading `~` against the home directory, after trimming;
/// an empty trimmed path is rejected.
pub open spec fn expanded_path(path: Seq<char>, home: Option<Seq<char>>) -> Seq<char> {
    let t = trim_ws(path);
    match home {
        Option::Some(h) => {
            if t =~= "~"@ {
                h
            } else if t.len() >= 2 && t.take(2) =~= "~/"@ {
                h + "/"@ + t.skip(2)
            } else {
                t
            }
        },
        Option::None => t,
    }
}

/// Trims the folder path and expands a leading `~` against `home`; the
/// caller still resolves and checks the result on disk.  An empty path is
/// rejected outright.
pub fn resolve_series_dir(path: &str, home: &Option<String>) -> (r: Result<String, String>)
    ensures
        trim_ws(path@).len() == 0 <==> r is Err,
        r matches Err(m) ==> m@ == "Folder path is empty."@,
        r matches Ok(p) ==> p@ == expanded_path(
            path@,
            match *home {
                Option::Some(h) => Option::Some(h@),
                Option::None => Option::None,
            },
        ),
{
    let pv = crate::text::chars_of(path);
    let t = trim_chars(&pv);
    if t.len() == 0 {
        return Err("Folder path is empty.".to_owned());
    }
    match home {
        Some(h) => {
            if t.len() == 1 && t[0] == '~' {
                proof {
                    assert(t@ =~= "~"@) by {
                        reveal_strlit("~");
                    }
                }
                Ok(h.clone())
            } else if t.len() >= 2 && t[0] == '~' && t[1] == '/' {
                proof {
                    assert(t@.take(2) =~= "~/"@) by {
                        reveal_strlit("~/");
                    }
                }
                let rest = crate::names::sub_vec(&t, 2, t.len());
                let mut s = h.clone();
                s.append("/");
                let tail = crate::text::string_of(&rest);
                s.append(tail.as_str());
                proof {
                    assert(t@.subrange(2, t@.len() as int) =~= t@.skip(2));
                    reveal_strlit("~");
                    assert(!(t@ =~= "~"@));
                }
                Ok(s)
            } else {
                proof {
                    reveal_strlit("~");
                    reveal_strlit("~/");
                    if t@ =~= "~"@ {
                        assert(t@.len() == 1 && t@[0] == '~');
                        assert(false);
                    }
                    if t@.len() >= 2 && t@.take(2) =~= "~/"@ {
                        assert(t@.take(2)[0] == t@[0] && t@.take(2)[1] == t@[1]);
                        assert("~/"@[0] == '~' && "~/"@[1] == '/');
                        assert(false);
                    }
                }
                Ok(crate::text::string_of(&t))
            }
        },
        None => Ok(crate::text::string_of(&t)),
    }
}

/// Whitespace trimmed from both ends of `v`.
fn trim_chars(v: &Vec<char>) -> (r: Vec<char>)
    ensures
        r@ == trim_ws(v@),
{
    crate::clean::trim_ws_exec(v)
}

/// How many batches `n` volumes make.
pub open spec fn batch_count(n: nat) -> nat {
    (n + 19) / 20
}

/// How many volumes batch `i` (0-based) holds.
pub open spec fn batch_size(n: nat, i: nat) -> nat {
    if 20 * i + 20 <= n {
        20
    } else {
        (n - 20 * i) as nat
    }
}

/// The name of batch folder `idx` (1-based): the series leaf, a space, and
/// the number.
pub open spec fn batch_dir_name(series_dir: Seq<char>, idx: nat) -> Seq<char> {
    leaf_of(series_dir) + " "@ + dec(idx)
}

/// The error for a folder with nothing to batch.
pub open spec fn msg_no_volumes(dir: Seq<char>) -> Seq<char> {
    "No volume files found in: "@ + dir
}

/// The error for a series folder without a parent.
pub open spec fn msg_no_parent(dir: Seq<char>) -> Seq<char> {
    "Series folder has no parent: "@ + dir
}

/// The shape of a correct plan for `volumes` (sorted volume file names):
/// ceil(n/20) batches named after the series, each holding renames of its
/// consecutive 20-volume group to cleaned, collision-free names.
pub open spec fn plan_shape(
    series_dir: Seq<char>,
    volumes: Seq<String>,
    batch_existing: Seq<Vec<String>>,
    has_cover: bool,
    plan: Seq<BatchPlan>,
) -> bool {
    &&& plan.len() == batch_count(volumes.len() as nat)
    &&& forall|i: int|
        0 <= i < plan.len() ==> batch_ok(
            series_dir,
            volumes,
            batch_existing,
            has_cover,
            #[trigger] plan[i],
            i,
        )
}

/// The batch folders that a plan for `n_volumes` volumes will use, so their
/// current contents can be listed before planning.
pub fn batch_dirs(series_dir: &str, n_volumes: usize) -> (r: Result<Vec<String>, String>)
    ensures
        parent_of(series_dir@) is None <==> r is Err,
        r matches Err(m) ==> m@ == msg_no_parent(series_dir@),
        r matches Ok(dirs) ==> dirs@.len() == batch_count(n_volumes as nat) && forall|i: int|
            0 <= i < dirs@.len() ==> (#[trigger] dirs@[i])@ == joined(
                parent_of(series_dir@)->Some_0,
                batch_dir_name(series_dir@, (i + 1) as nat),
            ),
{
    let parent = match crate::names::parent_dir(series_dir) {
        Some(p) => p,
        None => {
            let mut m = "Series folder has no parent: ".to_owned();
            m.append(series_dir);
            return Err(m);
        },
    };
    let leaf = crate::names::file_name_text(series_dir);
    let count = n_volumes / 20 + (if n_volumes % 20 != 0 {
        1
    } else {
        0
    });
    proof {
        assert(count as int == (n_volumes as int + 19) / 20) by (nonlinear_arith)
            requires
                count as int == n_volumes as int / 20 + (if n_volumes as int % 20 != 0 {
                    1int
                } else {
                    0int
                }),
        ;
    }
    let mut dirs: Vec<String> = Vec::new();
    let mut i: usize = 0;
    while i < count
        invariant
            i <= count,
            count == batch_count(n_volumes as nat),
            parent_of(series_dir@) matches Option::Some(pp) && pp == parent@,
            leaf@ == leaf_of(series_dir@),
            dirs@.len() == i,
            forall|k: int|
                0 <= k < i ==> (#[trigger] dirs@[k])@ == joined(
                    parent_of(series_dir@)->Some_0,
                    batch_dir_name(series_dir@, (k + 1) as nat),
                ),
        decreases count - i,
    {
        let num = usize_string(i + 1);
        let mut name = leaf.clone();
        name.append(" ");
        name.append(num.as_str());
        let d = join_path(parent.as_str(), name.as_str());
        proof {
            assert(name@ == batch_dir_name(series_dir@, (i + 1) as nat));
        }
        dirs.push(d);
        i = i + 1;
    }
    Ok(dirs)
}

/// Plans the batches: volume `20*i + j` (naturally sorted) is renamed into
/// batch folder `i+1` under its cleaned name, suffixed `(k)` on collisions
/// with the folder's current contents or earlier planned names.  Fails when
/// there are no volumes, or the series folder has no parent.
pub fn build_plan(
    series_dir: &str,
    volumes: &Vec<String>,
    batch_existing: &Vec<Vec<String>>,
    has_cover: bool,
) -> (r: Result<Vec<BatchPlan>, String>)
    requires
        batch_existing@.len() == batch_count(volumes@.len() as nat),
        forall|i: int|
            0 <= i < batch_existing@.len() ==> (#[trigger] batch_existing@[i])@.len() + 22
                < u64::MAX,
    ensures
        volumes@.len() == 0 ==> (r matches Err(m) && m@ == msg_no_volumes(series_dir@)),
        volumes@.len() > 0 && parent_of(series_dir@) is None ==> (r matches Err(m) && m@
            == msg_no_parent(series_dir@)),
        volumes@.len() > 0 && parent_of(series_dir@) is Some ==> (r matches Ok(plan)
            && plan_shape(series_dir@, volumes@, batch_existing@, has_cover, plan@)),
{
    if volumes.len() == 0 {
        let mut m = "No volume files found in: ".to_owned();
        m.append(series_dir);
        return Err(m);
    }
    let dirs = match batch_dirs(series_dir, volumes.len()) {
        Ok(d) => d,
        Err(m) => {
            return Err(m);
        },
    };
    let count = dirs.len();
    proof {
        assert(count == batch_count(volumes@.len() as nat));
    }
    let mut plan: Vec<BatchPlan> = Vec::new();
    let nv = volumes.len();
    let mut i: usize = 0;
    while i < count
        invariant
            i <= count,
            nv == volumes@.len(),
            count == batch_count(volumes@.len() as nat),
            count == dirs@.len(),
            volumes@.len() > 0,
            batch_existing@.len() == count,
            forall|k: int|
                0 <= k < batch_existing@.len() ==> (#[trigger] batch_existing@[k])@.len() + 22
                    < u64::MAX,
            parent_of(series_dir@) is Some,
            forall|k: int|
                0 <= k < count ==> (#[trigger] dirs@[k])@ == joined(
                    parent_of(series_dir@)->Some_0,
                    batch_dir_name(series_dir@, (k + 1) as nat),
                ),
            plan@.len() == i,
            forall|k: int|
                0 <= k < i ==> batch_ok(
                    series_dir@,
                    volumes@,
                    batch_existing@,
                    has_cover,
                    #[trigger] plan@[k],
                    k,
                ),
        decreases count - i,
    {
        let ghost n: int = volumes@.len() as int;
        let ghost ii: int = i as int;
        proof {
            assert(batch_count(volumes@.len() as nat) == (n + 19) / 20);
            assert(20 * ii < n) by (nonlinear_arith)
                requires
                    0 <= ii,
                    ii < (n + 19) / 20,
                    n > 0,
            ;
        }
        let start: usize = i * 20;
        let size: usize = if nv - start >= 20 {
            20
        } else {
            nv - start
        };
        let mut reserved: Vec<String> = Vec::new();
        let mut moves: Vec<FileMove> = Vec::new();
        let mut j: usize = 0;
        while j < size
            invariant
                j <= size,
                nv == volumes@.len(),
                start == 20 * i,
                i < count,
                count == batch_existing@.len(),
                size == batch_size(volumes@.len() as nat, i as nat),
                start + size <= volumes@.len(),
                (batch_existing@[i as int])@.len() + 22 < u64::MAX,
                reserved@.len() == j,
                moves@.len() == j,
                count == dirs@.len(),
                forall|k: int|
                    0 <= k < j ==> (#[trigger] moves@[k]).src@ == joined(
                        series_dir@,
                        volumes@[20 * (i as int) + k]@,
                    ) && moves@[k].dst@ == joined(dirs@[i as int]@, moves@[k].dst_name@) && (
                    moves@[k].dst_name@ == clean_name(volumes@[20 * (i as int) + k]@, true)
                        || exists|q: nat|
                        2 <= q && moves@[k].dst_name@ == #[trigger] numbered_name(
                            clean_name(volumes@[20 * (i as int) + k]@, true),
                            q,
                        )) && !contains_view((batch_existing@[i as int])@, moves@[k].dst_name@),
                forall|k: int| 0 <= k < j ==> (#[trigger] reserved@[k])@ == moves@[k].dst_name@,
                forall|k1: int, k2: int|
                    0 <= k1 < k2 < j ==> (#[trigger] moves@[k1]).dst_name@ != (
                    #[trigger] moves@[k2]).dst_name@,
            decreases size - j,
        {
            let vol = &volumes[start + j];
            let cleaned = clean_volume_filename(vol.as_str(), true);
            let ghost reserved_pre = reserved@;
            let dst_name = unique_path_reserved(&batch_existing[i], cleaned.as_str(), &mut reserved);
            let dst = join_path(dirs[i].as_str(), dst_name.as_str());
            let src = join_path(series_dir, vol.as_str());
            proof {
                assert(!contains_view(reserved_pre, dst_name@));
                assert forall|k: int| 0 <= k < j implies moves@[k].dst_name@ != dst_name@ by {
                    assert(reserved_pre[k]@ == moves@[k].dst_name@);
                    if moves@[k].dst_name@ == dst_name@ {
                        assert(contains_view(reserved_pre, dst_name@));
                    }
                }
            }
            moves.push(FileMove { src, dst, dst_name });
            j = j + 1;
        }
        let b = BatchPlan {
            batch_index: i + 1,
            batch_dir: dirs[i].clone(),
            moves,
            will_make_cover: has_cover,
        };
        proof {
            assert(batch_ok(series_dir@, volumes@, batch_existing@, has_cover, b, i as int));
        }
        plan.push(b);
        i = i + 1;
    }
    proof {
        assert(plan_shape(series_dir@, volumes@, batch_existing@, has_cover, plan@));
    }
    Ok(plan)
}

/// Batch `i` of a plan is correct for its volume group.
pub open spec fn batch_ok(
    series_dir: Seq<char>,
    volumes: Seq<String>,
    batch_existing: Seq<Vec<String>>,
    has_cover: bool,
    b: BatchPlan,
    i: int,
) -> bool {
    &&& b.batch_index == i + 1
    &&& b.batch_dir@ == joined(
        parent_of(series_dir)->Some_0,
        batch_dir_name(series_dir, (i + 1) as nat),
    )
    &&& b.will_make_cover == has_cover
    &&& b.moves@.len() == batch_size(volumes.len() as nat, i as nat)
    &&& forall|j: int|
        0 <= j < b.moves@.len() ==> {
            let m = #[trigger] b.moves@[j];
            &&& m.src@ == joined(series_dir, volumes[20 * i + j]@)
            &&& m.dst@ == joined(b.batch_dir@, m.dst_name@)
            &&& (m.dst_name@ == clean_name(volumes[20 * i + j]@, true) || exists|k: nat|
                2 <= k && m.dst_name@ == #[trigger] numbered_name(
                    clean_name(volumes[20 * i + j]@, true),
                    k,
                ))
            &&& !contains_view(batch_existing[i]@, m.dst_name@)
        }
    &&& forall|j1: int, j2: int|
        0 <= j1 < j2 < b.moves@.len() ==> (#[trigger] b.moves@[j1]).dst_name@ != (
        #[trigger] b.moves@[j2]).dst_name@
}


/// One step a committed run performs, in order.
#[derive(Debug, Clone)]
pub enum ExecStep {
    /// Create the directory (and its parents) if absent.
    MakeDir(String),
    /// Emit this log line.
    Note(String),
    /// Move (rename) `src` to `dst`.
    MoveFile { src: String, dst: String },
    /// Render the numbered cover for this batch folder.
    RenderCover { batch_dir: String, number: usize },
    /// Re-encode the image at `src` as the canonical baseline JPEG at `dst`.
    ConvertCover { src: String, dst: String },
}

/// `step` is the log line `text`.
pub open spec fn is_note(step: ExecStep, text: Seq<char>) -> bool {
    step matches ExecStep::Note(t) && t@ == text
}

/// The banner line of a batch.
pub open spec fn do_line(idx: nat, batch_dir: Seq<char>) -> Seq<char> {
    "[DO] Batch "@ + dec(idx) + ": "@ + leaf_of(batch_dir)
}

/// The per-move log line.
pub open spec fn move_note(k: nat, total: nat, src: Seq<char>, dst_name: Seq<char>) -> Seq<char> {
    "[MOVE] ("@ + dec(k) + "/"@ + dec(total) + ") "@ + leaf_of(src) + " -> "@ + dst_name
}

/// The cover log line of a batch.
pub open spec fn cover_note(idx: nat) -> Seq<char> {
    "[COVER] Rendering cover.jpg (batch number "@ + dec(idx) + ")"@
}

/// Steps a batch contributes: directory creation, banner lines, one log and
/// one move per file, and (with a cover) the render log and the render step.
pub open spec fn seg_len(b: BatchPlan, has_cover: bool) -> int {
    5 + 2 * b.moves@.len() + if has_cover {
        2int
    } else {
        0int
    }
}

/// The first `seg_len` entries of `steps` perform batch `b`.
pub open spec fn segment_head_ok(steps: Seq<ExecStep>, b: BatchPlan, has_cover: bool) -> bool {
    &&& steps.len() >= seg_len(b, has_cover)
    &&& steps[0] matches ExecStep::MakeDir(d) && d@ == b.batch_dir@
    &&& is_note(steps[1], Seq::empty())
    &&& is_note(steps[2], repeat_ch('-', 98))
    &&& is_note(steps[3], do_line(b.batch_index as nat, b.batch_dir@))
    &&& is_note(steps[4], repeat_ch('-', 98))
    &&& forall|k: int|
        0 <= k < b.moves@.len() ==> is_note(
            #[trigger] steps[5 + 2 * k],
            move_note(
                (k + 1) as nat,
                b.moves@.len() as nat,
                b.moves@[k].src@,
                b.moves@[k].dst_name@,
            ),
        ) && (steps[5 + 2 * k + 1] matches ExecStep::MoveFile { src, dst } && src@
            == b.moves@[k].src@ && dst@ == b.moves@[k].dst@)
    &&& (has_cover ==> is_note(
        steps[5 + 2 * b.moves@.len() as int],
        cover_note(b.batch_index as nat),
    ) && (steps[6 + 2 * b.moves@.len() as int] matches ExecStep::RenderCover { batch_dir, number }
        && batch_dir@ == b.batch_dir@ && number == b.batch_index))
}

/// `steps` performs the batches of `plan` in order, then reports completion.
pub open spec fn steps_for(plan: Seq<BatchPlan>, has_cover: bool, steps: Seq<ExecStep>) -> bool
    decreases plan.len(),
{
    if plan.len() == 0 {
        steps.len() == 1 && is_note(steps[0], "[COMPLETE] Done."@)
    } else {
        &&& segment_head_ok(steps, plan[0], has_cover)
        &&& steps_for(plan.drop_first(), has_cover, steps.skip(seg_len(plan[0], has_cover)))
    }
}

/// A plan without covers renders nothing: no step is a cover rendering.
pub proof fn lemma_no_cover_steps(plan: Seq<BatchPlan>, steps: Seq<ExecStep>)
    requires
        steps_for(plan, false, steps),
    ensures
        forall|i: int| 0 <= i < steps.len() ==> !(#[trigger] steps[i] is RenderCover),
    decreases plan.len(),
{
    if plan.len() == 0 {
    } else {
        let b = plan[0];
        let sl = seg_len(b, false);
        lemma_no_cover_steps(plan.drop_first(), steps.skip(sl));
        assert forall|i: int| 0 <= i < steps.len() implies !(#[trigger] steps[i] is RenderCover) by {
            if i >= sl {
                assert(steps.skip(sl)[i - sl] == steps[i]);
            } else if i == 0 {
            } else if i <= 4 {
                assert(is_note(steps[i], if i == 1 {
                    Seq::empty()
                } else if i == 3 {
                    do_line(b.batch_index as nat, b.batch_dir@)
                } else {
                    repeat_ch('-', 98)
                }));
            } else {
                let k = (i - 5) / 2;
                assert(0 <= k < b.moves@.len());
                if (i - 5) % 2 == 0 {
                    assert(i == 5 + 2 * k);
                    assert(is_note(steps[5 + 2 * k], move_note((k + 1) as nat, b.moves@.len() as nat, b.moves@[k].src@, b.moves@[k].dst_name@)));
                } else {
                    assert(i == 5 + 2 * k + 1);
                    assert(is_note(steps[5 + 2 * k], move_note((k + 1) as nat, b.moves@.len() as nat, b.moves@[k].src@, b.moves@[k].dst_name@)));
                    assert(steps[5 + 2 * k + 1] is MoveFile);
                }
            }
        }
    }
}

/// A correct batch segment stays correct under appended steps.
proof fn lemma_segment_prefix(a: Seq<ExecStep>, b: Seq<ExecStep>, bb: BatchPlan, has_cover: bool)
    requires
        segment_head_ok(a, bb, has_cover),
        a.len() == seg_len(bb, has_cover),
    ensures
        segment_head_ok(a + b, bb, has_cover),
{
    let c = a + b;
    assert(forall|q: int| 0 <= q < a.len() ==> #[trigger] c[q] == a[q]);
    assert forall|k: int| 0 <= k < bb.moves@.len() implies is_note(
        #[trigger] c[5 + 2 * k],
        move_note((k + 1) as nat, bb.moves@.len() as nat, bb.moves@[k].src@, bb.moves@[k].dst_name@),
    ) && (c[5 + 2 * k + 1] matches ExecStep::MoveFile { src, dst } && src@ == bb.moves@[k].src@
        && dst@ == bb.moves@[k].dst@) by {
        assert(c[5 + 2 * k] == a[5 + 2 * k]);
        assert(c[5 + 2 * k + 1] == a[5 + 2 * k + 1]);
        assert(is_note(a[5 + 2 * k], move_note((k + 1) as nat, bb.moves@.len() as nat, bb.moves@[k].src@, bb.moves@[k].dst_name@)));
    }
    if has_cover {
        assert(c[5 + 2 * bb.moves@.len() as int] == a[5 + 2 * bb.moves@.len() as int]);
        assert(c[6 + 2 * bb.moves@.len() as int] == a[6 + 2 * bb.moves@.len() as int]);
    }
}

/// The steps of one batch.
#[verifier::rlimit(100)]
#[verifier::spinoff_prover]
fn batch_steps(b: &BatchPlan, has_cover: bool) -> (r: Vec<ExecStep>)
    requires
        b.moves@.len() * 2 + 7 < usize::MAX,
    ensures
        r@.len() == seg_len(*b, has_cover),
        segment_head_ok(r@, *b, has_cover),
{
    let mut r: Vec<ExecStep> = Vec::new();
    r.push(ExecStep::MakeDir(b.batch_dir.clone()));
    r.push(ExecStep::Note(String::new()));
    r.push(ExecStep::Note(repeat_char('-', 98)));
    let mut line = "[DO] Batch ".to_owned();
    let num = usize_string(b.batch_index);
    line.append(num.as_str());
    line.append(": ");
    let lf = crate::names::file_name_text(b.batch_dir.as_str());
    line.append(lf.as_str());
    r.push(ExecStep::Note(line));
    r.push(ExecStep::Note(repeat_char('-', 98)));
    let total = b.moves.len();
    let ghost head = r@;
    let mut k: usize = 0;
    while k < total
        invariant
            k <= total,
            total == b.moves@.len(),
            total * 2 + 7 < usize::MAX,
            r@.len() == 5 + 2 * k,
            r@.take(5) =~= head,
            head.len() == 5,
            head[0] matches ExecStep::MakeDir(d) && d@ == b.batch_dir@,
            is_note(head[1], Seq::empty()),
            is_note(head[2], repeat_ch('-', 98)),
            is_note(head[3], do_line(b.batch_index as nat, b.batch_dir@)),
            is_note(head[4], repeat_ch('-', 98)),
            forall|q: int|
                0 <= q < k ==> is_note(
                    #[trigger] r@[5 + 2 * q],
                    move_note(
                        (q + 1) as nat,
                        b.moves@.len() as nat,
                        b.moves@[q].src@,
                        b.moves@[q].dst_name@,
                    ),
                ) && (r@[5 + 2 * q + 1] matches ExecStep::MoveFile { src, dst } && src@
                    == b.moves@[q].src@ && dst@ == b.moves@[q].dst@),
        decreases total - k,
    {
        let mut note = "[MOVE] (".to_owned();
        let n1 = usize_string(k + 1);
        note.append(n1.as_str());
        note.append("/");
        let n2 = usize_string(total);
        note.append(n2.as_str());
        note.append(") ");
        let sl = crate::names::file_name_text(b.moves[k].src.as_str());
        note.append(sl.as_str());
        note.append(" -> ");
        note.append(b.moves[k].dst_name.as_str());
        r.push(ExecStep::Note(note));
        r.push(
            ExecStep::MoveFile { src: b.moves[k].src.clone(), dst: b.moves[k].dst.clone() },
        );
        k = k + 1;
    }
    let ghost body = r@;
    if has_cover {
        let mut note = "[COVER] Rendering cover.jpg (batch number ".to_owned();
        let n1 = usize_string(b.batch_index);
        note.append(n1.as_str());
        note.append(")");
        r.push(ExecStep::Note(note));
        r.push(
            ExecStep::RenderCover { batch_dir: b.batch_dir.clone(), number: b.batch_index },
        );
    }
    proof {
        assert(forall|q: int| 0 <= q < body.len() ==> #[trigger] r@[q] == body[q]);
        assert forall|q: int| 0 <= q < 5 implies #[trigger] r@[q] == head[q] by {
            assert(body.take(5)[q] == body[q]);
        }
        assert forall|k: int| 0 <= k < b.moves@.len() implies is_note(
            #[trigger] r@[5 + 2 * k],
            move_note((k + 1) as nat, b.moves@.len() as nat, b.moves@[k].src@, b.moves@[k].dst_name@),
        ) && (r@[5 + 2 * k + 1] matches ExecStep::MoveFile { src, dst } && src@
            == b.moves@[k].src@ && dst@ == b.moves@[k].dst@) by {
            assert(r@[5 + 2 * k] == body[5 + 2 * k]);
            assert(r@[5 + 2 * k + 1] == body[5 + 2 * k + 1]);
        }
        assert(segment_head_ok(r@, *b, has_cover));
    }
    r
}

/// The ordered steps that commit `plan`: per batch, create the folder, log
/// the banner, move each file (logging it), and render the numbered cover
/// when a series cover was resolved; then report completion.
pub fn execute(plan: &Vec<BatchPlan>, series_cover: &Option<String>) -> (steps: Vec<ExecStep>)
    requires
        forall|i: int|
            0 <= i < plan@.len() ==> (#[trigger] plan@[i]).moves@.len() * 2 + 7 < usize::MAX,
    ensures
        steps_for(plan@, series_cover is Some, steps@),
{
    let r = execute_from(plan, 0, series_cover.is_some());
    proof {
        assert(plan@.skip(0) =~= plan@);
    }
    r
}

fn execute_from(plan: &Vec<BatchPlan>, i: usize, has_cover: bool) -> (steps: Vec<ExecStep>)
    requires
        i <= plan@.len(),
        forall|k: int|
            0 <= k < plan@.len() ==> (#[trigger] plan@[k]).moves@.len() * 2 + 7 < usize::MAX,
    ensures
        steps_for(plan@.skip(i as int), has_cover, steps@),
    decreases plan@.len() - i,
{
    if i == plan.len() {
        let mut r: Vec<ExecStep> = Vec::new();
        r.push(ExecStep::Note("[COMPLETE] Done.".to_owned()));
        proof {
            assert(plan@.skip(i as int) =~= Seq::<BatchPlan>::empty());
        }
        r
    } else {
        let mut seg = batch_steps(&plan[i], has_cover);
        let ghost segv = seg@;
        let mut rest = execute_from(plan, i + 1, has_cover);
        let ghost restv = rest@;
        seg.append(&mut rest);
        proof {
            let tail = plan@.skip(i as int);
            assert(tail[0] == plan@[i as int]);
            assert(tail.drop_first() =~= plan@.skip(i + 1));
            assert(seg@.skip(seg_len(plan@[i as int], has_cover)) =~= restv);
            lemma_segment_prefix(segv, restv, plan@[i as int], has_cover);
            assert(seg@ =~= segv + restv);
        }
        seg
    }
}

/// The archival decision for a batch folder currently holding `existing`:
/// an existing `cover.jpg` is renamed to the first free `cover_old*` name,
/// which never collides with a present file; otherwise nothing happens.
pub fn archive_existing_cover_jpg(existing: &Vec<String>) -> (r: Option<(String, String)>)
    requires
        existing@.len() + 2 < u64::MAX,
    ensures
        !contains_view(existing@, "cover.jpg"@) <==> r is None,
        r matches Some(mv) ==> mv.0@ == "cover.jpg"@ && !contains_view(existing@, mv.1@),
        r matches Some(mv) ==> (!contains_view(existing@, "cover_old.jpg"@) ==> mv.1@
            == "cover_old.jpg"@),
        r matches Some(mv) ==> (contains_view(existing@, "cover_old.jpg"@) ==> exists|i: nat|
            2 <= i && mv.1@ == #[trigger] cover_old_name(i) && forall|j: nat|
                2 <= j < i ==> contains_view(existing@, #[trigger] cover_old_name(j))),
{
    let name = "cover.jpg".to_owned();
    if !contains_string(existing, &name) {
        return None;
    }
    let target = unique_cover_old_path(existing);
    Some((name, target))
}

/// The baseline decision for a batch folder holding `existing`: the batch's
/// own `cover_old.jpg` if already present (no copy), else the first free
/// `cover_old*` name the series cover must be copied to.
pub fn ensure_cover_old(existing: &Vec<String>) -> (r: (String, bool))
    requires
        existing@.len() + 2 < u64::MAX,
    ensures
        r.0@ == "cover_old.jpg"@,
        r.1 == !contains_view(existing@, "cover_old.jpg"@),
{
    let name = "cover_old.jpg".to_owned();
    if contains_string(existing, &name) {
        return (name, false);
    }
    let target = unique_cover_old_path(existing);
    (target, true)
}

/// One step of writing a numbered batch cover.
#[derive(Debug, Clone)]
pub enum CoverStep {
    /// Rename `from` to `to` inside the batch folder.
    Archive { from: String, to: String },
    /// Copy the series cover to `to` inside the batch folder, byte for byte.
    CopyBaseline { to: String },
    /// Decode the baseline, stamp `number` dead-center, save as `cover.jpg`.
    Render { baseline: String, number: usize },
}

/// Plans the numbered-cover write for one batch folder holding `existing`:
/// any current `cover.jpg` is archived first under the next available
/// `cover_old*` name (never overwriting one); a `cover_old.jpg` baseline is
/// then guaranteed — by the archival itself when its target was
/// `cover_old.jpg`, by a byte-for-byte copy of the series cover when the
/// folder had neither a `cover.jpg` nor a `cover_old.jpg`; finally the
/// number is rendered onto that baseline as the new `cover.jpg`.  With no
/// `cover.jpg` present nothing is archived: archival is idempotent.
pub fn write_numbered_cover(number: usize, existing: &Vec<String>) -> (r: Vec<CoverStep>)
    requires
        existing@.len() + 3 < u64::MAX,
    ensures
        // The render is always last, from the batch's own baseline.
        r@.len() >= 1 && (r@.last() matches CoverStep::Render { baseline, number: n } && n
            == number && baseline@ == "cover_old.jpg"@),
        // Archival happens exactly when a cover.jpg is present; its target is
        // the next available cover_old* name and never a present one.
        contains_view(existing@, "cover.jpg"@) <==> r@.len() >= 1 && r@[0] is Archive,
        contains_view(existing@, "cover.jpg"@) ==> r@.len() == 2 && (
        r@[0] matches CoverStep::Archive { from, to } && from@ == "cover.jpg"@ && !contains_view(
            existing@,
            to@,
        ) && (!contains_view(existing@, "cover_old.jpg"@) ==> to@ == "cover_old.jpg"@) && (
        contains_view(existing@, "cover_old.jpg"@) ==> exists|i: nat|
            2 <= i && to@ == #[trigger] cover_old_name(i) && forall|j: nat|
                2 <= j < i ==> contains_view(existing@, #[trigger] cover_old_name(j)))),
        // The baseline is copied from the series cover exactly when neither a
        // cover.jpg (whose archival creates the baseline) nor a cover_old.jpg
        // is already there.
        !contains_view(existing@, "cover.jpg"@) && !contains_view(existing@, "cover_old.jpg"@)
            ==> r@.len() == 2 && (r@[0] matches CoverStep::CopyBaseline { to } && to@
            == "cover_old.jpg"@),
        !contains_view(existing@, "cover.jpg"@) && contains_view(existing@, "cover_old.jpg"@)
            ==> r@.len() == 1,
{
    let mut steps: Vec<CoverStep> = Vec::new();
    match archive_existing_cover_jpg(existing) {
        Some(mv) => {
            steps.push(CoverStep::Archive { from: mv.0, to: mv.1 });
        },
        None => {
            // No cover.jpg to preserve; make sure a baseline will exist.
            let (baseline, needs_copy) = ensure_cover_old(existing);
            if needs_copy {
                steps.push(CoverStep::CopyBaseline { to: baseline });
            }
        },
    }
    steps.push(CoverStep::Render { baseline: "cover_old.jpg".to_owned(), number });
    steps
}

/// `dec(n)` right-aligned in a four-character field.
pub open spec fn pad_left4(s: Seq<char>) -> Seq<char> {
    if s.len() >= 4 {
        s
    } else {
        repeat_ch(' ', 4 - s.len()) + s
    }
}

/// One numbered line of the plan report.
pub open spec fn move_line(n: nat, src_name: Seq<char>, dst_name: Seq<char>) -> Seq<char> {
    "  "@ + pad_left4(dec(n)) + ". "@ + src_name + (if src_name == dst_name {
        "\n"@
    } else {
        "  (rename: "@ + src_name + " -> "@ + dst_name + ")\n"@
    })
}

/// The numbered move lines of a batch, starting at `n0`.
pub open spec fn moves_text(moves: Seq<FileMove>, n0: nat) -> Seq<char>
    decreases moves.len(),
{
    if moves.len() == 0 {
        Seq::empty()
    } else {
        move_line(n0, leaf_of(moves[0].src@), moves[0].dst_name@) + moves_text(
            moves.drop_first(),
            n0 + 1,
        )
    }
}

/// The report section of one batch.
pub open spec fn batch_text(name: Seq<char>, b: BatchPlan, has_cover: bool) -> Seq<char> {
    let idx = b.batch_index as nat;
    let start = (b.batch_index - 1) * 20 + 1;
    let last = start + b.moves@.len() - 1;
    "\n"@ + name + " "@ + dec(idx) + "  (volumes "@ + dec(start as nat) + "-"@ + dec(
        last as nat,
    ) + ")\n"@ + "  [DIR] "@ + b.batch_dir@ + "\n"@ + (if has_cover {
        "  [COVER] cover_old.jpg + cover.jpg (number "@ + dec(idx) + ")\n"@
    } else {
        Seq::empty()
    }) + moves_text(b.moves@, start as nat)
}

/// The report sections of all batches.
pub open spec fn batches_text(name: Seq<char>, plan: Seq<BatchPlan>, has_cover: bool) -> Seq<char>
    decreases plan.len(),
{
    if plan.len() == 0 {
        Seq::empty()
    } else {
        batch_text(name, plan[0], has_cover) + batches_text(name, plan.drop_first(), has_cover)
    }
}

/// Total planned moves.
pub open spec fn total_moves(plan: Seq<BatchPlan>) -> nat
    decreases plan.len(),
{
    if plan.len() == 0 {
        0
    } else {
        plan[0].moves@.len() + total_moves(plan.drop_first())
    }
}

/// The report's header block.
pub open spec fn plan_header(dir: Seq<char>, total: nat, cover: Option<Seq<char>>) -> Seq<char> {
    "\n"@ + repeat_ch('=', 98) + "\n"@ + "[PLAN] Manga toolkit (Rust)\n"@
        + "[PLAN] Series folder: "@ + dir + "\n"@ + "[PLAN] Volumes found: "@ + dec(total)
        + "\n"@ + "[PLAN] Batch size: 20\n"@ + (match cover {
        Option::Some(c) => "[PLAN] Series cover source: "@ + c + "\n"@
            + "[PLAN] Each batch will have:\n"@
            + "       - cover_old.jpg (copied once from series cover, preserved)\n"@
            + "       - cover.jpg (rendered with batch number DEAD-CENTER)\n"@
            + "       - any existing cover.jpg archived to cover_old_*.jpg\n"@,
        Option::None => "[PLAN] Covers: skipped (no cover image found/downloaded)\n"@,
    }) + repeat_ch('=', 98) + "\n"@
}

/// The whole plan report.
pub open spec fn plan_text(dir: Seq<char>, plan: Seq<BatchPlan>, cover: Option<Seq<char>>) -> Seq<
    char,
> {
    plan_header(dir, total_moves(plan), cover) + batches_text(leaf_of(dir), plan, cover is Some)
        + "\n"@ + repeat_ch('=', 98) + "\n"@
}

/// Plan indices and counts small enough for the report's arithmetic.
pub open spec fn plan_counts_bounded(plan: Seq<BatchPlan>) -> bool {
    &&& forall|i: int|
        0 <= i < plan.len() ==> 1 <= (#[trigger] plan[i]).batch_index < 0x7fff_ffff && plan[
            i
        ].moves@.len() < 0x7fff_ffff
    &&& total_moves(plan) < 0xffff_ffff
}

fn pad4_exec(n: u64) -> (r: String)
    ensures
        r@ == pad_left4(dec(n as nat)),
{
    let digits = u64_string(n);
    let l = digits.as_str().unicode_len();
    let mut s = String::new();
    if l < 4 {
        let fill = repeat_char(' ', 4 - l);
        s.append(fill.as_str());
    }
    s.append(digits.as_str());
    s
}

fn move_line_exec(n: u64, m: &FileMove) -> (r: String)
    ensures
        r@ == move_line(n as nat, leaf_of(m.src@), m.dst_name@),
{
    let src_name = crate::names::file_name_text(m.src.as_str());
    let mut s = "  ".to_owned();
    let p = pad4_exec(n);
    s.append(p.as_str());
    s.append(". ");
    s.append(src_name.as_str());
    if src_name.eq(&m.dst_name) {
        s.append("\n");
    } else {
        s.append("  (rename: ");
        s.append(src_name.as_str());
        s.append(" -> ");
        s.append(m.dst_name.as_str());
        s.append(")\n");
    }
    s
}

fn moves_text_exec(moves: &Vec<FileMove>, k: usize, n0: u64) -> (r: String)
    requires
        k <= moves@.len(),
        n0 + (moves@.len() - k) < 0x1_0000_0000_0000_u64,
    ensures
        r@ == moves_text(moves@.skip(k as int), n0 as nat),
    decreases moves@.len() - k,
{
    if k == moves.len() {
        proof {
            assert(moves@.skip(k as int) =~= Seq::<FileMove>::empty());
        }
        String::new()
    } else {
        let line = move_line_exec(n0, &moves[k]);
        let rest = moves_text_exec(moves, k + 1, n0 + 1);
        let mut s = line;
        s.append(rest.as_str());
        proof {
            let tail = moves@.skip(k as int);
            assert(tail[0] == moves@[k as int]);
            assert(tail.drop_first() =~= moves@.skip(k + 1));
        }
        s
    }
}

fn batch_text_exec(name: &str, b: &BatchPlan, has_cover: bool) -> (r: String)
    requires
        1 <= b.batch_index < 0x7fff_ffff,
        b.moves@.len() < 0x7fff_ffff,
    ensures
        r@ == batch_text(name@, *b, has_cover),
{
    let idx64: u64 = b.batch_index as u64;
    let start: u64 = (idx64 - 1) * 20 + 1;
    let last: u64 = start + (b.moves.len() as u64) - 1;
    let mut s = "\n".to_owned();
    s.append(name);
    s.append(" ");
    let d1 = u64_string(idx64);
    s.append(d1.as_str());
    s.append("  (volumes ");
    let d2 = u64_string(start);
    s.append(d2.as_str());
    s.append("-");
    let d3 = u64_string(last);
    s.append(d3.as_str());
    s.append(")\n");
    s.append("  [DIR] ");
    s.append(b.batch_dir.as_str());
    s.append("\n");
    if has_cover {
        s.append("  [COVER] cover_old.jpg + cover.jpg (number ");
        let d4 = u64_string(idx64);
        s.append(d4.as_str());
        s.append(")\n");
    }
    let mt = moves_text_exec(&b.moves, 0, start);
    s.append(mt.as_str());
    proof {
        assert(b.moves@.skip(0) =~= b.moves@);
    }
    s
}

fn batches_text_exec(name: &str, plan: &Vec<BatchPlan>, i: usize, has_cover: bool) -> (r: String)
    requires
        i <= plan@.len(),
        plan_counts_bounded(plan@),
    ensures
        r@ == batches_text(name@, plan@.skip(i as int), has_cover),
    decreases plan@.len() - i,
{
    if i == plan.len() {
        proof {
            assert(plan@.skip(i as int) =~= Seq::<BatchPlan>::empty());
        }
        String::new()
    } else {
        let head = batch_text_exec(name, &plan[i], has_cover);
        let rest = batches_text_exec(name, plan, i + 1, has_cover);
        let mut s = head;
        s.append(rest.as_str());
        proof {
            let tail = plan@.skip(i as int);
            assert(tail[0] == plan@[i as int]);
            assert(tail.drop_first() =~= plan@.skip(i + 1));
        }
        s
    }
}

fn total_moves_exec(plan: &Vec<BatchPlan>, i: usize) -> (r: u64)
    requires
        i <= plan@.len(),
        total_moves(plan@.skip(i as int)) < 0xffff_ffff,
    ensures
        r as nat == total_moves(plan@.skip(i as int)),
    decreases plan@.len() - i,
{
    if i == plan.len() {
        proof {
            assert(plan@.skip(i as int) =~= Seq::<BatchPlan>::empty());
        }
        0
    } else {
        proof {
            let tail = plan@.skip(i as int);
            assert(tail[0] == plan@[i as int]);
            assert(tail.drop_first() =~= plan@.skip(i + 1));
        }
        let rest = total_moves_exec(plan, i + 1);
        (plan[i].moves.len() as u64) + rest
    }
}

/// The plan report, exactly as it is printed: a banner, the series facts,
/// the cover situation, and one numbered section per batch.
pub fn format_plan(series_dir: &str, plan: &Vec<BatchPlan>, series_cover: &Option<String>) -> (r:
    String)
    requires
        plan_counts_bounded(plan@),
    ensures
        r@ == plan_text(
            series_dir@,
            plan@,
            match *series_cover {
                Option::Some(c) => Option::Some(c@),
                Option::None => Option::None,
            },
        ),
{
    proof {
        assert(plan@.skip(0) =~= plan@);
    }
    let total = total_moves_exec(plan, 0);
    let bar = repeat_char('=', 98);
    let mut s = "\n".to_owned();
    s.append(bar.as_str());
    s.append("\n");
    s.append("[PLAN] Manga toolkit (Rust)\n");
    s.append("[PLAN] Series folder: ");
    s.append(series_dir);
    s.append("\n");
    s.append("[PLAN] Volumes found: ");
    let dt = u64_string(total);
    s.append(dt.as_str());
    s.append("\n");
    s.append("[PLAN] Batch size: 20\n");
    match series_cover {
        Some(c) => {
            s.append("[PLAN] Series cover source: ");
            s.append(c.as_str());
            s.append("\n");
            s.append("[PLAN] Each batch will have:\n");
            s.append("       - cover_old.jpg (copied once from series cover, preserved)\n");
            s.append("       - cover.jpg (rendered with batch number DEAD-CENTER)\n");
            s.append("       - any existing cover.jpg archived to cover_old_*.jpg\n");
        },
        None => {
            s.append("[PLAN] Covers: skipped (no cover image found/downloaded)\n");
        },
    }
    s.append(bar.as_str());
    s.append("\n");
    let name = crate::names::file_name_text(series_dir);
    let body = batches_text_exec(name.as_str(), plan, 0, series_cover.is_some());
    s.append(body.as_str());
    s.append("\n");
    s.append(bar.as_str());
    s.append("\n");
    s
}

/// The dry-run trailer line.
pub open spec fn dry_run_line() -> Seq<char> {
    "[DRY-RUN] Plan printed only. No changes were made."@
}

/// The hard error when no cover could be resolved for `ShowCover`.
pub open spec fn msg_no_cover() -> Seq<char> {
    "[COVER-CHECK] No cover found from local files or remote providers."@
}

/// Starts an action run: for `Preview` and `Process`, the folder's volumes
/// are collected first and their absence is an explicit error before any
/// cover work begins; `ShowCover` proceeds regardless.  On success the host
/// next resolves the series cover, then calls `run_action_finish`.
pub fn run_action(
    action: UiAction,
    series_dir: &str,
    entries: &Vec<crate::resolve::DirEntry>,
) -> (r: Result<Vec<String>, String>)
    ensures
        action == UiAction::ShowCover ==> r is Ok,
        (action == UiAction::Preview || action == UiAction::Process)
            && crate::resolve::volume_name_views(entries@).len() > 0 ==> r is Ok,
        (action == UiAction::Preview || action == UiAction::Process)
            && crate::resolve::volume_name_views(entries@).len() == 0 ==> (r matches Err(m) && m@
            == msg_no_volumes(series_dir@)),
        r matches Ok(vols) ==> crate::natural::nat_sorted(vols@) && crate::natural::seq_views(
            vols@,
        ).to_multiset() == crate::resolve::volume_name_views(entries@).to_multiset(),
{
    let vols = crate::resolve::select_volumes(entries);
    match action {
        UiAction::ShowCover => Ok(vols),
        _ => {
            if vols.len() == 0 {
                let mut m = "No volume files found in: ".to_owned();
                m.append(series_dir);
                Err(m)
            } else {
                Ok(vols)
            }
        },
    }
}

/// Everything a finished action run produces.
pub struct RunOutcome {
    pub output: ActionOutput,
    pub logs: Vec<String>,
    pub plan: Vec<BatchPlan>,
    pub steps: Vec<ExecStep>,
}

/// Finishes an action run once the series cover is resolved (or known to be
/// absent): `ShowCover` reports the canonical `cover.jpg` (converting the
/// chosen source if it is a different file), `Preview` reports the plan
/// only, and `Process` reports the plan and the steps that commit it.
pub fn run_action_finish(
    action: UiAction,
    series_dir: &str,
    volumes: &Vec<String>,
    batch_existing: &Vec<Vec<String>>,
    series_cover: &Option<String>,
) -> (r: Result<RunOutcome, String>)
    requires
        batch_existing@.len() == batch_count(volumes@.len() as nat),
        forall|i: int|
            0 <= i < batch_existing@.len() ==> (#[trigger] batch_existing@[i])@.len() + 22
                < u64::MAX,
        volumes@.len() < 0x7fff_ffff,
    ensures
        action == UiAction::ShowCover && series_cover is None ==> (r matches Err(m) && m@
            == msg_no_cover()),
        action == UiAction::ShowCover && series_cover is Some ==> r is Ok,
        action == UiAction::ShowCover ==> (r matches Ok(o) ==> {
            let cj = joined(series_dir@, "cover.jpg"@);
            &&& o.output.action == action
            &&& o.output.cover_path matches Option::Some(p) && p@ == cj
            &&& o.logs@.len() == 1 && o.logs@[0]@ == cj
            &&& o.plan@.len() == 0
            &&& (series_cover matches Option::Some(c) ==> (if c@ == cj {
                o.steps@.len() == 0
            } else {
                o.steps@.len() == 1 && (o.steps@[0] matches ExecStep::ConvertCover { src, dst }
                    && src@ == c@ && dst@ == cj)
            }))
        }),
        action != UiAction::ShowCover && volumes@.len() == 0 ==> (r matches Err(m) && m@
            == msg_no_volumes(series_dir@)),
        action != UiAction::ShowCover && volumes@.len() > 0 && parent_of(series_dir@) is None ==> (
        r matches Err(m) && m@ == msg_no_parent(series_dir@)),
        action != UiAction::ShowCover && volumes@.len() > 0 && parent_of(series_dir@) is Some ==> (
        r matches Ok(o) && {
            let cov = match *series_cover {
                Option::Some(c) => Option::Some(c@),
                Option::None => Option::None,
            };
            &&& o.output.action == action
            &&& o.output.cover_path is None
            &&& plan_shape(series_dir@, volumes@, batch_existing@, series_cover is Some, o.plan@)
            &&& (action == UiAction::Preview ==> o.logs@.len() == 2 && o.logs@[0]@ == plan_text(
                series_dir@,
                o.plan@,
                cov,
            ) && o.logs@[1]@ == dry_run_line() && o.steps@.len() == 0)
            &&& (action == UiAction::Process ==> o.logs@.len() == 1 && o.logs@[0]@ == plan_text(
                series_dir@,
                o.plan@,
                cov,
            ) && steps_for(o.plan@, series_cover is Some, o.steps@))
        }),
{
    match action {
        UiAction::ShowCover => {
            let cover = match series_cover {
                Some(c) => c,
                None => {
                    return Err(
                        "[COVER-CHECK] No cover found from local files or remote providers.".to_owned(),
                    );
                },
            };
            let cj = join_path(series_dir, "cover.jpg");
            let mut steps: Vec<ExecStep> = Vec::new();
            if !cover.eq(&cj) {
                steps.push(ExecStep::ConvertCover { src: cover.clone(), dst: cj.clone() });
            }
            let mut logs: Vec<String> = Vec::new();
            logs.push(cj.clone());
            Ok(
                RunOutcome {
                    output: ActionOutput { action, cover_path: Some(cj) },
                    logs,
                    plan: Vec::new(),
                    steps,
                },
            )
        },
        _ => {
            let plan = match build_plan(
                series_dir,
                volumes,
                batch_existing,
                series_cover.is_some(),
            ) {
                Ok(p) => p,
                Err(m) => {
                    return Err(m);
                },
            };
            proof {
                lemma_plan_shape_bounded(
                    series_dir@,
                    volumes@,
                    batch_existing@,
                    series_cover is Some,
                    plan@,
                );
            }
            let text = format_plan(series_dir, &plan, series_cover);
            let mut logs: Vec<String> = Vec::new();
            logs.push(text);
            let is_preview = match action {
                UiAction::Preview => true,
                _ => false,
            };
            if is_preview {
                logs.push("[DRY-RUN] Plan printed only. No changes were made.".to_owned());
                Ok(
                    RunOutcome {
                        output: ActionOutput { action, cover_path: None },
                        logs,
                        plan,
                        steps: Vec::new(),
                    },
                )
            } else {
                let steps = execute(&plan, series_cover);
                Ok(
                    RunOutcome {
                        output: ActionOutput { action, cover_path: None },
                        logs,
                        plan,
                        steps,
                    },
                )
            }
        },
    }
}

/// A well-shaped plan for fewer than `0x7fff_ffff` volumes satisfies the
/// count bounds the report and the step builder need.
pub proof fn lemma_plan_shape_bounded(
    series_dir: Seq<char>,
    volumes: Seq<String>,
    batch_existing: Seq<Vec<String>>,
    has_cover: bool,
    plan: Seq<BatchPlan>,
)
    requires
        plan_shape(series_dir, volumes, batch_existing, has_cover, plan),
        volumes.len() < 0x7fff_ffff,
    ensures
        plan_counts_bounded(plan),
        forall|i: int| 0 <= i < plan.len() ==> (#[trigger] plan[i]).moves@.len() * 2 + 7
            < usize::MAX,
{
    assert(plan.len() == batch_count(volumes.len() as nat));
    assert forall|i: int| 0 <= i < plan.len() implies 1 <= (#[trigger] plan[i]).batch_index
        < 0x7fff_ffff && plan[i].moves@.len() < 0x7fff_ffff && plan[i].moves@.len() * 2 + 7
        < usize::MAX by {
        assert(batch_ok(series_dir, volumes, batch_existing, has_cover, plan[i], i));
        assert(plan[i].moves@.len() == batch_size(volumes.len() as nat, i as nat));
        assert(plan[i].moves@.len() <= 20);
        assert(plan.len() <= volumes.len());
    }
    lemma_total_moves_bound(series_dir, volumes, batch_existing, has_cover, plan, plan.len() as int);
    assert(plan.skip(0) =~= plan);
    let n: int = volumes.len() as int;
    assert(20 * plan.len() <= n + 19) by (nonlinear_arith)
        requires
            plan.len() == (n + 19) / 20,
            n >= 0,
    ;
}

proof fn lemma_total_moves_bound(
    series_dir: Seq<char>,
    volumes: Seq<String>,
    batch_existing: Seq<Vec<String>>,
    has_cover: bool,
    plan: Seq<BatchPlan>,
    upto: int,
)
    requires
        plan_shape(series_dir, volumes, batch_existing, has_cover, plan),
        volumes.len() < 0x7fff_ffff,
        0 <= upto <= plan.len(),
    ensures
        total_moves(plan.skip(plan.len() - upto)) <= 20 * upto,
    decreases upto,
{
    if upto == 0 {
        assert(plan.skip(plan.len() as int) =~= Seq::<BatchPlan>::empty());
    } else {
        let i = plan.len() - upto;
        lemma_total_moves_bound(series_dir, volumes, batch_existing, has_cover, plan, upto - 1);
        let tail = plan.skip(i);
        assert(tail[0] == plan[i]);
        assert(tail.drop_first() =~= plan.skip(i + 1));
        assert(batch_ok(series_dir, volumes, batch_existing, has_cover, plan[i], i));
        assert(plan[i].moves@.len() <= 20);
    }
}


/// Twenty-five volumes make exactly two batches of twenty and five, numbered
/// one and two, and a committed run with a cover renders `cover.jpg` for
/// each of them with exactly its batch number.
pub proof fn law_two_batches_of_25(
    series_dir: Seq<char>,
    volumes: Seq<String>,
    batch_existing: Seq<Vec<String>>,
    plan: Seq<BatchPlan>,
    steps: Seq<ExecStep>,
)
    requires
        plan_shape(series_dir, volumes, batch_existing, true, plan),
        volumes.len() == 25,
        steps_for(plan, true, steps),
    ensures
        plan.len() == 2,
        plan[0].moves@.len() == 20 && plan[0].batch_index == 1,
        plan[1].moves@.len() == 5 && plan[1].batch_index == 2,
        steps[46] matches ExecStep::RenderCover { batch_dir, number } && number == 1 && batch_dir@
            == plan[0].batch_dir@,
        steps[63] matches ExecStep::RenderCover { batch_dir, number } && number == 2 && batch_dir@
            == plan[1].batch_dir@,
{
    assert(batch_count(25) == 2);
    assert(batch_ok(series_dir, volumes, batch_existing, true, plan[0], 0));
    assert(batch_ok(series_dir, volumes, batch_existing, true, plan[1], 1));
    assert(batch_size(25, 0) == 20);
    assert(batch_size(25, 1) == 5);
    assert(seg_len(plan[0], true) == 47);
    let rest = steps.skip(47);
    let tail = plan.drop_first();
    assert(steps_for(tail, true, rest));
    assert(tail[0] == plan[1]);
    assert(segment_head_ok(rest, tail[0], true));
    assert(rest[16int] == steps[63int]);
}

/// Without a resolved series cover no batch renders one: every planned batch
/// carries `will_make_cover == false`, and no committed step is a cover
/// rendering — files are still moved and renamed.
pub proof fn law_no_cover_skips_rendering(
    series_dir: Seq<char>,
    volumes: Seq<String>,
    batch_existing: Seq<Vec<String>>,
    plan: Seq<BatchPlan>,
    steps: Seq<ExecStep>,
)
    requires
        plan_shape(series_dir, volumes, batch_existing, false, plan),
        steps_for(plan, false, steps),
    ensures
        forall|i: int| 0 <= i < plan.len() ==> !(#[trigger] plan[i]).will_make_cover,
        forall|i: int| 0 <= i < steps.len() ==> !(#[trigger] steps[i] is RenderCover),
{
    assert forall|i: int| 0 <= i < plan.len() implies !(#[trigger] plan[i]).will_make_cover by {
        assert(batch_ok(series_dir, volumes, batch_existing, false, plan[i], i));
    }
    lemma_no_cover_steps(plan, steps);
}


/// Archival is idempotent and loses nothing: an archival target is always a
/// `cover_old*` name, and no such name is `cover.jpg` — so once the current
/// cover is renamed, a second archival pass finds no `cover.jpg` and is a
/// no-op, and the renamed file can never be the one a later pass renames
/// onto (targets are also chosen fresh against the folder's contents).
pub proof fn law_archive_target_is_not_a_cover(t: Seq<char>)
    requires
        t == "cover_old.jpg"@ || exists|i: nat| 2 <= i && t == #[trigger] cover_old_name(i),
    ensures
        t != "cover.jpg"@,
{
    reveal_strlit("cover.jpg");
    reveal_strlit("cover_old.jpg");
    reveal_strlit("cover_old_");
    reveal_strlit(".jpg");
    assert("cover.jpg"@.len() == 9);
    if t == "cover_old.jpg"@ {
        assert(t.len() == 13);
    } else {
        let i = choose|i: nat| 2 <= i && t == #[trigger] cover_old_name(i);
        crate::text::lemma_dec_len(i);
        assert("cover_old_"@.len() == 10 && ".jpg"@.len() == 4);
        assert(t.len() >= 15);
    }
}

} // verus!
