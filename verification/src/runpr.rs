//! The pull-request workflow: the decisions and the texts of the command
//! that runs a change across projects and submits each as a pull request.
//!
//! Git, the file system, the clock, the random generator and the REST client
//! all live outside the library; this module decides what they are asked and
//! what is done with their answers.

use vstd::prelude::*;

use crate::cmd::CommandPlus;
use crate::github::CreatePullRequest;
use crate::project::Project;
use crate::strutil::ascii_lower;
use crate::strutil::chars_to_string;
use crate::strutil::spec_ascii_lower;
use crate::strutil::spec_nat_string;
use crate::strutil::spec_strip_prefix;
use crate::strutil::spec_strip_suffix;
use crate::strutil::spec_trim;
use crate::strutil::str_chars;
use crate::strutil::str_trim;
use crate::strutil::u64_to_string;

verus! {

/// The label colors offered when one must be invented, as the hosting
/// service's own palette lists them.
pub open spec fn spec_color(i: int) -> Seq<char> {
    if i == 0 {
        "0052cc"@
    } else if i == 1 {
        "006b75"@
    } else if i == 2 {
        "0e8a16"@
    } else if i == 3 {
        "1d76db"@
    } else if i == 4 {
        "5319e7"@
    } else if i == 5 {
        "b60205"@
    } else if i == 6 {
        "bfd4f2"@
    } else if i == 7 {
        "bfdadc"@
    } else if i == 8 {
        "c2e0c6"@
    } else if i == 9 {
        "c5def5"@
    } else if i == 10 {
        "d4c5f9"@
    } else if i == 11 {
        "d93f0b"@
    } else if i == 12 {
        "e99695"@
    } else if i == 13 {
        "f9d0c4"@
    } else if i == 14 {
        "fbca04"@
    } else {
        "fef2c0"@
    }
}

/// How many colors the palette holds.
pub open spec fn palette_size() -> int {
    16
}

/// Picks label colors from the fixed palette.  The caller draws the random
/// number; the picker only reduces it onto the palette, so any draw yields a
/// palette color.
pub struct RandomColor;

impl RandomColor {
    /// The palette color the draw lands on.
    pub fn generate(&self, pick: u64) -> (r: &'static str)
        ensures
            r@ == spec_color(pick as int % palette_size()),
    {
        match pick % 16 {
            0 => "0052cc",
            1 => "006b75",
            2 => "0e8a16",
            3 => "1d76db",
            4 => "5319e7",
            5 => "b60205",
            6 => "bfd4f2",
            7 => "bfdadc",
            8 => "c2e0c6",
            9 => "c5def5",
            10 => "d4c5f9",
            11 => "d93f0b",
            12 => "e99695",
            13 => "f9d0c4",
            14 => "fbca04",
            _ => "fef2c0",
        }
    }
}

/// One skip marker stripped from each end, then whitespace trimmed.
pub open spec fn spec_strip_one(s: Seq<char>, marker: Seq<char>) -> Seq<char> {
    spec_trim(spec_strip_suffix(spec_strip_prefix(s, marker), marker))
}

/// The skip markers, in the order they are removed.
pub open spec fn spec_skip_marker(i: int) -> Seq<char> {
    if i == 0 {
        "[skip ci]"@
    } else if i == 1 {
        "[ci skip]"@
    } else if i == 2 {
        "[no ci]"@
    } else if i == 3 {
        "[skip actions]"@
    } else {
        "[actions skip]"@
    }
}

/// What stripping all five markers leaves.
pub open spec fn spec_strip_skip(s: Seq<char>) -> Seq<char> {
    spec_strip_one(
        spec_strip_one(
            spec_strip_one(spec_strip_one(spec_strip_one(s, spec_skip_marker(0)), spec_skip_marker(1)),
            spec_skip_marker(2)),
            spec_skip_marker(3),
        ),
        spec_skip_marker(4),
    )
}

/// Strips each continuous-integration skip marker from the start and end of
/// a commit message, whitespace trimmed after each removal, so the marker
/// does not end up in a pull-request title.
pub fn strip_skip(s: &str) -> (r: String)
    ensures
        r@ == spec_strip_skip(s@),
{
    let a = strip_one(s, "[skip ci]");
    let b = strip_one(a.as_str(), "[ci skip]");
    let c = strip_one(b.as_str(), "[no ci]");
    let d = strip_one(c.as_str(), "[skip actions]");
    strip_one(d.as_str(), "[actions skip]")
}

/// One marker stripped from both ends, the remainder trimmed.
fn strip_one(s: &str, marker: &str) -> (r: String)
    ensures
        r@ == spec_strip_one(s@, marker@),
{
    let v = str_chars(s);
    let m = str_chars(marker);
    let after_prefix: Vec<char> = if m.len() <= v.len() && crate::strutil::slice_matches_at(
        &v,
        0,
        &m,
    ) {
        proof {
            assert(v@.subrange(0, m@.len() as int) == m@);
        }
        copy_range(&v, m.len(), v.len())
    } else {
        copy_range(&v, 0, v.len())
    };
    proof {
        assert(v@.subrange(0, v@.len() as int) =~= v@);
        assert(after_prefix@ =~= spec_strip_prefix(s@, marker@));
    }
    let ap_len = after_prefix.len();
    let after_suffix: Vec<char> = if m.len() <= ap_len && crate::strutil::slice_matches_at(
        &after_prefix,
        ap_len - m.len(),
        &m,
    ) {
        copy_range(&after_prefix, 0, ap_len - m.len())
    } else {
        copy_range(&after_prefix, 0, ap_len)
    };
    proof {
        assert(after_prefix@.subrange(0, after_prefix@.len() as int) =~= after_prefix@);
        assert(after_suffix@ =~= spec_strip_suffix(after_prefix@, marker@));
    }
    let joined = chars_to_string(&after_suffix);
    str_trim(joined.as_str())
}

/// The characters of `v` from `from` (inclusive) to `to` (exclusive).
fn copy_range(v: &Vec<char>, from: usize, to: usize) -> (r: Vec<char>)
    requires
        from <= to <= v@.len(),
    ensures
        r@ == v@.subrange(from as int, to as int),
{
    let mut out: Vec<char> = Vec::new();
    let mut i: usize = from;
    while i < to
        invariant
            from <= i <= to <= v@.len(),
            out@ == v@.subrange(from as int, i as int),
        decreases to - i,
    {
        out.push(v[i]);
        i += 1;
        proof {
            assert(out@ =~= v@.subrange(from as int, i as int));
        }
    }
    out
}

/// The default name of the pull-request branch: a fixed prefix and the
/// timestamp, each field zero-padded.
pub open spec fn spec_branch_name(y: int, mo: int, d: int, h: int, mi: int, sec: int) -> Seq<
    char,
> {
    "forall-runpr-"@ + spec_padded(y, 4) + spec_padded(mo, 2) + spec_padded(d, 2) + spec_padded(
        h,
        2,
    ) + spec_padded(mi, 2) + spec_padded(sec, 2)
}

/// Decimal digits left-padded with zeros to at least `width`.
pub open spec fn spec_padded(n: int, width: int) -> Seq<char> {
    let digits = spec_nat_string(n);
    if digits.len() >= width {
        digits
    } else {
        zeros(width - digits.len()) + digits
    }
}

/// `k` zero characters.
pub open spec fn zeros(k: int) -> Seq<char>
    decreases k,
{
    if k <= 0 {
        Seq::<char>::empty()
    } else {
        seq!['0'] + zeros(k - 1)
    }
}

fn padded(n: u64, width: usize) -> (r: String)
    ensures
        r@ == spec_padded(n as int, width as int),
{
    let digits = u64_to_string(n);
    let dchars = str_chars(digits.as_str());
    let dlen = dchars.len();
    let mut out: Vec<char> = Vec::new();
    let mut k: usize = dlen;
    proof {
        assert(out@ =~= zeros(0));
    }
    while k < width
        invariant
            dlen == dchars@.len(),
            k >= dlen,
            k <= width || k == dlen,
            out@ == zeros(k - dlen),
        decreases width - k,
    {
        out.push('0');
        k += 1;
        proof {
            lemma_zeros_all(k - dlen);
            lemma_zeros_all(k - dlen - 1);
            assert(out@ =~= zeros(k - dlen));
        }
    }
    let ghost pad = out@;
    proof {
        assert(pad == zeros(k - dlen));
        assert(k >= width);
        assert(k <= width || k == dlen);
    }
    let mut j: usize = 0;
    proof {
        assert(out@ =~= pad + dchars@.subrange(0, 0));
    }
    while j < dlen
        invariant
            dlen == dchars@.len(),
            j <= dlen,
            out@ == pad + dchars@.subrange(0, j as int),
        decreases dlen - j,
    {
        out.push(dchars[j]);
        j += 1;
        proof {
            assert(out@ =~= pad + dchars@.subrange(0, j as int));
        }
    }
    proof {
        assert(dchars@.subrange(0, dchars@.len() as int) =~= dchars@);
        if dchars@.len() >= width {
            assert(k == dlen);
            assert(pad == zeros(0));
            assert(out@ =~= spec_padded(n as int, width as int));
        } else {
            assert(pad == zeros(width - dchars@.len()));
            assert(out@ =~= spec_padded(n as int, width as int));
        }
    }
    chars_to_string(&out)
}

/// A zero run is all zero characters, as long as its count.
proof fn lemma_zeros_all(k: int)
    ensures
        zeros(k).len() == (if k <= 0 {
            0int
        } else {
            k
        }),
        forall|i: int| 0 <= i < zeros(k).len() ==> zeros(k)[i] == '0',
    decreases k,
{
    if k > 0 {
        lemma_zeros_all(k - 1);
        assert(forall|i: int|
            1 <= i < zeros(k).len() ==> zeros(k)[i] == #[trigger] zeros(k - 1)[i - 1]);
    }
}

/// Builds the default branch name from the clock's reading.
pub fn default_branch_name(y: u64, mo: u64, d: u64, h: u64, mi: u64, sec: u64) -> (r: String)
    ensures
        r@ == spec_branch_name(y as int, mo as int, d as int, h as int, mi as int, sec as int),
{
    let mut out = String::new();
    out.append("forall-runpr-");
    let py = padded(y, 4);
    out.append(py.as_str());
    let pmo = padded(mo, 2);
    out.append(pmo.as_str());
    let pd = padded(d, 2);
    out.append(pd.as_str());
    let ph = padded(h, 2);
    out.append(ph.as_str());
    let pmi = padded(mi, 2);
    out.append(pmi.as_str());
    let psec = padded(sec, 2);
    out.append(psec.as_str());
    proof {
        assert(out@ =~= spec_branch_name(
            y as int,
            mo as int,
            d as int,
            h as int,
            mi as int,
            sec as int,
        ));
    }
    out
}

/// What the operator asked the pull-request run to do.
pub struct RunPrConfig {
    pub branch: String,
    pub message: String,
    pub pr_title: String,
    pub pr_body: Option<String>,
    pub label: Vec<String>,
    pub soft_label: Vec<String>,
}

/// Assembles the run's configuration: the branch name defaults to the
/// timestamped one, and the pull-request title to the commit message with
/// its skip markers stripped.  The clock is read outside and handed in.
pub fn runpr_config(
    branch: Option<String>,
    message: String,
    pr_title: Option<String>,
    pr_body: Option<String>,
    label: Vec<String>,
    soft_label: Vec<String>,
    y: u64,
    mo: u64,
    d: u64,
    h: u64,
    mi: u64,
    sec: u64,
) -> (r: RunPrConfig)
    ensures
        branch matches Some(b) ==> r.branch == b,
        branch is None ==> r.branch@ == spec_branch_name(
            y as int,
            mo as int,
            d as int,
            h as int,
            mi as int,
            sec as int,
        ),
        pr_title matches Some(t) ==> r.pr_title == t,
        pr_title is None ==> r.pr_title@ == spec_strip_skip(message@),
        r.message == message,
        r.pr_body == pr_body,
        r.label == label,
        r.soft_label == soft_label,
{
    let branch = match branch {
        Some(b) => b,
        None => default_branch_name(y, mo, d, h, mi, sec),
    };
    let pr_title = match pr_title {
        Some(t) => t,
        None => strip_skip(message.as_str()),
    };
    RunPrConfig { branch, message, pr_title, pr_body, label, soft_label }
}

/// Whether a project is skipped outright: it has no hosted repository, or
/// the repository is archived.
pub fn runpr_should_skip(has_repo: bool, archived: bool) -> (r: bool)
    ensures
        r == (!has_repo || archived),
{
    !has_repo || archived
}

/// The branch-creating command: check out a new branch off the default one.
pub fn git_checkout_new_branch(p: &Project, branch: &str, defbranch: &str) -> (r: CommandPlus)
    ensures
        r.well_formed(),
        r.spec_words() == seq!["git"@, "checkout"@, "-b"@, branch@, defbranch@],
        r.spec_cwd() == Some(p.dirpath@),
{
    let mut c = p.runcmd("git");
    c.arg("checkout");
    c.arg("-b");
    c.arg(branch);
    c.arg(defbranch);
    proof {
        assert(c.spec_words() =~= seq!["git"@, "checkout"@, "-b"@, branch@, defbranch@]);
    }
    c
}

/// After staging: a project with no staged changes abandons its branch; one
/// with changes publishes the pull request.
#[derive(Clone, Copy, Debug, Eq, PartialEq, Structural)]
pub enum PrFollowUp {
    AbandonBranch,
    PublishPr,
}

/// The decision taken once the change command has run and its result was
/// staged.
pub fn runpr_after_add(has_staged: bool) -> (r: PrFollowUp)
    ensures
        r == (if has_staged {
            PrFollowUp::PublishPr
        } else {
            PrFollowUp::AbandonBranch
        }),
{
    if has_staged {
        PrFollowUp::PublishPr
    } else {
        PrFollowUp::AbandonBranch
    }
}

/// The payload of the pull request a publishing project opens.
pub fn build_pull_request(cfg: &RunPrConfig, defbranch: &str) -> (r: CreatePullRequest)
    ensures
        r.title@ == cfg.pr_title@,
        r.head@ == cfg.branch@,
        r.base@ == defbranch@,
        (r.body is Some <==> cfg.pr_body is Some),
        r.body matches Some(b) ==> (cfg.pr_body matches Some(own) && b@ == own@),
        r.maintainer_can_modify,
{
    let body = match &cfg.pr_body {
        Some(b) => Some(b.clone()),
        None => None,
    };
    CreatePullRequest {
        title: cfg.pr_title.clone(),
        head: cfg.branch.clone(),
        base: defbranch.to_owned(),
        body,
        maintainer_can_modify: true,
    }
}

/// The labels of one lower-cased name list.
pub open spec fn spec_lower_all(names: Seq<Seq<char>>) -> Seq<Seq<char>> {
    names.map_values(|n: Seq<char>| spec_ascii_lower(n))
}

/// A name is present, case-insensitively, among the existing labels.
pub open spec fn spec_label_known(existing_lower: Seq<Seq<char>>, name: Seq<char>) -> bool {
    exists|i: int|
        0 <= i < existing_lower.len() && existing_lower[i] == spec_ascii_lower(name)
}

/// The labels to create: those wanted labels not yet known, each with the
/// palette color its draw picked.
pub open spec fn spec_labels_to_create(
    existing_lower: Seq<Seq<char>>,
    want: Seq<Seq<char>>,
    picks: Seq<u64>,
) -> Seq<(Seq<char>, Seq<char>)>
    decreases want.len(),
{
    if want.len() == 0 || picks.len() == 0 {
        Seq::<(Seq<char>, Seq<char>)>::empty()
    } else if !spec_label_known(existing_lower, want[0]) {
        seq![(want[0], spec_color(picks[0] as int % palette_size()))] + spec_labels_to_create(
            existing_lower,
            want.drop_first(),
            picks.drop_first(),
        )
    } else {
        spec_labels_to_create(existing_lower, want.drop_first(), picks.drop_first())
    }
}

/// The soft labels that apply: those already known, case-insensitively.
pub open spec fn spec_soft_applied(existing_lower: Seq<Seq<char>>, soft: Seq<Seq<char>>) -> Seq<
    Seq<char>,
>
    decreases soft.len(),
{
    if soft.len() == 0 {
        Seq::<Seq<char>>::empty()
    } else if spec_label_known(existing_lower, soft[0]) {
        seq![soft[0]] + spec_soft_applied(existing_lower, soft.drop_first())
    } else {
        spec_soft_applied(existing_lower, soft.drop_first())
    }
}

/// What the label phase does: the labels created first (name and color), and
/// every label applied to the pull request.
pub struct LabelPlan {
    pub to_create: Vec<(String, String)>,
    pub to_apply: Vec<String>,
}

/// Plans the label phase.  Every wanted label is applied; one not yet on the
/// repository (comparing case-insensitively) is first created with the
/// palette color its draw picked; a soft label is applied only when already
/// present and is never created.
pub fn plan_labels(
    existing: &Vec<String>,
    want: &Vec<String>,
    soft: &Vec<String>,
    picks: &Vec<u64>,
) -> (r: LabelPlan)
    requires
        picks@.len() == want@.len(),
    ensures
        r.to_create@.map_values(|p: (String, String)| (p.0@, p.1@)) == spec_labels_to_create(
            spec_lower_all(existing@.map_values(|s: String| s@)),
            want@.map_values(|s: String| s@),
            picks@,
        ),
        r.to_apply@.map_values(|s: String| s@) == want@.map_values(|s: String| s@)
            + spec_soft_applied(
            spec_lower_all(existing@.map_values(|s: String| s@)),
            soft@.map_values(|s: String| s@),
        ),
{
    let color = RandomColor;
    let mut lowered: Vec<String> = Vec::new();
    let mut i: usize = 0;
    let ghost exviews = existing@.map_values(|s: String| s@);
    while i < existing.len()
        invariant
            i <= existing@.len(),
            exviews == existing@.map_values(|s: String| s@),
            lowered@.map_values(|s: String| s@) == spec_lower_all(exviews).take(i as int),
        decreases existing@.len() - i,
    {
        proof {
            assert(existing@.map_values(|s: String| s@)[i as int] == existing@[i as int]@);
            assert(spec_lower_all(exviews)[i as int] == spec_ascii_lower(exviews[i as int]));
        }
        let ghost pre = lowered@;
        lowered.push(ascii_lower(existing[i].as_str()));
        i += 1;
        proof {
            pre.lemma_push_map_commute(|s: String| s@, lowered@[lowered@.len() - 1]);
            assert(lowered@.map_values(|s: String| s@) =~= spec_lower_all(exviews).take(
                i as int,
            ));
        }
    }
    proof {
        assert(spec_lower_all(exviews).take(exviews.len() as int) =~= spec_lower_all(exviews));
    }
    let ghost lowviews = spec_lower_all(exviews);
    let ghost wantviews = want@.map_values(|s: String| s@);
    let mut to_create: Vec<(String, String)> = Vec::new();
    let mut to_apply: Vec<String> = Vec::new();
    let mut k: usize = 0;
    let ghost mut created: Seq<(Seq<char>, Seq<char>)> = Seq::<(Seq<char>, Seq<char>)>::empty();
    proof {
        assert(wantviews.skip(0) =~= wantviews);
        assert(picks@.skip(0) =~= picks@);
        assert(created + spec_labels_to_create(lowviews, wantviews, picks@)
            =~= spec_labels_to_create(lowviews, wantviews, picks@));
        assert(to_apply@.map_values(|s: String| s@) =~= wantviews.take(0));
    }
    while k < want.len()
        invariant
            k <= want@.len(),
            picks@.len() == want@.len(),
            wantviews == want@.map_values(|s: String| s@),
            lowered@.map_values(|s: String| s@) == lowviews,
            to_create@.map_values(|p: (String, String)| (p.0@, p.1@)) == created,
            spec_labels_to_create(lowviews, wantviews, picks@) == created
                + spec_labels_to_create(lowviews, wantviews.skip(k as int), picks@.skip(k as int)),
            to_apply@.map_values(|s: String| s@) == wantviews.take(k as int),
        decreases want@.len() - k,
    {
        proof {
            assert(want@.map_values(|s: String| s@)[k as int] == want@[k as int]@);
            assert(wantviews.skip(k as int)[0] == wantviews[k as int]);
            assert(wantviews.skip(k as int).drop_first() =~= wantviews.skip(k as int + 1));
            assert(picks@.skip(k as int)[0] == picks@[k as int]);
            assert(picks@.skip(k as int).drop_first() =~= picks@.skip(k as int + 1));
        }
        let lname = ascii_lower(want[k].as_str());
        let known = known_label(&lowered, lname.as_str());
        proof {
            lemma_known_bridge(lowered@, lowviews, lname@, wantviews[k as int], known);
        }
        if !known {
            let c = color.generate(picks[k]);
            let ghost prec = to_create@;
            to_create.push((want[k].clone(), c.to_owned()));
            proof {
                prec.lemma_push_map_commute(
                    |p: (String, String)| (p.0@, p.1@),
                    to_create@[to_create@.len() - 1],
                );
                created = created.push((wantviews[k as int], spec_color(
                    picks@[k as int] as int % palette_size(),
                )));
                assert(to_create@.map_values(|p: (String, String)| (p.0@, p.1@)) =~= created);
                assert(created + spec_labels_to_create(
                    lowviews,
                    wantviews.skip(k as int + 1),
                    picks@.skip(k as int + 1),
                ) =~= spec_labels_to_create(lowviews, wantviews, picks@));
            }
        } else {
            proof {
                assert(created + spec_labels_to_create(
                    lowviews,
                    wantviews.skip(k as int + 1),
                    picks@.skip(k as int + 1),
                ) =~= spec_labels_to_create(lowviews, wantviews, picks@));
            }
        }
        let ghost prea = to_apply@;
        to_apply.push(want[k].clone());
        k += 1;
        proof {
            prea.lemma_push_map_commute(|s: String| s@, to_apply@[to_apply@.len() - 1]);
            assert(to_apply@.map_values(|s: String| s@) =~= wantviews.take(k as int));
        }
    }
    proof {
        assert(wantviews.skip(want@.len() as int) =~= Seq::<Seq<char>>::empty());
        assert(picks@.skip(want@.len() as int) =~= Seq::<u64>::empty());
        assert(created + spec_labels_to_create(
            lowviews,
            wantviews.skip(want@.len() as int),
            picks@.skip(want@.len() as int),
        ) =~= created);
        assert(wantviews.take(want@.len() as int) =~= wantviews);
    }
    let ghost softviews = soft@.map_values(|s: String| s@);
    let mut m: usize = 0;
    let ghost mut soft_done: Seq<Seq<char>> = Seq::<Seq<char>>::empty();
    proof {
        assert(softviews.skip(0) =~= softviews);
        assert(soft_done + spec_soft_applied(lowviews, softviews) =~= spec_soft_applied(
            lowviews,
            softviews,
        ));
    }
    while m < soft.len()
        invariant
            m <= soft@.len(),
            softviews == soft@.map_values(|s: String| s@),
            lowered@.map_values(|s: String| s@) == lowviews,
            wantviews == want@.map_values(|s: String| s@),
            to_apply@.map_values(|s: String| s@) == wantviews + soft_done,
            spec_soft_applied(lowviews, softviews) == soft_done + spec_soft_applied(
                lowviews,
                softviews.skip(m as int),
            ),
        decreases soft@.len() - m,
    {
        proof {
            assert(soft@.map_values(|s: String| s@)[m as int] == soft@[m as int]@);
            assert(softviews.skip(m as int)[0] == softviews[m as int]);
            assert(softviews.skip(m as int).drop_first() =~= softviews.skip(m as int + 1));
        }
        let lname = ascii_lower(soft[m].as_str());
        let soft_known = known_label(&lowered, lname.as_str());
        proof {
            lemma_known_bridge(lowered@, lowviews, lname@, softviews[m as int], soft_known);
        }
        if soft_known {
            let ghost prea = to_apply@;
            to_apply.push(soft[m].clone());
            proof {
                prea.lemma_push_map_commute(|s: String| s@, to_apply@[to_apply@.len() - 1]);
                soft_done = soft_done.push(softviews[m as int]);
                assert(to_apply@.map_values(|s: String| s@) =~= wantviews + soft_done);
                assert(soft_done + spec_soft_applied(lowviews, softviews.skip(m as int + 1))
                    =~= spec_soft_applied(lowviews, softviews));
            }
        } else {
            proof {
                assert(soft_done + spec_soft_applied(lowviews, softviews.skip(m as int + 1))
                    =~= spec_soft_applied(lowviews, softviews));
            }
        }
        m += 1;
    }
    proof {
        assert(softviews.skip(soft@.len() as int) =~= Seq::<Seq<char>>::empty());
        assert(soft_done + spec_soft_applied(lowviews, softviews.skip(soft@.len() as int))
            =~= soft_done);
    }
    LabelPlan { to_create, to_apply }
}

/// An executable membership answer over the lowered vector settles the
/// spec-level question over its views.
proof fn lemma_known_bridge(
    lowered: Seq<String>,
    lowviews: Seq<Seq<char>>,
    lname: Seq<char>,
    orig: Seq<char>,
    known: bool,
)
    requires
        lowered.map_values(|s: String| s@) == lowviews,
        lname == spec_ascii_lower(orig),
        known == (exists|i: int| 0 <= i < lowered.len() && (#[trigger] lowered[i])@ == lname),
    ensures
        known == spec_label_known(lowviews, orig),
{
    if known {
        let i = choose|i: int| 0 <= i < lowered.len() && (#[trigger] lowered[i])@ == lname;
        assert(lowered.map_values(|s: String| s@)[i] == lowered[i]@);
        assert(lowviews[i] == spec_ascii_lower(orig));
    } else {
        if spec_label_known(lowviews, orig) {
            let i = choose|i: int|
                0 <= i < lowviews.len() && lowviews[i] == spec_ascii_lower(orig);
            assert(lowered.map_values(|s: String| s@)[i] == lowered[i]@);
            assert(lowered[i]@ == lname);
        }
    }
}

/// Whether a lower-cased name is among the lower-cased existing labels.
fn known_label(lowered: &Vec<String>, lname: &str) -> (r: bool)
    ensures
        r == (exists|i: int| 0 <= i < lowered@.len() && (#[trigger] lowered@[i])@ == lname@),
{
    crate::strutil::contains_str(lowered, lname)
}

} // verus!
