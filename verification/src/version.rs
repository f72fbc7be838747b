use vstd::prelude::*;

verus! {

use crate::chars::{chars_to_string, str_to_chars};

/// The civil calendar fields of one moment in the machine's local time.
#[derive(Clone, Copy)]
pub struct TimeParts {
    pub year: i32,
    pub month: u32,
    pub day: u32,
    pub hour: u32,
    pub minute: u32,
    pub second: u32,
}

/// Field ranges under which the timestamp can be written with four year
/// digits and two digits everywhere else.
pub open spec fn wf_time_parts(p: TimeParts) -> bool {
    &&& 0 <= p.year <= 9999
    &&& 1 <= p.month <= 12
    &&& 1 <= p.day <= 31
    &&& p.hour <= 23
    &&& p.minute <= 59
    &&& p.second <= 59
}

pub open spec fn dec_digit_spec(d: int) -> char {
    if d == 0 {
        '0'
    } else if d == 1 {
        '1'
    } else if d == 2 {
        '2'
    } else if d == 3 {
        '3'
    } else if d == 4 {
        '4'
    } else if d == 5 {
        '5'
    } else if d == 6 {
        '6'
    } else if d == 7 {
        '7'
    } else if d == 8 {
        '8'
    } else {
        '9'
    }
}

pub open spec fn pad2_spec(n: int) -> Seq<char> {
    seq![dec_digit_spec(n / 10), dec_digit_spec(n % 10)]
}

pub open spec fn pad4_spec(n: int) -> Seq<char> {
    seq![
        dec_digit_spec(n / 1000),
        dec_digit_spec((n / 100) % 10),
        dec_digit_spec((n / 10) % 10),
        dec_digit_spec(n % 10),
    ]
}

/// The timestamp written as four year digits, then zero-padded pairs.
pub open spec fn ts_spec(p: TimeParts) -> Seq<char> {
    pad4_spec(p.year as int) + "-"@ + pad2_spec(p.month as int) + "-"@ + pad2_spec(p.day as int)
        + " "@ + pad2_spec(p.hour as int) + ":"@ + pad2_spec(p.minute as int) + ":"@ + pad2_spec(
        p.second as int,
    )
}

fn dec_digit(d: u32) -> (r: char)
    requires
        d < 10,
    ensures
        r == dec_digit_spec(d as int),
{
    if d == 0 {
        '0'
    } else if d == 1 {
        '1'
    } else if d == 2 {
        '2'
    } else if d == 3 {
        '3'
    } else if d == 4 {
        '4'
    } else if d == 5 {
        '5'
    } else if d == 6 {
        '6'
    } else if d == 7 {
        '7'
    } else if d == 8 {
        '8'
    } else {
        '9'
    }
}

fn push_pad2(out: &mut Vec<char>, n: u32)
    requires
        n < 100,
    ensures
        final(out)@ == old(out)@ + pad2_spec(n as int),
{
    out.push(dec_digit(n / 10));
    out.push(dec_digit(n % 10));
    proof {
        assert(out@ =~= old(out)@ + pad2_spec(n as int));
    }
}

/// Write the timestamp as `YYYY-MM-DD HH:MM:SS`.
pub fn format_timestamp(p: TimeParts) -> (r: Vec<char>)
    requires
        wf_time_parts(p),
    ensures
        r@ == ts_spec(p),
{
    let mut out: Vec<char> = Vec::new();
    let y = p.year as u32;
    out.push(dec_digit(y / 1000));
    out.push(dec_digit((y / 100) % 10));
    out.push(dec_digit((y / 10) % 10));
    out.push(dec_digit(y % 10));
    out.push('-');
    push_pad2(&mut out, p.month);
    out.push('-');
    push_pad2(&mut out, p.day);
    out.push(' ');
    push_pad2(&mut out, p.hour);
    out.push(':');
    push_pad2(&mut out, p.minute);
    out.push(':');
    push_pad2(&mut out, p.second);
    proof {
        reveal_strlit("-");
        reveal_strlit(" ");
        reveal_strlit(":");
        assert(out@ =~= ts_spec(p));
    }
    out
}

/// The version marker appended after each heading: the eight-digit commit
/// prefix, a `+` when the working copy is dirty, the branch name, and the
/// commit's local timestamp.
pub open spec fn version_div_of(id8: Seq<char>, dirty: bool, branch: Seq<char>, p: TimeParts) -> Seq<
    char,
> {
    "<div class='version'>version: "@ + id8 + (if dirty {
        "+"@
    } else {
        Seq::empty()
    }) + "@"@ + branch + " last modified at "@ + ts_spec(p) + "</div>"@
}

/// Whether `s` is a well-formed version marker for some commit prefix of
/// eight lowercase hexadecimal digits, dirtiness, branch and timestamp.
pub open spec fn is_version_annotation(s: Seq<char>) -> bool {
    exists|id8: Seq<char>, dirty: bool, branch: Seq<char>, p: TimeParts|
        #[trigger] version_div_of(id8, dirty, branch, p) == s && id8.len() == 8 && (forall|k: int|
            0 <= k < id8.len() ==> is_hex_lower(#[trigger] id8[k])) && wf_time_parts(p)
}

/// One file's derived version record: the shortened commit hash, whether
/// the working copy carries local modifications, the branch name, and the
/// commit's local time.
pub struct VersionAnnotation {
    pub short_hash: String,
    pub dirty: bool,
    pub branch_name: String,
    pub timestamp: TimeParts,
}

/// Write the version marker for one annotation record.
pub fn format_version_annotation(ann: &VersionAnnotation) -> (r: String)
    requires
        wf_time_parts(ann.timestamp),
    ensures
        r@ == version_div_of(ann.short_hash@, ann.dirty, ann.branch_name@, ann.timestamp),
{
    let mut out = str_to_chars("<div class='version'>version: ");
    let mut hash = str_to_chars(ann.short_hash.as_str());
    out.append(&mut hash);
    if ann.dirty {
        let mut plus = str_to_chars("+");
        out.append(&mut plus);
    }
    let mut at = str_to_chars("@");
    out.append(&mut at);
    let mut br = str_to_chars(ann.branch_name.as_str());
    out.append(&mut br);
    let mut mid = str_to_chars(" last modified at ");
    out.append(&mut mid);
    let mut ts = format_timestamp(ann.timestamp);
    out.append(&mut ts);
    let mut close = str_to_chars("</div>");
    out.append(&mut close);
    proof {
        assert(out@ =~= version_div_of(ann.short_hash@, ann.dirty, ann.branch_name@, ann.timestamp));
    }
    chars_to_string(&out)
}

/// `s` with every leading path separator removed.
pub open spec fn strip_slashes_spec(s: Seq<char>) -> Seq<char>
    decreases s.len(),
{
    if s.len() > 0 && s[0] == '/' {
        strip_slashes_spec(s.drop_first())
    } else {
        s
    }
}

pub fn strip_leading_slashes(v: Vec<char>) -> (r: Vec<char>)
    ensures
        r@ == strip_slashes_spec(v@),
    decreases v@.len(),
{
    if v.len() > 0 && v[0] == '/' {
        let mut v2 = v;
        v2.remove(0);
        proof {
            assert(v2@ =~= v@.drop_first());
        }
        strip_leading_slashes(v2)
    } else {
        v
    }
}

#[verifier::external_type_specification]
#[verifier::external_body]
pub struct ExRepository(git2::Repository);

/// Relies on git2::Repository::open: a handle on the repository at the
/// given path, or nothing when it cannot be opened.
#[verifier::external_body]
pub(crate) fn open_repo(path: &str) -> Option<git2::Repository> {
    git2::Repository::open(path).ok()
}

/// Relies on git2::Repository::status_file: whether the file's working
/// copy is unchanged relative to the repository's tracked state.
#[verifier::external_body]
pub(crate) fn file_status_is_current(repo: &git2::Repository, path: &str) -> Option<bool> {
    let status = repo.status_file(std::path::Path::new(path)).ok()?;
    Some(status == git2::Status::CURRENT)
}

/// Relies on git2::Repository::head and git2::Reference::shorthand: the
/// current branch's short name, the empty string when it has none.
#[verifier::external_body]
pub(crate) fn head_branch(repo: &git2::Repository) -> Option<String> {
    let head = repo.head().ok()?;
    Some(head.shorthand().unwrap_or("").to_owned())
}

/// Whether `c` is a lowercase hexadecimal digit.
pub open spec fn is_hex_lower(c: char) -> bool {
    let u = c as u32;
    (0x30 <= u && u <= 0x39) || (0x61 <= u && u <= 0x66)
}

/// A forty-digit lowercase hexadecimal commit identifier.
pub open spec fn wf_commit_id(s: Seq<char>) -> bool {
    s.len() == 40 && forall|i: int| 0 <= i < s.len() ==> is_hex_lower(#[trigger] s[i])
}

/// Relies on git2::Repository::revwalk, sorted by commit time and pushed
/// from head, and on git2::Oid's hexadecimal rendering: the identifiers
/// of the reachable commits, most recent first, each as forty lowercase
/// hexadecimal digits.
#[verifier::external_body]
pub(crate) fn history_ids(repo: &git2::Repository) -> (r: Option<Vec<String>>)
    ensures
        r matches Some(ids) ==> forall|i: int|
            0 <= i < ids@.len() ==> wf_commit_id(#[trigger] ids@[i]@),
{
    let mut walk = repo.revwalk().ok()?;
    walk.set_sorting(git2::Sort::TIME).ok()?;
    walk.push_head().ok()?;
    let mut out: Vec<String> = Vec::new();
    for id in walk {
        out.push(id.ok()?.to_string());
    }
    Some(out)
}

/// Relies on git2::Repository::find_commit, git2::Commit::parent_count
/// and git2::Commit::time: how many parents the commit has, and its time
/// in seconds since the epoch.
#[verifier::external_body]
pub(crate) fn commit_meta(repo: &git2::Repository, id: &str) -> Option<(usize, i64)> {
    let oid = git2::Oid::from_str(id).ok()?;
    let commit = repo.find_commit(oid).ok()?;
    Some((commit.parent_count(), commit.time().seconds()))
}

/// Relies on git2::Repository::diff_tree_to_tree between the commit's
/// tree and its first parent's tree, and on git2::DiffDelta::new_file:
/// the paths the commit changed, for a commit with a first parent.
#[verifier::external_body]
pub(crate) fn commit_changed_paths(repo: &git2::Repository, id: &str) -> Option<Vec<String>> {
    let oid = git2::Oid::from_str(id).ok()?;
    let commit = repo.find_commit(oid).ok()?;
    let parent = commit.parent(0).ok()?;
    let tree = commit.tree().ok()?;
    let parent_tree = parent.tree().ok()?;
    let diff = repo.diff_tree_to_tree(Some(&parent_tree), Some(&tree), None).ok()?;
    let mut out: Vec<String> = Vec::new();
    for delta in diff.deltas() {
        if let Some(p) = delta.new_file().path().and_then(|p| p.to_str()) {
            out.push(p.to_owned());
        }
    }
    Some(out)
}

/// Whether the commit at index `i` of the walk qualifies as the file's
/// version: it has exactly one parent, and its diff against that parent
/// lists the normalized path.
pub open spec fn qualifies(
    metas: Seq<(usize, i64)>,
    changed: Seq<Vec<String>>,
    i: int,
    norm: Seq<char>,
) -> bool {
    &&& 0 <= i < metas.len()
    &&& metas[i].0 == 1
    &&& exists|j: int| 0 <= j < changed[i]@.len() && (#[trigger] changed[i]@[j])@ == norm
}

/// Select the file's version from the walk results: the first qualifying
/// commit, front to back, or nothing when no commit qualifies. This is
/// the whole selection rule; it is fixed for every value the repository
/// calls hand back.
pub fn pick_version(metas: &Vec<(usize, i64)>, changed: &Vec<Vec<String>>, norm: &String) -> (r:
    Option<usize>)
    requires
        metas@.len() == changed@.len(),
    ensures
        r matches Some(i) ==> qualifies(metas@, changed@, i as int, norm@) && (forall|k: int|
            0 <= k < i ==> !qualifies(metas@, changed@, k, norm@)),
        r is None ==> forall|k: int| 0 <= k < metas@.len() ==> !qualifies(metas@, changed@, k, norm@),
{
    let mut i: usize = 0;
    while i < metas.len()
        invariant
            i <= metas@.len(),
            metas@.len() == changed@.len(),
            forall|k: int| 0 <= k < i ==> !qualifies(metas@, changed@, k, norm@),
        decreases metas@.len() - i,
    {
        if metas[i].0 == 1 {
            let mut j: usize = 0;
            while j < changed[i].len()
                invariant
                    i < metas@.len(),
                    metas@.len() == changed@.len(),
                    metas@[i as int].0 == 1,
                    j <= changed@[i as int]@.len(),
                    forall|k: int| 0 <= k < i ==> !qualifies(metas@, changed@, k, norm@),
                    forall|l: int| 0 <= l < j ==> (#[trigger] changed@[i as int]@[l])@ != norm@,
                decreases changed@[i as int]@.len() - j,
            {
                if changed[i][j] == *norm {
                    proof {
                        assert((changed@[i as int]@[j as int])@ == norm@);
                        assert(qualifies(metas@, changed@, i as int, norm@));
                    }
                    return Some(i);
                }
                j = j + 1;
            }
            proof {
                assert(!qualifies(metas@, changed@, i as int, norm@));
            }
        } else {
            proof {
                assert(!qualifies(metas@, changed@, i as int, norm@));
            }
        }
        i = i + 1;
    }
    None
}

/// Look up the file's most recent qualifying change: walk the history
/// from the branch tip, most recent first, gather each commit's parent
/// count, time and changed paths through the repository wrappers, and let
/// `pick_version` choose the first commit with exactly one parent whose
/// diff against that parent touches the file. The result is the rendered
/// version marker, the empty string when no commit qualifies, and nothing
/// when the repository cannot be read.
pub fn get_file_git_version(repo_dir: &str, fpath: &str) -> (r: Option<String>)
    ensures
        r matches Some(s) ==> s@.len() == 0 || is_version_annotation(s@),
{
    let norm = chars_to_string(&strip_leading_slashes(str_to_chars(fpath)));
    let repo = match open_repo(repo_dir) {
        Some(x) => x,
        None => {
            return None;
        },
    };
    let current = match file_status_is_current(&repo, norm.as_str()) {
        Some(x) => x,
        None => {
            return None;
        },
    };
    let branch = match head_branch(&repo) {
        Some(x) => x,
        None => {
            return None;
        },
    };
    let ids = match history_ids(&repo) {
        Some(x) => x,
        None => {
            return None;
        },
    };
    let mut metas: Vec<(usize, i64)> = Vec::new();
    let mut changed: Vec<Vec<String>> = Vec::new();
    let mut i: usize = 0;
    while i < ids.len()
        invariant
            i <= ids@.len(),
            metas@.len() == i,
            changed@.len() == i,
            forall|k: int| 0 <= k < ids@.len() ==> wf_commit_id(#[trigger] ids@[k]@),
        decreases ids@.len() - i,
    {
        let meta = match commit_meta(&repo, ids[i].as_str()) {
            Some(x) => x,
            None => {
                return None;
            },
        };
        if meta.0 == 1 {
            let paths = match commit_changed_paths(&repo, ids[i].as_str()) {
                Some(x) => x,
                None => {
                    return None;
                },
            };
            changed.push(paths);
        } else {
            changed.push(Vec::new());
        }
        metas.push(meta);
        i = i + 1;
    }
    match pick_version(&metas, &changed, &norm) {
        None => Some(String::new()),
        Some(pick) => {
            let idc = str_to_chars(ids[pick].as_str());
            proof {
                assert(wf_commit_id(ids@[pick as int]@));
            }
            let mut id8: Vec<char> = Vec::new();
            let mut k: usize = 0;
            while k < 8
                invariant
                    k <= 8,
                    idc@.len() == 40,
                    forall|l: int| 0 <= l < idc@.len() ==> is_hex_lower(#[trigger] idc@[l]),
                    id8@ == idc@.subrange(0, k as int),
                decreases 8 - k,
            {
                id8.push(idc[k]);
                k = k + 1;
                proof {
                    assert(id8@ =~= idc@.subrange(0, k as int));
                }
            }
            let parts = match crate::version::local_time_parts(metas[pick].1) {
                Some(x) => x,
                None => {
                    return None;
                },
            };
            if !(0 <= parts.year && parts.year <= 9999) {
                return None;
            }
            let ann = VersionAnnotation {
                short_hash: chars_to_string(&id8),
                dirty: !current,
                branch_name: branch,
                timestamp: parts,
            };
            let s = format_version_annotation(&ann);
            proof {
                assert(ann.short_hash@.len() == 8);
                assert forall|l: int| 0 <= l < ann.short_hash@.len() implies is_hex_lower(
                    #[trigger] ann.short_hash@[l],
                ) by {
                    assert(ann.short_hash@[l] == idc@[l]);
                }
                assert(version_div_of(ann.short_hash@, ann.dirty, ann.branch_name@, ann.timestamp)
                    == s@);
                assert(is_version_annotation(s@));
            }
            Some(s)
        },
    }
}

/// Relies on chrono's DateTime::from_timestamp and on conversion to the
/// Local time zone: the civil calendar fields of the commit time on this
/// machine, with the field ranges chrono documents. The local offset
/// depends on the machine, so nothing further is promised.
#[verifier::external_body]
pub(crate) fn local_time_parts(secs: i64) -> (r: Option<TimeParts>)
    ensures
        r matches Some(p) ==> 1 <= p.month <= 12 && 1 <= p.day <= 31 && p.hour <= 23 && p.minute
            <= 59 && p.second <= 59,
{
    let dt = chrono::DateTime::from_timestamp(secs, 0)?;
    let local = dt.with_timezone(&chrono::Local);
    Some(
        TimeParts {
            year: chrono::Datelike::year(&local),
            month: chrono::Datelike::month(&local),
            day: chrono::Datelike::day(&local),
            hour: chrono::Timelike::hour(&local),
            minute: chrono::Timelike::minute(&local),
            second: chrono::Timelike::second(&local),
        },
    )
}

} // verus!
