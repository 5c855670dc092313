//! The desktop's list of recent workspaces, and the settings a workspace
//! must have filled in.
use vstd::prelude::*;

use crate::desktop::{path_name, workspace_name};
use crate::document::{file_name, file_name_exec};
use crate::settings::ends_with;
use crate::text::{chars_of, decimal, decimal_vec, has_sub, lower, lower_str, push_str, string_of, vec_contains, vec_eq};
use crate::json::{field_lookup, JsonValue};
use crate::text::{owned, str_eq};

verus! {

/// A workspace the desktop has opened.
pub struct WorkspaceRecord {
    pub path: String,
    pub name: String,
    pub last_opened: String,
    pub archived: bool,
}

/// The current workspace and the recently opened ones, latest first.
pub struct WorkspaceStore {
    pub current_workspace: Option<String>,
    pub recent_workspaces: Vec<WorkspaceRecord>,
}

/// How many recent workspaces are kept.
pub const MAX_RECENT: usize = 12;

/// A workspace record as plain values.
pub open spec fn record_view(r: WorkspaceRecord) -> (Seq<char>, Seq<char>, Seq<char>, bool) {
    (r.path@, r.name@, r.last_opened@, r.archived)
}

/// Workspace records as plain values.
pub open spec fn record_views(rs: Seq<WorkspaceRecord>) -> Seq<(Seq<char>, Seq<char>, Seq<char>, bool)> {
    Seq::new(rs.len(), |i: int| record_view(rs[i]))
}

/// The records whose path is not `path`, in order.
pub open spec fn without_path(rs: Seq<(Seq<char>, Seq<char>, Seq<char>, bool)>, path: Seq<char>) -> Seq<
    (Seq<char>, Seq<char>, Seq<char>, bool),
>
    decreases rs.len(),
{
    if rs.len() == 0 {
        Seq::empty()
    } else {
        let before = without_path(rs.drop_last(), path);
        if rs.last().0 == path {
            before
        } else {
            before.push(rs.last())
        }
    }
}

/// The recent list after opening `path` at time `now`: a fresh record of it
/// first, then the other records in order, at most twelve in all.
pub open spec fn recent_after_open(
    rs: Seq<(Seq<char>, Seq<char>, Seq<char>, bool)>,
    path: Seq<char>,
    now: Seq<char>,
) -> Seq<(Seq<char>, Seq<char>, Seq<char>, bool)> {
    let all = seq![(path, workspace_name(path), now, false)] + without_path(rs, path);
    if all.len() > MAX_RECENT {
        all.take(MAX_RECENT as int)
    } else {
        all
    }
}

proof fn lemma_without_path(rs: Seq<(Seq<char>, Seq<char>, Seq<char>, bool)>, path: Seq<char>)
    ensures
        forall|i: int|
            0 <= i < without_path(rs, path).len() ==> (#[trigger] without_path(rs, path)[i]).0 != path,
        without_path(rs, path).len() <= rs.len(),
    decreases rs.len(),
{
    if rs.len() > 0 {
        lemma_without_path(rs.drop_last(), path);
    }
}

/// Records `path` as the current workspace, opened at `now`: it moves to
/// the front of the recent list with a fresh record, any older record of
/// it is dropped, and the list is cut to twelve.
pub fn add_recent_workspace(store: &mut WorkspaceStore, path: &str, now: &str)
    ensures
        crate::graph::opt_view(final(store).current_workspace) == Some(path@),
        record_views(final(store).recent_workspaces@) == recent_after_open(
            record_views(old(store).recent_workspaces@),
            path@,
            now@,
        ),
{
    let ghost old_views = record_views(store.recent_workspaces@);
    let mut kept: Vec<WorkspaceRecord> = Vec::new();
    kept.push(WorkspaceRecord {
        path: owned(path),
        name: path_name(path),
        last_opened: owned(now),
        archived: false,
    });
    let ghost first = record_views(kept@);
    let mut old_list: Vec<WorkspaceRecord> = Vec::new();
    std::mem::swap(&mut old_list, &mut store.recent_workspaces);
    assert(record_views(old_list@) == old_views);
    let mut i: usize = 0;
    while i < old_list.len()
        invariant
            i <= old_list.len(),
            record_views(old_list@) == old_views,
            first == seq![(path@, workspace_name(path@), now@, false)],
            record_views(kept@) == first + without_path(old_views.take(i as int), path@),
        decreases old_list.len() - i,
    {
        assert(old_views.take(i + 1).drop_last() =~= old_views.take(i as int));
        assert(old_views.take(i + 1).last() == record_view(old_list@[i as int]));
        if !str_eq(old_list[i].path.as_str(), path) {
            let r = &old_list[i];
            let ghost before = record_views(kept@);
            kept.push(
                WorkspaceRecord {
                    path: owned(r.path.as_str()),
                    name: owned(r.name.as_str()),
                    last_opened: owned(r.last_opened.as_str()),
                    archived: r.archived,
                },
            );
            assert(record_views(kept@) =~= before.push(record_view(old_list@[i as int])));
        }
        i = i + 1;
    }
    assert(old_views.take(old_list.len() as int) =~= old_views);
    if kept.len() > MAX_RECENT {
        kept.truncate(MAX_RECENT);
        assert(record_views(kept@) =~= (first + without_path(old_views, path@)).take(MAX_RECENT as int));
    }
    store.recent_workspaces = kept;
    store.current_workspace = Some(owned(path));
}

/// The workspace a path names is at the front of the recent list after it
/// is opened, and appears there exactly once.
pub proof fn lemma_opened_workspace_listed_once(
    rs: Seq<(Seq<char>, Seq<char>, Seq<char>, bool)>,
    path: Seq<char>,
    now: Seq<char>,
)
    ensures
        recent_after_open(rs, path, now).len() >= 1,
        recent_after_open(rs, path, now).len() <= MAX_RECENT,
        recent_after_open(rs, path, now)[0].0 == path,
        forall|i: int|
            0 < i < recent_after_open(rs, path, now).len() ==> (#[trigger] recent_after_open(
                rs,
                path,
                now,
            )[i]).0 != path,
{
    lemma_without_path(rs, path);
    let all = seq![(path, workspace_name(path), now, false)] + without_path(rs, path);
    assert forall|i: int| 0 < i < all.len() implies (#[trigger] all[i]).0 != path by {
        assert(all[i] == without_path(rs, path)[i - 1]);
    }
}

// ---------------------------------------------------------------------------
// Settings defaults
// ---------------------------------------------------------------------------

/// The keys filled in with a default when a settings document lacks them,
/// with their defaults; `credentials_file` is the default credentials file.
pub open spec fn default_settings(credentials_file: Seq<char>) -> Seq<(Seq<char>, Seq<char>)> {
    seq![
        ("credentials.mode"@, "local-file"@),
        ("credentials.file"@, credentials_file),
        ("model.provider"@, "deepseek-compatible"@),
        ("model.name"@, "Qwen3-Coder-Next"@),
        ("model.base_url"@, "${DEEPSEEK_BASE_URL}"@),
        ("model.api_key_env"@, "DEEPSEEK_API_KEY"@),
    ]
}

/// A field's key and, for a string, its text.
pub open spec fn field_view(f: (String, JsonValue)) -> (Seq<char>, Option<Seq<char>>) {
    (
        f.0@,
        match f.1 {
            JsonValue::Str(s) => Some(s@),
            _ => None,
        },
    )
}

/// The defaults among the first `n` that the fields lack, in order.
pub open spec fn missing_defaults(
    fields: Seq<(String, JsonValue)>,
    defaults: Seq<(Seq<char>, Seq<char>)>,
    n: int,
) -> Seq<(Seq<char>, Option<Seq<char>>)>
    decreases n,
{
    if n <= 0 {
        Seq::empty()
    } else {
        let before = missing_defaults(fields, defaults, n - 1);
        if field_lookup(fields, defaults[n - 1].0) is Some {
            before
        } else {
            before.push((defaults[n - 1].0, Some(defaults[n - 1].1)))
        }
    }
}

proof fn lemma_lookup_extend(fields: Seq<(String, JsonValue)>, extra: (String, JsonValue), key: Seq<char>)
    ensures
        field_lookup(fields, key) is Some ==> field_lookup(fields.push(extra), key) == field_lookup(
            fields,
            key,
        ),
        field_lookup(fields, key) is None && extra.0@ != key ==> field_lookup(fields.push(extra), key)
            is None,
    decreases fields.len(),
{
    if fields.len() > 0 {
        assert(fields.push(extra).drop_first() =~= fields.drop_first().push(extra));
        assert(fields.push(extra)[0] == fields[0]);
        lemma_lookup_extend(fields.drop_first(), extra, key);
    } else {
        assert(fields.push(extra)[0] == extra);
        assert(fields.push(extra).drop_first() =~= Seq::<(String, JsonValue)>::empty());
        reveal_with_fuel(field_lookup, 2);
    }
}

proof fn lemma_default_keys_distinct(credentials_file: Seq<char>)
    ensures
        forall|a: int, b: int|
            0 <= a < 6 && 0 <= b < 6 && a != b ==> (#[trigger] default_settings(credentials_file)[a]).0
                != (#[trigger] default_settings(credentials_file)[b]).0,
{
    let ds = default_settings(credentials_file);
    reveal_strlit("credentials.mode");
    reveal_strlit("credentials.file");
    reveal_strlit("model.provider");
    reveal_strlit("model.name");
    reveal_strlit("model.base_url");
    reveal_strlit("model.api_key_env");
    assert(ds[0].0.len() == 16 && ds[1].0.len() == 16 && ds[2].0.len() == 14);
    assert(ds[3].0.len() == 10 && ds[4].0.len() == 14 && ds[5].0.len() == 17);
    assert(ds[0].0[12] != ds[1].0[12]);
    assert(ds[2].0[6] != ds[4].0[6]);
    assert forall|a: int, b: int| 0 <= a < 6 && 0 <= b < 6 && a != b implies (#[trigger] ds[a]).0
        != (#[trigger] ds[b]).0 by {
        if (a == 0 && b == 1) || (a == 1 && b == 0) {
            assert(ds[a].0[12] != ds[b].0[12]);
        } else if (a == 2 && b == 4) || (a == 4 && b == 2) {
            assert(ds[a].0[6] != ds[b].0[6]);
        } else {
            assert(ds[a].0.len() != ds[b].0.len());
        }
    }
}

/// Fills in the credential and model settings a settings object lacks with
/// their defaults, appended in order; says whether it added any. Anything
/// but an object is left alone.
pub fn ensure_settings_defaults(value: &mut JsonValue, credentials_file: &str) -> (changed: bool)
    ensures
        match *old(value) {
            JsonValue::Object(fields) => {
                let added = missing_defaults(fields@, default_settings(credentials_file@), 6);
                &&& *final(value) matches JsonValue::Object(out) && out@.len() == fields@.len()
                    + added.len() && out@.take(fields@.len() as int) == fields@ && Seq::new(
                    added.len(),
                    |i: int| field_view(out@[fields@.len() + i]),
                ) == added
                &&& changed == (added.len() > 0)
            },
            _ => *final(value) == *old(value) && !changed,
        },
{
    let keys: [&str; 6] = [
        "credentials.mode",
        "credentials.file",
        "model.provider",
        "model.name",
        "model.base_url",
        "model.api_key_env",
    ];
    let defaults: [&str; 6] = [
        "local-file",
        credentials_file,
        "deepseek-compatible",
        "Qwen3-Coder-Next",
        "${DEEPSEEK_BASE_URL}",
        "DEEPSEEK_API_KEY",
    ];
    let ghost ds = default_settings(credentials_file@);
    assert(forall|k: int| 0 <= k < 6 ==> (#[trigger] ds[k]).0 == keys@[k]@ && ds[k].1 == defaults@[k]@);
    proof {
        lemma_default_keys_distinct(credentials_file@);
    }
    match value {
        JsonValue::Object(fields) => {
            let ghost orig = fields@;
            let mut added_any = false;
            let mut i: usize = 0;
            while i < 6
                invariant
                    i <= 6,
                    ds == default_settings(credentials_file@),
                    forall|k: int| 0 <= k < 6 ==> (#[trigger] ds[k]).0 == keys@[k]@ && ds[k].1 == defaults@[k]@,
                    forall|a: int, b: int| 0 <= a < 6 && 0 <= b < 6 && a != b ==> (#[trigger] ds[a]).0 != (#[trigger] ds[b]).0,
                    keys@.len() == 6,
                    defaults@.len() == 6,
                    fields@.len() == orig.len() + missing_defaults(orig, ds, i as int).len(),
                    fields@.take(orig.len() as int) == orig,
                    Seq::new(
                        missing_defaults(orig, ds, i as int).len(),
                        |j: int| field_view(fields@[orig.len() + j]),
                    ) == missing_defaults(orig, ds, i as int),
                    forall|k: int|
                        0 <= k < 6 ==> (field_lookup(fields@, #[trigger] ds[k].0) is Some <==> (
                        field_lookup(orig, ds[k].0) is Some || k < i)),
                    added_any == (missing_defaults(orig, ds, i as int).len() > 0),
                decreases 6 - i,
            {
                let mut present = false;
                let mut j: usize = 0;
                while j < fields.len()
                    invariant
                        j <= fields.len(),
                        i < 6,
                        keys@.len() == 6,
                        present == (field_lookup(fields@.take(j as int), keys@[i as int]@) is Some),
                    decreases fields.len() - j,
                {
                    proof {
                        lemma_lookup_extend(fields@.take(j as int), fields@[j as int], keys@[i as int]@);
                        assert(fields@.take(j + 1) =~= fields@.take(j as int).push(fields@[j as int]));
                        lemma_lookup_single(fields@.take(j as int), fields@[j as int], keys@[i as int]@);
                    }
                    if str_eq(fields[j].0.as_str(), keys[i]) {
                        present = true;
                    }
                    j = j + 1;
                }
                assert(fields@.take(fields.len() as int) =~= fields@);
                let ghost prev = fields@;
                let ghost m = missing_defaults(orig, ds, i as int);
                assert(field_lookup(fields@, ds[i as int].0) is Some <==> field_lookup(
                    orig,
                    ds[i as int].0,
                ) is Some);
                if !present {
                    let entry = (owned(keys[i]), JsonValue::Str(owned(defaults[i])));
                    fields.push(entry);
                    added_any = true;
                    proof {
                        assert forall|k: int| 0 <= k < 6 implies (field_lookup(fields@, #[trigger] ds[k].0)
                            is Some <==> (field_lookup(orig, ds[k].0) is Some || k < i + 1)) by {
                            lemma_lookup_extend(prev, entry, ds[k].0);
                            lemma_lookup_single(prev, entry, ds[k].0);
                        }
                        assert(fields@.take(orig.len() as int) =~= orig) by {
                            assert(prev.take(orig.len() as int) == orig);
                        }
                        let m2 = missing_defaults(orig, ds, i + 1);
                        assert(m2 == m.push((ds[i as int].0, Some(ds[i as int].1))));
                        assert(Seq::new(m2.len(), |q: int| field_view(fields@[orig.len() + q])) =~= m2) by {
                            assert forall|q: int| 0 <= q < m.len() implies field_view(fields@[orig.len() + q])
                                == m[q] by {
                                assert(fields@[orig.len() + q] == prev[orig.len() + q]);
                                assert(Seq::new(m.len(), |q2: int| field_view(prev[orig.len() + q2]))[q]
                                    == m[q]);
                            }
                        }
                    }
                } else {
                    assert(missing_defaults(orig, ds, i + 1) == m);
                }
                i = i + 1;
            }
            added_any
        },
        _ => false,
    }
}

proof fn lemma_lookup_single(fields: Seq<(String, JsonValue)>, extra: (String, JsonValue), key: Seq<char>)
    ensures
        extra.0@ == key ==> field_lookup(fields.push(extra), key) is Some,
    decreases fields.len(),
{
    if fields.len() > 0 {
        assert(fields.push(extra).drop_first() =~= fields.drop_first().push(extra));
        lemma_lookup_single(fields.drop_first(), extra, key);
    } else {
        assert(fields.push(extra)[0] == extra);
    }
}

// ---------------------------------------------------------------------------
// Workspace cleanup review
// ---------------------------------------------------------------------------

/// A file found in the workspace, with its size in bytes.
pub struct ScannedFile {
    pub path: String,
    pub size: u64,
}

/// Something in the workspace worth reviewing.
pub struct WorkspaceCleanupIssue {
    pub category: String,
    pub path: String,
    pub severity: String,
    pub detail: String,
    pub suggestion: String,
}

/// The review of a workspace: what was found, the findings, and a
/// markdown summary. Nothing is deleted.
pub struct WorkspaceHealthReport {
    pub workspace: String,
    pub generated_at: String,
    pub duplicate_files: usize,
    pub legacy_folders: usize,
    pub unused_caches: usize,
    pub orphan_reports: usize,
    pub old_benchmark_files: usize,
    pub issues: Vec<WorkspaceCleanupIssue>,
    pub markdown: String,
}

/// A finding as plain values.
pub open spec fn issue_view(i: WorkspaceCleanupIssue) -> (Seq<char>, Seq<char>, Seq<char>, Seq<char>, Seq<char>) {
    (i.category@, i.path@, i.severity@, i.detail@, i.suggestion@)
}

/// Findings as plain values.
pub open spec fn issue_views(is: Seq<WorkspaceCleanupIssue>) -> Seq<
    (Seq<char>, Seq<char>, Seq<char>, Seq<char>, Seq<char>),
> {
    Seq::new(is.len(), |k: int| issue_view(is[k]))
}

/// What two files must share to look like copies: the file name and the size.
pub open spec fn file_key(path: Seq<char>, size: u64) -> Seq<char> {
    (match file_name(path) {
        Some(n) => n,
        None => Seq::empty(),
    }) + ":"@ + decimal(size as nat)
}

/// The keys of the scanned files.
pub open spec fn file_keys(files: Seq<ScannedFile>) -> Seq<Seq<char>> {
    Seq::new(files.len(), |i: int| file_key(files[i].path@, files[i].size))
}

/// The first of the files from `j` up to (not including) `i` with the same
/// key as file `i`.
pub open spec fn first_match(keys: Seq<Seq<char>>, i: int, j: int) -> Option<int>
    decreases i - j,
{
    if j >= i {
        None
    } else if keys[j] == keys[i] {
        Some(j)
    } else {
        first_match(keys, i, j + 1)
    }
}

/// A path (ASCII lower-cased) is a generated cache or build artifact.
pub open spec fn is_cache(lower_path: Seq<char>) -> bool {
    has_sub(lower_path, "__pycache__"@) || ends_with(lower_path, ".pyc"@) || has_sub(
        lower_path,
        "\\target\\"@,
    )
}

/// A path (ASCII lower-cased) is an evaluation result.
pub open spec fn is_benchmark(lower_path: Seq<char>) -> bool {
    has_sub(lower_path, "beifeng\\evals"@) && (ends_with(lower_path, ".json"@) || ends_with(
        lower_path,
        ".md"@,
    ))
}

/// The finding that a file may copy an earlier one.
pub open spec fn duplicate_issue(path: Seq<char>, first: Seq<char>) -> (
    Seq<char>,
    Seq<char>,
    Seq<char>,
    Seq<char>,
    Seq<char>,
) {
    (
        "duplicate files"@,
        path,
        "Warning"@,
        "Possible duplicate of "@ + first,
        "Review both files before deleting either copy."@,
    )
}

/// The finding that a file is a cache or build artifact.
pub open spec fn cache_issue(path: Seq<char>) -> (Seq<char>, Seq<char>, Seq<char>, Seq<char>, Seq<char>) {
    (
        "unused caches"@,
        path,
        "Info"@,
        "Generated cache/build artifact detected"@,
        "Safe to review for cleanup after builds are complete."@,
    )
}

/// The findings on the first `n` files, file by file: a possible copy of an
/// earlier file, then a cache artifact.
pub open spec fn file_issues(files: Seq<ScannedFile>, n: int) -> Seq<
    (Seq<char>, Seq<char>, Seq<char>, Seq<char>, Seq<char>),
>
    decreases n,
{
    if n <= 0 {
        Seq::empty()
    } else {
        let i = n - 1;
        let p = files[i].path@;
        let dup = match first_match(file_keys(files), i, 0) {
            Some(j) => seq![duplicate_issue(p, files[j].path@)],
            None => Seq::empty(),
        };
        let cache = if is_cache(lower(p)) {
            seq![cache_issue(p)]
        } else {
            Seq::empty()
        };
        file_issues(files, n - 1) + dup + cache
    }
}

/// How many of the first `n` files may copy an earlier one.
pub open spec fn duplicate_count(files: Seq<ScannedFile>, n: int) -> nat
    decreases n,
{
    if n <= 0 {
        0
    } else {
        duplicate_count(files, n - 1) + (if first_match(file_keys(files), n - 1, 0) is Some {
            1nat
        } else {
            0nat
        })
    }
}

/// How many of the first `n` files are caches.
pub open spec fn cache_count(files: Seq<ScannedFile>, n: int) -> nat
    decreases n,
{
    if n <= 0 {
        0
    } else {
        cache_count(files, n - 1) + (if is_cache(lower(files[n - 1].path@)) {
            1nat
        } else {
            0nat
        })
    }
}

/// How many of the first `n` files are evaluation results.
pub open spec fn benchmark_count(files: Seq<ScannedFile>, n: int) -> nat
    decreases n,
{
    if n <= 0 {
        0
    } else {
        benchmark_count(files, n - 1) + (if is_benchmark(lower(files[n - 1].path@)) {
            1nat
        } else {
            0nat
        })
    }
}

/// How many of the first `n` reports are not linked to a chat (their path
/// does not mention one).
pub open spec fn orphan_count(reports: Seq<Seq<char>>, n: int) -> nat
    decreases n,
{
    if n <= 0 {
        0
    } else {
        orphan_count(reports, n - 1) + (if !has_sub(lower(reports[n - 1]), "chat"@) {
            1nat
        } else {
            0nat
        })
    }
}

/// The findings on the reports: one when some report is not linked to a chat.
pub open spec fn orphan_issues(orphans: nat, reports_dir: Seq<char>) -> Seq<
    (Seq<char>, Seq<char>, Seq<char>, Seq<char>, Seq<char>),
> {
    if orphans > 0 {
        seq![
            (
                "orphan reports"@,
                reports_dir,
                "Info"@,
                decimal(orphans) + " reports are not explicitly linked to a chat session"@,
                "Open Reports and link important reports to the relevant session before archiving."@,
            ),
        ]
    } else {
        Seq::empty()
    }
}

/// The findings on the legacy folders that exist, one each.
pub open spec fn legacy_issues(legacy: Seq<Seq<char>>) -> Seq<
    (Seq<char>, Seq<char>, Seq<char>, Seq<char>, Seq<char>),
> {
    Seq::new(
        legacy.len(),
        |k: int|
            (
                "legacy folders"@,
                legacy[k],
                "Warning"@,
                "Legacy/archive folder detected"@,
                "Review contents and move active artifacts into workspace folders."@,
            ),
    )
}

/// The markdown summary of a review.
pub open spec fn health_markdown(
    now: Seq<char>,
    workspace: Seq<char>,
    dup: nat,
    legacy: nat,
    caches: nat,
    orphans: nat,
    benchmarks: nat,
) -> Seq<char> {
    "# Workspace Health Report\n\nGenerated: "@ + now + "\n\nWorkspace: "@ + workspace
        + "\n\n- Duplicate files: "@ + decimal(dup) + "\n- Legacy folders: "@ + decimal(legacy)
        + "\n- Unused caches: "@ + decimal(caches) + "\n- Orphan reports: "@ + decimal(orphans)
        + "\n- Old benchmark files: "@ + decimal(benchmarks) + "\n\nNo files were deleted.\n"@
}

proof fn lemma_counts_bounded(files: Seq<ScannedFile>, n: int)
    requires
        0 <= n <= files.len(),
    ensures
        duplicate_count(files, n) <= n,
        cache_count(files, n) <= n,
        benchmark_count(files, n) <= n,
    decreases n,
{
    if n > 0 {
        lemma_counts_bounded(files, n - 1);
    }
}

proof fn lemma_orphans_bounded(reports: Seq<Seq<char>>, n: int)
    requires
        0 <= n,
    ensures
        orphan_count(reports, n) <= n,
    decreases n,
{
    if n > 0 {
        lemma_orphans_bounded(reports, n - 1);
    }
}

fn file_key_exec(f: &ScannedFile) -> (r: Vec<char>)
    ensures
        r@ == file_key(f.path@, f.size),
{
    let p = chars_of(f.path.as_str());
    let mut k = match file_name_exec(&p) {
        Some(n) => n,
        None => Vec::new(),
    };
    let ghost name = k@;
    k.push(':');
    let mut d = decimal_vec(f.size);
    k.append(&mut d);
    proof {
        reveal_strlit(":");
    }
    assert(k@ =~= name + ":"@ + decimal(f.size as nat));
    k
}

fn ends_with_str(v: &Vec<char>, p: &str) -> (r: bool)
    ensures
        r == ends_with(v@, p@),
{
    let w = chars_of(p);
    if v.len() < w.len() {
        return false;
    }
    let tail = crate::document_text::slice_chars(v, v.len() - w.len(), v.len());
    assert(v@.skip(v@.len() - w@.len()) =~= v@.subrange(v@.len() - w@.len(), v@.len() as int));
    vec_eq(&tail, &w)
}

fn issue(category: &str, path: &str, severity: &str, detail: String, suggestion: &str) -> (r:
    WorkspaceCleanupIssue)
    ensures
        issue_view(r) == (category@, path@, severity@, detail@, suggestion@),
{
    WorkspaceCleanupIssue {
        category: owned(category),
        path: owned(path),
        severity: owned(severity),
        detail,
        suggestion: owned(suggestion),
    }
}

/// Reviews a workspace for cleanup: files that may copy an earlier file
/// (same name and size), cache and build artifacts, old evaluation results,
/// reports not linked to a chat, and the legacy folders that exist
/// (`legacy`, their paths). `now` is when the review was made.
pub fn analyze_workspace_cleanup(
    workspace: &str,
    now: &str,
    files: &Vec<ScannedFile>,
    legacy: &Vec<String>,
    report_paths: &Vec<String>,
    reports_dir: &str,
) -> (r: WorkspaceHealthReport)
    ensures
        ({
            let n = files.len() as int;
            let orphans = orphan_count(crate::text::string_views(report_paths@), report_paths.len() as int);
            &&& r.workspace@ == workspace@
            &&& r.generated_at@ == now@
            &&& r.duplicate_files == duplicate_count(files@, n)
            &&& r.legacy_folders == legacy.len()
            &&& r.unused_caches == cache_count(files@, n)
            &&& r.orphan_reports == orphans
            &&& r.old_benchmark_files == benchmark_count(files@, n)
            &&& issue_views(r.issues@) == file_issues(files@, n) + orphan_issues(orphans, reports_dir@)
                + legacy_issues(crate::text::string_views(legacy@))
            &&& r.markdown@ == health_markdown(
                now@,
                workspace@,
                duplicate_count(files@, n),
                legacy.len() as nat,
                cache_count(files@, n),
                orphans,
                benchmark_count(files@, n),
            )
        }),
{
    let ghost fs = files@;
    let mut keys: Vec<Vec<char>> = Vec::new();
    let mut issues: Vec<WorkspaceCleanupIssue> = Vec::new();
    let mut dup: usize = 0;
    let mut caches: usize = 0;
    let mut benchmarks: usize = 0;
    let mut i: usize = 0;
    while i < files.len()
        invariant
            i <= files.len(),
            fs == files@,
            keys@.len() == i,
            forall|k: int| 0 <= k < i ==> (#[trigger] keys@[k])@ == file_keys(fs)[k],
            issue_views(issues@) == file_issues(fs, i as int),
            dup == duplicate_count(fs, i as int),
            caches == cache_count(fs, i as int),
            benchmarks == benchmark_count(fs, i as int),
        decreases files.len() - i,
    {
        proof {
            lemma_counts_bounded(fs, i as int);
        }
        let key = file_key_exec(&files[i]);
        let ghost ks = file_keys(fs);
        assert(key@ == ks[i as int]);
        let mut j: usize = 0;
        while j < i && !vec_eq(&keys[j], &key)
            invariant
                j <= i,
                i < files.len(),
                keys@.len() == i,
                ks == file_keys(fs),
                fs == files@,
                key@ == ks[i as int],
                forall|k: int| 0 <= k < i ==> (#[trigger] keys@[k])@ == ks[k],
                first_match(ks, i as int, 0) == first_match(ks, i as int, j as int),
            decreases i - j,
        {
            j = j + 1;
        }
        let found: Option<usize> = if j < i {
            Some(j)
        } else {
            None
        };
        proof {
            if j < i {
                assert(keys@[j as int]@ == ks[j as int]);
                assert(first_match(ks, i as int, j as int) == Some(j as int));
            } else {
                assert(first_match(ks, i as int, j as int) is None);
            }
        }
        let ghost before = issue_views(issues@);
        let path = files[i].path.as_str();
        match found {
            Some(f) => {
                dup = dup + 1;
                let detail = crate::text::concat("Possible duplicate of ", files[f].path.as_str());
                issues.push(
                    issue(
                        "duplicate files",
                        path,
                        "Warning",
                        detail,
                        "Review both files before deleting either copy.",
                    ),
                );
            },
            None => {},
        }
        let ghost mid = issue_views(issues@);
        let lower_path = lower_str(path);
        let cache = vec_contains(&lower_path, &chars_of("__pycache__")) || ends_with_str(&lower_path, ".pyc")
            || vec_contains(&lower_path, &chars_of("\\target\\"));
        if cache {
            caches = caches + 1;
            issues.push(
                issue(
                    "unused caches",
                    path,
                    "Info",
                    owned("Generated cache/build artifact detected"),
                    "Safe to review for cleanup after builds are complete.",
                ),
            );
        }
        if vec_contains(&lower_path, &chars_of("beifeng\\evals")) && (ends_with_str(&lower_path, ".json")
            || ends_with_str(&lower_path, ".md")) {
            benchmarks = benchmarks + 1;
        }
        proof {
            let p = fs[i as int].path@;
            let dup_part = match first_match(ks, i as int, 0) {
                Some(jj) => seq![duplicate_issue(p, fs[jj].path@)],
                None => Seq::<(Seq<char>, Seq<char>, Seq<char>, Seq<char>, Seq<char>)>::empty(),
            };
            let cache_part = if is_cache(lower(p)) {
                seq![cache_issue(p)]
            } else {
                Seq::<(Seq<char>, Seq<char>, Seq<char>, Seq<char>, Seq<char>)>::empty()
            };
            assert(mid =~= before + dup_part);
            assert(issue_views(issues@) =~= mid + cache_part);
            assert(file_issues(fs, i + 1) == file_issues(fs, i as int) + dup_part + cache_part);
        }
        keys.push(key);
        i = i + 1;
    }
    let mut orphans: usize = 0;
    let mut k: usize = 0;
    let ghost rs = crate::text::string_views(report_paths@);
    while k < report_paths.len()
        invariant
            k <= report_paths.len(),
            rs == crate::text::string_views(report_paths@),
            orphans == orphan_count(rs, k as int),
        decreases report_paths.len() - k,
    {
        proof {
            lemma_orphans_bounded(rs, k as int);
        }
        let l = lower_str(report_paths[k].as_str());
        if !vec_contains(&l, &chars_of("chat")) {
            orphans = orphans + 1;
        }
        k = k + 1;
    }
    if orphans > 0 {
        let ghost before = issue_views(issues@);
        let mut detail = string_of(&decimal_vec(orphans as u64));
        push_str(&mut detail, " reports are not explicitly linked to a chat session");
        issues.push(
            issue(
                "orphan reports",
                reports_dir,
                "Info",
                detail,
                "Open Reports and link important reports to the relevant session before archiving.",
            ),
        );
        assert(issue_views(issues@) =~= before + orphan_issues(orphans as nat, reports_dir@));
    } else {
        assert(issue_views(issues@) =~= issue_views(issues@) + orphan_issues(orphans as nat, reports_dir@));
    }
    let ghost base = issue_views(issues@);
    let ghost ls = crate::text::string_views(legacy@);
    let mut m: usize = 0;
    while m < legacy.len()
        invariant
            m <= legacy.len(),
            ls == crate::text::string_views(legacy@),
            issue_views(issues@) == base + legacy_issues(ls).take(m as int),
        decreases legacy.len() - m,
    {
        let ghost before = issue_views(issues@);
        issues.push(
            issue(
                "legacy folders",
                legacy[m].as_str(),
                "Warning",
                owned("Legacy/archive folder detected"),
                "Review contents and move active artifacts into workspace folders.",
            ),
        );
        assert(legacy_issues(ls).take(m + 1) =~= legacy_issues(ls).take(m as int).push(
            legacy_issues(ls)[m as int],
        ));
        assert(issue_views(issues@) =~= before.push(legacy_issues(ls)[m as int]));
        m = m + 1;
    }
    assert(legacy_issues(ls).take(legacy.len() as int) =~= legacy_issues(ls));
    let mut md = crate::text::concat("# Workspace Health Report\n\nGenerated: ", now);
    push_str(&mut md, "\n\nWorkspace: ");
    push_str(&mut md, workspace);
    push_str(&mut md, "\n\n- Duplicate files: ");
    push_str(&mut md, string_of(&decimal_vec(dup as u64)).as_str());
    push_str(&mut md, "\n- Legacy folders: ");
    push_str(&mut md, string_of(&decimal_vec(legacy.len() as u64)).as_str());
    push_str(&mut md, "\n- Unused caches: ");
    push_str(&mut md, string_of(&decimal_vec(caches as u64)).as_str());
    push_str(&mut md, "\n- Orphan reports: ");
    push_str(&mut md, string_of(&decimal_vec(orphans as u64)).as_str());
    push_str(&mut md, "\n- Old benchmark files: ");
    push_str(&mut md, string_of(&decimal_vec(benchmarks as u64)).as_str());
    push_str(&mut md, "\n\nNo files were deleted.\n");
    WorkspaceHealthReport {
        workspace: owned(workspace),
        generated_at: owned(now),
        duplicate_files: dup,
        legacy_folders: legacy.len(),
        unused_caches: caches,
        orphan_reports: orphans,
        old_benchmark_files: benchmarks,
        issues,
        markdown: md,
    }
}

/// How many findings have the given category.
pub open spec fn count_category(
    issues: Seq<(Seq<char>, Seq<char>, Seq<char>, Seq<char>, Seq<char>)>,
    category: Seq<char>,
) -> nat
    decreases issues.len(),
{
    if issues.len() == 0 {
        0
    } else {
        count_category(issues.drop_last(), category) + (if issues.last().0 == category {
            1nat
        } else {
            0nat
        })
    }
}

proof fn lemma_count_concat(
    a: Seq<(Seq<char>, Seq<char>, Seq<char>, Seq<char>, Seq<char>)>,
    b: Seq<(Seq<char>, Seq<char>, Seq<char>, Seq<char>, Seq<char>)>,
    category: Seq<char>,
)
    ensures
        count_category(a + b, category) == count_category(a, category) + count_category(b, category),
    decreases b.len(),
{
    if b.len() == 0 {
        assert(a + b =~= a);
    } else {
        assert((a + b).drop_last() =~= a + b.drop_last());
        assert((a + b).last() == b.last());
        lemma_count_concat(a, b.drop_last(), category);
    }
}

proof fn lemma_file_issue_counts(files: Seq<ScannedFile>, n: int)
    requires
        0 <= n <= files.len(),
    ensures
        count_category(file_issues(files, n), "duplicate files"@) == duplicate_count(files, n),
        count_category(file_issues(files, n), "unused caches"@) == cache_count(files, n),
        count_category(file_issues(files, n), "orphan reports"@) == 0,
        count_category(file_issues(files, n), "legacy folders"@) == 0,
    decreases n,
{
    reveal_strlit("duplicate files");
    reveal_strlit("unused caches");
    reveal_strlit("orphan reports");
    reveal_strlit("legacy folders");
    if n > 0 {
        lemma_file_issue_counts(files, n - 1);
        let i = n - 1;
        let p = files[i].path@;
        let dup = match first_match(file_keys(files), i, 0) {
            Some(j) => seq![duplicate_issue(p, files[j].path@)],
            None => Seq::<(Seq<char>, Seq<char>, Seq<char>, Seq<char>, Seq<char>)>::empty(),
        };
        let cache = if is_cache(lower(p)) {
            seq![cache_issue(p)]
        } else {
            Seq::<(Seq<char>, Seq<char>, Seq<char>, Seq<char>, Seq<char>)>::empty()
        };
        let prev = file_issues(files, n - 1);
        assert(file_issues(files, n) == prev + dup + cache);
        assert("duplicate files"@.len() != "unused caches"@.len());
        assert("duplicate files"@.len() != "orphan reports"@.len() || "duplicate files"@[0] != "orphan reports"@[0]);
        assert("duplicate files"@[0] != "legacy folders"@[0]);
        assert("unused caches"@[0] != "orphan reports"@[0] && "unused caches"@[0] != "legacy folders"@[0]);
        let cats = seq!["duplicate files"@, "unused caches"@, "orphan reports"@, "legacy folders"@];
        assert forall|k: int| 0 <= k < 4 implies count_category(prev + dup + cache, #[trigger] cats[k])
            == count_category(prev, cats[k]) + count_category(dup, cats[k]) + count_category(cache, cats[k]) by {
            lemma_count_concat(prev + dup, cache, cats[k]);
            lemma_count_concat(prev, dup, cats[k]);
        }
        assert(cats[0] == "duplicate files"@ && cats[1] == "unused caches"@);
        assert(cats[2] == "orphan reports"@ && cats[3] == "legacy folders"@);
        reveal_with_fuel(count_category, 2);
    }
}

proof fn lemma_legacy_counts(legacy: Seq<Seq<char>>, category: Seq<char>, m: int)
    requires
        0 <= m <= legacy.len(),
    ensures
        count_category(legacy_issues(legacy).take(m), category) == (if category == "legacy folders"@ {
            m as nat
        } else {
            0nat
        }),
    decreases m,
{
    if m > 0 {
        lemma_legacy_counts(legacy, category, m - 1);
        assert(legacy_issues(legacy).take(m).drop_last() =~= legacy_issues(legacy).take(m - 1));
    }
}

/// The review's counts agree with its findings: one finding per possible
/// copy, per cache artifact and per legacy folder, and one finding on the
/// reports exactly when some report is not linked to a chat.
pub proof fn lemma_cleanup_counts_match_findings(
    files: Seq<ScannedFile>,
    legacy: Seq<Seq<char>>,
    reports: Seq<Seq<char>>,
    reports_dir: Seq<char>,
)
    ensures
        ({
            let n = files.len() as int;
            let orphans = orphan_count(reports, reports.len() as int);
            let issues = file_issues(files, n) + orphan_issues(orphans, reports_dir) + legacy_issues(legacy);
            &&& count_category(issues, "duplicate files"@) == duplicate_count(files, n)
            &&& count_category(issues, "unused caches"@) == cache_count(files, n)
            &&& count_category(issues, "legacy folders"@) == legacy.len()
            &&& count_category(issues, "orphan reports"@) == (if orphans > 0 {
                1nat
            } else {
                0nat
            })
        }),
{
    reveal_strlit("duplicate files");
    reveal_strlit("unused caches");
    reveal_strlit("orphan reports");
    reveal_strlit("legacy folders");
    let n = files.len() as int;
    let orphans = orphan_count(reports, reports.len() as int);
    let a = file_issues(files, n);
    let b = orphan_issues(orphans, reports_dir);
    let c = legacy_issues(legacy);
    lemma_file_issue_counts(files, n);
    assert(c.take(legacy.len() as int) =~= c);
    let cats = seq!["duplicate files"@, "unused caches"@, "orphan reports"@, "legacy folders"@];
    assert("orphan reports"@[0] != "legacy folders"@[0]);
    assert("duplicate files"@[0] != "legacy folders"@[0] && "unused caches"@[0] != "legacy folders"@[0]);
    assert("duplicate files"@[0] != "orphan reports"@[0] && "unused caches"@[0] != "orphan reports"@[0]);
    assert forall|k: int| 0 <= k < 4 implies count_category(a + b + c, #[trigger] cats[k]) == count_category(
        a,
        cats[k],
    ) + count_category(b, cats[k]) + count_category(c, cats[k]) by {
        lemma_count_concat(a + b, c, cats[k]);
        lemma_count_concat(a, b, cats[k]);
        lemma_legacy_counts(legacy, cats[k], legacy.len() as int);
    }
    assert(cats[0] == "duplicate files"@ && cats[1] == "unused caches"@);
    assert(cats[2] == "orphan reports"@ && cats[3] == "legacy folders"@);
    reveal_with_fuel(count_category, 2);
    if orphans > 0 {
        assert(b.drop_last() =~= Seq::<(Seq<char>, Seq<char>, Seq<char>, Seq<char>, Seq<char>)>::empty());
        assert(b.last().0 == "orphan reports"@);
    } else {
        assert(b =~= Seq::<(Seq<char>, Seq<char>, Seq<char>, Seq<char>, Seq<char>)>::empty());
    }
    assert(count_category(b, cats[0]) == 0);
    assert(count_category(b, cats[1]) == 0);
    assert(count_category(b, cats[3]) == 0);
    lemma_legacy_counts(legacy, cats[0], legacy.len() as int);
    lemma_legacy_counts(legacy, cats[1], legacy.len() as int);
    lemma_legacy_counts(legacy, cats[2], legacy.len() as int);
    lemma_legacy_counts(legacy, cats[3], legacy.len() as int);
    assert(count_category(a + b + c, cats[0]) == duplicate_count(files, n));
    assert(count_category(a + b + c, cats[1]) == cache_count(files, n));
    assert(count_category(a + b + c, cats[3]) == legacy.len());
}

} // verus!
