//! What indexing the knowledge base decides: which directories are not
//! walked, which files are taken and under which key, which of them are
//! indexed anew, re-indexed or left as they are, which stored files are
//! dropped, and how a document's text is cut into chunks.
use vstd::prelude::*;

use crate::chunk::{chunk_text, chunks_spec};
use crate::document::{detect_file_type, detect_spec, file_name, file_name_exec, forward_slashes, reserved_media, slashed};
use crate::text::{chars_of, concat, owned, push_str, str_eq, string_of, string_views};

verus! {

/// Files larger than this (in bytes) are not indexed, media excepted.
pub const MAX_FILE_BYTES: u64 = 2097152;

/// The length of a chunk, in characters.
pub const CHUNK_CHARS: usize = 900;

/// How many characters consecutive chunks share.
pub const CHUNK_OVERLAP: usize = 120;

/// The directories the walk does not enter.
pub open spec fn skip_dir_spec(name: Seq<char>) -> bool {
    name == ".git"@ || name == "target"@ || name == "node_modules"@ || name == "__pycache__"@ || name
        == ".claw-rag"@
}

/// Whether the walk leaves out a directory of this name.
pub fn should_skip_dir(name: &str) -> (r: bool)
    ensures
        r == skip_dir_spec(name@),
{
    str_eq(name, ".git") || str_eq(name, "target") || str_eq(name, "node_modules") || str_eq(
        name,
        "__pycache__",
    ) || str_eq(name, ".claw-rag")
}

/// The id of a workspace: its directory name (`workspace` when it has none)
/// and the first eight characters of the hex digest of its path.
pub open spec fn repo_id_spec(workspace: Seq<char>, path_digest: Seq<char>) -> Seq<char> {
    (match file_name(workspace) {
        Some(n) => if n.len() > 0 {
            n
        } else {
            "workspace"@
        },
        None => "workspace"@,
    }) + "-"@ + path_digest.take(8)
}

/// The id of a workspace; `path_digest` is the hex digest of its path.
pub fn repo_id_for_workspace(workspace: &str, path_digest: &str) -> (r: String)
    requires
        path_digest@.len() >= 8,
    ensures
        r@ == repo_id_spec(workspace@, path_digest@),
{
    let p = chars_of(workspace);
    let mut out = match file_name_exec(&p) {
        Some(n) => if n.len() > 0 {
            string_of(&n)
        } else {
            owned("workspace")
        },
        None => owned("workspace"),
    };
    push_str(&mut out, "-");
    let d = chars_of(path_digest);
    let head = crate::document_text::slice_chars(&d, 0, 8);
    assert(d@.take(8) =~= d@.subrange(0, 8));
    push_str(&mut out, string_of(&head).as_str());
    out
}

/// A file the walk found: the workspace's id, its path, its path relative
/// to the workspace, its size, the hex digest of its content and its
/// modification time.
pub struct IngestCandidate {
    pub repo_id: String,
    pub path: String,
    pub rel_path: String,
    pub size: u64,
    pub content_hash: String,
    pub mtime_ms: i64,
}

/// A file the index already holds, with what makes its indexing complete:
/// a document record for media, chunks for anything else.
pub struct StoredFile {
    pub path: String,
    pub content_hash: String,
    pub size_bytes: i64,
    pub mtime_ms: i64,
    pub has_document_record: bool,
    pub chunk_count: u64,
}

/// What happens to a file found by the walk.
#[derive(Clone, Copy, Debug, PartialEq, Eq, Structural)]
pub enum IngestAction {
    /// Not in the index yet.
    Index,
    /// In the index, but changed or incompletely indexed.
    Reindex,
    /// In the index, unchanged and complete.
    Skip,
}

/// A file to take from the walk, the candidate it came from and what
/// happens to it.
pub struct IngestFile {
    pub key: String,
    pub candidate: usize,
    pub reserved_media: bool,
    pub action: IngestAction,
}

/// What an indexing run does.
pub struct IngestPlan {
    pub files: Vec<IngestFile>,
    pub delete: Vec<String>,
}

/// A candidate is taken when its type is known and it is media or not
/// larger than the size limit.
pub open spec fn taken(c: IngestCandidate) -> bool {
    match detect_spec(c.path@) {
        Some(t) => reserved_media(t) || c.size <= MAX_FILE_BYTES,
        None => false,
    }
}

/// The key a file is indexed under: the workspace id, a colon, and its
/// relative path with forward slashes.
pub open spec fn key_spec(c: IngestCandidate) -> Seq<char> {
    c.repo_id@ + ":"@ + slashed(c.rel_path@)
}

/// The first stored file with the given path.
pub open spec fn stored_lookup(stored: Seq<StoredFile>, key: Seq<char>) -> Option<StoredFile>
    decreases stored.len(),
{
    if stored.len() == 0 {
        None
    } else if stored[0].path@ == key {
        Some(stored[0])
    } else {
        stored_lookup(stored.drop_first(), key)
    }
}

/// What happens to a taken candidate of the given media kind.
pub open spec fn action_spec(c: IngestCandidate, media: bool, stored: Seq<StoredFile>) -> IngestAction {
    match stored_lookup(stored, key_spec(c)) {
        None => IngestAction::Index,
        Some(s) => if s.content_hash@ == c.content_hash@ && s.size_bytes == c.size && s.mtime_ms
            == c.mtime_ms && (if media {
            s.has_document_record
        } else {
            s.chunk_count > 0
        }) {
            IngestAction::Skip
        } else {
            IngestAction::Reindex
        },
    }
}

/// The files taken from the first `n` candidates, in order, as key,
/// candidate position, media flag and action.
pub open spec fn planned(cands: Seq<IngestCandidate>, stored: Seq<StoredFile>, n: int) -> Seq<
    (Seq<char>, int, bool, IngestAction),
>
    decreases n,
{
    if n <= 0 {
        Seq::empty()
    } else {
        let before = planned(cands, stored, n - 1);
        let c = cands[n - 1];
        if taken(c) {
            let media = reserved_media(detect_spec(c.path@)->0);
            before.push((key_spec(c), n - 1, media, action_spec(c, media, stored)))
        } else {
            before
        }
    }
}

/// A planned file as plain values.
pub open spec fn file_view(f: IngestFile) -> (Seq<char>, int, bool, IngestAction) {
    (f.key@, f.candidate as int, f.reserved_media, f.action)
}

/// The keys of the planned files.
pub open spec fn planned_keys(p: Seq<(Seq<char>, int, bool, IngestAction)>) -> Seq<Seq<char>> {
    Seq::new(p.len(), |i: int| p[i].0)
}

/// The stored paths, among the first `m`, that the walk did not find.
pub open spec fn dropped(stored: Seq<StoredFile>, keys: Seq<Seq<char>>, m: int) -> Seq<Seq<char>>
    decreases m,
{
    if m <= 0 {
        Seq::empty()
    } else {
        let before = dropped(stored, keys, m - 1);
        if keys.contains(stored[m - 1].path@) {
            before
        } else {
            before.push(stored[m - 1].path@)
        }
    }
}

/// Some taken candidate is too large to be recorded (its size does not fit
/// a signed 64-bit integer).
pub open spec fn oversized(cands: Seq<IngestCandidate>) -> bool {
    exists|i: int| 0 <= i < cands.len() && taken(#[trigger] cands[i]) && cands[i].size > i64::MAX
}

fn lookup_exec(stored: &Vec<StoredFile>, key: &str) -> (r: Option<usize>)
    ensures
        match r {
            Some(j) => j < stored.len() && stored_lookup(stored@, key@) == Some(stored@[j as int]),
            None => stored_lookup(stored@, key@) is None,
        },
{
    let mut j: usize = 0;
    assert(stored@.skip(0) =~= stored@);
    while j < stored.len()
        invariant
            j <= stored.len(),
            stored_lookup(stored@, key@) == stored_lookup(stored@.skip(j as int), key@),
        decreases stored.len() - j,
    {
        assert(stored@.skip(j as int)[0] == stored@[j as int]);
        assert(stored@.skip(j as int).drop_first() =~= stored@.skip(j + 1));
        if str_eq(stored[j].path.as_str(), key) {
            return Some(j);
        }
        j = j + 1;
    }
    assert(stored@.skip(j as int) =~= Seq::<StoredFile>::empty());
    None
}

fn contains_key(keys: &Vec<String>, k: &str) -> (r: bool)
    ensures
        r == string_views(keys@).contains(k@),
{
    let mut i: usize = 0;
    while i < keys.len()
        invariant
            i <= keys.len(),
            forall|q: int| 0 <= q < i ==> keys@[q]@ != k@,
        decreases keys.len() - i,
    {
        if str_eq(keys[i].as_str(), k) {
            assert(string_views(keys@)[i as int] == k@);
            return true;
        }
        i = i + 1;
    }
    assert(!string_views(keys@).contains(k@)) by {
        if string_views(keys@).contains(k@) {
            let q = choose|q: int| 0 <= q < string_views(keys@).len() && string_views(keys@)[q] == k@;
            assert(keys@[q]@ == k@);
        }
    }
    false
}

/// What an indexing run does with the files the walk found and the files
/// the index holds: each taken candidate, in order, under its key, is
/// indexed when the index does not hold it, skipped when its digest, size
/// and time are unchanged and its indexing is complete, and re-indexed
/// otherwise; the stored files the walk did not find are deleted, in the
/// index's order. It fails when a taken file's size cannot be recorded.
pub fn ingest_plan(cands: &Vec<IngestCandidate>, stored: &Vec<StoredFile>) -> (r: Result<
    IngestPlan,
    String,
>)
    ensures
        match r {
            Ok(p) => {
                &&& !oversized(cands@)
                &&& Seq::new(p.files@.len(), |i: int| file_view(p.files@[i])) == planned(
                    cands@,
                    stored@,
                    cands@.len() as int,
                )
                &&& string_views(p.delete@) == dropped(
                    stored@,
                    planned_keys(planned(cands@, stored@, cands@.len() as int)),
                    stored@.len() as int,
                )
            },
            Err(e) => oversized(cands@) && e@ == "file size too large"@,
        },
{
    let mut files: Vec<IngestFile> = Vec::new();
    let mut keys: Vec<String> = Vec::new();
    let mut i: usize = 0;
    while i < cands.len()
        invariant
            i <= cands.len(),
            files@.len() == keys@.len(),
            Seq::new(files@.len(), |q: int| file_view(files@[q])) == planned(cands@, stored@, i as int),
            string_views(keys@) == planned_keys(planned(cands@, stored@, i as int)),
            forall|q: int| 0 <= q < i && taken(#[trigger] cands@[q]) ==> cands@[q].size <= i64::MAX,
        decreases cands.len() - i,
    {
        let c = &cands[i];
        let ghost before = planned(cands@, stored@, i as int);
        match detect_file_type(c.path.as_str()) {
            Some(t) => {
                let media = t.is_reserved_media();
                if media || c.size <= MAX_FILE_BYTES {
                    if c.size > 9223372036854775807u64 {
                        assert(taken(cands@[i as int]));
                        return Err(owned("file size too large"));
                    }
                    let mut key = concat(c.repo_id.as_str(), ":");
                    push_str(&mut key, forward_slashes(c.rel_path.as_str()).as_str());
                    proof {
                        reveal_strlit(":");
                    }
                    assert(key@ == key_spec(*c));
                    let action = match lookup_exec(stored, key.as_str()) {
                        None => IngestAction::Index,
                        Some(j) => {
                            let s = &stored[j];
                            let complete = if media {
                                s.has_document_record
                            } else {
                                s.chunk_count > 0
                            };
                            if str_eq(s.content_hash.as_str(), c.content_hash.as_str())
                                && s.size_bytes as i128 == c.size as i128 && s.mtime_ms == c.mtime_ms
                                && complete {
                                IngestAction::Skip
                            } else {
                                IngestAction::Reindex
                            }
                        },
                    };
                    let ghost entry = (key@, i as int, media, action);
                    assert(action == action_spec(*c, media, stored@));
                    let ghost fs = Seq::new(files@.len(), |q: int| file_view(files@[q]));
                    let ghost kv = string_views(keys@);
                    keys.push(owned(key.as_str()));
                    files.push(IngestFile { key, candidate: i, reserved_media: media, action });
                    assert(Seq::new(files@.len(), |q: int| file_view(files@[q])) =~= fs.push(entry));
                    assert(string_views(keys@) =~= kv.push(key_spec(*c)));
                    assert(planned_keys(before.push(entry)) =~= planned_keys(before).push(key_spec(*c)));
                }
            },
            None => {},
        }
        i = i + 1;
    }
    proof {
        assert(!oversized(cands@)) by {
            if oversized(cands@) {
                let q = choose|q: int| 0 <= q < cands@.len() && taken(#[trigger] cands@[q]) && cands@[q].size > i64::MAX;
                assert(cands@[q].size <= i64::MAX);
            }
        }
    }
    let ghost ks = string_views(keys@);
    let mut delete: Vec<String> = Vec::new();
    let mut m: usize = 0;
    while m < stored.len()
        invariant
            m <= stored.len(),
            ks == string_views(keys@),
            string_views(delete@) == dropped(stored@, ks, m as int),
        decreases stored.len() - m,
    {
        if !contains_key(&keys, stored[m].path.as_str()) {
            let ghost before = string_views(delete@);
            delete.push(owned(stored[m].path.as_str()));
            assert(string_views(delete@) =~= before.push(stored@[m as int].path@));
        }
        m = m + 1;
    }
    Ok(IngestPlan { files, delete })
}

/// The chunks an indexed document's text is cut into: windows of 900
/// characters overlapping by 120, the blank ones left out.
pub fn ingest_chunks(text: &str) -> (r: Vec<String>)
    ensures
        string_views(r@) == chunks_spec(text@, CHUNK_CHARS as nat, CHUNK_OVERLAP as nat),
{
    chunk_text(text, CHUNK_CHARS, CHUNK_OVERLAP)
}

} // verus!
