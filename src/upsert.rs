//! Deciding the one write, if any, that brings a remote file to new content.
use crate::content::{rooted, rooted_path, RemoteFile};
use crate::text::{
    at_most_once, chars_of, contains, contains_chars, lemma_trim_blank_idempotent, occurs_at_most_once, string_of,
    trim_blank, trim_blank_bytes, utf8_text,
};
use vstd::prelude::*;
use vstd::utf8::*;

verus! {

/// The remote call that an upsert makes, if any.
pub enum WriteRequest {
    /// Create the file at `path`.
    Create { path: String, content: Vec<u8>, message: String },
    /// Replace the file at `path`, whose current revision is `sha`.
    Update { path: String, content: Vec<u8>, message: String, sha: String },
    /// The remote already holds the content: no call.
    Unchanged,
}

/// The kind of call an upsert makes.
pub enum WriteKind {
    Create,
    Update,
    Unchanged,
}

impl WriteRequest {
    pub open spec fn kind(&self) -> WriteKind {
        match self {
            WriteRequest::Create { .. } => WriteKind::Create,
            WriteRequest::Update { .. } => WriteKind::Update,
            WriteRequest::Unchanged => WriteKind::Unchanged,
        }
    }
}

/// The commit message of a file's creation.
pub open spec fn create_message(path: Seq<char>) -> Seq<char> {
    "Creating file content "@ + path + MESSAGE_TAIL@
}

/// The commit message of a file's update.
pub open spec fn update_message(path: Seq<char>) -> Seq<char> {
    "Updating file content "@ + path + MESSAGE_TAIL@
}

/// What follows the path in a commit message.
pub const MESSAGE_TAIL: &'static str =
    " programatically\n\nThis is done by the document synchronisation's create-or-update of a file.";

/// Whether a unified patch is only the timestamp churn of a regenerated PDF:
/// a single hunk, at the header position, that swaps the `/ModDate` and
/// `/CreationDate` lines. Hunk headers are the lines that start with `@@`.
pub open spec fn cosmetic_patch(patch: Seq<u8>) -> bool {
    &&& valid_utf8(patch)
    &&& at_most_once(decode_utf8(patch), "\n@@"@)
    &&& contains(decode_utf8(patch), "-/ModDate"@)
    &&& contains(decode_utf8(patch), "-/CreationDate"@)
    &&& contains(decode_utf8(patch), "+/ModDate"@)
    &&& contains(decode_utf8(patch), "@@ -5,8 +5,8 @@"@)
}

/// Which call an upsert makes, given what the remote holds (`existing`,
/// `existing_sha`), the wanted content without its blanks, and the patch from
/// the one to the other.
pub open spec fn upsert_kind(
    existing: Seq<u8>,
    existing_sha: Seq<char>,
    wanted: Seq<u8>,
    patch: Seq<u8>,
) -> WriteKind {
    if existing.len() == 0 && existing_sha.len() == 0 {
        WriteKind::Create
    } else if trim_blank(existing) == wanted {
        WriteKind::Unchanged
    } else if cosmetic_patch(patch) {
        WriteKind::Unchanged
    } else {
        WriteKind::Update
    }
}

/// `r` is the upsert of `new_content` at `path` over `existing`, `patch` being
/// the patch from the existing bytes to the wanted ones.
pub open spec fn is_upsert(
    r: WriteRequest,
    path: Seq<char>,
    existing: RemoteFile,
    new_content: Seq<u8>,
    patch: Seq<u8>,
) -> bool {
    &&& r.kind() == upsert_kind(existing.content@, existing.sha@, trim_blank(new_content), patch)
    &&& match r {
        WriteRequest::Create { path: p, content, message } => {
            &&& p@ == rooted(path)
            &&& content@ == trim_blank(new_content)
            &&& message@ == create_message(rooted(path))
        },
        WriteRequest::Update { path: p, content, message, sha } => {
            &&& p@ == rooted(path)
            &&& content@ == trim_blank(new_content)
            &&& message@ == update_message(rooted(path))
            &&& sha@ == existing.sha@
        },
        WriteRequest::Unchanged => true,
    }
}

/// What a unified diff of two byte strings writes out.
pub uninterp spec fn unified_patch(original: Seq<u8>, modified: Seq<u8>) -> Seq<u8>;

/// Relies on `diffy::create_patch_bytes` and `Patch::to_bytes`: the patch text
/// is a function of the two byte strings alone.
#[verifier::external_body]
fn patch_bytes(original: &[u8], modified: &[u8]) -> (r: Vec<u8>)
    ensures
        r@ == unified_patch(original@, modified@),
{
    diffy::create_patch_bytes(original, modified).to_bytes()
}

/// Whether a patch is only the timestamp churn of a regenerated PDF.
pub fn is_cosmetic_patch(patch: &[u8]) -> (r: bool)
    ensures
        r == cosmetic_patch(patch@),
{
    match utf8_text(patch) {
        None => false,
        Some(t) => {
            let cs = chars_of(t.as_str());
            let header = chars_of("\n@@");
            occurs_at_most_once(&cs, &header)
                && contains_chars(&cs, &chars_of("-/ModDate"))
                && contains_chars(&cs, &chars_of("-/CreationDate"))
                && contains_chars(&cs, &chars_of("+/ModDate"))
                && contains_chars(&cs, &chars_of("@@ -5,8 +5,8 @@"))
        },
    }
}

fn concat3(a: &str, b: &Vec<char>, c: &str) -> (r: String)
    ensures
        r@ == a@ + b@ + c@,
{
    let mut v = chars_of(a);
    let mut i: usize = 0;
    let ghost start = v@;
    while i < b.len()
        invariant
            i <= b@.len(),
            v@ == start + b@.subrange(0, i as int),
        decreases b@.len() - i,
    {
        v.push(b[i]);
        i = i + 1;
        assert(v@ =~= start + b@.subrange(0, i as int));
    }
    assert(b@.subrange(0, b@.len() as int) =~= b@);
    let tail = chars_of(c);
    let mut j: usize = 0;
    let ghost mid = v@;
    while j < tail.len()
        invariant
            j <= tail@.len(),
            v@ == mid + tail@.subrange(0, j as int),
        decreases tail@.len() - j,
    {
        v.push(tail[j]);
        j = j + 1;
        assert(v@ =~= mid + tail@.subrange(0, j as int));
    }
    assert(tail@.subrange(0, tail@.len() as int) =~= tail@);
    string_of(&v)
}

/// The upsert decision, given the patch from the existing bytes to the wanted
/// (trimmed) ones.
pub fn decide_upsert(path: &str, existing: &RemoteFile, new_content: &[u8], patch: &[u8]) -> (r: WriteRequest)
    ensures
        is_upsert(r, path@, *existing, new_content@, patch@),
{
    let wanted = trim_blank_bytes(new_content);
    let file_path = rooted_path(path);
    if existing.content.len() == 0 && existing.sha.as_str().is_empty() {
        return WriteRequest::Create {
            path: string_of(&file_path),
            content: wanted,
            message: concat3("Creating file content ", &file_path, MESSAGE_TAIL),
        };
    }
    let current = trim_blank_bytes(existing.content.as_slice());
    if same_bytes(&current, &wanted) || is_cosmetic_patch(patch) {
        return WriteRequest::Unchanged;
    }
    WriteRequest::Update {
        path: string_of(&file_path),
        content: wanted,
        message: concat3("Updating file content ", &file_path, MESSAGE_TAIL),
        sha: existing.sha.clone(),
    }
}

fn same_bytes(a: &Vec<u8>, b: &Vec<u8>) -> (r: bool)
    ensures
        r == (a@ == b@),
{
    if a.len() != b.len() {
        return false;
    }
    let mut i: usize = 0;
    while i < a.len()
        invariant
            i <= a@.len(),
            a@.len() == b@.len(),
            forall|k: int| 0 <= k < i ==> a@[k] == b@[k],
        decreases a@.len() - i,
    {
        if a[i] != b[i] {
            return false;
        }
        i = i + 1;
    }
    assert(a@ =~= b@);
    true
}

/// Decides the one write, if any, that makes the file at `path` hold
/// `new_content` (without its leading and trailing tabs and spaces), given the
/// file that a fetch of `path` returned.
pub fn create_or_update_file_in_github_repo(path: &str, existing: &RemoteFile, new_content: &[u8]) -> (r: WriteRequest)
    ensures
        is_upsert(
            r,
            path@,
            *existing,
            new_content@,
            unified_patch(existing.content@, trim_blank(new_content@)),
        ),
{
    let wanted = trim_blank_bytes(new_content);
    let patch = patch_bytes(existing.content.as_slice(), wanted.as_slice());
    decide_upsert(path, existing, new_content, patch.as_slice())
}

/// The file that the remote holds after `r` was carried out over `existing`,
/// the new revision id being `new_sha`.
pub open spec fn after_write(r: WriteKind, existing: (Seq<u8>, Seq<char>), written: Seq<u8>, new_sha: Seq<char>) -> (Seq<u8>, Seq<char>) {
    match r {
        WriteKind::Unchanged => existing,
        _ => (written, new_sha),
    }
}

/// The number of remote writes of a call.
pub open spec fn writes(r: WriteKind) -> int {
    match r {
        WriteKind::Unchanged => 0,
        _ => 1,
    }
}

/// Upserting the same content twice in a row, the remote changing only
/// through the first call, writes exactly once where the first call writes and
/// never otherwise: the second call always finds the content in place.
pub proof fn lemma_upsert_twice_writes_at_most_once(
    existing: Seq<u8>,
    existing_sha: Seq<char>,
    new_content: Seq<u8>,
    new_sha: Seq<char>,
)
    requires
        new_sha.len() > 0,
    ensures
        ({
            let wanted = trim_blank(new_content);
            let first = upsert_kind(existing, existing_sha, wanted, unified_patch(existing, wanted));
            let now = after_write(first, (existing, existing_sha), wanted, new_sha);
            let second = upsert_kind(now.0, now.1, wanted, unified_patch(now.0, wanted));
            &&& second == WriteKind::Unchanged
            &&& writes(first) + writes(second) == writes(first)
            &&& writes(first) + writes(second) <= 1
        }),
{
    lemma_trim_blank_idempotent(new_content);
}

/// A change that is only the timestamp churn of a regenerated PDF is never
/// written.
pub proof fn lemma_cosmetic_change_not_written(
    existing: Seq<u8>,
    existing_sha: Seq<char>,
    new_content: Seq<u8>,
)
    requires
        cosmetic_patch(unified_patch(existing, trim_blank(new_content))),
        existing.len() > 0 || existing_sha.len() > 0,
    ensures
        upsert_kind(
            existing,
            existing_sha,
            trim_blank(new_content),
            unified_patch(existing, trim_blank(new_content)),
        ) == WriteKind::Unchanged,
{
}

} // verus!
