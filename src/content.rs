//! Reading one remote file, with its fallbacks for rate limits and for files
//! too large for the contents API.
use crate::text::{
    chars_of, contains, contains_chars, equal_chars, replace_all, replace_all_exec, string_of, strip_all_prefixes,
    strip_all_prefixes_exec, trim_blank, trim_blank_bytes,
};
use vstd::prelude::*;

verus! {

/// One file as the remote holds it: its bytes and its revision id. Empty bytes
/// with an empty revision id stand for a file that could not be had.
pub struct RemoteFile {
    pub content: Vec<u8>,
    pub sha: String,
}

impl RemoteFile {
    /// The value that stands for "not retrievable".
    pub open spec fn is_missing(&self) -> bool {
        self.content@.len() == 0 && self.sha@.len() == 0
    }

    pub fn missing() -> (r: RemoteFile)
        ensures
            r.is_missing(),
    {
        RemoteFile { content: Vec::new(), sha: String::new() }
    }
}

/// What the remote answered to a request for one file's content.
pub enum ContentResponse {
    /// The file, its content already decoded.
    Found { content: Vec<u8>, sha: String },
    /// The rate limit was hit; it resets after this many seconds.
    RateLimited { reset_secs: u64 },
    /// Any other fault, with the remote's message.
    Fault { message: String },
}

/// One entry of a directory listing.
pub struct DirectoryItem {
    pub name: String,
    pub path: String,
    pub sha: String,
    pub is_dir: bool,
}

/// What to do after a request for one file's content was answered.
pub enum FetchStep {
    /// The fetch is over with this file.
    Done(RemoteFile),
    /// Wait this many seconds; the fetch then ends with the missing file.
    Backoff { seconds: u64 },
    /// The file is too large to be served whole: list this directory, find the
    /// file's entry with `locate_blob` and read it with `blob_file`.
    ListParent { dir: String },
}

/// Seconds added to the remote's reset interval before going on.
pub const RATE_LIMIT_GRACE_SECS: u64 = 5;

/// `p` with a leading `/`, added where it has none.
pub open spec fn rooted(p: Seq<char>) -> Seq<char> {
    if p.len() > 0 && p[0] == '/' {
        p
    } else {
        seq!['/'] + p
    }
}

/// The index of the last `/` in `p`, or -1.
pub open spec fn last_slash(p: Seq<char>) -> int
    decreases p.len(),
{
    if p.len() == 0 {
        -1
    } else if p.last() == '/' {
        p.len() - 1
    } else {
        last_slash(p.drop_last())
    }
}

/// The directory that holds the file at the rooted path `p`.
pub open spec fn parent_dir(p: Seq<char>) -> Seq<char> {
    if last_slash(p) <= 0 {
        seq!['/']
    } else {
        p.subrange(0, last_slash(p))
    }
}

/// Whether a fault message says that the file is too large to be served.
pub open spec fn too_large(message: Seq<char>) -> bool {
    contains(message, "too large"@)
}

/// The path as the directory listing writes it: without leading `/`.
pub open spec fn listing_path(p: Seq<char>) -> Seq<char> {
    strip_all_prefixes(rooted(p), "/"@)
}

/// Adds a leading `/` to `path` where it has none.
pub fn rooted_path(path: &str) -> (r: Vec<char>)
    ensures
        r@ == rooted(path@),
{
    let cs = chars_of(path);
    if cs.len() > 0 && cs[0] == '/' {
        cs
    } else {
        let mut r: Vec<char> = vec!['/'];
        let mut i: usize = 0;
        while i < cs.len()
            invariant
                i <= cs@.len(),
                r@ == seq!['/'] + cs@.subrange(0, i as int),
            decreases cs@.len() - i,
        {
            r.push(cs[i]);
            i = i + 1;
            assert(r@ =~= seq!['/'] + cs@.subrange(0, i as int));
        }
        assert(cs@.subrange(0, cs@.len() as int) =~= cs@);
        r
    }
}

proof fn lemma_last_slash_bounds(p: Seq<char>)
    ensures
        -1 <= last_slash(p) < p.len(),
        last_slash(p) >= 0 ==> p[last_slash(p)] == '/',
    decreases p.len(),
{
    if p.len() > 0 && p.last() != '/' {
        lemma_last_slash_bounds(p.drop_last());
    }
}

/// The directory that holds the file at `path`.
pub fn parent_directory(path: &Vec<char>) -> (r: Vec<char>)
    ensures
        r@ == parent_dir(path@),
{
    let mut k: usize = path.len();
    assert(path@.subrange(0, k as int) =~= path@);
    while k > 0 && path[k - 1] != '/'
        invariant
            k <= path@.len(),
            last_slash(path@.subrange(0, k as int)) == last_slash(path@),
        decreases k,
    {
        assert(path@.subrange(0, k as int).drop_last() =~= path@.subrange(0, k - 1));
        k = k - 1;
    }
    proof {
        assert(path@.subrange(0, path@.len() as int) =~= path@);
        if k > 0 {
            assert(path@.subrange(0, k as int).last() == '/');
        } else {
            assert(path@.subrange(0, 0) =~= Seq::<char>::empty());
        }
    }
    if k <= 1 {
        vec!['/']
    } else {
        let mut r: Vec<char> = Vec::new();
        let mut i: usize = 0;
        while i < k - 1
            invariant
                i <= k - 1,
                k <= path@.len(),
                r@ == path@.subrange(0, i as int),
            decreases k - 1 - i,
        {
            r.push(path[i]);
            i = i + 1;
            assert(r@ =~= path@.subrange(0, i as int));
        }
        r
    }
}

/// `r` is the step that follows `response` to a content request for `path`.
pub open spec fn is_fetch_step(r: FetchStep, path: Seq<char>, response: ContentResponse) -> bool {
    match response {
        ContentResponse::Found { content, sha } => r == FetchStep::Done(
            RemoteFile { content, sha },
        ),
        ContentResponse::RateLimited { reset_secs } => r == FetchStep::Backoff {
            seconds: if reset_secs as int + RATE_LIMIT_GRACE_SECS <= u64::MAX {
                (reset_secs + RATE_LIMIT_GRACE_SECS) as u64
            } else {
                u64::MAX
            },
        },
        ContentResponse::Fault { message } => if too_large(message@) {
            r is ListParent && r->dir@ == parent_dir(rooted(path))
        } else {
            r is Done && r->Done_0.is_missing()
        },
    }
}

/// The step that follows the remote's answer to a content request for `path`.
pub fn get_file_content_from_repo(path: &str, response: ContentResponse) -> (r: FetchStep)
    ensures
        is_fetch_step(r, path@, response),
{
    match response {
        ContentResponse::Found { content, sha } => FetchStep::Done(RemoteFile { content, sha }),
        ContentResponse::RateLimited { reset_secs } => FetchStep::Backoff {
            seconds: reset_secs.saturating_add(RATE_LIMIT_GRACE_SECS),
        },
        ContentResponse::Fault { message } => {
            let m = chars_of(message.as_str());
            let needle = chars_of("too large");
            if contains_chars(&m, &needle) {
                let p = rooted_path(path);
                let dir = parent_directory(&p);
                FetchStep::ListParent { dir: string_of(&dir) }
            } else {
                FetchStep::Done(RemoteFile::missing())
            }
        },
    }
}

/// `r` is the revision id of the first entry of `items` whose path is `path`'s,
/// or `None` where there is none.
pub open spec fn is_located_blob(r: Option<String>, path: Seq<char>, items: Seq<DirectoryItem>) -> bool {
    &&& (r is None <==> forall|i: int| 0 <= i < items.len() ==> items[i].path@ != listing_path(path))
    &&& (r is Some ==> exists|i: int|
        0 <= i < items.len() && items[i].path@ == listing_path(path) && r->0@ == items[i].sha@
            && forall|j: int| 0 <= j < i ==> items[j].path@ != listing_path(path))
}

/// Finds, in the listing of the parent directory, the entry of the file at
/// `path`, and returns its revision id.
pub fn locate_blob(path: &str, items: &Vec<DirectoryItem>) -> (r: Option<String>)
    ensures
        is_located_blob(r, path@, items@),
{
    let p = rooted_path(path);
    let slash = chars_of("/");
    let wanted = strip_all_prefixes_exec(&p, &slash);
    let mut i: usize = 0;
    while i < items.len()
        invariant
            i <= items@.len(),
            wanted@ == listing_path(path@),
            forall|j: int| 0 <= j < i ==> items@[j].path@ != listing_path(path@),
        decreases items@.len() - i,
    {
        let candidate = chars_of(items[i].path.as_str());
        if equal_chars(&candidate, &wanted) {
            return Some(items[i].sha.clone());
        }
        i = i + 1;
    }
    None
}

/// What standard base64 decoding gives for `s`; `None` where `s` is no base64.
pub uninterp spec fn base64_decoded(s: Seq<char>) -> Option<Seq<u8>>;

/// Relies on `base64::decode_config` with the standard alphabet: decoding is a
/// function of the text alone, and fails on text that is no base64.
#[verifier::external_body]
fn decode_standard_base64(s: &str) -> (r: Option<Vec<u8>>)
    ensures
        match r {
            Some(v) => base64_decoded(s@) == Some(v@),
            None => base64_decoded(s@) is None,
        },
{
    base64::decode_config(s, base64::STANDARD).ok()
}

/// The bytes that a base64 text with line breaks stands for.
pub open spec fn decoded_text(encoded: Seq<char>) -> Option<Seq<u8>> {
    base64_decoded(replace_all(encoded, "\n"@, Seq::<char>::empty()))
}

/// Decodes base64 text that may be broken into lines.
pub fn decode_base64(encoded: &str) -> (r: Option<Vec<u8>>)
    ensures
        match r {
            Some(v) => decoded_text(encoded@) == Some(v@),
            None => decoded_text(encoded@) is None,
        },
{
    let cs = chars_of(encoded);
    let newline = chars_of("\n");
    let none: Vec<char> = Vec::new();
    proof {
        reveal_strlit("\n");
    }
    let joined = replace_all_exec(&cs, &newline, &none);
    let joined = string_of(&joined);
    decode_standard_base64(joined.as_str())
}

/// `r` is the file that the blob `blob_content` of revision `sha` stands for.
pub open spec fn is_blob_file(r: RemoteFile, sha: Seq<char>, blob_content: Seq<char>) -> bool {
    match decoded_text(blob_content) {
        Some(b) => r.content@ == trim_blank(b) && r.sha@ == sha,
        None => r.is_missing(),
    }
}

/// The file that a blob read through the data API stands for: the decoded bytes
/// without leading and trailing tabs and spaces, or the missing file where the
/// blob does not decode.
pub fn blob_file(sha: &String, blob_content: &str) -> (r: RemoteFile)
    ensures
        is_blob_file(r, sha@, blob_content@),
{
    match decode_base64(blob_content) {
        Some(bytes) => RemoteFile { content: trim_blank_bytes(bytes.as_slice()), sha: sha.clone() },
        None => RemoteFile::missing(),
    }
}

/// A file too large for the contents API is read through its directory: the
/// fetch lists the directory that holds the file, the entry taken from that
/// listing is the first whose path is the file's, and the bytes returned are
/// that entry's blob, decoded, without blanks at either end.
pub proof fn lemma_large_file_fallback(
    path: Seq<char>,
    message: String,
    step: FetchStep,
    items: Seq<DirectoryItem>,
    located: Option<String>,
    blob: Seq<char>,
    file: RemoteFile,
)
    requires
        too_large(message@),
        is_fetch_step(step, path, ContentResponse::Fault { message }),
        is_located_blob(located, path, items),
        located is Some,
        is_blob_file(file, located->0@, blob),
        decoded_text(blob) is Some,
    ensures
        step is ListParent,
        step->dir@ == parent_dir(rooted(path)),
        exists|i: int|
            0 <= i < items.len() && items[i].path@ == listing_path(path) && items[i].sha@ == located->0@
                && forall|j: int| 0 <= j < i ==> items[j].path@ != listing_path(path),
        file.content@ == trim_blank(decoded_text(blob)->0),
        file.sha@ == located->0@,
{
}

} // verus!
