//! The repository of documents and its branch-scoped views.
use crate::content::{decode_base64, decoded_text, RemoteFile};
use crate::number::{directory_of, RFDNumber};
use crate::text::{
    append_chars, chars_of, equal_chars, string_of, strip_all_prefixes, strip_all_prefixes_exec, trim_blank, utf8_text,
};
use crate::upsert::{create_or_update_file_in_github_repo, is_upsert, unified_patch, WriteRequest};
use vstd::prelude::*;
use vstd::utf8::*;

verus! {

/// The repository of documents, with its default branch.
pub struct GitHubRFDRepo {
    pub owner: String,
    pub repo: String,
    pub default_branch: String,
}

/// One branch of the repository of documents.
pub struct GitHubRFDBranch {
    pub owner: String,
    pub repo: String,
    pub default_branch: String,
    pub branch: String,
}

/// The name of the repository of documents.
pub const RFD_REPO: &'static str = "rfd";

impl GitHubRFDRepo {
    /// The repository of documents of `owner`, whose default branch is
    /// `default_branch`.
    pub fn new(owner: String, default_branch: String) -> (r: GitHubRFDRepo)
        ensures
            r.owner == owner,
            r.repo@ == RFD_REPO@,
            r.default_branch == default_branch,
    {
        GitHubRFDRepo { owner, repo: string_of(&chars_of(RFD_REPO)), default_branch }
    }

    /// The view of the repository on `branch`.
    pub fn branch(&self, branch: String) -> (r: GitHubRFDBranch)
        ensures
            r.owner == self.owner,
            r.repo == self.repo,
            r.default_branch == self.default_branch,
            r.branch == branch,
    {
        GitHubRFDBranch {
            owner: self.owner.clone(),
            repo: self.repo.clone(),
            default_branch: self.default_branch.clone(),
            branch,
        }
    }
}

impl GitHubRFDBranch {
    /// A copy of this view.
    pub fn copy(&self) -> (r: GitHubRFDBranch)
        ensures
            r == *self,
    {
        GitHubRFDBranch {
            owner: self.owner.clone(),
            repo: self.repo.clone(),
            default_branch: self.default_branch.clone(),
            branch: self.branch.clone(),
        }
    }
}

/// The text of a document, tagged with its markup.
pub enum RFDContent {
    Asciidoc(String),
    Markdown(String),
}

/// The two markups a document's README may be written in.
pub enum ReadmeFormat {
    Asciidoc,
    Markdown,
}

/// A file's content as the contents API returns it: base64 text.
pub struct ContentFile {
    pub content: String,
    pub sha: String,
    pub html_url: String,
}

/// Where a README was read from.
pub struct GitHubRFDReadmeLocation {
    pub file: String,
    pub branch: GitHubRFDBranch,
}

/// A document's README.
pub struct GitHubRFDReadme {
    pub content: RFDContent,
    pub link: String,
    pub sha: String,
    pub location: GitHubRFDReadmeLocation,
}

/// The failures that reach the caller.
pub enum RFDError {
    /// The README is in neither markup, or a branch has no commits.
    NotFound,
    /// A file's content is no base64 of UTF-8 text.
    Undecodable,
    /// The latest commit carries no committer date.
    MissingMetadata,
    /// A committer date is no timestamp.
    InvalidDate,
}

/// What to do after one README request was answered.
pub enum ReadmeStep {
    /// Request the README at `path`, written in `format`.
    Fetch { path: String, format: ReadmeFormat },
    /// The resolution is over.
    Done(Result<GitHubRFDReadme, RFDError>),
}

/// The file name of a README in `format`.
pub open spec fn readme_name(format: ReadmeFormat) -> Seq<char> {
    match format {
        ReadmeFormat::Asciidoc => "/README.adoc"@,
        ReadmeFormat::Markdown => "/README.md"@,
    }
}

/// The path of the README in `format` of the document numbered `n`.
pub open spec fn readme_path(n: int, format: ReadmeFormat) -> Seq<char> {
    directory_of(n) + readme_name(format)
}

/// The text that a base64 file content stands for, where it is UTF-8.
pub open spec fn decoded_string(encoded: Seq<char>) -> Option<Seq<char>> {
    match decoded_text(encoded) {
        Some(b) => if valid_utf8(b) {
            Some(decode_utf8(b))
        } else {
            None
        },
        None => None,
    }
}

/// How a README resolution goes on after a request in `format`, answered with
/// a file (`found`) or not.
pub enum ReadmeOutcome {
    /// The answer is the README, in this markup.
    Use(ReadmeFormat),
    /// Request the README in this markup next.
    Try(ReadmeFormat),
    /// There is no README.
    Missing,
}

pub open spec fn readme_outcome(format: ReadmeFormat, found: bool) -> ReadmeOutcome {
    if found {
        ReadmeOutcome::Use(format)
    } else {
        match format {
            ReadmeFormat::Asciidoc => ReadmeOutcome::Try(ReadmeFormat::Markdown),
            ReadmeFormat::Markdown => ReadmeOutcome::Missing,
        }
    }
}

/// `content` holds `text` tagged with `format`.
pub open spec fn tagged(content: RFDContent, format: ReadmeFormat, text: Seq<char>) -> bool {
    match format {
        ReadmeFormat::Asciidoc => content is Asciidoc && content->Asciidoc_0@ == text,
        ReadmeFormat::Markdown => content is Markdown && content->Markdown_0@ == text,
    }
}

/// The step is what `readme_outcome` says, with the README read from `file`.
pub open spec fn is_readme_step(
    r: ReadmeStep,
    view: GitHubRFDBranch,
    n: int,
    format: ReadmeFormat,
    response: Option<ContentFile>,
) -> bool {
    match readme_outcome(format, response is Some) {
        ReadmeOutcome::Use(f) => {
            let file = response->0;
            match decoded_string(file.content@) {
                Some(text) => r is Done && r->Done_0 is Ok && ({
                    let readme = r->Done_0->Ok_0;
                    &&& tagged(readme.content, f, text)
                    &&& readme.sha == file.sha
                    &&& readme.link == file.html_url
                    &&& readme.location.file@ == readme_path(n, f)
                    &&& readme.location.branch == view
                }),
                None => r == ReadmeStep::Done(Err(RFDError::Undecodable)),
            }
        },
        ReadmeOutcome::Try(f) => r is Fetch && r->format == f && r->path@ == readme_path(n, f),
        ReadmeOutcome::Missing => r == ReadmeStep::Done(Err(RFDError::NotFound)),
    }
}

impl GitHubRFDBranch {
    /// The path of the README of document `rfd_number` in `format`.
    pub fn readme_location(&self, rfd_number: &RFDNumber, format: &ReadmeFormat) -> (r: String)
        ensures
            r@ == readme_path(rfd_number.0 as int, *format),
    {
        let mut p = rfd_number.directory_chars();
        let name = match format {
            ReadmeFormat::Asciidoc => chars_of("/README.adoc"),
            ReadmeFormat::Markdown => chars_of("/README.md"),
        };
        append_chars(&mut p, &name);
        string_of(&p)
    }

    /// Resolves a document's README one request at a time: the AsciiDoc file
    /// first, the Markdown file where that is absent. `response` is the answer
    /// to the request for the README in `format` (`None`: the remote failed).
    pub fn get_readme_contents(
        &self,
        rfd_number: &RFDNumber,
        format: ReadmeFormat,
        response: Option<ContentFile>,
    ) -> (r: ReadmeStep)
        ensures
            is_readme_step(r, *self, rfd_number.0 as int, format, response),
    {
        match response {
            Some(file) => {
                let text = match decode_base64(file.content.as_str()) {
                    Some(bytes) => utf8_text(bytes.as_slice()),
                    None => None,
                };
                match text {
                    None => ReadmeStep::Done(Err(RFDError::Undecodable)),
                    Some(t) => {
                        let path = self.readme_location(rfd_number, &format);
                        let content = match format {
                            ReadmeFormat::Asciidoc => RFDContent::Asciidoc(t),
                            ReadmeFormat::Markdown => RFDContent::Markdown(t),
                        };
                        ReadmeStep::Done(
                            Ok(
                                GitHubRFDReadme {
                                    content,
                                    link: file.html_url,
                                    sha: file.sha,
                                    location: GitHubRFDReadmeLocation { file: path, branch: self.copy() },
                                },
                            ),
                        )
                    },
                }
            },
            None => match format {
                ReadmeFormat::Asciidoc => ReadmeStep::Fetch {
                    path: self.readme_location(rfd_number, &ReadmeFormat::Markdown),
                    format: ReadmeFormat::Markdown,
                },
                ReadmeFormat::Markdown => ReadmeStep::Done(Err(RFDError::NotFound)),
            },
        }
    }
}

/// The part of a pull request that the branch logic reads.
pub struct GitHubPullRequest {
    pub number: i64,
    pub title: String,
    pub html_url: String,
    /// The head ref, as `refs/heads/<branch>` or as the bare branch name.
    pub head_ref: String,
}

impl GitHubPullRequest {
    /// A copy of this pull request.
    pub fn copy(&self) -> (r: GitHubPullRequest)
        ensures
            r == *self,
    {
        GitHubPullRequest {
            number: self.number,
            title: self.title.clone(),
            html_url: self.html_url.clone(),
            head_ref: self.head_ref.clone(),
        }
    }
}

/// The branch that a head ref names.
pub open spec fn head_branch(head_ref: Seq<char>) -> Seq<char> {
    strip_all_prefixes(head_ref, "refs/heads/"@)
}

/// The pull requests among `pulls` whose head is `branch`, in order.
pub open spec fn pulls_from(pulls: Seq<GitHubPullRequest>, branch: Seq<char>) -> Seq<GitHubPullRequest>
    decreases pulls.len(),
{
    if pulls.len() == 0 {
        Seq::empty()
    } else {
        (if head_branch(pulls[0].head_ref@) == branch {
            seq![pulls[0]]
        } else {
            Seq::empty()
        }) + pulls_from(pulls.drop_first(), branch)
    }
}

/// A commit as the commit listing gives it.
pub struct CommitSummary {
    /// The committer's date, where the commit carries one.
    pub committer_date: Option<String>,
}

/// An instant in UTC: seconds since the Unix epoch and nanoseconds.
pub struct CommitTime {
    pub seconds: i64,
    pub nanos: u32,
}

/// The instant that `chrono` reads from a text as a `DateTime<Utc>`, if any.
pub uninterp spec fn utc_instant(text: Seq<char>) -> Option<(i64, u32)>;

/// Relies on `chrono`'s `FromStr` for `DateTime<Utc>`: the instant read is a
/// function of the text alone, and text that is no timestamp is refused.
#[verifier::external_body]
fn parse_utc(text: &str) -> (r: Option<CommitTime>)
    ensures
        match r {
            Some(t) => utc_instant(text@) == Some((t.seconds, t.nanos)),
            None => utc_instant(text@) is None,
        },
{
    text.parse::<chrono::DateTime<chrono::Utc>>().ok().map(
        |d| CommitTime { seconds: d.timestamp(), nanos: d.timestamp_subsec_nanos() },
    )
}

/// A rendered PDF of a document.
pub struct RFDPdf {
    pub filename: String,
    pub contents: Vec<u8>,
}

/// Where a document's PDF is stored.
pub open spec fn pdf_path(filename: Seq<char>) -> Seq<char> {
    "/pdfs/"@ + filename
}

impl GitHubRFDBranch {
    /// The pull requests among `pulls` (all the repository's, in the remote's
    /// order) whose head is this branch, in the same order.
    pub fn find_pull_requests(&self, pulls: &Vec<GitHubPullRequest>) -> (r: Vec<GitHubPullRequest>)
        ensures
            r@ == pulls_from(pulls@, self.branch@),
    {
        let prefix = chars_of("refs/heads/");
        let branch = chars_of(self.branch.as_str());
        let mut out: Vec<GitHubPullRequest> = Vec::new();
        let mut j: usize = 0;
        assert(pulls@.subrange(0, pulls@.len() as int) =~= pulls@);
        assert(Seq::<GitHubPullRequest>::empty() + pulls_from(pulls@, self.branch@) =~= pulls_from(pulls@, self.branch@));
        while j < pulls.len()
            invariant
                j <= pulls@.len(),
                prefix@ == "refs/heads/"@,
                branch@ == self.branch@,
                pulls_from(pulls@, self.branch@) == out@ + pulls_from(
                    pulls@.subrange(j as int, pulls@.len() as int),
                    self.branch@,
                ),
            decreases pulls@.len() - j,
        {
            let ghost rest = pulls@.subrange(j as int, pulls@.len() as int);
            let ghost before = out@;
            assert(rest.drop_first() =~= pulls@.subrange(j + 1, pulls@.len() as int));
            let head = strip_all_prefixes_exec(&chars_of(pulls[j].head_ref.as_str()), &prefix);
            if equal_chars(&head, &branch) {
                out.push(pulls[j].copy());
                assert(before + seq![rest[0]] + pulls_from(rest.drop_first(), self.branch@) =~= before + pulls_from(rest, self.branch@));
            } else {
                assert(pulls_from(rest, self.branch@) =~= pulls_from(rest.drop_first(), self.branch@));
            }
            j = j + 1;
        }
        assert(pulls@.subrange(pulls@.len() as int, pulls@.len() as int) =~= Seq::<GitHubPullRequest>::empty());
        assert(out@ + Seq::<GitHubPullRequest>::empty() =~= out@);
        out
    }

    /// The date of the latest commit, from the listing of the commits that
    /// touch the document's directory, most recent first.
    pub fn get_latest_commit_date(&self, commits: &Vec<CommitSummary>) -> (r: Result<CommitTime, RFDError>)
        ensures
            commits@.len() == 0 ==> r == Err::<CommitTime, RFDError>(RFDError::NotFound),
            commits@.len() > 0 ==> match commits@[0].committer_date {
                None => r == Err::<CommitTime, RFDError>(RFDError::MissingMetadata),
                Some(d) => match utc_instant(d@) {
                    Some(t) => r is Ok && r->Ok_0.seconds == t.0 && r->Ok_0.nanos == t.1,
                    None => r == Err::<CommitTime, RFDError>(RFDError::InvalidDate),
                },
            },
    {
        if commits.len() == 0 {
            return Err(RFDError::NotFound);
        }
        match &commits[0].committer_date {
            None => Err(RFDError::MissingMetadata),
            Some(d) => match parse_utc(d.as_str()) {
                Some(t) => Ok(t),
                None => Err(RFDError::InvalidDate),
            },
        }
    }

    /// The path that a document's PDF is stored at on this branch.
    pub fn rfd_pdf_path(&self, pdf: &RFDPdf) -> (r: String)
        ensures
            r@ == pdf_path(pdf.filename@),
    {
        let mut p = chars_of("/pdfs/");
        append_chars(&mut p, &chars_of(pdf.filename.as_str()));
        string_of(&p)
    }

    /// The write, if any, that stores `pdf` on this branch, given the file
    /// that a fetch of its path returned.
    pub fn store_rfd_pdf(&self, pdf: &RFDPdf, existing: &RemoteFile) -> (r: WriteRequest)
        ensures
            is_upsert(
                r,
                pdf_path(pdf.filename@),
                *existing,
                pdf.contents@,
                unified_patch(existing.content@, trim_blank(pdf.contents@)),
            ),
    {
        let path = self.rfd_pdf_path(pdf);
        create_or_update_file_in_github_repo(path.as_str(), existing, pdf.contents.as_slice())
    }
}

/// When the AsciiDoc README is absent and the Markdown one is there and
/// decodes, the resolution asks for the Markdown file next and ends with its
/// text, tagged Markdown, and no error.
pub proof fn lemma_markdown_fallback(
    view: GitHubRFDBranch,
    n: int,
    first: ReadmeStep,
    second: ReadmeStep,
    markdown: ContentFile,
)
    requires
        is_readme_step(first, view, n, ReadmeFormat::Asciidoc, None),
        is_readme_step(second, view, n, ReadmeFormat::Markdown, Some(markdown)),
        decoded_string(markdown.content@) is Some,
    ensures
        first is Fetch,
        first->format == ReadmeFormat::Markdown,
        first->path@ == readme_path(n, ReadmeFormat::Markdown),
        second is Done,
        second->Done_0 is Ok,
        second->Done_0->Ok_0.content is Markdown,
        second->Done_0->Ok_0.content->Markdown_0@ == decoded_string(markdown.content@)->0,
        second->Done_0->Ok_0.location.file@ == readme_path(n, ReadmeFormat::Markdown),
{
}

} // verus!
