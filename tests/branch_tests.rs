use rfd_sync::branch::{
    CommitSummary, ContentFile, GitHubPullRequest, GitHubRFDRepo, RFDContent, RFDError, RFDPdf, ReadmeFormat,
    ReadmeStep,
};
use rfd_sync::content::{DirectoryItem, RemoteFile};
use rfd_sync::images::{frontend_image_path, get_images, is_image, subdirectories};
use rfd_sync::manifest::MANIFEST_PATH;
use rfd_sync::number::RFDNumber;
use rfd_sync::upsert::WriteRequest;
use rfd_sync::utils::{check_if_github_issue_exists, get_value, public_ssh_keys, truncate, GitHubIssue};
use std::collections::HashMap;

fn repo() -> GitHubRFDRepo {
    GitHubRFDRepo::new("oxidecomputer".to_string(), "master".to_string())
}

fn file(text: &str) -> ContentFile {
    ContentFile { content: base64::encode(text), sha: "sha1".to_string(), html_url: "https://x/README".to_string() }
}

fn item(name: &str, path: &str, is_dir: bool) -> DirectoryItem {
    DirectoryItem { name: name.to_string(), path: path.to_string(), sha: "s".to_string(), is_dir }
}

fn pull(number: i64, head: &str) -> GitHubPullRequest {
    GitHubPullRequest { number, title: format!("pr {}", number), html_url: String::new(), head_ref: head.to_string() }
}

#[test]
fn document_directory_is_zero_padded() {
    assert_eq!(RFDNumber(2).repo_directory(), "/rfd/0002");
    assert_eq!(RFDNumber(123).as_number_string(), "0123");
    assert_eq!(RFDNumber(12345).repo_directory(), "/rfd/12345");
    assert_eq!(RFDNumber(0).decimal_string(), "0");
    assert_eq!(RFDNumber(-7).decimal_string(), "-7");
    assert_eq!(RFDNumber(i32::MIN).decimal_string(), "-2147483648");
}

#[test]
fn branch_view_keeps_the_repository() {
    let b = repo().branch("17".to_string());
    assert_eq!(b.owner, "oxidecomputer");
    assert_eq!(b.repo, "rfd");
    assert_eq!(b.default_branch, "master");
    assert_eq!(b.branch, "17");
}

#[test]
fn asciidoc_readme_is_used_first() {
    let b = repo().branch("5".to_string());
    match b.get_readme_contents(&RFDNumber(5), ReadmeFormat::Asciidoc, Some(file("= Title\n"))) {
        ReadmeStep::Done(Ok(r)) => {
            assert!(matches!(r.content, RFDContent::Asciidoc(ref t) if t == "= Title\n"));
            assert_eq!(r.sha, "sha1");
            assert_eq!(r.link, "https://x/README");
            assert_eq!(r.location.file, "/rfd/0005/README.adoc");
            assert_eq!(r.location.branch.branch, "5");
        }
        _ => panic!("expected the AsciiDoc README"),
    }
}

#[test]
fn markdown_readme_is_the_fallback() {
    let b = repo().branch("5".to_string());
    let (path, format) = match b.get_readme_contents(&RFDNumber(5), ReadmeFormat::Asciidoc, None) {
        ReadmeStep::Fetch { path, format } => (path, format),
        _ => panic!("expected a second request"),
    };
    assert_eq!(path, "/rfd/0005/README.md");
    match b.get_readme_contents(&RFDNumber(5), format, Some(file("# Title\n"))) {
        ReadmeStep::Done(Ok(r)) => {
            assert!(matches!(r.content, RFDContent::Markdown(ref t) if t == "# Title\n"));
            assert_eq!(r.location.file, "/rfd/0005/README.md");
        }
        _ => panic!("expected the Markdown README"),
    }
}

#[test]
fn readme_in_neither_markup_is_not_found() {
    let b = repo().branch("5".to_string());
    assert!(matches!(
        b.get_readme_contents(&RFDNumber(5), ReadmeFormat::Markdown, None),
        ReadmeStep::Done(Err(RFDError::NotFound))
    ));
    let bad = ContentFile { content: "***".to_string(), sha: String::new(), html_url: String::new() };
    assert!(matches!(
        b.get_readme_contents(&RFDNumber(5), ReadmeFormat::Asciidoc, Some(bad)),
        ReadmeStep::Done(Err(RFDError::Undecodable))
    ));
}

#[test]
fn image_walk_stops_at_two_levels() {
    let top = vec![item("img.png", "rfd/0001/img.png", false), item("sub", "rfd/0001/sub/", true), item("README.adoc", "rfd/0001/README.adoc", false)];
    let dirs = subdirectories(&top);
    assert_eq!(dirs, vec!["rfd/0001/sub".to_string()]);
    let inner = vec![vec![item("img2.png", "rfd/0001/sub/img2.png", false), item("deeper", "rfd/0001/sub/deeper", true), item("notes.txt", "rfd/0001/sub/notes.txt", false)]];
    let images = get_images(&top, &inner);
    assert_eq!(images, vec!["rfd/0001/img.png".to_string(), "rfd/0001/sub/img2.png".to_string()]);
    assert!(!images.iter().any(|p| p.contains("img3")));
}

#[test]
fn directory_images_come_before_later_entries() {
    let top = vec![item("a", "d/a", true), item("b.svg", "d/b.svg", false), item("c", "d/c", true)];
    let inner = vec![vec![item("x.jpg", "d/a/x.jpg", false)], vec![item("y.jpeg", "d/c/y.jpeg", false)]];
    assert_eq!(get_images(&top, &inner), vec!["d/a/x.jpg", "d/b.svg", "d/c/y.jpeg"]);
}

#[test]
fn image_names_by_extension() {
    assert!(is_image("a.png") && is_image("a.svg") && is_image("a.jpg") && is_image("a.jpeg"));
    assert!(!is_image("a.pdf") && !is_image("png") && !is_image("a.PNG"));
}

#[test]
fn images_go_to_static_assets() {
    assert_eq!(frontend_image_path("rfd/0001/img.png"), "src/public/static/images/0001/img.png");
}

#[test]
fn pull_requests_of_the_branch_only() {
    let b = repo().branch("3".to_string());
    let pulls = vec![pull(1, "refs/heads/3"), pull(2, "refs/heads/4"), pull(3, "30")];
    let found = b.find_pull_requests(&pulls);
    assert_eq!(found.len(), 1);
    assert_eq!(found[0].number, 1);
    assert_eq!(b.find_pull_requests(&vec![pull(7, "3"), pull(8, "refs/heads/refs/heads/3")]).len(), 2);
}

#[test]
fn latest_commit_date_from_the_first_commit() {
    let b = repo().branch("3".to_string());
    assert!(matches!(b.get_latest_commit_date(&vec![]), Err(RFDError::NotFound)));
    assert!(matches!(
        b.get_latest_commit_date(&vec![CommitSummary { committer_date: None }]),
        Err(RFDError::MissingMetadata)
    ));
    assert!(matches!(
        b.get_latest_commit_date(&vec![CommitSummary { committer_date: Some("yesterday".to_string()) }]),
        Err(RFDError::InvalidDate)
    ));
    let commits = vec![
        CommitSummary { committer_date: Some("2021-01-02T03:04:05Z".to_string()) },
        CommitSummary { committer_date: Some("2020-01-01T00:00:00Z".to_string()) },
    ];
    let t = b.get_latest_commit_date(&commits).ok().expect("date");
    assert_eq!(t.seconds, 1609556645);
    assert_eq!(t.nanos, 0);
}

#[test]
fn pdf_is_stored_under_pdfs() {
    let b = repo().branch("3".to_string());
    let pdf = RFDPdf { filename: "rfd-0003.pdf".to_string(), contents: b"%PDF".to_vec() };
    match b.store_rfd_pdf(&pdf, &RemoteFile::missing()) {
        WriteRequest::Create { path, content, .. } => {
            assert_eq!(path, "/pdfs/rfd-0003.pdf");
            assert_eq!(content, b"%PDF".to_vec());
        }
        _ => panic!("expected a create"),
    }
}

#[test]
fn manifest_rows_resolve_their_branch() {
    assert_eq!(MANIFEST_PATH, "/.helpers/rfd.csv");
    let csv = "num,title,link\n1,One,https://github.com/o/rfd/tree/master/rfd/0001\n2,Two,https://github.com/o/rfd/tree/2/rfd/0002\n";
    let updates = repo().get_rfd_sync_updates(csv.as_bytes()).ok().expect("updates");
    assert_eq!(updates.len(), 2);
    assert_eq!(updates[0].number.0, 1);
    assert_eq!(updates[0].branch.branch, "master");
    assert_eq!(updates[1].number.0, 2);
    assert_eq!(updates[1].branch.branch, "2");
    assert_eq!(updates[1].branch.owner, "oxidecomputer");
}

#[test]
fn manifest_rows_that_do_not_read_are_skipped() {
    let csv = "link,num\nhttps://x/master/a,1\nhttps://x/b,notanumber\nhttps://x/c\nhttps://x/d,4\n";
    let updates = repo().get_rfd_sync_updates(csv.as_bytes()).ok().expect("updates");
    let got: Vec<(i32, String)> = updates.iter().map(|u| (u.number.0, u.branch.branch.clone())).collect();
    assert_eq!(got, vec![(1, "master".to_string()), (4, "4".to_string())]);
    assert!(matches!(repo().get_rfd_sync_updates(&[0xff, 0x00]), Err(RFDError::Undecodable)));
    assert_eq!(repo().get_rfd_sync_updates(b"title\nx\n").ok().expect("empty").len(), 0);
}

#[test]
fn truncate_counts_characters() {
    assert_eq!(truncate("héllo", 2), "hé");
    assert_eq!(truncate("abc", 10), "abc");
    assert_eq!(truncate("abc", 0), "");
}

#[test]
fn get_value_takes_the_first() {
    let mut m: HashMap<String, Vec<String>> = HashMap::new();
    m.insert("a".to_string(), vec!["x".to_string(), "y".to_string()]);
    m.insert("b".to_string(), vec![]);
    assert_eq!(get_value(&m, "a"), "x");
    assert_eq!(get_value(&m, "b"), "");
    assert_eq!(get_value(&m, "c"), "");
}

#[test]
fn issue_lookup_takes_the_first_match() {
    let issues = vec![
        GitHubIssue { number: 1, title: "Configure DNS".to_string() },
        GitHubIssue { number: 2, title: "Onboard alice".to_string() },
        GitHubIssue { number: 3, title: "Onboard alice again".to_string() },
    ];
    assert_eq!(check_if_github_issue_exists(&issues, "alice").map(|i| i.number), Some(2));
    assert!(check_if_github_issue_exists(&issues, "bob").is_none());
}

#[test]
fn ssh_keys_are_trimmed_non_empty_lines() {
    assert_eq!(public_ssh_keys("ssh-ed25519 AAA\r\n\n  ssh-rsa BBB  \n"), vec!["ssh-ed25519 AAA", "ssh-rsa BBB"]);
    assert!(public_ssh_keys("").is_empty());
}
