use rfd_sync::content::{
    blob_file, decode_base64, get_file_content_from_repo, locate_blob, parent_directory, rooted_path, ContentResponse,
    DirectoryItem, FetchStep, RemoteFile,
};
use rfd_sync::text::{chars_of, trim_blank_bytes};
use rfd_sync::upsert::{create_or_update_file_in_github_repo, decide_upsert, is_cosmetic_patch, WriteRequest};

fn item(name: &str, path: &str, sha: &str, is_dir: bool) -> DirectoryItem {
    DirectoryItem { name: name.to_string(), path: path.to_string(), sha: sha.to_string(), is_dir }
}

fn s(v: Vec<char>) -> String {
    v.into_iter().collect()
}

#[test]
fn trim_removes_only_tabs_and_spaces() {
    assert_eq!(trim_blank_bytes(b" \tab c\n\t "), b"ab c\n".to_vec());
    assert_eq!(trim_blank_bytes(b" \t "), Vec::<u8>::new());
    assert_eq!(trim_blank_bytes(b""), Vec::<u8>::new());
}

#[test]
fn leading_separator_is_added_once() {
    assert_eq!(s(rooted_path("a/b.txt")), "/a/b.txt");
    assert_eq!(s(rooted_path("/a/b.txt")), "/a/b.txt");
    assert_eq!(s(parent_directory(&chars_of("/a/b/c.pdf"))), "/a/b");
    assert_eq!(s(parent_directory(&chars_of("/c.pdf"))), "/");
}

#[test]
fn found_file_is_returned() {
    let step = get_file_content_from_repo("x", ContentResponse::Found { content: b"hi".to_vec(), sha: "abc".to_string() });
    match step {
        FetchStep::Done(f) => {
            assert_eq!(f.content, b"hi".to_vec());
            assert_eq!(f.sha, "abc");
        }
        _ => panic!("expected a file"),
    }
}

#[test]
fn rate_limit_waits_reset_plus_grace() {
    match get_file_content_from_repo("x", ContentResponse::RateLimited { reset_secs: 10 }) {
        FetchStep::Backoff { seconds } => assert_eq!(seconds, 15),
        _ => panic!("expected a backoff"),
    }
    match get_file_content_from_repo("x", ContentResponse::RateLimited { reset_secs: u64::MAX }) {
        FetchStep::Backoff { seconds } => assert_eq!(seconds, u64::MAX),
        _ => panic!("expected a backoff"),
    }
}

#[test]
fn other_fault_gives_missing_file() {
    match get_file_content_from_repo("x", ContentResponse::Fault { message: "Not Found".to_string() }) {
        FetchStep::Done(f) => {
            assert!(f.content.is_empty());
            assert!(f.sha.is_empty());
        }
        _ => panic!("expected the missing file"),
    }
}

#[test]
fn large_file_reads_the_blob_of_its_listing_entry() {
    let step = get_file_content_from_repo(
        "pdfs/big.pdf",
        ContentResponse::Fault { message: "This API returns blobs up to 1 MB in size. The requested blob is too large to fetch via this API".to_string() },
    );
    let dir = match step {
        FetchStep::ListParent { dir } => dir,
        _ => panic!("expected a directory listing"),
    };
    assert_eq!(dir, "/pdfs");
    let items = vec![
        item("small.pdf", "pdfs/small.pdf", "s1", false),
        item("big.pdf", "pdfs/big.pdf", "s2", false),
    ];
    let sha = locate_blob("pdfs/big.pdf", &items).expect("entry");
    assert_eq!(sha, "s2");
    let encoded = base64::encode(b"  %PDF body\t");
    let (a, b) = encoded.split_at(4);
    let blob = format!("{}\n{}\n", a, b);
    let f = blob_file(&sha, &blob);
    assert_eq!(f.content, b"%PDF body".to_vec());
    assert_eq!(f.sha, "s2");
    assert_eq!(locate_blob("/pdfs/other.pdf", &items), None);
}

#[test]
fn undecodable_blob_gives_missing_file() {
    let f = blob_file(&"s".to_string(), "***");
    assert!(f.content.is_empty() && f.sha.is_empty());
    assert_eq!(decode_base64("aGk=\n"), Some(b"hi".to_vec()));
}

#[test]
fn missing_file_is_created() {
    let r = create_or_update_file_in_github_repo("pdfs/a.pdf", &RemoteFile::missing(), b" new ");
    match r {
        WriteRequest::Create { path, content, message } => {
            assert_eq!(path, "/pdfs/a.pdf");
            assert_eq!(content, b"new".to_vec());
            assert_eq!(
                message,
                "Creating file content /pdfs/a.pdf programatically\n\nThis is done by the document synchronisation's create-or-update of a file."
            );
        }
        _ => panic!("expected a create"),
    }
}

#[test]
fn changed_file_is_updated_with_its_revision() {
    let existing = RemoteFile { content: b"old".to_vec(), sha: "r1".to_string() };
    match create_or_update_file_in_github_repo("/a.txt", &existing, b"new") {
        WriteRequest::Update { path, content, message, sha } => {
            assert_eq!(path, "/a.txt");
            assert_eq!(content, b"new".to_vec());
            assert_eq!(sha, "r1");
            assert!(message.starts_with("Updating file content /a.txt programatically"));
        }
        _ => panic!("expected an update"),
    }
}

#[test]
fn equal_content_is_not_written() {
    let existing = RemoteFile { content: b"same\n".to_vec(), sha: "r1".to_string() };
    assert!(matches!(create_or_update_file_in_github_repo("/a.txt", &existing, b"\tsame\n "), WriteRequest::Unchanged));
}

#[test]
fn upserting_twice_writes_once() {
    let mut remote = RemoteFile::missing();
    let mut writes = 0;
    for _ in 0..2 {
        match create_or_update_file_in_github_repo("/doc.txt", &remote, b"  body  ") {
            WriteRequest::Create { content, .. } | WriteRequest::Update { content, .. } => {
                writes += 1;
                remote = RemoteFile { content, sha: format!("sha{}", writes) };
            }
            WriteRequest::Unchanged => {}
        }
    }
    assert_eq!(writes, 1);
}

fn pdf(mod_date: &str, creation_date: &str) -> Vec<u8> {
    let mut lines: Vec<String> = (1..=7).map(|i| format!("line {}", i)).collect();
    lines.push(format!("/ModDate ({})", mod_date));
    lines.push(format!("/CreationDate ({})", creation_date));
    lines.extend((10..=16).map(|i| format!("line {}", i)));
    let mut text = lines.join("\n");
    text.push('\n');
    text.into_bytes()
}

#[test]
fn timestamp_churn_is_not_written() {
    let existing = RemoteFile { content: pdf("D:20200101", "D:20200101"), sha: "r1".to_string() };
    let r = create_or_update_file_in_github_repo("/pdfs/x.pdf", &existing, &pdf("D:20210101", "D:20210101"));
    assert!(matches!(r, WriteRequest::Unchanged));
}

#[test]
fn cosmetic_patch_needs_every_marker() {
    let full = b"@@ -5,8 +5,8 @@\n-/ModDate (a)\n-/CreationDate (a)\n+/ModDate (b)\n+/CreationDate (b)\n";
    assert!(is_cosmetic_patch(full));
    assert!(!is_cosmetic_patch(b"@@ -6,8 +6,8 @@\n-/ModDate (a)\n-/CreationDate (a)\n+/ModDate (b)\n"));
    assert!(!is_cosmetic_patch(b"@@ -5,8 +5,8 @@\n-/ModDate (a)\n+/ModDate (b)\n"));
    assert!(!is_cosmetic_patch(&[0xff, 0xfe]));
    let two_hunks = b"--- original\n+++ modified\n@@ -5,8 +5,8 @@\n-/ModDate (a)\n-/CreationDate (a)\n+/ModDate (b)\n@@ -20,3 +20,4 @@\n+more\n";
    assert!(!is_cosmetic_patch(two_hunks));
    let existing = RemoteFile { content: b"x".to_vec(), sha: "r".to_string() };
    assert!(matches!(decide_upsert("/p", &existing, b"y", full), WriteRequest::Unchanged));
    assert!(matches!(decide_upsert("/p", &existing, b"y", b"@@ -1 +1 @@\n-x\n+y\n"), WriteRequest::Update { .. }));
}

#[test]
fn content_change_beyond_timestamps_is_written() {
    let existing = RemoteFile { content: pdf("D:2020", "D:2020"), sha: "r1".to_string() };
    let mut new = pdf("D:2021", "D:2021");
    new.extend_from_slice(b"extra page\n");
    assert!(matches!(
        create_or_update_file_in_github_repo("/pdfs/x.pdf", &existing, &new),
        WriteRequest::Update { .. }
    ));
}
