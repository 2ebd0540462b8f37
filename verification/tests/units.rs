use agent_installer::errors::InstallError;
use agent_installer::hashing::content_version_ref;
use agent_installer::manager::{
    plan_install, repo_name_from_url, AgentManager, InstallAgentPayload, InstallRequest,
};
use agent_installer::manifest::{manifest_path, validate_manifest};
use agent_installer::paths::{is_valid_segment, split_slash};
use agent_installer::tree::FileTree;

#[test]
fn content_hash_matches_known_vector() {
    // SHA-256("abc"), lowercase hex
    assert_eq!(
        content_version_ref(b"abc"),
        "ba7816bf8f01cfea414140de5dae2223b00361a396177a9cb410ff61f20015ad"
    );
    assert_eq!(
        content_version_ref(b""),
        "e3b0c44298fc1c149afbf4c8996fb92427ae41e4649b934ca495991b7852b855"
    );
}

#[test]
fn split_slash_splits_on_every_separator() {
    let cases: &[(&str, &[&str])] = &[
        ("a/b/c", &["a", "b", "c"]),
        ("", &[""]),
        ("/a", &["", "a"]),
        ("a/", &["a", ""]),
        ("a//b", &["a", "", "b"]),
        ("plain", &["plain"]),
    ];
    for (input, want) in cases {
        let got = split_slash(input);
        let want: Vec<String> = want.iter().map(|s| s.to_string()).collect();
        assert_eq!(got, want, "splitting {input:?}");
    }
}

#[test]
fn segment_validity() {
    for good in ["a", "agent.json", "x-y_z", "ü", "a b"] {
        assert!(is_valid_segment(good), "{good:?} should be valid");
    }
    for bad in ["", ".", "..", "a/b", "a\\b", "a\0b"] {
        assert!(!is_valid_segment(bad), "{bad:?} should be invalid");
    }
}

#[test]
fn repo_names_derived_from_urls() {
    let cases = [
        ("https://example.com/owner/repo.git", "repo"),
        ("https://example.com/owner/repo", "repo"),
        ("git@host:something/tool.git", "tool"),
        ("https://example.com/owner/", "repo"),
        (".git", "repo"),
        ("archive.gitx", "archive.gitx"),
        ("repo.git.git", "repo.git"),
    ];
    for (url, want) in cases {
        assert_eq!(repo_name_from_url(url), want, "url {url:?}");
    }
}

#[test]
fn manager_paths() {
    let m = AgentManager::new("/base".to_string(), "/opt/uv".to_string());
    assert_eq!(m.agents_dir(), "/base/agents");
    assert_eq!(m.tmp_dir(), "/base/tmp");
    assert_eq!(m.version_dir("demo", "abc123"), "/base/agents/demo/abc123");
    assert_eq!(m.current_link("demo"), "/base/agents/demo/current");
    assert_eq!(m.extract_dir("abc123"), "/base/tmp/abc123_extracted");
    assert_eq!(m.clone_dir("repo"), "/base/tmp/git/repo");
    assert_eq!(m.uv_path, "/opt/uv");
}

fn payload(
    source_type: &str,
    path: Option<&str>,
    url: Option<&str>,
) -> InstallAgentPayload {
    InstallAgentPayload {
        source_type: source_type.to_string(),
        path: path.map(|s| s.to_string()),
        url: url.map(|s| s.to_string()),
        revision: Some("v1.2.0".to_string()),
        sub_path: None,
    }
}

#[test]
fn plan_local_install() {
    match plan_install(payload("local", Some("/tmp/a.zip"), None)).unwrap() {
        InstallRequest::LocalArchive { path } => assert_eq!(path, "/tmp/a.zip"),
        _ => panic!("expected a local archive request"),
    }
}

#[test]
fn plan_local_install_without_path_fails() {
    let err = plan_install(payload("local", None, None)).unwrap_err();
    assert_eq!(err, InstallError::MissingField("path".to_string()));
    assert_eq!(err.message(), "Missing required field: path");
}

#[test]
fn plan_git_install() {
    match plan_install(payload("git", None, Some("https://example/repo.git"))).unwrap() {
        InstallRequest::GitRepository { url, revision, sub_path } => {
            assert_eq!(url, "https://example/repo.git");
            assert_eq!(revision.as_deref(), Some("v1.2.0"));
            assert_eq!(sub_path, None);
        }
        _ => panic!("expected a git request"),
    }
}

#[test]
fn plan_git_install_without_url_fails() {
    let err = plan_install(payload("git", None, None)).unwrap_err();
    assert_eq!(err, InstallError::MissingField("url".to_string()));
}

#[test]
fn plan_unknown_source_type_fails() {
    let err = plan_install(payload("ftp", None, None)).unwrap_err();
    assert_eq!(err, InstallError::UnsupportedSource("ftp".to_string()));
    assert_eq!(err.message(), "Unsupported source type: ftp");
}

#[test]
fn validate_manifest_reads_declared_id() {
    let mut t = FileTree::new();
    t.insert(
        manifest_path(),
        br#"{"id":"my-agent","extra":[1,2]}"#.to_vec(),
    );
    assert_eq!(validate_manifest(&t).unwrap(), "my-agent");
}

#[test]
fn validate_manifest_fails_on_empty_tree() {
    let t = FileTree::new();
    assert_eq!(validate_manifest(&t).unwrap_err(), InstallError::ManifestMissing);
}

#[test]
fn error_messages_render_their_context() {
    assert_eq!(
        InstallError::CorruptArchive.message(),
        "Archive is corrupt or cannot be decoded"
    );
    assert_eq!(
        InstallError::UnsafeArchivePath("../x".to_string()).message(),
        "Archive entry path escapes the destination: ../x"
    );
    assert_eq!(
        InstallError::ManifestMissing.message(),
        "No manifest file found in the agent bundle"
    );
    assert_eq!(
        InstallError::ManifestInvalid.message(),
        "Manifest does not declare a valid agent id"
    );
    assert_eq!(InstallError::Io("disk".to_string()).message(), "I/O failure: disk");
    assert_eq!(
        InstallError::CloneFailed("auth".to_string()).message(),
        "Failed to clone repository: auth"
    );
    assert_eq!(
        InstallError::Provisioning("no uv".to_string()).message(),
        "Failed to provision environment: no uv"
    );
    assert_eq!(
        InstallError::Activation("denied".to_string()).message(),
        "Failed to activate 'current' pointer: denied"
    );
}
