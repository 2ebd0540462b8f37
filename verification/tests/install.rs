use agent_installer::errors::InstallError;
use agent_installer::hashing::content_version_ref;
use agent_installer::manager::AgentManager;
use agent_installer::manifest::manifest_path;
use agent_installer::store::AgentStore;
use agent_installer::tree::FileTree;

fn make_zip(entries: &[(&str, &[u8])]) -> Vec<u8> {
    let mut w = zip::ZipWriter::new(std::io::Cursor::new(Vec::new()));
    let opts = zip::write::SimpleFileOptions::default()
        .compression_method(zip::CompressionMethod::Stored);
    for (name, data) in entries {
        w.start_file(*name, opts).unwrap();
        std::io::Write::write_all(&mut w, data).unwrap();
    }
    w.finish().unwrap().into_inner()
}

fn seg_path(segs: &[&str]) -> Vec<String> {
    segs.iter().map(|s| s.to_string()).collect()
}

fn demo_manifest() -> &'static [u8] {
    br#"{"id":"demo-agent","name":"Demo"}"#
}

fn mgr() -> AgentManager {
    AgentManager::new("/data".to_string(), "/usr/bin/uv".to_string())
}

#[test]
fn local_install_scenario() {
    let bytes = make_zip(&[
        ("agent.json", demo_manifest()),
        ("main.py", b"print('hi')"),
    ]);
    let hash = content_version_ref(&bytes);
    assert_eq!(hash.len(), 64);

    let m = mgr();
    let mut store = AgentStore::new();
    let id = m.install_from_zip(&mut store, &bytes).unwrap();
    assert_eq!(id, "demo-agent");

    let current = store.current_version(&id).unwrap();
    assert_eq!(current, &hash);

    let dir = m.version_dir(&id, current);
    assert_eq!(dir, format!("/data/agents/demo-agent/{hash}"));
    assert_eq!(m.current_link(&id), "/data/agents/demo-agent/current");

    let tree = store.current_tree(&id).unwrap();
    let manifest = tree.get(&manifest_path()).unwrap();
    assert_eq!(manifest.as_slice(), demo_manifest());
    let main_py = tree.get(&seg_path(&["main.py"])).unwrap();
    assert_eq!(main_py.as_slice(), b"print('hi')");
}

#[test]
fn zip_version_ref_is_deterministic() {
    let bytes = make_zip(&[("agent.json", demo_manifest())]);
    let m = mgr();

    let mut s1 = AgentStore::new();
    let id1 = m.install_from_zip(&mut s1, &bytes).unwrap();
    let v1 = s1.current_version(&id1).unwrap().clone();

    let mut s2 = AgentStore::new();
    // a different starting store: something else already installed
    let other = make_zip(&[("agent.json", br#"{"id":"other-agent"}"#)]);
    m.install_from_zip(&mut s2, &other).unwrap();
    let id2 = m.install_from_zip(&mut s2, &bytes).unwrap();
    let v2 = s2.current_version(&id2).unwrap().clone();

    assert_eq!(id1, id2);
    assert_eq!(v1, v2);
    assert_eq!(v1, content_version_ref(&bytes));
}

#[test]
fn reinstall_is_idempotent() {
    let bytes = make_zip(&[
        ("agent.json", demo_manifest()),
        ("lib/util.py", b"x = 1"),
    ]);
    let m = mgr();

    let mut fresh = AgentStore::new();
    let id = m.install_from_zip(&mut fresh, &bytes).unwrap();

    let mut twice = AgentStore::new();
    m.install_from_zip(&mut twice, &bytes).unwrap();
    m.install_from_zip(&mut twice, &bytes).unwrap();

    // no duplication: one version, one pointer, same content as one install
    assert_eq!(twice.versions.len(), 1);
    assert_eq!(twice.currents.len(), 1);
    assert_eq!(
        twice.current_version(&id).unwrap(),
        fresh.current_version(&id).unwrap()
    );
    let t1 = fresh.current_tree(&id).unwrap();
    let t2 = twice.current_tree(&id).unwrap();
    assert_eq!(t1.entries.len(), t2.entries.len());
    assert_eq!(
        t1.get(&seg_path(&["lib", "util.py"])).unwrap(),
        t2.get(&seg_path(&["lib", "util.py"])).unwrap()
    );
}

#[test]
fn unsafe_archive_entry_is_rejected() {
    let bytes = make_zip(&[
        ("agent.json", demo_manifest()),
        ("../evil.txt", b"pwned"),
    ]);
    let m = mgr();
    let mut store = AgentStore::new();
    let err = m.install_from_zip(&mut store, &bytes).unwrap_err();
    assert_eq!(err, InstallError::UnsafeArchivePath("../evil.txt".to_string()));
    // nothing was written anywhere
    assert_eq!(store.versions.len(), 0);
    assert_eq!(store.currents.len(), 0);
}

#[test]
fn nested_traversal_entry_is_rejected() {
    let bytes = make_zip(&[("a/../b.txt", b"x")]);
    let m = mgr();
    let mut store = AgentStore::new();
    let err = m.install_from_zip(&mut store, &bytes).unwrap_err();
    assert!(matches!(err, InstallError::UnsafeArchivePath(_)));
    assert_eq!(store.versions.len(), 0);
}

#[test]
fn absolute_entry_is_rejected() {
    let bytes = make_zip(&[("/etc/passwd", b"x")]);
    let m = mgr();
    let mut store = AgentStore::new();
    let err = m.install_from_zip(&mut store, &bytes).unwrap_err();
    assert!(matches!(err, InstallError::UnsafeArchivePath(_)));
}

#[test]
fn corrupt_archive_is_rejected() {
    let bytes = b"this is not a zip archive at all".to_vec();
    let m = mgr();
    let mut store = AgentStore::new();
    let err = m.install_from_zip(&mut store, &bytes).unwrap_err();
    assert_eq!(err, InstallError::CorruptArchive);
    assert_eq!(store.versions.len(), 0);
}

#[test]
fn archive_without_manifest_is_rejected() {
    let bytes = make_zip(&[("main.py", b"print('hi')")]);
    let m = mgr();
    let mut store = AgentStore::new();
    let err = m.install_from_zip(&mut store, &bytes).unwrap_err();
    assert_eq!(err, InstallError::ManifestMissing);
    assert_eq!(store.versions.len(), 0);
}

#[test]
fn manifest_without_id_is_rejected() {
    let bytes = make_zip(&[("agent.json", br#"{"name":"nameless"}"#)]);
    let m = mgr();
    let mut store = AgentStore::new();
    assert_eq!(
        m.install_from_zip(&mut store, &bytes).unwrap_err(),
        InstallError::ManifestInvalid
    );
}

#[test]
fn manifest_with_non_string_id_is_rejected() {
    let bytes = make_zip(&[("agent.json", br#"{"id":7}"#)]);
    let m = mgr();
    let mut store = AgentStore::new();
    assert_eq!(
        m.install_from_zip(&mut store, &bytes).unwrap_err(),
        InstallError::ManifestInvalid
    );
}

#[test]
fn manifest_with_unsafe_id_is_rejected() {
    for id in ["", ".", "..", "a/b", "a\\b"] {
        let doc = format!(r#"{{"id":"{}"}}"#, id.replace('\\', "\\\\"));
        let bytes = make_zip(&[("agent.json", doc.as_bytes())]);
        let m = mgr();
        let mut store = AgentStore::new();
        assert_eq!(
            m.install_from_zip(&mut store, &bytes).unwrap_err(),
            InstallError::ManifestInvalid,
            "id {id:?} must be rejected"
        );
    }
}

#[test]
fn manifest_that_is_not_json_is_rejected() {
    let bytes = make_zip(&[("agent.json", b"not json")]);
    let m = mgr();
    let mut store = AgentStore::new();
    assert_eq!(
        m.install_from_zip(&mut store, &bytes).unwrap_err(),
        InstallError::ManifestInvalid
    );
}

#[test]
fn directory_entries_are_skipped() {
    let bytes = make_zip(&[
        ("pkg/", b""),
        ("agent.json", demo_manifest()),
        ("pkg/mod.py", b"pass"),
    ]);
    let m = mgr();
    let mut store = AgentStore::new();
    let id = m.install_from_zip(&mut store, &bytes).unwrap();
    let tree = store.current_tree(&id).unwrap();
    assert_eq!(tree.entries.len(), 2);
    assert!(tree.get(&seg_path(&["pkg", "mod.py"])).is_some());
}

#[test]
fn later_insert_overwrites_earlier_file() {
    let mut t = FileTree::new();
    t.insert(seg_path(&["data.txt"]), b"first".to_vec());
    t.insert(seg_path(&["data.txt"]), b"second".to_vec());
    assert_eq!(t.entries.len(), 1);
    assert_eq!(t.get(&seg_path(&["data.txt"])).unwrap().as_slice(), b"second");
}

#[test]
fn empty_archive_lacks_manifest() {
    let bytes = make_zip(&[]);
    let m = mgr();
    let mut store = AgentStore::new();
    assert_eq!(
        m.install_from_zip(&mut store, &bytes).unwrap_err(),
        InstallError::ManifestMissing
    );
}

fn demo_checkout() -> FileTree {
    let mut t = FileTree::new();
    t.insert(seg_path(&["agent.json"]), br#"{"id":"git-agent"}"#.to_vec());
    t.insert(seg_path(&["src", "main.py"]), b"print('git')".to_vec());
    t.insert(seg_path(&[".git", "config"]), b"[core]".to_vec());
    t
}

#[test]
fn git_install_with_revision_scenario() {
    let m = mgr();
    let mut store = AgentStore::new();
    let commit = "deadbeef".to_string();
    let checkout = demo_checkout();
    let id = m
        .install_from_git(&mut store, &checkout, &commit, None)
        .unwrap();
    assert_eq!(id, "git-agent");
    assert!(store.has_version(&id, &commit));
    assert_eq!(store.current_version(&id).unwrap(), &commit);
    assert_eq!(
        m.version_dir(&id, &commit),
        "/data/agents/git-agent/deadbeef"
    );
}

#[test]
fn git_metadata_is_not_copied() {
    let m = mgr();
    let mut store = AgentStore::new();
    let commit = "deadbeef".to_string();
    let id = m
        .install_from_git(&mut store, &demo_checkout(), &commit, None)
        .unwrap();
    let tree = store.current_tree(&id).unwrap();
    assert!(tree.get(&seg_path(&[".git", "config"])).is_none());
    assert!(tree.get(&seg_path(&["src", "main.py"])).is_some());
    assert_eq!(tree.entries.len(), 2);
}

#[test]
fn plain_file_named_git_is_copied() {
    // a worktree or submodule checkout has a regular file ".git" at its
    // root ("gitdir: ..."); only .git directories are acquisition metadata
    let mut checkout = FileTree::new();
    checkout.insert(seg_path(&["agent.json"]), br#"{"id":"worktree-agent"}"#.to_vec());
    checkout.insert(seg_path(&[".git"]), b"gitdir: /elsewhere/.git/worktrees/x".to_vec());
    checkout.insert(seg_path(&["sub", ".git"]), b"gitdir: nested".to_vec());
    checkout.insert(seg_path(&["a", ".git", "b.txt"]), b"metadata".to_vec());

    let m = mgr();
    let mut store = AgentStore::new();
    let commit = "0feedbee".to_string();
    let id = m.install_from_git(&mut store, &checkout, &commit, None).unwrap();

    let tree = store.current_tree(&id).unwrap();
    assert_eq!(
        tree.get(&seg_path(&[".git"])).unwrap().as_slice(),
        b"gitdir: /elsewhere/.git/worktrees/x"
    );
    assert!(tree.get(&seg_path(&["sub", ".git"])).is_some());
    assert!(tree.get(&seg_path(&["a", ".git", "b.txt"])).is_none());
    assert_eq!(tree.entries.len(), 3);
}

#[test]
fn archive_entry_named_git_is_copied() {
    let bytes = make_zip(&[
        ("agent.json", demo_manifest()),
        (".git", b"gitdir: elsewhere"),
    ]);
    let m = mgr();
    let mut store = AgentStore::new();
    let id = m.install_from_zip(&mut store, &bytes).unwrap();
    let tree = store.current_tree(&id).unwrap();
    assert_eq!(
        tree.get(&seg_path(&[".git"])).unwrap().as_slice(),
        b"gitdir: elsewhere"
    );
}

#[test]
fn missing_sub_path_fails_without_store_mutation() {
    let m = mgr();
    let mut store = AgentStore::new();
    let commit = "cafebabe".to_string();
    let err = m
        .install_from_git(
            &mut store,
            &demo_checkout(),
            &commit,
            Some(&"agents/foo".to_string()),
        )
        .unwrap_err();
    assert_eq!(err, InstallError::SubpathNotFound("agents/foo".to_string()));
    assert_eq!(
        err.message(),
        "Subpath 'agents/foo' not found in repository"
    );
    assert_eq!(store.versions.len(), 0);
    assert_eq!(store.currents.len(), 0);
}

#[test]
fn sub_path_install_uses_nested_manifest() {
    let mut checkout = FileTree::new();
    checkout.insert(seg_path(&["agents", "foo", "agent.json"]), br#"{"id":"foo-agent"}"#.to_vec());
    checkout.insert(seg_path(&["agents", "foo", "run.py"]), b"run".to_vec());
    checkout.insert(seg_path(&["README.md"]), b"top".to_vec());

    let m = mgr();
    let mut store = AgentStore::new();
    let commit = "feedface".to_string();
    let id = m
        .install_from_git(&mut store, &checkout, &commit, Some(&"agents/foo".to_string()))
        .unwrap();
    assert_eq!(id, "foo-agent");
    let tree = store.current_tree(&id).unwrap();
    assert!(tree.get(&seg_path(&["run.py"])).is_some());
    assert!(tree.get(&seg_path(&["README.md"])).is_none());
}

#[test]
fn prepare_leaves_current_untouched_until_activation() {
    let bytes = make_zip(&[("agent.json", demo_manifest())]);
    let m = mgr();
    let mut store = AgentStore::new();
    let pending = m.prepare_from_zip(&mut store, &bytes).unwrap();
    assert_eq!(pending.agent_id, "demo-agent");
    assert_eq!(pending.version_ref, content_version_ref(&bytes));

    // placed but not active: provisioning runs in between
    assert!(store.has_version(&pending.agent_id, &pending.version_ref));
    assert!(store.current_version(&pending.agent_id).is_none());

    m.activate_installed(&mut store, &pending.agent_id, &pending.version_ref)
        .unwrap();
    assert_eq!(
        store.current_version(&pending.agent_id).unwrap(),
        &pending.version_ref
    );
}

#[test]
fn prepare_from_git_then_activate() {
    let m = mgr();
    let mut store = AgentStore::new();
    let commit = "0123abcd".to_string();
    let pending = m
        .prepare_from_git(&mut store, &demo_checkout(), &commit, None)
        .unwrap();
    assert_eq!(pending.agent_id, "git-agent");
    assert!(store.current_version(&pending.agent_id).is_none());
    m.activate_installed(&mut store, &pending.agent_id, &pending.version_ref)
        .unwrap();
    assert_eq!(store.current_version(&pending.agent_id).unwrap(), &commit);
}

#[test]
fn activating_a_missing_version_fails() {
    let m = mgr();
    let mut store = AgentStore::new();
    let err = m
        .activate_installed(
            &mut store,
            &"ghost".to_string(),
            &"0000".to_string(),
        )
        .unwrap_err();
    assert!(matches!(err, InstallError::Activation(_)));
    assert_eq!(store.currents.len(), 0);
}

#[test]
fn reinstall_replaces_stale_version_content() {
    // same identity and reference slot rebuilt from scratch on reinstall
    let m = mgr();
    let mut store = AgentStore::new();
    let commit = "deadbeef".to_string();

    let mut first = FileTree::new();
    first.insert(seg_path(&["agent.json"]), br#"{"id":"git-agent"}"#.to_vec());
    first.insert(seg_path(&["stale.txt"]), b"old".to_vec());
    m.install_from_git(&mut store, &first, &commit, None).unwrap();

    let mut second = FileTree::new();
    second.insert(seg_path(&["agent.json"]), br#"{"id":"git-agent"}"#.to_vec());
    second.insert(seg_path(&["fresh.txt"]), b"new".to_vec());
    let id = m.install_from_git(&mut store, &second, &commit, None).unwrap();

    let tree = store.current_tree(&id).unwrap();
    assert!(tree.get(&seg_path(&["stale.txt"])).is_none());
    assert!(tree.get(&seg_path(&["fresh.txt"])).is_some());
    assert_eq!(store.versions.len(), 1);
}

#[test]
fn different_manifests_map_to_different_version_dirs() {
    let a = make_zip(&[("agent.json", br#"{"id":"agent-a"}"#)]);
    let b = make_zip(&[("agent.json", br#"{"id":"agent-b"}"#)]);
    let m = mgr();
    let mut store = AgentStore::new();
    let id_a = m.install_from_zip(&mut store, &a).unwrap();
    let id_b = m.install_from_zip(&mut store, &b).unwrap();
    let dir_a = m.version_dir(&id_a, store.current_version(&id_a).unwrap());
    let dir_b = m.version_dir(&id_b, store.current_version(&id_b).unwrap());
    assert_ne!(dir_a, dir_b);
    assert_eq!(store.versions.len(), 2);
}

#[test]
fn current_always_resolves_to_a_manifest_carrying_tree() {
    // install, reinstall, and install a second agent; after every step each
    // current pointer resolves to a tree holding the manifest file
    let m = mgr();
    let mut store = AgentStore::new();
    let a = make_zip(&[("agent.json", br#"{"id":"agent-a"}"#), ("x.txt", b"1")]);
    let b = make_zip(&[("agent.json", br#"{"id":"agent-b"}"#)]);

    let mut check = |store: &AgentStore, id: &String| {
        let tree = store.current_tree(id).expect("current must resolve");
        assert!(tree.get(&manifest_path()).is_some());
    };

    let id_a = m.install_from_zip(&mut store, &a).unwrap();
    check(&store, &id_a);
    m.install_from_zip(&mut store, &a).unwrap();
    check(&store, &id_a);
    let id_b = m.install_from_zip(&mut store, &b).unwrap();
    check(&store, &id_a);
    check(&store, &id_b);
}
