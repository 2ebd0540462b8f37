//! The installer orchestrator: sequences content-identifier derivation,
//! source acquisition, manifest validation, version placement and pointer
//! activation, and returns the resulting agent identity.
//!
//! Acquisition I/O stays outside: an archive arrives as its bytes, a git
//! source arrives as the checked-out tree together with the resolved commit
//! hash. Everything from staging to activation is modeled on
//! [`AgentStore`]; a runner mirrors each step onto the real filesystem.

use vstd::prelude::*;
use vstd::string::StringExecFns;
use vstd::string::StrSliceExecFns;

use crate::archive::{extract_archive, spec_archive_tree, zip_central_names};
use crate::errors::InstallError;
use crate::hashing::{content_version_ref, spec_version_ref};
use crate::manifest::{spec_manifest_id, spec_manifest_path, validate_manifest};
use crate::paths::{spec_split_slash, split_slash, str_eq, valid_segment, SpecPath};
use crate::store::{AgentStore, StoreView};
use crate::tree::{spec_subtree, spec_without_segment, FileTree};

verus! {

/// An install request as the caller hands it over: a source type and the
/// fields that type needs.
#[derive(Debug)]
pub struct InstallAgentPayload {
    /// "local" or "git".
    pub source_type: String,
    /// For local sources: the path of the archive file.
    pub path: Option<String>,
    /// For git sources: the repository URL.
    pub url: Option<String>,
    /// For git sources: the branch, tag or commit to check out.
    pub revision: Option<String>,
    /// For git sources: the directory inside the repository to install.
    pub sub_path: Option<String>,
}

/// A validated install request.
#[derive(Debug)]
pub enum InstallRequest {
    /// Install from a local archive file.
    LocalArchive { path: String },
    /// Install from a git repository.
    GitRepository { url: String, revision: Option<String>, sub_path: Option<String> },
}

/// Decide what an install request asks for. A "local" request needs a path,
/// a "git" request needs a URL, and any other source type is rejected.
pub fn plan_install(payload: InstallAgentPayload) -> (r: Result<InstallRequest, InstallError>)
    ensures
        payload.source_type@ == "local"@ ==> match payload.path {
            Some(p) => r matches Ok(InstallRequest::LocalArchive { path }) && path == p,
            None => r matches Err(e) && e matches InstallError::MissingField(f) && f@ == "path"@,
        },
        payload.source_type@ != "local"@ && payload.source_type@ == "git"@ ==> match payload.url {
            Some(u) => r matches Ok(InstallRequest::GitRepository { url, revision, sub_path })
                && url == u && revision == payload.revision && sub_path == payload.sub_path,
            None => r matches Err(e) && e matches InstallError::MissingField(f) && f@ == "url"@,
        },
        payload.source_type@ != "local"@ && payload.source_type@ != "git"@ ==> (r matches Err(e)
            && e matches InstallError::UnsupportedSource(t) && t == payload.source_type),
{
    if str_eq(payload.source_type.as_str(), "local") {
        match payload.path {
            Some(p) => Ok(InstallRequest::LocalArchive { path: p }),
            None => Err(InstallError::MissingField(String::from_str("path"))),
        }
    } else if str_eq(payload.source_type.as_str(), "git") {
        match payload.url {
            Some(u) => Ok(
                InstallRequest::GitRepository {
                    url: u,
                    revision: payload.revision,
                    sub_path: payload.sub_path,
                },
            ),
            None => Err(InstallError::MissingField(String::from_str("url"))),
        }
    } else {
        Err(InstallError::UnsupportedSource(payload.source_type))
    }
}

/// A placed but not yet activated install: what provisioning runs on before
/// the `current` pointer may move.
pub struct PendingInstall {
    pub agent_id: String,
    pub version_ref: String,
}

/// The store after a version is placed under `(id, vref)` and the agent's
/// `current` pointer is swapped onto it.
pub open spec fn spec_place_and_activate(
    s: StoreView,
    id: Seq<char>,
    vref: Seq<char>,
    payload: Map<SpecPath, Seq<u8>>,
) -> StoreView {
    StoreView {
        versions: s.versions.insert((id, vref), payload),
        currents: s.currents.insert(id, vref),
    }
}

/// The store after a version is placed under `(id, vref)` with the pointers
/// untouched.
pub open spec fn spec_place_only(
    s: StoreView,
    id: Seq<char>,
    vref: Seq<char>,
    payload: Map<SpecPath, Seq<u8>>,
) -> StoreView {
    StoreView { versions: s.versions.insert((id, vref), payload), currents: s.currents }
}

/// The payload actually copied into a version directory: the staged source
/// without version-control metadata directories.
pub open spec fn spec_payload(source: Map<SpecPath, Seq<u8>>) -> Map<SpecPath, Seq<u8>> {
    spec_without_segment(source, ".git"@)
}

/// The agent package installer, bound to an application-owned base directory
/// and the provisioning toolchain location.
pub struct AgentManager {
    pub base_dir: String,
    pub uv_path: String,
}

impl AgentManager {
    /// A manager over the given base directory, provisioning environments
    /// with the toolchain at `uv_path`.
    pub fn new(app_data_dir: String, uv_path: String) -> (r: AgentManager)
        ensures
            r.base_dir == app_data_dir,
            r.uv_path == uv_path,
    {
        AgentManager { base_dir: app_data_dir, uv_path }
    }

    /// The directory holding every agent's versions and pointers.
    pub fn agents_dir(&self) -> (r: String)
        ensures
            r@ == self.base_dir@ + "/agents"@,
    {
        self.base_dir.clone().concat("/agents")
    }

    /// The staging area for extraction and clones.
    pub fn tmp_dir(&self) -> (r: String)
        ensures
            r@ == self.base_dir@ + "/tmp"@,
    {
        self.base_dir.clone().concat("/tmp")
    }

    /// The directory of one installed version.
    pub fn version_dir(&self, agent_id: &str, version_ref: &str) -> (r: String)
        ensures
            r@ == self.base_dir@ + "/agents/"@ + agent_id@ + "/"@ + version_ref@,
    {
        self.base_dir.clone().concat("/agents/").concat(agent_id).concat("/").concat(version_ref)
    }

    /// The `current` pointer location of one agent identity.
    pub fn current_link(&self, agent_id: &str) -> (r: String)
        ensures
            r@ == self.base_dir@ + "/agents/"@ + agent_id@ + "/current"@,
    {
        self.base_dir.clone().concat("/agents/").concat(agent_id).concat("/current")
    }

    /// The staging directory an archive with the given content hash is
    /// extracted into.
    pub fn extract_dir(&self, content_hash: &str) -> (r: String)
        ensures
            r@ == self.base_dir@ + "/tmp/"@ + content_hash@ + "_extracted"@,
    {
        self.base_dir.clone().concat("/tmp/").concat(content_hash).concat("_extracted")
    }

    /// The staging directory a repository with the given derived name is
    /// cloned into.
    pub fn clone_dir(&self, repo_name: &str) -> (r: String)
        ensures
            r@ == self.base_dir@ + "/tmp/git/"@ + repo_name@,
    {
        self.base_dir.clone().concat("/tmp/git/").concat(repo_name)
    }

    /// Validate the staged source and place its payload under
    /// `(declared id, version_ref)`, without touching any `current` pointer.
    /// An existing version under the same key is rebuilt from scratch.
    pub fn place_from_directory(
        &self,
        store: &mut AgentStore,
        source: &FileTree,
        version_ref: &String,
    ) -> (r: Result<PendingInstall, InstallError>)
        requires
            old(store).wf(),
            source.wf(),
            valid_segment(version_ref@),
        ensures
            final(store).wf(),
            match r {
                Ok(p) => {
                    &&& spec_manifest_id(source@) == Some(p.agent_id@)
                    &&& p.version_ref == version_ref
                    &&& final(store)@ == spec_place_only(
                        old(store)@,
                        p.agent_id@,
                        version_ref@,
                        spec_payload(source@),
                    )
                    &&& spec_payload(source@).dom().contains(spec_manifest_path())
                },
                Err(e) => {
                    &&& spec_manifest_id(source@) is None
                    &&& final(store)@ == old(store)@
                    &&& (e == InstallError::ManifestMissing || e == InstallError::ManifestInvalid)
                    &&& ((e == InstallError::ManifestMissing) <==> !source@.dom().contains(
                        spec_manifest_path(),
                    ))
                },
            },
    {
        let agent_id = match validate_manifest(source) {
            Ok(id) => id,
            Err(e) => {
                return Err(e);
            },
        };
        let payload = source.without_segment(".git");
        proof {
            assert(!crate::paths::path_contains_dir_segment(spec_manifest_path(), ".git"@));
            assert(payload@.dom().contains(spec_manifest_path()));
            assert(payload@[spec_manifest_path()] == source@[spec_manifest_path()]);
        }
        store.place_version(&agent_id, version_ref, payload);
        Ok(PendingInstall { agent_id, version_ref: version_ref.clone() })
    }

    /// Swap the agent's `current` pointer onto an installed version. Fails,
    /// leaving the store unchanged, when no such version is installed or its
    /// tree lacks the manifest file.
    pub fn activate_installed(
        &self,
        store: &mut AgentStore,
        agent_id: &String,
        version_ref: &String,
    ) -> (r: Result<(), InstallError>)
        requires
            old(store).wf(),
        ensures
            final(store).wf(),
            r is Ok <==> old(store)@.versions.dom().contains((agent_id@, version_ref@))
                && old(store)@.versions[(agent_id@, version_ref@)].dom().contains(
                spec_manifest_path(),
            ),
            match r {
                Ok(u) => final(store)@.versions == old(store)@.versions && final(store)@.currents
                    == old(store)@.currents.insert(agent_id@, version_ref@),
                Err(e) => final(store)@ == old(store)@ && e matches InstallError::Activation(_),
            },
    {
        let present = match store.version_tree(agent_id, version_ref) {
            Some(t) => {
                let mp = crate::manifest::manifest_path();
                t.contains_path(&mp)
            },
            None => false,
        };
        if !present {
            return Err(
                InstallError::Activation(
                    String::from_str("version is not installed or lacks its manifest"),
                ),
            );
        }
        store.activate_version(agent_id, version_ref);
        Ok(())
    }

    /// Core installation: validate the staged source, place its payload
    /// under the declared identity and the given version reference, and
    /// activate the agent's `current` pointer onto it. Returns the agent
    /// identity. On failure the store is untouched.
    pub fn install_from_directory(
        &self,
        store: &mut AgentStore,
        source: &FileTree,
        version_ref: &String,
    ) -> (r: Result<String, InstallError>)
        requires
            old(store).wf(),
            source.wf(),
            valid_segment(version_ref@),
        ensures
            final(store).wf(),
            match r {
                Ok(id) => {
                    &&& spec_manifest_id(source@) == Some(id@)
                    &&& final(store)@ == spec_place_and_activate(
                        old(store)@,
                        id@,
                        version_ref@,
                        spec_payload(source@),
                    )
                },
                Err(e) => {
                    &&& spec_manifest_id(source@) is None
                    &&& final(store)@ == old(store)@
                    &&& (e == InstallError::ManifestMissing || e == InstallError::ManifestInvalid)
                    &&& ((e == InstallError::ManifestMissing) <==> !source@.dom().contains(
                        spec_manifest_path(),
                    ))
                },
            },
    {
        let pending = match self.place_from_directory(store, source, version_ref) {
            Ok(p) => p,
            Err(e) => {
                return Err(e);
            },
        };
        match self.activate_installed(store, &pending.agent_id, &pending.version_ref) {
            Ok(u) => {},
            Err(e) => {
                // unreachable: placement just installed the manifest-carrying tree
                return Err(e);
            },
        }
        Ok(pending.agent_id)
    }

    /// Install an agent from the bytes of a local zip archive: derive the
    /// content hash as the version reference, extract, validate the manifest,
    /// place and activate. Returns the declared agent identity. Identical
    /// archive bytes always land under the same version reference.
    pub fn install_from_zip(&self, store: &mut AgentStore, zip_bytes: &Vec<u8>) -> (r: Result<
        String,
        InstallError,
    >)
        requires
            old(store).wf(),
        ensures
            final(store).wf(),
            match r {
                Ok(id) => spec_archive_tree(zip_bytes@) matches Some(t) && spec_manifest_id(t)
                    == Some(id@) && final(store)@ == spec_place_and_activate(
                    old(store)@,
                    id@,
                    spec_version_ref(zip_bytes@),
                    spec_payload(t),
                ),
                Err(e) => {
                    &&& final(store)@ == old(store)@
                    &&& (spec_archive_tree(zip_bytes@) is None ==> (e is CorruptArchive
                        || e is UnsafeArchivePath))
                    &&& (zip_central_names(zip_bytes@) is None ==> e
                        == InstallError::CorruptArchive)
                    &&& (spec_archive_tree(zip_bytes@) matches Some(t) ==> {
                        &&& spec_manifest_id(t) is None
                        &&& (e == InstallError::ManifestMissing || e
                            == InstallError::ManifestInvalid)
                        &&& ((e == InstallError::ManifestMissing) <==> !t.dom().contains(
                            spec_manifest_path(),
                        ))
                    })
                },
            },
    {
        let version_ref = self.zip_version_ref(zip_bytes);
        let tree = match extract_archive(zip_bytes) {
            Ok(t) => t,
            Err(e) => {
                return Err(e);
            },
        };
        self.install_from_directory(store, &tree, &version_ref)
    }

    /// Stage an agent from archive bytes without touching any `current`
    /// pointer: hash, extract, validate and place. The runner provisions the
    /// placed version and then calls `activate_installed`; a provisioning
    /// failure thus never leaves `current` on an unprovisioned version.
    pub fn prepare_from_zip(&self, store: &mut AgentStore, zip_bytes: &Vec<u8>) -> (r: Result<
        PendingInstall,
        InstallError,
    >)
        requires
            old(store).wf(),
        ensures
            final(store).wf(),
            match r {
                Ok(p) => spec_archive_tree(zip_bytes@) matches Some(t) && spec_manifest_id(t)
                    == Some(p.agent_id@) && p.version_ref@ == spec_version_ref(zip_bytes@)
                    && final(store)@ == spec_place_only(
                    old(store)@,
                    p.agent_id@,
                    spec_version_ref(zip_bytes@),
                    spec_payload(t),
                ) && spec_payload(t).dom().contains(spec_manifest_path()),
                Err(e) => {
                    &&& final(store)@ == old(store)@
                    &&& (spec_archive_tree(zip_bytes@) is None ==> (e is CorruptArchive
                        || e is UnsafeArchivePath))
                    &&& (zip_central_names(zip_bytes@) is None ==> e
                        == InstallError::CorruptArchive)
                    &&& (spec_archive_tree(zip_bytes@) matches Some(t) ==> {
                        &&& spec_manifest_id(t) is None
                        &&& (e == InstallError::ManifestMissing || e
                            == InstallError::ManifestInvalid)
                        &&& ((e == InstallError::ManifestMissing) <==> !t.dom().contains(
                            spec_manifest_path(),
                        ))
                    })
                },
            },
    {
        let version_ref = self.zip_version_ref(zip_bytes);
        let tree = match extract_archive(zip_bytes) {
            Ok(t) => t,
            Err(e) => {
                return Err(e);
            },
        };
        self.place_from_directory(store, &tree, &version_ref)
    }

    /// The version reference of an archive: its content hash, proven usable
    /// as a directory entry name.
    fn zip_version_ref(&self, zip_bytes: &Vec<u8>) -> (r: String)
        ensures
            r@ == spec_version_ref(zip_bytes@),
            valid_segment(r@),
    {
        let version_ref = content_version_ref(zip_bytes.as_slice());
        proof {
            crate::hashing::lemma_hex_lower_len(crate::hashing::spec_sha256(zip_bytes@));
            crate::hashing::lemma_hex_lower_valid_segment(crate::hashing::spec_sha256(zip_bytes@));
        }
        version_ref
    }

    /// Install an agent from a git checkout the runner has materialized: the
    /// resolved commit hash is the version reference; an optional sub-path
    /// selects a directory inside the repository. Fails with a not-found
    /// error, before any manifest validation or store mutation, when the
    /// sub-path does not exist in the checkout.
    pub fn install_from_git(
        &self,
        store: &mut AgentStore,
        checkout: &FileTree,
        commit_hash: &String,
        sub_path: Option<&String>,
    ) -> (r: Result<String, InstallError>)
        requires
            old(store).wf(),
            checkout.wf(),
            valid_segment(commit_hash@),
        ensures
            final(store).wf(),
            match sub_path {
                Some(sp) => {
                    let src = spec_subtree(checkout@, spec_split_slash(sp@));
                    match r {
                        Ok(id) => spec_manifest_id(src) == Some(id@) && final(store)@
                            == spec_place_and_activate(
                            old(store)@,
                            id@,
                            commit_hash@,
                            spec_payload(src),
                        ),
                        Err(e) => {
                            &&& final(store)@ == old(store)@
                            &&& (src.dom() == Set::<SpecPath>::empty() ==> (e matches
                                InstallError::SubpathNotFound(m) && m@ == sp@))
                            &&& (src.dom() != Set::<SpecPath>::empty() ==> {
                                &&& spec_manifest_id(src) is None
                                &&& (e == InstallError::ManifestMissing || e
                                    == InstallError::ManifestInvalid)
                                &&& ((e == InstallError::ManifestMissing) <==> !src.dom().contains(
                                    spec_manifest_path(),
                                ))
                            })
                        },
                    }
                },
                None => match r {
                    Ok(id) => spec_manifest_id(checkout@) == Some(id@) && final(store)@
                        == spec_place_and_activate(
                        old(store)@,
                        id@,
                        commit_hash@,
                        spec_payload(checkout@),
                    ),
                    Err(e) => {
                        &&& final(store)@ == old(store)@
                        &&& spec_manifest_id(checkout@) is None
                        &&& (e == InstallError::ManifestMissing || e
                            == InstallError::ManifestInvalid)
                        &&& ((e == InstallError::ManifestMissing) <==> !checkout@.dom().contains(
                            spec_manifest_path(),
                        ))
                    },
                },
            },
    {
        match sub_path {
            Some(sp) => {
                let segs = split_slash(sp.as_str());
                let sub = checkout.subtree(&segs);
                if sub.is_empty() {
                    return Err(InstallError::SubpathNotFound(sp.clone()));
                }
                self.install_from_directory(store, &sub, commit_hash)
            },
            None => self.install_from_directory(store, checkout, commit_hash),
        }
    }

    /// Stage an agent from a git checkout without touching any `current`
    /// pointer, for the runner to provision before activation.
    pub fn prepare_from_git(
        &self,
        store: &mut AgentStore,
        checkout: &FileTree,
        commit_hash: &String,
        sub_path: Option<&String>,
    ) -> (r: Result<PendingInstall, InstallError>)
        requires
            old(store).wf(),
            checkout.wf(),
            valid_segment(commit_hash@),
        ensures
            final(store).wf(),
            ({
                let src = match sub_path {
                    Some(sp) => spec_subtree(checkout@, spec_split_slash(sp@)),
                    None => checkout@,
                };
                match r {
                    Ok(p) => spec_manifest_id(src) == Some(p.agent_id@) && p.version_ref
                        == commit_hash && final(store)@ == spec_place_only(
                        old(store)@,
                        p.agent_id@,
                        commit_hash@,
                        spec_payload(src),
                    ) && spec_payload(src).dom().contains(spec_manifest_path()),
                    Err(e) => {
                        &&& final(store)@ == old(store)@
                        &&& (sub_path is Some && src.dom() == Set::<SpecPath>::empty() ==> (e
                            matches InstallError::SubpathNotFound(m) && m@
                            == sub_path->Some_0@))
                        &&& ((sub_path is None || src.dom() != Set::<SpecPath>::empty()) ==> {
                            &&& spec_manifest_id(src) is None
                            &&& (e == InstallError::ManifestMissing || e
                                == InstallError::ManifestInvalid)
                            &&& ((e == InstallError::ManifestMissing) <==> !src.dom().contains(
                                spec_manifest_path(),
                            ))
                        })
                    },
                }
            }),
    {
        match sub_path {
            Some(sp) => {
                let segs = split_slash(sp.as_str());
                let sub = checkout.subtree(&segs);
                if sub.is_empty() {
                    return Err(InstallError::SubpathNotFound(sp.clone()));
                }
                self.place_from_directory(store, &sub, commit_hash)
            },
            None => self.place_from_directory(store, checkout, commit_hash),
        }
    }
}

/// The basename of a URL: what follows its last separator.
pub open spec fn spec_basename(url: Seq<char>) -> Seq<char> {
    spec_split_slash(url).last()
}

/// A name with one trailing ".git" suffix removed.
pub open spec fn spec_strip_git_suffix(s: Seq<char>) -> Seq<char> {
    if s.len() >= 4 && s.skip(s.len() - 4) == ".git"@ {
        s.take(s.len() - 4)
    } else {
        s
    }
}

/// The filesystem-safe staging name derived from a repository URL: its
/// basename without a trailing ".git", or "repo" when nothing remains.
pub open spec fn spec_repo_name(url: Seq<char>) -> Seq<char> {
    if spec_strip_git_suffix(spec_basename(url)).len() == 0 {
        "repo"@
    } else {
        spec_strip_git_suffix(spec_basename(url))
    }
}

/// Derive the staging directory name for a repository URL.
pub fn repo_name_from_url(url: &str) -> (r: String)
    ensures
        r@ == spec_repo_name(url@),
{
    let segs = split_slash(url);
    proof {
        crate::paths::lemma_split_slash_len(url@);
        assert(segs.deep_view()[segs@.len() - 1] == segs@[segs@.len() - 1]@);
    }
    let base = &segs[segs.len() - 1];
    let blen = base.unicode_len();
    let stripped: String = if blen >= 4 {
        let tail = base.as_str().substring_char(blen - 4, blen);
        proof {
            assert(tail@ =~= base@.skip(base@.len() - 4));
        }
        if str_eq(tail, ".git") {
            let head = base.as_str().substring_char(0, blen - 4);
            proof {
                assert(head@ =~= base@.take(base@.len() - 4));
            }
            head.to_owned()
        } else {
            base.clone()
        }
    } else {
        base.clone()
    };
    if stripped.as_str().is_empty() {
        String::from_str("repo")
    } else {
        stripped
    }
}

} // verus!
