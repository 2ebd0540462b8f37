//! The guarantees the installer is built around, each stated over the same
//! spec functions its contracts use and proved once and for all.

use vstd::prelude::*;

use crate::archive::{
    lemma_tree_upto_paths_safe, spec_archive_tree, spec_entry_safe, zip_central_names,
};
use crate::hashing::spec_version_ref;
use crate::manifest::{spec_manifest_id, spec_manifest_path};
use crate::manager::{spec_payload, spec_place_and_activate};
use crate::paths::{path_contains_dir_segment, valid_path, SpecPath};
use crate::store::{
    lemma_currents_map_dom, lemma_currents_map_value, AgentStore, StoreView,
};

verus! {

/// Determinism: a successful archive install is fully determined by the
/// archive bytes. Whatever stores two installs of the same bytes start
/// from, both place the same payload under the same
/// `(agent identity, version reference)` key — the version reference being
/// the content hash of the bytes — and point `current` at the same version.
pub proof fn lemma_install_zip_deterministic(
    s1: StoreView,
    s2: StoreView,
    r1: StoreView,
    r2: StoreView,
    bytes: Seq<u8>,
    id: Seq<char>,
)
    requires
        spec_archive_tree(bytes) matches Some(t) && spec_manifest_id(t) == Some(id),
        r1 == spec_place_and_activate(
            s1,
            id,
            spec_version_ref(bytes),
            spec_payload(spec_archive_tree(bytes)->Some_0),
        ),
        r2 == spec_place_and_activate(
            s2,
            id,
            spec_version_ref(bytes),
            spec_payload(spec_archive_tree(bytes)->Some_0),
        ),
    ensures
        r1.currents[id] == spec_version_ref(bytes),
        r2.currents[id] == spec_version_ref(bytes),
        r1.versions[(id, spec_version_ref(bytes))] == r2.versions[
            (id, spec_version_ref(bytes))
        ],
{
}

/// Idempotence of activation: installing the same version twice leaves the
/// store exactly where a single fresh install leaves it. The second install
/// rebuilds the same version directory with the same content and re-points
/// `current` at it: no duplication, no leftovers.
pub proof fn lemma_install_idempotent(
    s: StoreView,
    id: Seq<char>,
    vref: Seq<char>,
    payload: Map<SpecPath, Seq<u8>>,
)
    ensures
        spec_place_and_activate(spec_place_and_activate(s, id, vref, payload), id, vref, payload)
            == spec_place_and_activate(s, id, vref, payload),
{
    let once = spec_place_and_activate(s, id, vref, payload);
    let twice = spec_place_and_activate(once, id, vref, payload);
    assert(twice.versions =~= once.versions);
    assert(twice.currents =~= once.currents);
}

/// Atomic visibility floor: in a well-formed store, `current` never
/// resolves to a version directory missing the manifest file that defines
/// its own agent identity.
pub proof fn lemma_current_resolves_to_manifest(s: AgentStore, agent: Seq<char>)
    requires
        s.wf(),
        s@.currents.dom().contains(agent),
    ensures
        s@.versions.dom().contains((agent, s@.currents[agent])),
        s@.versions[(agent, s@.currents[agent])].dom().contains(spec_manifest_path()),
{
    lemma_currents_map_dom(s.currents@, agent);
    let i = choose|i: int| 0 <= i < s.currents@.len() && s.currents@[i].agent_id@ == agent;
    lemma_currents_map_value(s.currents@, i);
}

/// Rejection of unsafe archives: one entry whose path would escape the
/// destination leaves the whole archive without a defined tree, so
/// extraction fails and an install places nothing.
pub proof fn lemma_unsafe_entry_defeats_extraction(bytes: Seq<u8>, i: int)
    requires
        zip_central_names(bytes) matches Some(ns) && 0 <= i < ns.len() && !spec_entry_safe(ns[i]),
    ensures
        spec_archive_tree(bytes) is None,
{
}

/// Rejection of unsafe archives, the positive side: whenever extraction is
/// defined at all, every file of the resulting tree lies at a non-empty
/// relative path whose segments hold no separators and are never "." or
/// "..", so a mirror of the tree writes only below its destination.
pub proof fn lemma_archive_tree_paths_stay_inside(bytes: Seq<u8>, p: SpecPath)
    requires
        spec_archive_tree(bytes) matches Some(t) && t.dom().contains(p),
    ensures
        valid_path(p),
{
    let names = zip_central_names(bytes)->Some_0;
    lemma_tree_upto_paths_safe(bytes, names, names.len() as int);
}

/// The version-control filter never drops the manifest: the payload placed
/// into a version directory declares the same identity as the staged source.
pub proof fn lemma_payload_keeps_manifest(t: Map<SpecPath, Seq<u8>>)
    ensures
        spec_manifest_id(spec_payload(t)) == spec_manifest_id(t),
        t.dom().contains(spec_manifest_path()) ==> spec_payload(t).dom().contains(
            spec_manifest_path(),
        ),
{
    assert(!path_contains_dir_segment(spec_manifest_path(), ".git"@));
    if t.dom().contains(spec_manifest_path()) {
        assert(spec_payload(t).dom().contains(spec_manifest_path()));
        assert(spec_payload(t)[spec_manifest_path()] == t[spec_manifest_path()]);
    } else {
        assert(!spec_payload(t).dom().contains(spec_manifest_path()));
    }
}

/// By construction, an install leaves under `(id, vref)` a tree whose
/// manifest declares exactly the identity `id` that owns the directory.
pub proof fn lemma_installed_tree_declares_its_identity(
    s: StoreView,
    id: Seq<char>,
    vref: Seq<char>,
    t: Map<SpecPath, Seq<u8>>,
)
    requires
        spec_manifest_id(t) == Some(id),
    ensures
        ({
            let r = spec_place_and_activate(s, id, vref, spec_payload(t));
            &&& r.versions.dom().contains((id, vref))
            &&& spec_manifest_id(r.versions[(id, vref)]) == Some(id)
        }),
{
    lemma_payload_keeps_manifest(t);
}

/// Since the version directory is `agents/<id>/<vref>` and the identity
/// comes from the manifest inside the content, two installs whose manifests
/// declare different identities can never map to the same version
/// directory.
pub proof fn lemma_distinct_identities_distinct_dirs(
    id1: Seq<char>,
    vref1: Seq<char>,
    id2: Seq<char>,
    vref2: Seq<char>,
)
    requires
        id1 != id2,
    ensures
        (id1, vref1) != (id2, vref2),
        spec_version_dir_segments(id1, vref1) != spec_version_dir_segments(id2, vref2),
{
    if spec_version_dir_segments(id1, vref1) == spec_version_dir_segments(id2, vref2) {
        assert(spec_version_dir_segments(id1, vref1)[1] == spec_version_dir_segments(
            id2,
            vref2,
        )[1]);
    }
}

/// The version directory of an install, relative to the base directory, as
/// path segments.
pub open spec fn spec_version_dir_segments(id: Seq<char>, vref: Seq<char>) -> SpecPath {
    seq!["agents"@, id, vref]
}

} // verus!
