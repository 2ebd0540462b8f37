//! The version store: the on-disk layout manager, modeled as a map from
//! `(agent identity, version reference)` to the installed directory tree,
//! plus one `current` pointer per agent identity.
//!
//! Invariant: a `current` pointer always designates an installed version
//! whose tree carries the manifest file — readers resolving the pointer never
//! see a version missing the manifest that defines its identity.

use vstd::prelude::*;

use crate::manifest::spec_manifest_path;
use crate::paths::{str_eq, valid_segment, SpecPath};
use crate::tree::FileTree;

verus! {

/// One installed version: an agent identity, a version reference, and the
/// copied directory tree.
pub struct InstalledVersion {
    pub agent_id: String,
    pub version_ref: String,
    pub tree: FileTree,
}

impl InstalledVersion {
    pub open spec fn spec_key(self) -> (Seq<char>, Seq<char>) {
        (self.agent_id@, self.version_ref@)
    }
}

/// The `current` pointer of one agent identity.
pub struct CurrentPointer {
    pub agent_id: String,
    pub version_ref: String,
}

/// The map described by a list of installed versions; later entries overwrite
/// earlier ones with the same key.
pub open spec fn versions_map(s: Seq<InstalledVersion>) -> Map<
    (Seq<char>, Seq<char>),
    Map<SpecPath, Seq<u8>>,
>
    decreases s.len(),
{
    if s.len() == 0 {
        Map::empty()
    } else {
        versions_map(s.drop_last()).insert(s.last().spec_key(), s.last().tree@)
    }
}

/// The map described by a list of current pointers.
pub open spec fn currents_map(s: Seq<CurrentPointer>) -> Map<Seq<char>, Seq<char>>
    decreases s.len(),
{
    if s.len() == 0 {
        Map::empty()
    } else {
        currents_map(s.drop_last()).insert(s.last().agent_id@, s.last().version_ref@)
    }
}

pub proof fn lemma_versions_map_dom(s: Seq<InstalledVersion>, k: (Seq<char>, Seq<char>))
    ensures
        versions_map(s).dom().contains(k) <==> exists|i: int|
            0 <= i < s.len() && s[i].spec_key() == k,
    decreases s.len(),
{
    if s.len() > 0 {
        lemma_versions_map_dom(s.drop_last(), k);
        if s.last().spec_key() == k {
            assert(s[s.len() - 1].spec_key() == k);
        } else {
            if exists|i: int| 0 <= i < s.len() && s[i].spec_key() == k {
                let i = choose|i: int| 0 <= i < s.len() && s[i].spec_key() == k;
                assert(s.drop_last()[i] == s[i]);
            }
            if exists|i: int| 0 <= i < s.len() - 1 && s.drop_last()[i].spec_key() == k {
                let i = choose|i: int| 0 <= i < s.len() - 1 && s.drop_last()[i].spec_key() == k;
                assert(s[i].spec_key() == k);
            }
        }
    }
}

pub proof fn lemma_versions_map_value(s: Seq<InstalledVersion>, i: int)
    requires
        0 <= i < s.len(),
        forall|j: int, k: int| 0 <= j < k < s.len() ==> s[j].spec_key() != s[k].spec_key(),
    ensures
        versions_map(s).dom().contains(s[i].spec_key()),
        versions_map(s)[s[i].spec_key()] == s[i].tree@,
    decreases s.len(),
{
    if i < s.len() - 1 {
        assert(forall|j: int, k: int|
            0 <= j < k < s.len() - 1 ==> s.drop_last()[j].spec_key()
                != s.drop_last()[k].spec_key());
        lemma_versions_map_value(s.drop_last(), i);
        assert(s.drop_last()[i] == s[i]);
        assert(s[i].spec_key() != s[s.len() - 1].spec_key());
    }
}

pub proof fn lemma_currents_map_dom(s: Seq<CurrentPointer>, a: Seq<char>)
    ensures
        currents_map(s).dom().contains(a) <==> exists|i: int| 0 <= i < s.len() && s[i].agent_id@
            == a,
    decreases s.len(),
{
    if s.len() > 0 {
        lemma_currents_map_dom(s.drop_last(), a);
        if s.last().agent_id@ == a {
            assert(s[s.len() - 1].agent_id@ == a);
        } else {
            if exists|i: int| 0 <= i < s.len() && s[i].agent_id@ == a {
                let i = choose|i: int| 0 <= i < s.len() && s[i].agent_id@ == a;
                assert(s.drop_last()[i] == s[i]);
            }
            if exists|i: int| 0 <= i < s.len() - 1 && s.drop_last()[i].agent_id@ == a {
                let i = choose|i: int| 0 <= i < s.len() - 1 && s.drop_last()[i].agent_id@ == a;
                assert(s[i].agent_id@ == a);
            }
        }
    }
}

pub proof fn lemma_currents_map_value(s: Seq<CurrentPointer>, i: int)
    requires
        0 <= i < s.len(),
        forall|j: int, k: int| 0 <= j < k < s.len() ==> s[j].agent_id@ != s[k].agent_id@,
    ensures
        currents_map(s).dom().contains(s[i].agent_id@),
        currents_map(s)[s[i].agent_id@] == s[i].version_ref@,
    decreases s.len(),
{
    if i < s.len() - 1 {
        assert(forall|j: int, k: int|
            0 <= j < k < s.len() - 1 ==> s.drop_last()[j].agent_id@
                != s.drop_last()[k].agent_id@);
        lemma_currents_map_value(s.drop_last(), i);
        assert(s.drop_last()[i] == s[i]);
        assert(s[i].agent_id@ != s[s.len() - 1].agent_id@);
    }
}

/// The abstract state of the store: the installed versions and the current
/// pointers.
pub ghost struct StoreView {
    pub versions: Map<(Seq<char>, Seq<char>), Map<SpecPath, Seq<u8>>>,
    pub currents: Map<Seq<char>, Seq<char>>,
}

/// The agent store: all installed versions, and the `current` pointer of
/// each agent identity.
pub struct AgentStore {
    pub versions: Vec<InstalledVersion>,
    pub currents: Vec<CurrentPointer>,
}

impl View for AgentStore {
    type V = StoreView;

    open spec fn view(&self) -> StoreView {
        StoreView {
            versions: versions_map(self.versions@),
            currents: currents_map(self.currents@),
        }
    }
}

impl AgentStore {
    /// Keys are unique, every installed tree is well-formed, identities and
    /// references can name directories, and every `current` pointer
    /// designates an installed version whose tree carries the manifest.
    pub open spec fn wf(self) -> bool {
        &&& (forall|i: int, j: int|
            0 <= i < j < self.versions@.len() ==> self.versions@[i].spec_key()
                != self.versions@[j].spec_key())
        &&& (forall|i: int, j: int|
            0 <= i < j < self.currents@.len() ==> self.currents@[i].agent_id@
                != self.currents@[j].agent_id@)
        &&& (forall|i: int|
            0 <= i < self.versions@.len() ==> (#[trigger] self.versions@[i]).tree.wf())
        &&& (forall|i: int|
            0 <= i < self.versions@.len() ==> valid_segment(
                (#[trigger] self.versions@[i]).agent_id@,
            ) && valid_segment(self.versions@[i].version_ref@))
        &&& (forall|i: int|
            0 <= i < self.currents@.len() ==> {
                let k = ((#[trigger] self.currents@[i]).agent_id@, self.currents@[i].version_ref@);
                self@.versions.dom().contains(k) && self@.versions[k].dom().contains(
                    spec_manifest_path(),
                )
            })
    }

    /// An empty store: nothing installed, nothing current.
    pub fn new() -> (r: AgentStore)
        ensures
            r@.versions == Map::<(Seq<char>, Seq<char>), Map<SpecPath, Seq<u8>>>::empty(),
            r@.currents == Map::<Seq<char>, Seq<char>>::empty(),
            r.wf(),
    {
        AgentStore { versions: Vec::new(), currents: Vec::new() }
    }

    /// The index of the installed version with the given key, if any.
    fn find_version(&self, agent_id: &String, version_ref: &String) -> (r: Option<usize>)
        ensures
            match r {
                Some(i) => i < self.versions@.len() && self.versions@[i as int].spec_key() == (
                    agent_id@,
                    version_ref@,
                ),
                None => forall|i: int|
                    0 <= i < self.versions@.len() ==> (#[trigger] self.versions@[i].spec_key())
                        != (agent_id@, version_ref@),
            },
    {
        let mut i: usize = 0;
        while i < self.versions.len()
            invariant
                0 <= i <= self.versions@.len(),
                forall|j: int|
                    0 <= j < i ==> (#[trigger] self.versions@[j].spec_key()) != (
                        agent_id@,
                        version_ref@,
                    ),
            decreases self.versions@.len() - i,
        {
            if str_eq(self.versions[i].agent_id.as_str(), agent_id.as_str()) && str_eq(
                self.versions[i].version_ref.as_str(),
                version_ref.as_str(),
            ) {
                return Some(i);
            }
            i += 1;
        }
        None
    }

    /// The index of the current pointer of the given agent identity, if any.
    fn find_current(&self, agent_id: &String) -> (r: Option<usize>)
        ensures
            match r {
                Some(i) => i < self.currents@.len() && self.currents@[i as int].agent_id@
                    == agent_id@,
                None => forall|i: int|
                    0 <= i < self.currents@.len() ==> (#[trigger] self.currents@[i].agent_id@)
                        != agent_id@,
            },
    {
        let mut i: usize = 0;
        while i < self.currents.len()
            invariant
                0 <= i <= self.currents@.len(),
                forall|j: int| 0 <= j < i ==> (#[trigger] self.currents@[j].agent_id@) != agent_id@,
            decreases self.currents@.len() - i,
        {
            if str_eq(self.currents[i].agent_id.as_str(), agent_id.as_str()) {
                return Some(i);
            }
            i += 1;
        }
        None
    }

    /// Whether a version is installed under the given key.
    pub fn has_version(&self, agent_id: &String, version_ref: &String) -> (r: bool)
        ensures
            r == self@.versions.dom().contains((agent_id@, version_ref@)),
    {
        proof {
            lemma_versions_map_dom(self.versions@, (agent_id@, version_ref@));
        }
        self.find_version(agent_id, version_ref).is_some()
    }

    /// The installed tree under the given key, if any.
    pub fn version_tree(&self, agent_id: &String, version_ref: &String) -> (r: Option<&FileTree>)
        requires
            self.wf(),
        ensures
            match r {
                Some(t) => self@.versions.dom().contains((agent_id@, version_ref@)) && t@
                    == self@.versions[(agent_id@, version_ref@)] && t.wf(),
                None => !self@.versions.dom().contains((agent_id@, version_ref@)),
            },
    {
        proof {
            lemma_versions_map_dom(self.versions@, (agent_id@, version_ref@));
        }
        match self.find_version(agent_id, version_ref) {
            Some(i) => {
                proof {
                    lemma_versions_map_value(self.versions@, i as int);
                }
                Some(&self.versions[i].tree)
            },
            None => None,
        }
    }

    /// Install a tree under `(agent identity, version reference)`. An
    /// existing version under the same key is removed first and rebuilt from
    /// the given tree; `current` pointers are untouched.
    pub fn place_version(&mut self, agent_id: &String, version_ref: &String, tree: FileTree)
        requires
            old(self).wf(),
            tree.wf(),
            tree@.dom().contains(spec_manifest_path()),
            valid_segment(agent_id@),
            valid_segment(version_ref@),
        ensures
            final(self).wf(),
            final(self)@.versions == old(self)@.versions.insert((agent_id@, version_ref@), tree@),
            final(self)@.currents == old(self)@.currents,
    {
        let ghost old_versions = self.versions@;
        let entry = InstalledVersion {
            agent_id: agent_id.clone(),
            version_ref: version_ref.clone(),
            tree,
        };
        match self.find_version(agent_id, version_ref) {
            Some(i) => {
                self.versions.set(i, entry);
                proof {
                    lemma_set_version(old_versions, i as int, entry);
                    lemma_wf_preserved_versions(*old(self), *self);
                }
            },
            None => {
                self.versions.push(entry);
                proof {
                    assert(self.versions@.drop_last() =~= old_versions);
                    lemma_wf_preserved_versions(*old(self), *self);
                }
            },
        }
    }

    /// Point `current` of the agent identity at the given installed version.
    /// Any previous pointer for that identity is replaced; other agents and
    /// the installed versions are untouched.
    pub fn activate_version(&mut self, agent_id: &String, version_ref: &String)
        requires
            old(self).wf(),
            old(self)@.versions.dom().contains((agent_id@, version_ref@)),
            old(self)@.versions[(agent_id@, version_ref@)].dom().contains(spec_manifest_path()),
        ensures
            final(self).wf(),
            final(self)@.currents == old(self)@.currents.insert(agent_id@, version_ref@),
            final(self)@.versions == old(self)@.versions,
    {
        let ghost old_currents = self.currents@;
        let entry = CurrentPointer { agent_id: agent_id.clone(), version_ref: version_ref.clone() };
        match self.find_current(agent_id) {
            Some(i) => {
                self.currents.set(i, entry);
                proof {
                    lemma_set_current(old_currents, i as int, entry);
                    lemma_wf_preserved_currents(*old(self), *self);
                }
            },
            None => {
                self.currents.push(entry);
                proof {
                    assert(self.currents@.drop_last() =~= old_currents);
                    lemma_wf_preserved_currents(*old(self), *self);
                }
            },
        }
    }

    /// The version reference `current` designates for the agent, if any.
    pub fn current_version(&self, agent_id: &String) -> (r: Option<&String>)
        requires
            self.wf(),
        ensures
            match r {
                Some(v) => self@.currents.dom().contains(agent_id@) && v@
                    == self@.currents[agent_id@],
                None => !self@.currents.dom().contains(agent_id@),
            },
    {
        proof {
            lemma_currents_map_dom(self.currents@, agent_id@);
        }
        match self.find_current(agent_id) {
            Some(i) => {
                proof {
                    lemma_currents_map_value(self.currents@, i as int);
                }
                Some(&self.currents[i].version_ref)
            },
            None => None,
        }
    }

    /// Resolve the `current` pointer of the agent to its installed tree.
    /// A resolved tree always carries the manifest file.
    pub fn current_tree(&self, agent_id: &String) -> (r: Option<&FileTree>)
        requires
            self.wf(),
        ensures
            match r {
                Some(t) => {
                    let k = (agent_id@, self@.currents[agent_id@]);
                    self@.currents.dom().contains(agent_id@) && t@ == self@.versions[k]
                        && t@.dom().contains(spec_manifest_path()) && t.wf()
                },
                None => !self@.currents.dom().contains(agent_id@),
            },
    {
        proof {
            lemma_currents_map_dom(self.currents@, agent_id@);
        }
        match self.find_current(agent_id) {
            Some(i) => {
                proof {
                    lemma_currents_map_value(self.currents@, i as int);
                }
                let version_ref = &self.currents[i].version_ref;
                let r = self.version_tree(agent_id, version_ref);
                proof {
                    assert(self@.versions.dom().contains((agent_id@, version_ref@)));
                }
                match r {
                    Some(t) => Some(t),
                    None => None,  // unreachable: wf ties the pointer to an installed version
                }
            },
            None => None,
        }
    }
}

/// Replacing the element at a position with one of the same key updates the
/// described map exactly as an insert does.
proof fn lemma_set_version(s: Seq<InstalledVersion>, i: int, e: InstalledVersion)
    requires
        0 <= i < s.len(),
        s[i].spec_key() == e.spec_key(),
        forall|j: int, k: int| 0 <= j < k < s.len() ==> s[j].spec_key() != s[k].spec_key(),
    ensures
        versions_map(s.update(i, e)) == versions_map(s).insert(e.spec_key(), e.tree@),
    decreases s.len(),
{
    let t = s.update(i, e);
    if i == s.len() - 1 {
        assert(t.drop_last() =~= s.drop_last());
        assert(versions_map(t) =~= versions_map(s).insert(e.spec_key(), e.tree@));
    } else {
        assert(forall|j: int, k: int|
            0 <= j < k < s.len() - 1 ==> s.drop_last()[j].spec_key()
                != s.drop_last()[k].spec_key());
        lemma_set_version(s.drop_last(), i, e);
        assert(t.drop_last() =~= s.drop_last().update(i, e));
        assert(t.last() == s.last());
        assert(s[i].spec_key() != s[s.len() - 1].spec_key());
        assert(versions_map(t) =~= versions_map(s).insert(e.spec_key(), e.tree@));
    }
}

proof fn lemma_set_current(s: Seq<CurrentPointer>, i: int, e: CurrentPointer)
    requires
        0 <= i < s.len(),
        s[i].agent_id@ == e.agent_id@,
        forall|j: int, k: int| 0 <= j < k < s.len() ==> s[j].agent_id@ != s[k].agent_id@,
    ensures
        currents_map(s.update(i, e)) == currents_map(s).insert(e.agent_id@, e.version_ref@),
    decreases s.len(),
{
    let t = s.update(i, e);
    if i == s.len() - 1 {
        assert(t.drop_last() =~= s.drop_last());
        assert(currents_map(t) =~= currents_map(s).insert(e.agent_id@, e.version_ref@));
    } else {
        assert(forall|j: int, k: int|
            0 <= j < k < s.len() - 1 ==> s.drop_last()[j].agent_id@
                != s.drop_last()[k].agent_id@);
        lemma_set_current(s.drop_last(), i, e);
        assert(t.drop_last() =~= s.drop_last().update(i, e));
        assert(t.last() == s.last());
        assert(s[i].agent_id@ != s[s.len() - 1].agent_id@);
        assert(currents_map(t) =~= currents_map(s).insert(e.agent_id@, e.version_ref@));
    }
}

/// After a versions change that only inserts a well-formed, manifest-carrying
/// tree under its key, the store invariant holds again.
proof fn lemma_wf_preserved_versions(pre: AgentStore, post: AgentStore)
    requires
        pre.wf(),
        post.currents@ == pre.currents@,
        forall|i: int, j: int|
            0 <= i < j < post.versions@.len() ==> post.versions@[i].spec_key()
                != post.versions@[j].spec_key(),
        forall|i: int|
            0 <= i < post.versions@.len() ==> (#[trigger] post.versions@[i]).tree.wf(),
        forall|i: int|
            0 <= i < post.versions@.len() ==> valid_segment(
                (#[trigger] post.versions@[i]).agent_id@,
            ) && valid_segment(post.versions@[i].version_ref@),
        forall|k: (Seq<char>, Seq<char>)| #![trigger pre@.versions.dom().contains(k)]
            pre@.versions.dom().contains(k) ==> post@.versions.dom().contains(k) && (
            pre@.versions[k].dom().contains(spec_manifest_path())
                ==> post@.versions[k].dom().contains(spec_manifest_path())),
    ensures
        post.wf(),
{
    assert forall|i: int| 0 <= i < post.currents@.len() implies {
        let k = ((#[trigger] post.currents@[i]).agent_id@, post.currents@[i].version_ref@);
        post@.versions.dom().contains(k) && post@.versions[k].dom().contains(spec_manifest_path())
    } by {
        let k = (post.currents@[i].agent_id@, post.currents@[i].version_ref@);
        assert(pre.currents@[i] == post.currents@[i]);
        assert(pre@.versions.dom().contains(k));
        assert(pre@.versions[k].dom().contains(spec_manifest_path()));
        assert(post@.versions.dom().contains(k));
        assert(post@.versions[k].dom().contains(spec_manifest_path()));
    }
}

/// After a currents change that keeps agent ids unique and points only at
/// manifest-carrying installed versions, the store invariant holds again.
proof fn lemma_wf_preserved_currents(pre: AgentStore, post: AgentStore)
    requires
        pre.wf(),
        post.versions@ == pre.versions@,
        forall|i: int, j: int|
            0 <= i < j < post.currents@.len() ==> post.currents@[i].agent_id@
                != post.currents@[j].agent_id@,
        forall|i: int|
            0 <= i < post.currents@.len() ==> {
                let k = ((#[trigger] post.currents@[i]).agent_id@, post.currents@[i].version_ref@);
                post@.versions.dom().contains(k) && post@.versions[k].dom().contains(
                    spec_manifest_path(),
                )
            },
    ensures
        post.wf(),
{
}

} // verus!
