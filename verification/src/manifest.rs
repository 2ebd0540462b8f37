//! Manifest validation: the staged source must carry a manifest file at its
//! root declaring the agent's identity. The manifest is the sole authority
//! for that identity; names derived from the source (repository basename,
//! archive file name) are never used.

use vstd::prelude::*;
use vstd::string::StringExecFns;

use crate::errors::InstallError;
use crate::paths::{is_valid_segment, valid_segment, SpecPath};
use crate::tree::FileTree;

verus! {

/// The path of the manifest file at the root of every agent bundle.
pub open spec fn spec_manifest_path() -> SpecPath {
    seq!["agent.json"@]
}

/// The manifest path as a segment vector.
pub fn manifest_path() -> (r: Vec<String>)
    ensures
        r.deep_view() == spec_manifest_path(),
{
    let mut v: Vec<String> = Vec::new();
    v.push(String::from_str("agent.json"));
    proof {
        assert(v.deep_view() =~= spec_manifest_path());
    }
    v
}

/// The string value at the given key of a JSON document, or None when the
/// bytes are not a JSON object, the key is absent, or its value is not a
/// string. A function of the document bytes and the key alone.
pub uninterp spec fn json_str_field_of(doc: Seq<u8>, key: Seq<char>) -> Option<Seq<char>>;

/// Relies on serde_json::from_slice, Value::get and Value::as_str: parsing a
/// JSON document and reading one string field of the top-level object is a
/// function of the document bytes and the key alone.
#[verifier::external_body]
fn json_str_field(doc: &Vec<u8>, key: &str) -> (r: Option<String>)
    ensures
        r is Some <==> json_str_field_of(doc@, key@) is Some,
        r matches Some(s) ==> s@ == json_str_field_of(doc@, key@)->Some_0,
{
    let value: serde_json::Value = serde_json::from_slice(doc.as_slice()).ok()?;
    let field = value.get(key)?;
    let s = field.as_str()?;
    Some(s.to_string())
}

/// The agent identity a staged tree declares: the "id" string field of the
/// manifest file at its root, accepted only when it can serve as a directory
/// entry name.
pub open spec fn spec_manifest_id(t: Map<SpecPath, Seq<u8>>) -> Option<Seq<char>> {
    if t.dom().contains(spec_manifest_path()) {
        match json_str_field_of(t[spec_manifest_path()], "id"@) {
            Some(id) => if valid_segment(id) {
                Some(id)
            } else {
                None
            },
            None => None,
        }
    } else {
        None
    }
}

/// Read and validate the manifest of a staged tree, returning the agent
/// identity it declares. Fails when the manifest file is absent, when it
/// does not carry a string "id" field, or when the declared id cannot name a
/// directory.
pub fn validate_manifest(tree: &FileTree) -> (r: Result<String, InstallError>)
    requires
        tree.wf(),
    ensures
        r is Ok <==> spec_manifest_id(tree@) is Some,
        r matches Ok(id) ==> Some(id@) == spec_manifest_id(tree@),
        r matches Err(e) ==> (e == InstallError::ManifestMissing || e
            == InstallError::ManifestInvalid),
        r matches Err(e) ==> ((e == InstallError::ManifestMissing) <==> !tree@.dom().contains(
            spec_manifest_path(),
        )),
{
    let mp = manifest_path();
    let doc = match tree.get(&mp) {
        Some(d) => d,
        None => {
            return Err(InstallError::ManifestMissing);
        },
    };
    let id = match json_str_field(doc, "id") {
        Some(id) => id,
        None => {
            return Err(InstallError::ManifestInvalid);
        },
    };
    if is_valid_segment(id.as_str()) {
        Ok(id)
    } else {
        Err(InstallError::ManifestInvalid)
    }
}

} // verus!
