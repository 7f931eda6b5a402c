//! Normalisation of skill manifests before they are stored: an empty entry
//! point becomes `main`, an empty timestamp becomes the current time.
use vstd::prelude::*;

use crate::clock::is_timestamp_text;
use crate::clock::lemma_timestamp_not_blank;
use crate::clock::now_rfc3339;
use crate::clock::timestamp_text;
use crate::domain::ManifestModel;
use crate::domain::SkillManifest;
use crate::text::is_blank;
use crate::text::is_blank_text;
use crate::text::is_white_space;

verus! {

/// The entry point a manifest gets when its own is blank.
pub open spec fn default_entry() -> Seq<char> {
    "main"@
}

/// `m` normalised at time `now`: a blank entry becomes `main`, a blank
/// timestamp becomes `now`, and nothing else changes.
pub open spec fn normalized_manifest(m: ManifestModel, now: Seq<char>) -> ManifestModel {
    ManifestModel {
        entry: if is_blank_text(m.entry) {
            default_entry()
        } else {
            m.entry
        },
        updated_at: if is_blank_text(m.updated_at) {
            now
        } else {
            m.updated_at
        },
        ..m
    }
}

/// Normalises `manifest` with `now` as the current time.
pub fn normalize_manifest_at(manifest: SkillManifest, now: String) -> (r: SkillManifest)
    ensures
        r@ == normalized_manifest(manifest@, now@),
        r@.entry == if is_blank_text(manifest@.entry) {
            "main"@
        } else {
            manifest@.entry
        },
        r@.updated_at == if is_blank_text(manifest@.updated_at) {
            now@
        } else {
            manifest@.updated_at
        },
        r@.id == manifest@.id,
        r@.name == manifest@.name,
        r@.version == manifest@.version,
        r@.prompts == manifest@.prompts,
        r@.required_capabilities == manifest@.required_capabilities,
        r@.enabled == manifest@.enabled,
{
    let mut manifest = manifest;
    if is_blank(manifest.entry.as_str()) {
        manifest.entry = String::from_str("main");
    }
    if is_blank(manifest.updated_at.as_str()) {
        manifest.updated_at = now;
    }
    manifest
}

/// Normalises `manifest`, reading the clock only when its timestamp is blank.
pub fn normalize_manifest(manifest: SkillManifest) -> (r: SkillManifest)
    ensures
        exists|now: Seq<char>|
            is_timestamp_text(now) && r@ == #[trigger] normalized_manifest(manifest@, now),
        !is_blank_text(manifest@.updated_at) ==> r@.updated_at == manifest@.updated_at,
{
    let stale = is_blank(manifest.updated_at.as_str());
    let now = if stale {
        now_rfc3339()
    } else {
        String::new()
    };
    let ghost m = manifest@;
    let ghost now_view = now@;
    let r = normalize_manifest_at(manifest, now);
    proof {
        if stale {
            assert(is_timestamp_text(now_view));
        } else {
            let t = timestamp_text(None);
            assert(t == timestamp_text(None));
            assert(normalized_manifest(m, t) == normalized_manifest(m, now_view));
        }
    }
    r
}

/// Normalising twice changes nothing, once the time it was given is a
/// timestamp: the second pass finds neither field blank.
pub proof fn normalize_manifest_is_idempotent(m: ManifestModel, now: Seq<char>, later: Seq<char>)
    requires
        is_timestamp_text(now),
    ensures
        normalized_manifest(normalized_manifest(m, now), later) == normalized_manifest(m, now),
        !is_blank_text(normalized_manifest(m, now).entry),
        !is_blank_text(normalized_manifest(m, now).updated_at),
{
    lemma_timestamp_not_blank(now);
    lemma_default_entry_not_blank();
}

pub(crate) proof fn lemma_default_entry_not_blank()
    ensures
        !is_blank_text(default_entry()),
{
    reveal_strlit("main");
    assert(!is_white_space(default_entry()[0]));
}

} // verus!
