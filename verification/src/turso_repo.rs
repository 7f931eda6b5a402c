//! Install-state records as the synchronisation backend stores them: the
//! text encoding of an install state, and the local fallback store that
//! keeps one record per user and skill.
use vstd::prelude::*;

use crate::domain::InstallRecordModel;
use crate::domain::InstallStateModel;
use crate::domain::SkillInstallRecord;
use crate::domain::SkillInstallState;
use crate::text::has_text_prefix;
use crate::text::join_texts;
use crate::text::same_text;
use crate::text::strip_text_prefix;

verus! {

/// The text stored for an install state.
pub open spec fn encoded_state(s: InstallStateModel) -> Seq<char> {
    match s {
        InstallStateModel::NotInstalled => "NotInstalled"@,
        InstallStateModel::Installing => "Installing"@,
        InstallStateModel::Installed => "Installed"@,
        InstallStateModel::Updating => "Updating"@,
        InstallStateModel::Error(msg) => "Error:"@ + msg,
    }
}

/// The install state read back from a stored text: the four plain names,
/// `Error:` followed by a message, and any other text taken as an error
/// message as it stands.
pub open spec fn decoded_state(raw: Seq<char>) -> InstallStateModel {
    if raw == "NotInstalled"@ {
        InstallStateModel::NotInstalled
    } else if raw == "Installing"@ {
        InstallStateModel::Installing
    } else if raw == "Installed"@ {
        InstallStateModel::Installed
    } else if raw == "Updating"@ {
        InstallStateModel::Updating
    } else if has_text_prefix(raw, "Error:"@) {
        InstallStateModel::Error(raw.skip("Error:"@.len() as int))
    } else {
        InstallStateModel::Error(raw)
    }
}

/// The text stored for `state`.
pub fn encode_state(state: &SkillInstallState) -> (r: String)
    ensures
        r@ == encoded_state(state@),
        state@ is NotInstalled ==> r@ == "NotInstalled"@,
        state@ is Installing ==> r@ == "Installing"@,
        state@ is Installed ==> r@ == "Installed"@,
        state@ is Updating ==> r@ == "Updating"@,
        state@ matches InstallStateModel::Error(msg) ==> r@ == "Error:"@ + msg,
{
    match state {
        SkillInstallState::NotInstalled => String::from_str("NotInstalled"),
        SkillInstallState::Installing => String::from_str("Installing"),
        SkillInstallState::Installed => String::from_str("Installed"),
        SkillInstallState::Updating => String::from_str("Updating"),
        SkillInstallState::Error(msg) => join_texts("Error:", msg.as_str()),
    }
}

/// The install state that a stored text stands for.
pub fn decode_state(raw: String) -> (r: SkillInstallState)
    ensures
        r@ == decoded_state(raw@),
{
    if same_text(raw.as_str(), "NotInstalled") {
        SkillInstallState::NotInstalled
    } else if same_text(raw.as_str(), "Installing") {
        SkillInstallState::Installing
    } else if same_text(raw.as_str(), "Installed") {
        SkillInstallState::Installed
    } else if same_text(raw.as_str(), "Updating") {
        SkillInstallState::Updating
    } else {
        match strip_text_prefix(raw.as_str(), "Error:") {
            Some(msg) => SkillInstallState::Error(msg),
            None => SkillInstallState::Error(raw),
        }
    }
}

/// Reading back what was stored gives the install state that was stored.
pub proof fn decode_encode_roundtrip(s: InstallStateModel)
    ensures
        decoded_state(encoded_state(s)) == s,
{
    reveal_strlit("NotInstalled");
    reveal_strlit("Installing");
    reveal_strlit("Installed");
    reveal_strlit("Updating");
    reveal_strlit("Error:");
    match s {
        InstallStateModel::Installing => {
            assert("Installing"@[0] != "NotInstalled"@[0]);
        },
        InstallStateModel::Installed => {
            assert("Installed"@[0] != "NotInstalled"@[0]);
            assert("Installed"@.len() != "Installing"@.len());
        },
        InstallStateModel::Updating => {
            assert("Updating"@[0] != "NotInstalled"@[0]);
            assert("Updating"@[0] != "Installing"@[0]);
            assert("Updating"@[0] != "Installed"@[0]);
        },
        InstallStateModel::Error(msg) => {
            let raw = "Error:"@ + msg;
            assert(raw[0] != "NotInstalled"@[0]);
            assert(raw[0] != "Installing"@[0]);
            assert(raw[0] != "Installed"@[0]);
            assert(raw[0] != "Updating"@[0]);
            assert(raw.take(6) =~= "Error:"@);
            assert(raw.skip(6) =~= msg);
        },
        _ => {},
    }
}

/// Whether a stored text is one that encoding produces: a plain state
/// name, or `Error:` followed by a message.
pub open spec fn is_encoded_state_text(raw: Seq<char>) -> bool {
    ||| raw == "NotInstalled"@
    ||| raw == "Installing"@
    ||| raw == "Installed"@
    ||| raw == "Updating"@
    ||| has_text_prefix(raw, "Error:"@)
}

/// Decoding and encoding again gives back a stored text that encoding
/// produces; any other text comes back with an `Error:` prefix.
pub proof fn encode_decode_roundtrip(raw: Seq<char>)
    ensures
        is_encoded_state_text(raw) ==> encoded_state(decoded_state(raw)) == raw,
        !is_encoded_state_text(raw) ==> encoded_state(decoded_state(raw)) == "Error:"@ + raw,
{
    reveal_strlit("Error:");
    if has_text_prefix(raw, "Error:"@) {
        assert(raw =~= raw.take(6) + raw.skip(6));
    }
}

/// Whether two records are kept for the same user and skill.
pub open spec fn same_record_key(a: InstallRecordModel, b: InstallRecordModel) -> bool {
    a.user_id == b.user_id && a.skill_id == b.skill_id
}

/// The records of one user and skill, in stored order.
pub open spec fn records_for(
    records: Seq<InstallRecordModel>,
    user_id: Seq<char>,
    skill_id: Seq<char>,
) -> Seq<InstallRecordModel> {
    records.filter(|x: InstallRecordModel| x.user_id == user_id && x.skill_id == skill_id)
}

/// The fallback store after `record` is pushed: every record of another
/// user or skill in its place, then `record`.
pub open spec fn upserted(
    records: Seq<InstallRecordModel>,
    record: InstallRecordModel,
) -> Seq<InstallRecordModel> {
    records.filter(|x: InstallRecordModel| !same_record_key(x, record)).push(record)
}

/// Whether the two stored records have the same user and skill.
fn same_key(a: &SkillInstallRecord, b: &SkillInstallRecord) -> (r: bool)
    ensures
        r == same_record_key(a@, b@),
{
    a.user_id == b.user_id && a.skill_id == b.skill_id
}

/// The fallback store after `record` is pushed: earlier records of the same
/// user and skill are dropped and `record` is appended.
pub fn upsert_install_record(records: &Vec<SkillInstallRecord>, record: SkillInstallRecord) -> (r:
    Vec<SkillInstallRecord>)
    ensures
        r.deep_view() == upserted(records.deep_view(), record@),
{
    let ghost keep = |x: InstallRecordModel| !same_record_key(x, record@);
    let mut out: Vec<SkillInstallRecord> = Vec::new();
    let mut i: usize = 0;
    while i < records.len()
        invariant
            i <= records.len(),
            keep == (|x: InstallRecordModel| !same_record_key(x, record@)),
            out.deep_view() == records.deep_view().take(i as int).filter(keep),
        decreases records.len() - i,
    {
        proof {
            reveal(Seq::filter);
            assert(records.deep_view().take(i + 1).drop_last() =~= records.deep_view().take(
                i as int,
            ));
        }
        if !same_key(&records[i], &record) {
            let item = records[i].duplicate();
            out.push(item);
            assert(out.deep_view() =~= records.deep_view().take(i + 1).filter(keep));
        }
        i = i + 1;
    }
    assert(records.deep_view().take(records.len() as int) =~= records.deep_view());
    out.push(record);
    assert(out.deep_view() =~= upserted(records.deep_view(), record@));
    out
}

proof fn lemma_filter_of_filter<A>(s: Seq<A>, keep: spec_fn(A) -> bool, p: spec_fn(A) -> bool)
    ensures
        (forall|x: A| #[trigger] p(x) ==> !keep(x)) ==> s.filter(keep).filter(p) == Seq::<A>::empty(),
        (forall|x: A| #[trigger] p(x) ==> keep(x)) ==> s.filter(keep).filter(p) == s.filter(p),
    decreases s.len(),
{
    reveal(Seq::filter);
    if s.len() > 0 {
        lemma_filter_of_filter(s.drop_last(), keep, p);
        let f = s.drop_last().filter(keep);
        if keep(s.last()) {
            assert(f.push(s.last()).drop_last() =~= f);
        }
    }
}

/// Reading the records of a user and skill right after pushing one gives
/// exactly the record pushed.
pub proof fn push_then_read_gives_record(records: Seq<InstallRecordModel>, record: InstallRecordModel)
    ensures
        records_for(upserted(records, record), record.user_id, record.skill_id) == seq![record],
{
    reveal(Seq::filter);
    let keep = |x: InstallRecordModel| !same_record_key(x, record);
    let p = |x: InstallRecordModel| x.user_id == record.user_id && x.skill_id == record.skill_id;
    lemma_filter_of_filter(records, keep, p);
    let kept = records.filter(keep);
    assert(kept.push(record).drop_last() =~= kept);
    assert(kept.push(record).filter(p) =~= kept.filter(p).push(record));
    assert(kept.filter(p) =~= Seq::<InstallRecordModel>::empty());
}

/// Pushing a record leaves the records of every other user and skill as
/// they were.
pub proof fn push_keeps_other_records(
    records: Seq<InstallRecordModel>,
    record: InstallRecordModel,
    user_id: Seq<char>,
    skill_id: Seq<char>,
)
    requires
        !(user_id == record.user_id && skill_id == record.skill_id),
    ensures
        records_for(upserted(records, record), user_id, skill_id) == records_for(
            records,
            user_id,
            skill_id,
        ),
{
    reveal(Seq::filter);
    let keep = |x: InstallRecordModel| !same_record_key(x, record);
    let q = |x: InstallRecordModel| x.user_id == user_id && x.skill_id == skill_id;
    lemma_filter_of_filter(records, keep, q);
    let kept = records.filter(keep);
    assert(kept.push(record).drop_last() =~= kept);
    assert(kept.push(record).filter(q) =~= kept.filter(q));
}

/// The name of the backend that install records go to: the remote database
/// when a connection could be made, the local file otherwise.
pub fn sync_backend_status(connected: bool) -> (r: String)
    ensures
        connected ==> r@ == "remote_turso"@,
        !connected ==> r@ == "fallback_local_file"@,
{
    if connected {
        String::from_str("remote_turso")
    } else {
        String::from_str("fallback_local_file")
    }
}

} // verus!
