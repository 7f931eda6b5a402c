//! What the pages compute from loaded data: comma-separated name lists as
//! typed into a form, the badge of an install state, and the records shown
//! for one skill.
use vstd::prelude::*;

use crate::domain::InstallRecordModel;
use crate::domain::InstallStateModel;
use crate::domain::SkillInstallRecord;
use crate::domain::SkillInstallState;
use crate::text::push_char;
use crate::text::trim_text;
use crate::text::trimmed_text;
use crate::text::trim_start_text;
use crate::text::trim_end_text;
use crate::text::is_white_space;

verus! {

/// The pieces of `s` between separators (`str::split` with a character):
/// one more piece than there are separators, empty pieces included.
pub open spec fn split_text(s: Seq<char>, sep: char) -> Seq<Seq<char>>
    decreases s.len(),
{
    if s.len() == 0 {
        seq![Seq::empty()]
    } else {
        let rest = split_text(s.drop_last(), sep);
        if s.last() == sep {
            rest.push(Seq::empty())
        } else {
            rest.drop_last().push(rest.last().push(s.last()))
        }
    }
}

proof fn lemma_split_nonempty(s: Seq<char>, sep: char)
    ensures
        split_text(s, sep).len() >= 1,
    decreases s.len(),
{
    if s.len() > 0 {
        lemma_split_nonempty(s.drop_last(), sep);
    }
}

/// The entries of a comma-separated list: each piece trimmed, empty ones
/// left out.
pub open spec fn csv_items(s: Seq<char>) -> Seq<Seq<char>> {
    split_text(s, ',').map_values(|p: Seq<char>| trimmed_text(p)).filter(|p: Seq<char>| p.len() > 0)
}

proof fn lemma_map_filter_push(a: Seq<Seq<char>>, x: Seq<char>)
    ensures
        a.push(x).map_values(|p: Seq<char>| trimmed_text(p)).filter(|p: Seq<char>| p.len() > 0) == {
            let done = a.map_values(|p: Seq<char>| trimmed_text(p)).filter(|p: Seq<char>| p.len() > 0);
            if trimmed_text(x).len() > 0 {
                done.push(trimmed_text(x))
            } else {
                done
            }
        },
{
    reveal(Seq::filter);
    let f = |p: Seq<char>| trimmed_text(p);
    let m = a.push(x).map_values(f);
    assert(m.drop_last() =~= a.map_values(f));
    assert(m.last() == trimmed_text(x));
}

/// The entries of the comma-separated list `input`, trimmed, without the
/// empty ones.
pub fn split_csv(input: &str) -> (r: Vec<String>)
    ensures
        r.deep_view() == csv_items(input@),
{
    let n = input.unicode_len();
    let mut out: Vec<String> = Vec::new();
    let mut current = String::new();
    let mut i: usize = 0;
    assert(input@.take(0) =~= Seq::<char>::empty());
    while i < n
        invariant
            n == input@.len(),
            i <= n,
            split_text(input@.take(i as int), ',').len() >= 1,
            current@ == split_text(input@.take(i as int), ',').last(),
            out.deep_view() == split_text(input@.take(i as int), ',').drop_last().map_values(
                |p: Seq<char>| trimmed_text(p),
            ).filter(|p: Seq<char>| p.len() > 0),
        decreases n - i,
    {
        let c = input.get_char(i);
        let ghost parts = split_text(input@.take(i as int), ',');
        proof {
            assert(input@.take(i + 1).drop_last() =~= input@.take(i as int));
            assert(input@.take(i + 1).last() == c);
            lemma_map_filter_push(parts.drop_last(), parts.last());
            assert(parts.drop_last().push(parts.last()) =~= parts);
        }
        if c == ',' {
            let piece = trim_text(current.as_str());
            if piece.unicode_len() > 0 {
                out.push(piece);
            }
            current = String::new();
            proof {
                let next = split_text(input@.take(i + 1), ',');
                assert(next == parts.push(Seq::empty()));
                assert(next.drop_last() =~= parts);
                assert(out.deep_view() =~= next.drop_last().map_values(|p: Seq<char>| trimmed_text(p)).filter(
                    |p: Seq<char>| p.len() > 0,
                ));
            }
        } else {
            push_char(&mut current, c);
            proof {
                let next = split_text(input@.take(i + 1), ',');
                assert(next == parts.drop_last().push(parts.last().push(c)));
                assert(next.drop_last() =~= parts.drop_last());
            }
        }
        i = i + 1;
    }
    let ghost parts = split_text(input@, ',');
    assert(input@.take(n as int) =~= input@);
    proof {
        lemma_map_filter_push(parts.drop_last(), parts.last());
        assert(parts.drop_last().push(parts.last()) =~= parts);
    }
    let piece = trim_text(current.as_str());
    if piece.unicode_len() > 0 {
        out.push(piece);
    }
    proof {
        assert(out.deep_view() =~= csv_items(input@));
    }
    out
}

proof fn lemma_trim_start_first(s: Seq<char>)
    ensures
        trim_start_text(s).len() > 0 ==> !is_white_space(trim_start_text(s)[0]),
        trim_start_text(s).len() <= s.len(),
    decreases s.len(),
{
    if s.len() > 0 && is_white_space(s[0]) {
        lemma_trim_start_first(s.drop_first());
    }
}

proof fn lemma_trim_end_keeps_first(s: Seq<char>)
    ensures
        trim_end_text(s).len() > 0 ==> trim_end_text(s)[0] == s[0],
        trim_end_text(s).len() > 0 ==> !is_white_space(trim_end_text(s).last()),
    decreases s.len(),
{
    if s.len() > 0 && is_white_space(s.last()) {
        lemma_trim_end_keeps_first(s.drop_last());
    }
}

/// Every entry of a comma-separated list is non-empty and neither begins
/// nor ends with whitespace.
pub proof fn csv_items_are_trimmed(s: Seq<char>)
    ensures
        forall|i: int|
            0 <= i < csv_items(s).len() ==> {
                let item = #[trigger] csv_items(s)[i];
                &&& item.len() > 0
                &&& !is_white_space(item[0])
                &&& !is_white_space(item.last())
            },
{
    let f = |p: Seq<char>| trimmed_text(p);
    let keep = |p: Seq<char>| p.len() > 0;
    let parts = split_text(s, ',');
    let mapped = parts.map_values(f);
    assert forall|i: int| 0 <= i < csv_items(s).len() implies {
        let item = #[trigger] csv_items(s)[i];
        &&& item.len() > 0
        &&& !is_white_space(item[0])
        &&& !is_white_space(item.last())
    } by {
        let item = csv_items(s)[i];
        mapped.lemma_filter_pred(keep, i);
        assert(mapped.filter(keep).contains(item));
        mapped.lemma_filter_contains_rev(keep, item);
        let k = choose|k: int| 0 <= k < mapped.len() && mapped[k] == item;
        let p = parts[k];
        assert(item == trim_end_text(trim_start_text(p)));
        lemma_trim_start_first(p);
        lemma_trim_end_keeps_first(trim_start_text(p));
    }
}

proof fn lemma_split_concat(a: Seq<char>, b: Seq<char>)
    ensures
        split_text(a + seq![','] + b, ',') == split_text(a, ',') + split_text(b, ','),
    decreases b.len(),
{
    let c = a + seq![','] + b;
    if b.len() == 0 {
        assert(c.drop_last() =~= a);
        assert(split_text(a, ',').push(Seq::empty()) =~= split_text(a, ',') + split_text(b, ','));
    } else {
        lemma_split_concat(a, b.drop_last());
        lemma_split_nonempty(b.drop_last(), ',');
        assert(c.drop_last() =~= a + seq![','] + b.drop_last());
        assert(c.last() == b.last());
        let sa = split_text(a, ',');
        let sb = split_text(b.drop_last(), ',');
        if b.last() == ',' {
            assert((sa + sb).push(Seq::empty()) =~= sa + sb.push(Seq::empty()));
        } else {
            assert((sa + sb).drop_last() =~= sa + sb.drop_last());
            assert((sa + sb).last() == sb.last());
            assert((sa + sb).drop_last().push((sa + sb).last().push(b.last())) =~= sa + sb.drop_last().push(
                sb.last().push(b.last()),
            ));
        }
    }
}

proof fn lemma_split_without_separator(s: Seq<char>)
    requires
        !s.contains(','),
    ensures
        split_text(s, ',') == seq![s],
    decreases s.len(),
{
    if s.len() > 0 {
        let t = s.drop_last();
        assert(!t.contains(',')) by {
            if t.contains(',') {
                let k = choose|k: int| 0 <= k < t.len() && t[k] == ',';
                assert(s[k] == ',');
            }
        }
        lemma_split_without_separator(t);
        assert(s[s.len() - 1] != ',');
        assert(t.push(s.last()) =~= s);
        assert(seq![t].drop_last() =~= Seq::<Seq<char>>::empty());
        assert(seq![t].last() == t);
        assert(Seq::<Seq<char>>::empty().push(s) =~= seq![s]);
    } else {
        assert(s =~= Seq::<char>::empty());
    }
}

/// A comma splits a list into the entries before it followed by the
/// entries after it; a text without commas is one entry, its trimmed text,
/// unless that is empty.
pub proof fn csv_items_split_at_commas(a: Seq<char>, b: Seq<char>)
    ensures
        csv_items(a + seq![','] + b) == csv_items(a) + csv_items(b),
        !a.contains(',') ==> csv_items(a) == if trimmed_text(a).len() > 0 {
            seq![trimmed_text(a)]
        } else {
            Seq::<Seq<char>>::empty()
        },
{
    let f = |p: Seq<char>| trimmed_text(p);
    let keep = |p: Seq<char>| p.len() > 0;
    lemma_split_concat(a, b);
    let sa = split_text(a, ',');
    let sb = split_text(b, ',');
    assert((sa + sb).map_values(f) =~= sa.map_values(f) + sb.map_values(f));
    Seq::filter_distributes_over_add(sa.map_values(f), sb.map_values(f), keep);
    if !a.contains(',') {
        lemma_split_without_separator(a);
        reveal(Seq::filter);
        let m = seq![a].map_values(f);
        assert(m =~= Seq::<Seq<char>>::empty().push(trimmed_text(a)));
        assert(m.drop_last() =~= Seq::<Seq<char>>::empty());
        assert(Seq::<Seq<char>>::empty().filter(keep) =~= Seq::<Seq<char>>::empty());
    }
}

/// The badge text of an install state: its name, without any error
/// message.
pub open spec fn state_badge_text(s: InstallStateModel) -> Seq<char> {
    match s {
        InstallStateModel::NotInstalled => "NotInstalled"@,
        InstallStateModel::Installing => "Installing"@,
        InstallStateModel::Installed => "Installed"@,
        InstallStateModel::Updating => "Updating"@,
        InstallStateModel::Error(_) => "Error"@,
    }
}

/// The badge text shown on a skill card for its install state.
pub fn install_state_badge(state: &SkillInstallState) -> (r: String)
    ensures
        r@ == state_badge_text(state@),
{
    match state {
        SkillInstallState::NotInstalled => String::from_str("NotInstalled"),
        SkillInstallState::Installing => String::from_str("Installing"),
        SkillInstallState::Installed => String::from_str("Installed"),
        SkillInstallState::Updating => String::from_str("Updating"),
        SkillInstallState::Error(_) => String::from_str("Error"),
    }
}

/// The synchronisation records of one skill, in loaded order.
pub open spec fn records_of_skill(records: Seq<InstallRecordModel>, skill_id: Seq<char>) -> Seq<
    InstallRecordModel,
> {
    records.filter(|x: InstallRecordModel| x.skill_id == skill_id)
}

/// The synchronisation records shown on the page of the skill `skill_id`.
pub fn records_for_skill(records: &Vec<SkillInstallRecord>, skill_id: &String) -> (r: Vec<
    SkillInstallRecord,
>)
    ensures
        r.deep_view() == records_of_skill(records.deep_view(), skill_id@),
{
    let ghost keep = |x: InstallRecordModel| x.skill_id == skill_id@;
    let mut out: Vec<SkillInstallRecord> = Vec::new();
    let mut i: usize = 0;
    while i < records.len()
        invariant
            i <= records.len(),
            keep == (|x: InstallRecordModel| x.skill_id == skill_id@),
            out.deep_view() == records.deep_view().take(i as int).filter(keep),
        decreases records.len() - i,
    {
        proof {
            reveal(Seq::filter);
            assert(records.deep_view().take(i + 1).drop_last() =~= records.deep_view().take(
                i as int,
            ));
        }
        if records[i].skill_id == *skill_id {
            out.push(records[i].duplicate());
            assert(out.deep_view() =~= records.deep_view().take(i + 1).filter(keep));
        }
        i = i + 1;
    }
    assert(records.deep_view().take(records.len() as int) =~= records.deep_view());
    out
}

/// The records shown for a skill are exactly the loaded records of that
/// skill.
pub proof fn shown_records_are_those_of_the_skill(
    records: Seq<InstallRecordModel>,
    skill_id: Seq<char>,
)
    ensures
        forall|x: InstallRecordModel|
            #[trigger] records_of_skill(records, skill_id).contains(x) <==> (records.contains(x)
                && x.skill_id == skill_id),
        records_of_skill(records, skill_id).len() <= records.len(),
{
    let keep = |x: InstallRecordModel| x.skill_id == skill_id;
    records.lemma_filter_len(keep);
    assert forall|x: InstallRecordModel|
        #[trigger] records_of_skill(records, skill_id).contains(x) <==> (records.contains(x)
            && x.skill_id == skill_id) by {
        crate::local_fs_repo::lemma_filter_contains_iff(records, keep, x);
    }
}

} // verus!
