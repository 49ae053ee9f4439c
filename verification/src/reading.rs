//! What is written can be read back: lists of approvals, verdicts and reports.
pub mod outputs;
pub mod texts;

use crate::catalog::{catalog_members, with_newlines};
use crate::hitl::{
    class_vcs, entries, gate_members, gate_report, is_entry, lemma_contains_push, members_of,
    paired, summary_members, GateState,
};
use crate::json::{json_text, law_json_reads_back, read_value, Json};
use crate::modes::RingMode;
use crate::order::law_sorted_distinct;
use crate::report::{doctor_members, template_json, template_members, Check};
use crate::text::{lines, sorted_distinct, trimmed};
use crate::verdict::Verdict;
use vstd::prelude::*;

verus! {

pub(crate) proof fn lemma_lines_extend(x: Seq<char>, y: Seq<char>)
    requires
        !y.contains('\n'),
    ensures
        lines(x).len() > 0,
        lines(x + y) == lines(x).drop_last().push(lines(x).last() + y),
    decreases x.len() + y.len(),
{
    if y.len() == 0 {
        assert(x + y =~= x);
        if x.len() > 0 {
            lemma_lines_extend(x.drop_last(), y);
        }
        assert(lines(x).last() + y =~= lines(x).last());
        assert(lines(x) =~= lines(x).drop_last().push(lines(x).last()));
    } else {
        let z = x + y;
        assert(y.contains(y[y.len() - 1]));
        assert forall|c: char| y.drop_last().contains(c) implies y.contains(c) by {
            let k = choose|k: int| 0 <= k < y.drop_last().len() && y.drop_last()[k] == c;
            assert(y[k] == c);
        }
        lemma_lines_extend(x, y.drop_last());
        assert(z.drop_last() =~= x + y.drop_last());
        let before = lines(x + y.drop_last());
        assert(before.drop_last() =~= lines(x).drop_last());
        assert(before.last().push(y.last()) =~= lines(x).last() + y);
    }
}

/// A list with one entry to a line has these lines and an empty one at its end.
pub(crate) proof fn lemma_lines_of_list(ids: Seq<Seq<char>>)
    requires
        forall|k: int| 0 <= k < ids.len() ==> !(#[trigger] ids[k]).contains('\n'),
    ensures
        lines(with_newlines(ids)) == ids.push(Seq::empty()),
    decreases ids.len(),
{
    reveal_strlit("\n");
    let text = with_newlines(ids);
    if ids.len() == 0 {
        assert(lines(text) =~= ids.push(Seq::empty()));
    } else {
        let head = with_newlines(ids.drop_last());
        lemma_lines_of_list(ids.drop_last());
        lemma_lines_extend(head, ids.last());
        let line = head + ids.last();
        assert(lines(head).last() + ids.last() =~= ids.last());
        assert(lines(line) =~= ids);
        assert(text.drop_last() =~= line);
        assert(text.last() == '\n');
        assert(lines(text) =~= ids.push(Seq::empty()));
    }
}

/// A file with one approval to a line gives these approvals: entries without
/// white space around them that are no comments.
pub proof fn law_approvals_read_back(ids: Seq<Seq<char>>)
    requires
        forall|k: int|
            0 <= k < ids.len() ==> {
                &&& is_entry(#[trigger] ids[k])
                &&& trimmed(ids[k]) == ids[k]
                &&& !ids[k].contains('\n')
            },
    ensures
        entries(lines(with_newlines(ids))) == ids.to_set(),
{
    lemma_lines_of_list(ids);
    let all = ids.push(Seq::empty());
    assert forall|id: Seq<char>| entries(all).contains(id) == ids.to_set().contains(id) by {
        if entries(all).contains(id) {
            let k = choose|k: int| 0 <= k < all.len() && trimmed(#[trigger] all[k]) == id;
            if k < ids.len() {
                assert(ids[k] == id);
            } else {
                assert(trimmed(all[k]) =~= Seq::empty());
            }
        }
        if ids.contains(id) {
            let k = choose|k: int| 0 <= k < ids.len() && ids[k] == id;
            assert(trimmed(all[k]) == id);
        }
    }
    assert(entries(all) =~= ids.to_set());
}

// ---- JSON ----

proof fn lemma_reads_whole(value: Json)
    ensures
        read_value(json_text(value)) == Some((value, Seq::<char>::empty())),
{
    law_json_reads_back(value, Seq::empty());
    assert(json_text(value) + Seq::<char>::empty() =~= json_text(value));
}

/// A verdict is one JSON object and reads back member by member, whatever its
/// texts hold: the message as it is, and `null` for what is not there.
pub proof fn law_verdict_reads_back(verdict: Verdict)
    ensures
        read_value(verdict.json()) == Some(
            (Json::Object(verdict.members()), Seq::<char>::empty()),
        ),
{
    lemma_reads_whole(Json::Object(verdict.members()));
}

/// The report of a gate and the summary of its classes are JSON objects, each on
/// a line of its own.
pub proof fn law_reports_read_back(gate: GateState)
    ensures
        read_value(gate_report(gate)) == Some((Json::Object(gate_members(gate)), "\n"@)),
        read_value(json_text(Json::Object(summary_members(gate))) + "\n"@) == Some(
            (Json::Object(summary_members(gate)), "\n"@),
        ),
{
    reveal_strlit("\n");
    law_json_reads_back(Json::Object(gate_members(gate)), "\n"@);
    law_json_reads_back(Json::Object(summary_members(gate)), "\n"@);
}

/// The inventory, the diagnostics and the token templates are JSON objects.
pub proof fn law_other_output_reads_back(checks: Seq<Check>, ring: RingMode)
    ensures
        read_value(json_text(Json::Object(catalog_members()))) == Some(
            (Json::Object(catalog_members()), Seq::<char>::empty()),
        ),
        read_value(json_text(Json::Object(doctor_members(checks))) + "\n"@) == Some(
            (Json::Object(doctor_members(checks)), "\n"@),
        ),
        read_value(template_json(ring)) == Some((Json::Object(template_members(ring)), "\n"@)),
{
    reveal_strlit("\n");
    lemma_reads_whole(Json::Object(catalog_members()));
    law_json_reads_back(Json::Object(doctor_members(checks)), "\n"@);
    law_json_reads_back(Json::Object(template_members(ring)), "\n"@);
}

// ---- equivalence classes ----

proof fn lemma_members_of(
    seen: Seq<Seq<char>>,
    classes: Seq<Seq<char>>,
    class: Seq<char>,
    n: nat,
    vc: Seq<char>,
)
    requires
        n <= seen.len(),
        n <= classes.len(),
    ensures
        members_of(seen, classes, class, n).contains(vc) <==> exists|k: int|
            0 <= k < n && classes[k] == class && #[trigger] seen[k] == vc,
    decreases n,
{
    if n > 0 {
        let before = members_of(seen, classes, class, (n - 1) as nat);
        lemma_members_of(seen, classes, class, (n - 1) as nat, vc);
        lemma_contains_push(before, seen[n - 1]);
        if members_of(seen, classes, class, n).contains(vc) && !before.contains(vc) {
            let all = before.push(seen[n - 1]);
            let k = choose|k: int| 0 <= k < all.len() && all[k] == vc;
            assert(k == before.len()) by {
                if k < before.len() {
                    assert(before[k] == vc);
                }
            }
            assert(seen[n - 1] == vc);
        }
        if exists|k: int| 0 <= k < n && classes[k] == class && #[trigger] seen[k] == vc {
            let k = choose|k: int| 0 <= k < n && classes[k] == class && #[trigger] seen[k] == vc;
            if k < n - 1 {
                assert(before.contains(vc));
            }
        }
    }
}

/// The group of a class lists exactly the VCs that were seen in it.
pub proof fn law_group_lists_its_class(gate: GateState, class: Seq<char>, vc: Seq<char>)
    ensures
        class_vcs(gate, class).contains(vc) <==> exists|k: int|
            0 <= k < paired(gate) && gate.seen_classes[k] == class && #[trigger] gate.seen[k] == vc,
{
    let members = members_of(gate.seen, gate.seen_classes, class, paired(gate));
    lemma_members_of(gate.seen, gate.seen_classes, class, paired(gate), vc);
    law_sorted_distinct(members);
    assert(members.to_set().contains(vc) == members.contains(vc));
    assert(sorted_distinct(members).to_set().contains(vc) == sorted_distinct(members).contains(vc));
}

/// Every class that was seen has one group.
pub proof fn law_every_class_has_a_group(gate: GateState, k: int)
    requires
        0 <= k < gate.seen_classes.len(),
    ensures
        sorted_distinct(gate.seen_classes).contains(gate.seen_classes[k]),
        sorted_distinct(gate.seen_classes).no_duplicates(),
{
    law_sorted_distinct(gate.seen_classes);
    let class = gate.seen_classes[k];
    assert(gate.seen_classes.to_set().contains(class));
    assert(sorted_distinct(gate.seen_classes).to_set().contains(class));
}

} // verus!
