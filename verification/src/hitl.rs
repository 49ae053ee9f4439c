//! The human-in-the-loop gate: which verification conditions (VCs) may reach
//! the solver, and the record of those that were seen and blocked.
use crate::json::{json_text, text_list, write_text_list, Json, ListWriter, ObjectWriter};
use crate::modes::HitlMode;
use crate::sets::StringSet;
use crate::text::{
    decimal, decimal_of, lines, same_text, sort_distinct, sorted_distinct, split_lines, texts, trim,
    trimmed,
};
use crate::verdict::{AnalysisResult, Finding};
use vstd::prelude::*;

verus! {

/// Gate in front of the solver.
pub struct HitlGate {
    pub mode: HitlMode,
    pub approved: StringSet,
    pub approved_classes: StringSet,
    pub seen: Vec<String>,
    pub blocked: Vec<String>,
    pub seen_classes: Vec<String>,
    pub blocked_classes: Vec<String>,
}

/// The contents of a gate.
pub struct GateState {
    pub mode: HitlMode,
    pub approved: Set<Seq<char>>,
    pub approved_classes: Set<Seq<char>>,
    pub seen: Seq<Seq<char>>,
    pub blocked: Seq<Seq<char>>,
    pub seen_classes: Seq<Seq<char>>,
    pub blocked_classes: Seq<Seq<char>>,
}

impl View for HitlGate {
    type V = GateState;

    open spec fn view(&self) -> GateState {
        GateState {
            mode: self.mode,
            approved: self.approved@,
            approved_classes: self.approved_classes@,
            seen: texts(self.seen@),
            blocked: texts(self.blocked@),
            seen_classes: texts(self.seen_classes@),
            blocked_classes: texts(self.blocked_classes@),
        }
    }
}

impl GateState {
    /// A VC may reach the solver when the mode is off, or when the VC or its
    /// class is approved.
    pub open spec fn admits(self, vc: Seq<char>, class: Seq<char>) -> bool {
        self.mode is Off || self.approved.contains(vc) || self.approved_classes.contains(class)
    }

    /// The state after a VC was put: every VC is recorded as seen, and as
    /// blocked where it is not admitted.
    pub open spec fn after(self, vc: Seq<char>, class: Seq<char>) -> GateState {
        if self.admits(vc, class) {
            GateState {
                seen: self.seen.push(vc),
                seen_classes: self.seen_classes.push(class),
                ..self
            }
        } else {
            GateState {
                seen: self.seen.push(vc),
                seen_classes: self.seen_classes.push(class),
                blocked: self.blocked.push(vc),
                blocked_classes: self.blocked_classes.push(class),
                ..self
            }
        }
    }
}

impl GateState {
    /// The records agree with each other and with the approvals: every VC has a
    /// class, what is blocked was seen and is not admitted, and what was seen is
    /// admitted or blocked.
    pub open spec fn orderly(self) -> bool {
        &&& self.seen.len() == self.seen_classes.len()
        &&& self.blocked.len() == self.blocked_classes.len()
        &&& forall|k: int|
            0 <= k < self.blocked.len() ==> {
                &&& !self.admits(#[trigger] self.blocked[k], self.blocked_classes[k])
                &&& self.seen.contains(self.blocked[k])
                &&& self.seen_classes.contains(self.blocked_classes[k])
            }
        &&& forall|k: int|
            0 <= k < self.seen.len() ==> self.admits(#[trigger] self.seen[k], self.seen_classes[k])
                || self.blocked.contains(self.seen[k])
    }
}

/// A record keeps its entries as it grows.
pub proof fn lemma_contains_push(s: Seq<Seq<char>>, x: Seq<char>)
    ensures
        s.push(x).contains(x),
        forall|y: Seq<char>| s.contains(y) ==> #[trigger] s.push(x).contains(y),
{
    let t = s.push(x);
    assert(t[s.len() as int] == x);
    assert forall|y: Seq<char>| s.contains(y) implies #[trigger] t.contains(y) by {
        let k = choose|k: int| 0 <= k < s.len() && s[k] == y;
        assert(t[k] == y);
    }
}

impl GateState {
    /// Putting a VC keeps the records in order.
    pub proof fn law_after_orderly(self, vc: Seq<char>, class: Seq<char>)
        requires
            self.orderly(),
        ensures
            self.after(vc, class).orderly(),
    {
        let next = self.after(vc, class);
        lemma_contains_push(self.seen, vc);
        lemma_contains_push(self.seen_classes, class);
        lemma_contains_push(self.blocked, vc);
        lemma_contains_push(self.blocked_classes, class);
        assert forall|k: int| 0 <= k < next.blocked.len() implies {
            &&& !next.admits(#[trigger] next.blocked[k], next.blocked_classes[k])
            &&& next.seen.contains(next.blocked[k])
            &&& next.seen_classes.contains(next.blocked_classes[k])
        } by {
            if k < self.blocked.len() {
                assert(next.blocked[k] == self.blocked[k]);
            }
        }
        assert forall|k: int| 0 <= k < next.seen.len() implies next.admits(
            #[trigger] next.seen[k],
            next.seen_classes[k],
        ) || next.blocked.contains(next.seen[k]) by {
            if k < self.seen.len() {
                assert(next.seen[k] == self.seen[k]);
            }
        }
    }
}

impl HitlGate {
    /// Records a VC and tells whether it may reach the solver.
    pub fn should_run_solver(&mut self, vc_id: &str, vc_class: &str) -> (run: bool)
        ensures
            run == old(self)@.admits(vc_id@, vc_class@),
            final(self)@ == old(self)@.after(vc_id@, vc_class@),
    {
        self.seen.push(vc_id.to_owned());
        self.seen_classes.push(vc_class.to_owned());
        assert(texts(self.seen@) =~= texts(old(self).seen@).push(vc_id@));
        assert(texts(self.seen_classes@) =~= texts(old(self).seen_classes@).push(vc_class@));
        if matches!(self.mode, HitlMode::Off) {
            return true;
        }
        if self.approved.contains(vc_id) || self.approved_classes.contains(vc_class) {
            true
        } else {
            self.blocked.push(vc_id.to_owned());
            self.blocked_classes.push(vc_class.to_owned());
            assert(texts(self.blocked@) =~= texts(old(self).blocked@).push(vc_id@));
            assert(texts(self.blocked_classes@) =~= texts(old(self).blocked_classes@).push(
                vc_class@,
            ));
            false
        }
    }
}

/// The identifier of a VC: where it arises and what it is about.
pub open spec fn vc_text(function: Seq<char>, bb: nat, instr: nat, kind: Seq<char>) -> Seq<char> {
    function + "::bb"@ + decimal(bb) + "::i"@ + decimal(instr) + "::"@ + kind
}

/// The identifier of a VC: where it arises and what it is about.
pub fn vc_id(function_name: &str, bb_idx: usize, instr_idx: usize, kind: &str) -> (r: String)
    ensures
        r@ == vc_text(function_name@, bb_idx as nat, instr_idx as nat, kind@),
{
    let mut r: String = function_name.to_owned();
    r.append("::bb");
    r.append(decimal_of(bb_idx as u64).as_str());
    r.append("::i");
    r.append(decimal_of(instr_idx as u64).as_str());
    r.append("::");
    r.append(kind);
    r
}

/// The class of VCs of one kind and access size.
pub open spec fn vc_class_text(kind: Seq<char>, access_size: nat) -> Seq<char> {
    "class::"@ + kind + "::size"@ + decimal(access_size)
}

/// The class of VCs of one kind and access size.
pub fn vc_class_id(kind: &str, access_size: u64) -> (r: String)
    ensures
        r@ == vc_class_text(kind@, access_size as nat),
{
    let mut r: String = "class::".to_owned();
    r.append(kind);
    r.append("::size");
    r.append(decimal_of(access_size).as_str());
    r
}

/// Tells whether a trimmed line names an approval: it is neither empty nor a comment.
pub open spec fn is_entry(line: Seq<char>) -> bool {
    line.len() > 0 && line[0] != '#'
}

/// The approvals among the given lines.
pub open spec fn entries(all: Seq<Seq<char>>) -> Set<Seq<char>> {
    Set::new(
        |id: Seq<char>|
            is_entry(id) && exists|i: int| 0 <= i < all.len() && trimmed(#[trigger] all[i]) == id,
    )
}

/// The approvals that a newline-delimited text lists: each line trimmed, empty
/// lines and lines that begin with `#` left out.
pub fn load_hitl_approvals(raw: &str) -> (r: StringSet)
    ensures
        r@ == entries(lines(raw@)),
{
    let all: Vec<String> = split_lines(raw);
    let mut out: StringSet = StringSet::new();
    let mut i: usize = 0;
    assert(out@ =~= entries(texts(all@).take(0)));
    while i < all.len()
        invariant
            i <= all.len(),
            out@ == entries(texts(all@).take(i as int)),
        decreases all.len() - i,
    {
        let trimmed_line: &str = trim(all[i].as_str());
        proof {
            let before = texts(all@).take(i as int);
            let now = texts(all@).take(i + 1);
            assert(now =~= before.push(all[i as int]@));
            assert forall|id: Seq<char>| #[trigger]
                entries(now).contains(id) == (entries(before).contains(id) || (is_entry(id)
                    && id == trimmed_line@)) by {
                if entries(before).contains(id) {
                    let k = choose|k: int| 0 <= k < before.len() && trimmed(#[trigger] before[k]) == id;
                    assert(now[k] == before[k]);
                }
                if is_entry(id) && id == trimmed_line@ {
                    assert(trimmed(now[i as int]) == id);
                }
            }
        }
        if !trimmed_line.is_empty() && trimmed_line.get_char(0) != '#' {
            out.insert(trimmed_line.to_owned());
            assert(out@ =~= entries(texts(all@).take(i + 1)));
        } else {
            assert(out@ =~= entries(texts(all@).take(i + 1)));
        }
        i = i + 1;
    }
    assert(texts(all@).take(i as int) =~= texts(all@));
    out
}

/// The report of a gate: the distinct VCs and classes that it saw and blocked,
/// each list sorted, with their numbers.
pub open spec fn gate_members(gate: GateState) -> Seq<(Seq<char>, Json)> {
    let seen = sorted_distinct(gate.seen);
    let blocked = sorted_distinct(gate.blocked);
    let seen_classes = sorted_distinct(gate.seen_classes);
    let blocked_classes = sorted_distinct(gate.blocked_classes);
    seq![
        ("hitl_mode"@, Json::Text(gate.mode.spec_label())),
        ("seen_count"@, Json::Number(seen.len() as int)),
        ("blocked_count"@, Json::Number(blocked.len() as int)),
        ("seen_class_count"@, Json::Number(seen_classes.len() as int)),
        ("blocked_class_count"@, Json::Number(blocked_classes.len() as int)),
        ("seen_vcs"@, text_list(seen)),
        ("blocked_vcs"@, text_list(blocked)),
        ("seen_classes"@, text_list(seen_classes)),
        ("blocked_classes"@, text_list(blocked_classes)),
    ]
}

/// The report of a gate: one JSON object on a line.
pub open spec fn gate_report(gate: GateState) -> Seq<char> {
    json_text(Json::Object(gate_members(gate))) + "\n"@
}

/// The report of a gate: one JSON object on a line.
pub fn emit_hitl_vcs(gate: &HitlGate) -> (r: String)
    ensures
        r@ == gate_report(gate@),
{
    let seen: Vec<String> = sort_distinct(&gate.seen);
    let blocked: Vec<String> = sort_distinct(&gate.blocked);
    let seen_classes: Vec<String> = sort_distinct(&gate.seen_classes);
    let blocked_classes: Vec<String> = sort_distinct(&gate.blocked_classes);
    proof {
        assert(seen@.len() == texts(seen@).len());
        assert(blocked@.len() == texts(blocked@).len());
        assert(seen_classes@.len() == texts(seen_classes@).len());
        assert(blocked_classes@.len() == texts(blocked_classes@).len());
    }
    let mut w: ObjectWriter = ObjectWriter::new();
    w.put_text("hitl_mode", gate.mode.label());
    w.put_number("seen_count", seen.len());
    w.put_number("blocked_count", blocked.len());
    w.put_number("seen_class_count", seen_classes.len());
    w.put_number("blocked_class_count", blocked_classes.len());
    w.put("seen_vcs", write_text_list(&seen).as_str(), Ghost(text_list(texts(seen@))));
    w.put("blocked_vcs", write_text_list(&blocked).as_str(), Ghost(text_list(texts(blocked@))));
    w.put(
        "seen_classes",
        write_text_list(&seen_classes).as_str(),
        Ghost(text_list(texts(seen_classes@))),
    );
    w.put(
        "blocked_classes",
        write_text_list(&blocked_classes).as_str(),
        Ghost(text_list(texts(blocked_classes@))),
    );
    assert(w.members() =~= gate_members(gate@));
    let mut r: String = w.finish();
    r.append("\n");
    r
}

// ---- equivalence classes ----

/// The VCs of a class among the first `n` records.
pub open spec fn members_of(
    seen: Seq<Seq<char>>,
    classes: Seq<Seq<char>>,
    class: Seq<char>,
    n: nat,
) -> Seq<Seq<char>>
    decreases n,
{
    if n == 0 {
        Seq::empty()
    } else {
        let before = members_of(seen, classes, class, (n - 1) as nat);
        if classes[n - 1] == class {
            before.push(seen[n - 1])
        } else {
            before
        }
    }
}

/// The number of records that have both a VC and a class.
pub open spec fn paired(gate: GateState) -> nat {
    if gate.seen.len() < gate.seen_classes.len() {
        gate.seen.len()
    } else {
        gate.seen_classes.len()
    }
}

/// The distinct VCs that were seen in a class, sorted.
pub open spec fn class_vcs(gate: GateState, class: Seq<char>) -> Seq<Seq<char>> {
    sorted_distinct(members_of(gate.seen, gate.seen_classes, class, paired(gate)))
}

/// A class with the number of its VCs and their list.
pub open spec fn class_group(gate: GateState, class: Seq<char>) -> Json {
    Json::Object(
        seq![
            ("class"@, Json::Text(class)),
            ("count"@, Json::Number(class_vcs(gate, class).len() as int)),
            ("vcs"@, text_list(class_vcs(gate, class))),
        ],
    )
}

/// The classes that were seen, sorted, each with the number and the list of its
/// VCs.
pub open spec fn summary_members(gate: GateState) -> Seq<(Seq<char>, Json)> {
    let classes = sorted_distinct(gate.seen_classes);
    seq![
        ("class_count"@, Json::Number(classes.len() as int)),
        ("classes"@, Json::List(classes.map_values(|c: Seq<char>| class_group(gate, c)))),
    ]
}

fn write_group(gate: &HitlGate, class: &str) -> (r: String)
    ensures
        r@ == json_text(class_group(gate@, class@)),
{
    let mut members: Vec<String> = Vec::new();
    let mut i: usize = 0;
    assert(texts(members@) =~= Seq::empty());
    while i < gate.seen.len() && i < gate.seen_classes.len()
        invariant
            i <= gate.seen.len(),
            i <= gate.seen_classes.len(),
            texts(members@) == members_of(gate@.seen, gate@.seen_classes, class@, i as nat),
        decreases gate.seen.len() - i,
    {
        let ghost before = texts(members@);
        if same_text(gate.seen_classes[i].as_str(), class) {
            members.push(gate.seen[i].clone());
            assert(texts(members@) =~= before.push(gate@.seen[i as int]));
        }
        i = i + 1;
    }
    assert(i as nat == paired(gate@));
    let vcs: Vec<String> = sort_distinct(&members);
    assert(vcs@.len() == texts(vcs@).len());
    let mut w: ObjectWriter = ObjectWriter::new();
    w.put_text("class", class);
    w.put_number("count", vcs.len());
    w.put("vcs", write_text_list(&vcs).as_str(), Ghost(text_list(texts(vcs@))));
    assert(Json::Object(w.members()) == class_group(gate@, class@)) by {
        assert(w.members() =~= seq![
            ("class"@, Json::Text(class@)),
            ("count"@, Json::Number(class_vcs(gate@, class@).len() as int)),
            ("vcs"@, text_list(class_vcs(gate@, class@))),
        ]);
    }
    w.finish()
}

/// The summary of equivalence classes: one JSON object on a line. Every class
/// that was seen has a group with the number and the sorted list of its VCs.
pub fn equiv_summary(gate: &HitlGate) -> (r: String)
    ensures
        r@ == json_text(Json::Object(summary_members(gate@))) + "\n"@,
{
    let classes: Vec<String> = sort_distinct(&gate.seen_classes);
    let ghost view = texts(classes@);
    assert(classes@.len() == view.len());
    let mut list: ListWriter = ListWriter::new();
    let mut i: usize = 0;
    while i < classes.len()
        invariant
            i <= classes.len(),
            view == texts(classes@),
            list.valid(),
            list.items().len() == i,
            forall|k: int| 0 <= k < i ==> #[trigger] list.items()[k] == class_group(gate@, view[k]),
        decreases classes.len() - i,
    {
        let class: &str = classes[i].as_str();
        assert(view[i as int] == class@);
        list.put(write_group(gate, class).as_str(), Ghost(class_group(gate@, class@)));
        i = i + 1;
    }
    assert(list.items() =~= view.map_values(|c: Seq<char>| class_group(gate@, c)));
    let ghost groups = Json::List(list.items());
    let text: String = list.finish();
    let mut w: ObjectWriter = ObjectWriter::new();
    w.put_number("class_count", classes.len());
    w.put("classes", text.as_str(), Ghost(groups));
    assert(w.members() =~= summary_members(gate@));
    let mut r: String = w.finish();
    r.append("\n");
    r
}

/// The result under the HITL policy: in require mode any blocked VC makes it fail.
pub open spec fn enforced(result: Finding, mode: HitlMode, blocked_vcs: nat) -> Finding {
    if mode is Require && blocked_vcs > 0 {
        Finding::Fail(
            "HITL require mode rejected "@ + decimal(blocked_vcs)
                + " unapproved verification condition(s)"@,
        )
    } else {
        result
    }
}

/// Makes the result fail where approval is required and a VC was blocked.
pub fn enforce_hitl_policy(
    result: AnalysisResult,
    mode: HitlMode,
    blocked_vcs: usize,
) -> (r: AnalysisResult)
    ensures
        r@ == enforced(result@, mode, blocked_vcs as nat),
{
    if matches!(mode, HitlMode::Require) && blocked_vcs > 0 {
        let mut message: String = "HITL require mode rejected ".to_owned();
        message.append(decimal_of(blocked_vcs as u64).as_str());
        message.append(" unapproved verification condition(s)");
        return AnalysisResult::Fail(message);
    }
    result
}

} // verus!
