//! Analysis results and the verdict that reports them.
use crate::json::{json_text, optional, Json, ObjectWriter};
use crate::text::signed_decimal_of;
use vstd::prelude::*;

verus! {

/// Result of an analysis.
#[derive(Debug, PartialEq)]
pub enum AnalysisResult {
    Pass,
    Fail(String),
    Unknown(String),
}

/// An analysis result with its message as a sequence of characters.
pub enum Finding {
    Pass,
    Fail(Seq<char>),
    Unknown(Seq<char>),
}

impl View for AnalysisResult {
    type V = Finding;

    open spec fn view(&self) -> Finding {
        match *self {
            AnalysisResult::Pass => Finding::Pass,
            AnalysisResult::Fail(message) => Finding::Fail(message@),
            AnalysisResult::Unknown(reason) => Finding::Unknown(reason@),
        }
    }
}

impl Finding {
    /// A pass becomes unknown for the given reason; any other finding stays.
    pub open spec fn marked(self, reason: Seq<char>) -> Finding {
        if self is Pass {
            Finding::Unknown(reason)
        } else {
            self
        }
    }

    /// The word that names the finding in a verdict.
    pub open spec fn status(self) -> Seq<char> {
        match self {
            Finding::Pass => "pass"@,
            Finding::Fail(_) => "fail"@,
            Finding::Unknown(_) => "unknown"@,
        }
    }

    /// The exit code of the finding.
    pub open spec fn code(self) -> int {
        match self {
            Finding::Pass => 0,
            Finding::Fail(_) => 10,
            Finding::Unknown(_) => 20,
        }
    }

    /// The message of the finding in a verdict.
    pub open spec fn message(self) -> Seq<char> {
        match self {
            Finding::Pass => "Proved safe for all checked accesses."@,
            Finding::Fail(message) => message,
            Finding::Unknown(reason) => reason,
        }
    }
}

/// Turns a pass into unknown for the given reason; any other result stays.
pub fn mark_unknown(final_result: &mut AnalysisResult, reason: &str)
    ensures
        final(final_result)@ == old(final_result)@.marked(reason@),
{
    if matches!(*final_result, AnalysisResult::Pass) {
        *final_result = AnalysisResult::Unknown(reason.to_owned());
    }
}

/// Machine-readable report of one run.
pub struct Verdict<'a> {
    pub status: &'a str,
    pub code: i32,
    pub message: String,
    pub key_fingerprint: Option<String>,
    pub token_sha256: Option<String>,
    pub runtime_fallback: String,
    pub hitl_mode: String,
    pub hitl_seen_vcs: usize,
    pub hitl_blocked_vcs: usize,
    pub hitl_seen_classes: usize,
    pub hitl_blocked_classes: usize,
    pub inline_asm_vcs: usize,
    pub dma_vcs: usize,
    pub irq_race_vcs: usize,
}

impl<'a> Verdict<'a> {
    /// The members of the verdict, in order.
    pub open spec fn members(self) -> Seq<(Seq<char>, Json)> {
        seq![
            ("status"@, Json::Text(self.status@)),
            ("code"@, Json::Number(self.code as int)),
            ("message"@, Json::Text(self.message@)),
            ("key_fingerprint"@, optional(self.key_fingerprint)),
            ("token_sha256"@, optional(self.token_sha256)),
            ("runtime_fallback"@, Json::Text(self.runtime_fallback@)),
            ("hitl_mode"@, Json::Text(self.hitl_mode@)),
            ("hitl_seen_vcs"@, Json::Number(self.hitl_seen_vcs as int)),
            ("hitl_blocked_vcs"@, Json::Number(self.hitl_blocked_vcs as int)),
            ("hitl_seen_classes"@, Json::Number(self.hitl_seen_classes as int)),
            ("hitl_blocked_classes"@, Json::Number(self.hitl_blocked_classes as int)),
            ("inline_asm_vcs"@, Json::Number(self.inline_asm_vcs as int)),
            ("dma_vcs"@, Json::Number(self.dma_vcs as int)),
            ("irq_race_vcs"@, Json::Number(self.irq_race_vcs as int)),
        ]
    }

    /// The verdict as one JSON object.
    pub open spec fn json(self) -> Seq<char> {
        json_text(Json::Object(self.members()))
    }

    /// The verdict as one JSON object.
    pub fn to_json(&self) -> (r: String)
        ensures
            r@ == self.json(),
    {
        let mut w: ObjectWriter = ObjectWriter::new();
        w.put_text("status", self.status);
        w.put(
            "code",
            signed_decimal_of(self.code).as_str(),
            Ghost(Json::Number(self.code as int)),
        );
        w.put_text("message", self.message.as_str());
        w.put_optional("key_fingerprint", &self.key_fingerprint);
        w.put_optional("token_sha256", &self.token_sha256);
        w.put_text("runtime_fallback", self.runtime_fallback.as_str());
        w.put_text("hitl_mode", self.hitl_mode.as_str());
        w.put_number("hitl_seen_vcs", self.hitl_seen_vcs);
        w.put_number("hitl_blocked_vcs", self.hitl_blocked_vcs);
        w.put_number("hitl_seen_classes", self.hitl_seen_classes);
        w.put_number("hitl_blocked_classes", self.hitl_blocked_classes);
        w.put_number("inline_asm_vcs", self.inline_asm_vcs);
        w.put_number("dma_vcs", self.dma_vcs);
        w.put_number("irq_race_vcs", self.irq_race_vcs);
        assert(w.members() =~= self.members());
        w.finish()
    }
}

/// Puts a result and the counters of a run into a verdict.
pub fn verdict_from_result(
    result: AnalysisResult,
    key_fingerprint: Option<String>,
    token_sha256: Option<String>,
    runtime_fallback: String,
    hitl_mode: String,
    hitl_seen_vcs: usize,
    hitl_blocked_vcs: usize,
    hitl_seen_classes: usize,
    hitl_blocked_classes: usize,
    inline_asm_vcs: usize,
    dma_vcs: usize,
    irq_race_vcs: usize,
) -> (v: Verdict<'static>)
    ensures
        v.status@ == result@.status(),
        v.code == result@.code(),
        v.message@ == result@.message(),
        v.key_fingerprint == key_fingerprint,
        v.token_sha256 == token_sha256,
        v.runtime_fallback == runtime_fallback,
        v.hitl_mode == hitl_mode,
        v.hitl_seen_vcs == hitl_seen_vcs,
        v.hitl_blocked_vcs == hitl_blocked_vcs,
        v.hitl_seen_classes == hitl_seen_classes,
        v.hitl_blocked_classes == hitl_blocked_classes,
        v.inline_asm_vcs == inline_asm_vcs,
        v.dma_vcs == dma_vcs,
        v.irq_race_vcs == irq_race_vcs,
{
    let (status, code, message): (&'static str, i32, String) = match result {
        AnalysisResult::Pass => ("pass", 0, "Proved safe for all checked accesses.".to_owned()),
        AnalysisResult::Fail(message) => ("fail", 10, message),
        AnalysisResult::Unknown(reason) => ("unknown", 20, reason),
    };
    Verdict {
        status,
        code,
        message,
        key_fingerprint,
        token_sha256,
        runtime_fallback,
        hitl_mode,
        hitl_seen_vcs,
        hitl_blocked_vcs,
        hitl_seen_classes,
        hitl_blocked_classes,
        inline_asm_vcs,
        dma_vcs,
        irq_race_vcs,
    }
}

/// The exit code tells the status: 0 is a pass, 10 a failure, 20 unknown, and
/// nothing else comes.
pub proof fn law_code_tells_status(finding: Finding)
    ensures
        finding.code() == 0 <==> finding is Pass,
        finding.code() == 10 <==> finding is Fail,
        finding.code() == 20 <==> finding is Unknown,
        finding.code() == 0 || finding.code() == 10 || finding.code() == 20,
{
}

} // verus!
