//! Bound checks put to the SMT solver.
use crate::hitl::HitlGate;
use vstd::prelude::*;
use z3::ast::{Bool, Int};
use z3::{SatResult, Solver};

verus! {

/// The sum of a sequence of numbers.
pub open spec fn total(s: Seq<u64>) -> int
    decreases s.len(),
{
    if s.len() == 0 {
        0
    } else {
        total(s.drop_last()) + s.last()
    }
}

proof fn lemma_total_concat(a: Seq<u64>, b: Seq<u64>)
    ensures
        total(a + b) == total(a) + total(b),
    decreases b.len(),
{
    if b.len() == 0 {
        assert(a + b =~= a);
    } else {
        assert((a + b).drop_last() =~= a + b.drop_last());
        lemma_total_concat(a, b.drop_last());
    }
}

/// An integer term for the solver: a sum of unsigned constants less another
/// such sum. The value has no bound.
#[derive(Debug)]
pub struct Term {
    added: Vec<u64>,
    subtracted: Vec<u64>,
}

impl View for Term {
    type V = int;

    closed spec fn view(&self) -> int {
        total(self.added@) - total(self.subtracted@)
    }
}

fn joined(a: &Vec<u64>, b: &Vec<u64>) -> (r: Vec<u64>)
    ensures
        r@ == a@ + b@,
{
    let mut r: Vec<u64> = Vec::new();
    let mut i: usize = 0;
    while i < a.len()
        invariant
            i <= a.len(),
            r@ == a@.take(i as int),
        decreases a.len() - i,
    {
        r.push(a[i]);
        i = i + 1;
    }
    let mut j: usize = 0;
    while j < b.len()
        invariant
            j <= b.len(),
            r@ == a@ + b@.take(j as int),
        decreases b.len() - j,
    {
        r.push(b[j]);
        j = j + 1;
    }
    assert(r@ =~= a@ + b@);
    r
}

impl Clone for Term {
    fn clone(&self) -> (r: Term)
        ensures
            r@ == self@,
    {
        Term { added: self.added.clone(), subtracted: self.subtracted.clone() }
    }
}

impl Term {
    /// The constant `value`.
    pub fn from_u64(value: u64) -> (r: Term)
        ensures
            r@ == value,
    {
        let mut added: Vec<u64> = Vec::new();
        added.push(value);
        proof {
            reveal_with_fuel(total, 2);
            assert(added@.drop_last() =~= Seq::empty());
        }
        Term { added, subtracted: Vec::new() }
    }

    /// `self + other`.
    pub fn plus(&self, other: &Term) -> (r: Term)
        ensures
            r@ == self@ + other@,
    {
        proof {
            lemma_total_concat(self.added@, other.added@);
            lemma_total_concat(self.subtracted@, other.subtracted@);
        }
        Term {
            added: joined(&self.added, &other.added),
            subtracted: joined(&self.subtracted, &other.subtracted),
        }
    }

    /// `self - other`.
    pub fn minus(&self, other: &Term) -> (r: Term)
        ensures
            r@ == self@ - other@,
    {
        proof {
            lemma_total_concat(self.added@, other.subtracted@);
            lemma_total_concat(self.subtracted@, other.added@);
        }
        Term {
            added: joined(&self.added, &other.subtracted),
            subtracted: joined(&self.subtracted, &other.added),
        }
    }
}

/// The statement that one term exceeds another.
#[derive(Debug)]
pub struct Exceeds {
    pub greater: Term,
    pub lesser: Term,
}

impl Exceeds {
    pub open spec fn holds(self) -> bool {
        self.greater@ > self.lesser@
    }
}

/// Answer of the solver.
#[derive(Copy, Clone, Debug, PartialEq, Eq, Structural)]
pub enum SolverAnswer {
    Sat,
    Unsat,
    Unknown,
}

/// Asks Z3 whether one of two comparisons holds.
///
/// Builds both with `Int::from_u64`, `+`, `-` and `Int::gt`, joins them with
/// `Bool::or`, asserts the result in a fresh `Solver` and returns what
/// `Solver::check` answers. The formula has no variables, so `Sat` means that it
/// is true and `Unsat` that it is false. `Unknown` may come on any formula: the
/// query was interrupted, timed out or failed.
#[verifier::external_body]
fn solve_either(a: &Exceeds, b: &Exceeds) -> (answer: SolverAnswer)
    ensures
        answer is Sat ==> a.holds() || b.holds(),
        answer is Unsat ==> !a.holds() && !b.holds(),
{
    let ast = |t: &Term| {
        let sum = t.added.iter().fold(Int::from_u64(0), |s, v| s + Int::from_u64(*v));
        t.subtracted.iter().fold(sum, |s, v| s - Int::from_u64(*v))
    };
    let first = ast(&a.greater).gt(ast(&a.lesser));
    let second = ast(&b.greater).gt(ast(&b.lesser));
    let solver = Solver::new();
    solver.assert(Bool::or(&[first, second]));
    match solver.check() {
        SatResult::Sat => SolverAnswer::Sat,
        SatResult::Unsat => SolverAnswer::Unsat,
        SatResult::Unknown => SolverAnswer::Unknown,
    }
}

/// An access of `len` bytes at `offset` leaves an allocation of `alloc_size` bytes.
pub open spec fn out_of_bounds(alloc_size: int, offset: int, len: int) -> bool {
    offset + len > alloc_size || offset < 0
}

/// What comes of a bound check.
#[derive(Copy, Clone, Debug, PartialEq, Eq, Structural)]
pub enum AccessCheckResult {
    Oob,
    Safe,
    SolverUnknown,
    HitlBlocked,
}

/// What the solver's answer to the out-of-bounds query means for the access.
pub open spec fn access_of(answer: SolverAnswer) -> AccessCheckResult {
    match answer {
        SolverAnswer::Sat => AccessCheckResult::Oob,
        SolverAnswer::Unsat => AccessCheckResult::Safe,
        SolverAnswer::Unknown => AccessCheckResult::SolverUnknown,
    }
}

/// What the solver's answer to the out-of-bounds query means for the access.
pub fn access_result(answer: SolverAnswer) -> (r: AccessCheckResult)
    ensures
        r == access_of(answer),
{
    match answer {
        SolverAnswer::Sat => AccessCheckResult::Oob,
        SolverAnswer::Unsat => AccessCheckResult::Safe,
        SolverAnswer::Unknown => AccessCheckResult::SolverUnknown,
    }
}

/// The two ways to leave an allocation: the access ends behind it, or begins
/// before it.
pub fn out_of_bounds_query(alloc_size: u64, offset: &Term, access_size: u64) -> (r: (
    Exceeds,
    Exceeds,
))
    ensures
        r.0.holds() || r.1.holds() <==> out_of_bounds(
            alloc_size as int,
            offset@,
            access_size as int,
        ),
{
    let end: Term = offset.plus(&Term::from_u64(access_size));
    (
        Exceeds { greater: end, lesser: Term::from_u64(alloc_size) },
        Exceeds { greater: Term::from_u64(0), lesser: offset.clone() },
    )
}

/// Checks that an access stays within its allocation. The solver is asked only
/// where the VC is admitted; it may give up on any query.
pub fn check_access(
    alloc_size: u64,
    offset: &Term,
    access_size: u64,
    vc_id: &str,
    vc_class: &str,
    hitl_gate: &mut HitlGate,
) -> (r: AccessCheckResult)
    ensures
        final(hitl_gate)@ == old(hitl_gate)@.after(vc_id@, vc_class@),
        r is HitlBlocked <==> !old(hitl_gate)@.admits(vc_id@, vc_class@),
        r is Oob ==> out_of_bounds(alloc_size as int, offset@, access_size as int),
        r is Safe ==> !out_of_bounds(alloc_size as int, offset@, access_size as int),
{
    if !hitl_gate.should_run_solver(vc_id, vc_class) {
        return AccessCheckResult::HitlBlocked;
    }
    let (ends_behind, begins_before): (Exceeds, Exceeds) = out_of_bounds_query(
        alloc_size,
        offset,
        access_size,
    );
    access_result(solve_either(&ends_behind, &begins_before))
}

/// An access is refused where the solver finds a way out of the allocation, and
/// accepted only where it finds that there is none.
pub proof fn law_answers(answer: SolverAnswer)
    ensures
        access_of(answer) is Oob <==> answer is Sat,
        access_of(answer) is Safe <==> answer is Unsat,
        access_of(answer) is SolverUnknown <==> answer is Unknown,
{
}

} // verus!
