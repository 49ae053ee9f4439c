//! The memory-safety analysis of a module.
use crate::assembly::is_safe_inline_asm;
use crate::hitl::{vc_class_id, vc_id, GateState, HitlGate};
use crate::ir::{
    function_name_of_call, handler_frees, infer_gep_offset, int_const_ast, operand_const_u64,
    operand_local_name, scan_irq_handlers, size_of_operand, type_size, BasicBlock, BinaryOp, Call,
    Callee, Cast, Function, GetElementPtr, Instruction, Module, Name, Operand, Type,
};
use crate::invariants::{lemma_access, lemma_fill, lemma_inside, lemma_step};
use crate::machine::{
    block_sites, function_sites, is_slot, lookup_local, module_sites, one_step, place_in, place_of,
    reaches, settings_for, sites, target, Access, Allocation, Derived, Pointer, Settings, Site, State,
};
use crate::modes::{DmaPolicy, InlineAsmPolicy};
use crate::names::{NameMap, NameSet};
use crate::sets::{count_distinct, StringSet};
use crate::solver::{check_access, AccessCheckResult, Term};
use crate::text::{decimal_of, same_text};
use crate::verdict::{mark_unknown, AnalysisResult, Finding};
use vstd::prelude::*;
use z3::{with_z3_config, Config};

verus! {

/// A pointer value.
#[derive(Debug)]
pub enum PtrVal {
    /// Pointer derived from a kmalloc-family allocation.
    Kmalloc { alloc_id: usize, offset: Term },
    /// Pointer derived from a DMA allocation.
    DmaAlloc { alloc_id: usize, offset: Term },
    /// Pointer of unknown or unsupported provenance.
    Unknown,
}

impl View for PtrVal {
    type V = Pointer;

    open spec fn view(&self) -> Pointer {
        match *self {
            PtrVal::Kmalloc { alloc_id, offset } => Pointer::Kmalloc {
                alloc_id: alloc_id as nat,
                offset: offset@,
            },
            PtrVal::DmaAlloc { alloc_id, offset } => Pointer::DmaAlloc {
                alloc_id: alloc_id as nat,
                offset: offset@,
            },
            PtrVal::Unknown => Pointer::Unknown,
        }
    }
}

impl Clone for PtrVal {
    fn clone(&self) -> (r: PtrVal)
        ensures
            r@ == self@,
    {
        match self {
            PtrVal::Kmalloc { alloc_id, offset } => PtrVal::Kmalloc {
                alloc_id: *alloc_id,
                offset: offset.clone(),
            },
            PtrVal::DmaAlloc { alloc_id, offset } => PtrVal::DmaAlloc {
                alloc_id: *alloc_id,
                offset: offset.clone(),
            },
            PtrVal::Unknown => PtrVal::Unknown,
        }
    }
}

/// An integer value.
#[derive(Debug)]
pub enum IntVal {
    /// Integer derived from a pointer into a kmalloc-family allocation.
    PtrOffset { alloc_id: usize, offset: Term },
    /// Integer of unknown provenance.
    Unknown,
}

impl View for IntVal {
    type V = Derived;

    open spec fn view(&self) -> Derived {
        match *self {
            IntVal::PtrOffset { alloc_id, offset } => Derived::PtrOffset {
                alloc_id: alloc_id as nat,
                offset: offset@,
            },
            IntVal::Unknown => Derived::Unknown,
        }
    }
}

impl Clone for IntVal {
    fn clone(&self) -> (r: IntVal)
        ensures
            r@ == self@,
    {
        match self {
            IntVal::PtrOffset { alloc_id, offset } => IntVal::PtrOffset {
                alloc_id: *alloc_id,
                offset: offset.clone(),
            },
            IntVal::Unknown => IntVal::Unknown,
        }
    }
}

/// The allocation and offset of a pointer into an allocation of either kind.
pub fn ptrval_alloc_info(pv: &PtrVal) -> (r: Option<(usize, &Term)>)
    ensures
        match (r, place_of(pv@)) {
            (Some((id, term)), Some((alloc_id, offset))) => id == alloc_id && term@ == offset,
            (None, None) => true,
            _ => false,
        },
{
    match pv {
        PtrVal::Kmalloc { alloc_id, offset } => Some((*alloc_id, offset)),
        PtrVal::DmaAlloc { alloc_id, offset } => Some((*alloc_id, offset)),
        PtrVal::Unknown => None,
    }
}

/// Outcome of an analysis.
pub struct AnalysisOutcome {
    pub result: AnalysisResult,
    pub hitl_seen_vcs: usize,
    pub hitl_blocked_vcs: usize,
    pub hitl_seen_classes: usize,
    pub hitl_blocked_classes: usize,
    pub inline_asm_vcs: usize,
    pub dma_vcs: usize,
    pub irq_race_vcs: usize,
}

impl AnalysisOutcome {
    /// The outcome reports an analysis that ended in `end`: its result, the
    /// numbers of distinct VCs and classes, and its counters.
    pub open spec fn reports(self, end: State, dma: DmaPolicy) -> bool {
        &&& self.result@ == end.finished(dma)
        &&& self.hitl_seen_vcs == end.gate.seen.to_set().len()
        &&& self.hitl_blocked_vcs == end.gate.blocked.to_set().len()
        &&& self.hitl_seen_classes == end.gate.seen_classes.to_set().len()
        &&& self.hitl_blocked_classes == end.gate.blocked_classes.to_set().len()
        &&& self.inline_asm_vcs == end.inline_asm_vcs
        &&& self.dma_vcs == end.dma_vcs
        &&& self.irq_race_vcs == end.irq_race_vcs
    }
}

/// The place of the instruction at hand.
struct At<'a> {
    function: &'a str,
    bb: usize,
    index: usize,
}

impl<'a> At<'a> {
    spec fn site(&self) -> Site {
        Site { function: self.function@, bb: self.bb as nat, index: self.index as nat }
    }

    fn vc(&self, kind: &str) -> (r: String)
        ensures
            r@ == self.site().vc(kind@),
    {
        vc_id(self.function, self.bb, self.index, kind)
    }
}

/// `a` followed by `b`.
fn cat(a: &str, b: &str) -> (r: String)
    ensures
        r@ == a@ + b@,
{
    let mut r: String = a.to_owned();
    r.append(b);
    r
}

/// An analysis under way.
struct Analyzer<'a> {
    module: &'a Module,
    irq_risk: bool,
    assembly: InlineAsmPolicy,
    dma: DmaPolicy,
    scope: String,
    ptr_env: NameMap<PtrVal>,
    int_env: NameMap<IntVal>,
    allocs: Vec<Allocation>,
    alloca_names: NameSet,
    alloca_store: NameMap<PtrVal>,
    checked: Ghost<Seq<Access>>,
    inline_asm_vcs: usize,
    dma_vcs: usize,
    irq_race_vcs: usize,
    result: AnalysisResult,
    unfollowed: Option<String>,
}

impl<'a> Analyzer<'a> {
    spec fn state(&self, gate: GateState) -> State {
        State {
            scope: self.scope@,
            ptr_env: self.ptr_env@,
            int_env: self.int_env@,
            allocs: self.allocs@,
            alloca_names: self.alloca_names@,
            alloca_store: self.alloca_store@,
            checked: self.checked@,
            gate,
            inline_asm_vcs: self.inline_asm_vcs as nat,
            dma_vcs: self.dma_vcs as nat,
            irq_race_vcs: self.irq_race_vcs as nat,
            result: self.result@,
            unfollowed: match self.unfollowed {
                Some(reason) => Some(reason@),
                None => None,
            },
        }
    }

    spec fn settings(&self) -> Settings {
        Settings {
            types: self.module.types@,
            irq_risk: self.irq_risk,
            assembly: self.assembly,
            dma: self.dma,
        }
    }

    fn fail(&mut self, message: String)
        ensures
            final(self).settings() == old(self).settings(),
            forall|gate: GateState| #[trigger]
                final(self).state(gate) == old(self).state(gate).fail(message@),
    {
        self.result = AnalysisResult::Fail(message);
    }

    fn mark(&mut self, reason: &str)
        ensures
            final(self).settings() == old(self).settings(),
            forall|gate: GateState| #[trigger]
                final(self).state(gate) == old(self).state(gate).mark(reason@),
    {
        mark_unknown(&mut self.result, reason);
    }

    fn unfollow(&mut self, reason: &str)
        ensures
            final(self).settings() == old(self).settings(),
            forall|gate: GateState| #[trigger]
                final(self).state(gate) == old(self).state(gate).unfollow(reason@),
    {
        if self.unfollowed.is_none() {
            self.unfollowed = Some(reason.to_owned());
        }
    }

    fn bind_ptr(&mut self, dest: &Name, pointer: PtrVal)
        ensures
            final(self).settings() == old(self).settings(),
            forall|gate: GateState| #[trigger]
                final(self).state(gate) == old(self).state(gate).bind_ptr(dest@, pointer@),
    {
        self.ptr_env.insert(dest, pointer);
    }

    fn bind_int(&mut self, dest: &Name, value: IntVal)
        ensures
            final(self).settings() == old(self).settings(),
            forall|gate: GateState| #[trigger]
                final(self).state(gate) == old(self).state(gate).bind_int(dest@, value@),
    {
        self.int_env.insert(dest, value);
    }

    /// The pointer value of a local operand.
    fn pointer_of(&self, op: &Operand) -> (r: Option<PtrVal>)
        ensures
            match (r, lookup_local(self.ptr_env@, *op)) {
                (Some(pv), Some(p)) => pv@ == p,
                (None, None) => true,
                _ => false,
            },
    {
        match operand_local_name(op) {
            Some(name) => match self.ptr_env.get(name) {
                Some(pv) => Some(pv.clone()),
                None => None,
            },
            None => None,
        }
    }

    /// The place that a local operand points to, where it is followed.
    fn place_of_operand(&self, op: &Operand) -> (r: Option<(usize, Term)>)
        ensures
            forall|gate: GateState|
                match (r, #[trigger] target(self.state(gate), *op)) {
                    (Some((id, term)), Some((alloc_id, offset))) => id == alloc_id && term@
                        == offset,
                    (None, None) => true,
                    _ => false,
                },
    {
        match self.pointer_of(op) {
            Some(pointer) => match ptrval_alloc_info(&pointer) {
                Some((alloc_id, offset)) => Some((alloc_id, offset.clone())),
                None => None,
            },
            None => None,
        }
    }

    /// Tells whether an operand is the address of a stack slot.
    fn slot_at(&self, op: &Operand) -> (r: bool)
        ensures
            forall|gate: GateState| r == #[trigger] is_slot(self.state(gate), *op),
    {
        match operand_local_name(op) {
            Some(name) => self.alloca_names.contains(name),
            None => false,
        }
    }

    /// The integer value of a local operand.
    fn integer_of(&self, op: &Operand) -> (r: Option<IntVal>)
        ensures
            match (r, lookup_local(self.int_env@, *op)) {
                (Some(iv), Some(i)) => iv@ == i,
                (None, None) => true,
                _ => false,
            },
    {
        match operand_local_name(op) {
            Some(name) => match self.int_env.get(name) {
                Some(iv) => Some(iv.clone()),
                None => None,
            },
            None => None,
        }
    }

    /// Runs one bound check.
    fn check(
        &mut self,
        gate: &mut HitlGate,
        vc: &str,
        class: &str,
        alloc_id: usize,
        offset: &Term,
        len: u64,
    ) -> (r: AccessCheckResult)
        requires
            alloc_id < old(self).allocs.len(),
        ensures
            final(self).settings() == old(self).settings(),
            final(self).state(final(gate)@) == old(self).state(old(gate)@).record(
                vc@,
                class@,
                alloc_id as nat,
                offset@,
                len as nat,
                r is SolverUnknown,
            ),
            r == old(self).state(old(gate)@).verdict_on(
                vc@,
                class@,
                alloc_id as nat,
                offset@,
                len as nat,
                r is SolverUnknown,
            ),
    {
        let size: u64 = self.allocs[alloc_id].size;
        let r: AccessCheckResult = check_access(size, offset, len, vc, class, gate);
        self.checked = Ghost(
            self.checked@.push(
                Access {
                    vc: vc@,
                    class: class@,
                    alloc_id: alloc_id as nat,
                    alloc_size: size as nat,
                    offset: offset@,
                    len: len as nat,
                    verdict: r,
                },
            ),
        );
        r
    }

    /// Checks an access and notes what came of it.
    fn access(
        &mut self,
        gate: &mut HitlGate,
        at: &At,
        kind: &str,
        access: &str,
        operation: &str,
        alloc_id: usize,
        offset: &Term,
        len: u64,
    ) -> (gave_up: Ghost<bool>)
        requires
            alloc_id < old(self).allocs.len(),
        ensures
            final(self).settings() == old(self).settings(),
            final(self).state(final(gate)@) == old(self).state(old(gate)@).access(
                at.site(),
                kind@,
                access@,
                operation@,
                alloc_id as nat,
                offset@,
                len as nat,
                gave_up@,
            ),
    {
        let vc: String = at.vc(kind);
        let class: String = vc_class_id(kind, len);
        let r: AccessCheckResult = self.check(
            gate,
            vc.as_str(),
            class.as_str(),
            alloc_id,
            offset,
            len,
        );
        match r {
            AccessCheckResult::Oob => {
                let mut message: String = cat("Out-of-bounds ", access);
                message.append(" in function ");
                message.append(at.function);
                self.fail(message);
            },
            AccessCheckResult::Safe => {},
            AccessCheckResult::SolverUnknown => {
                let mut reason: String = cat("Solver returned unknown for ", operation);
                reason.append(" bound check");
                self.mark(reason.as_str());
            },
            AccessCheckResult::HitlBlocked => {
                let reason: String = cat("HITL gate blocked unapproved VC: ", vc.as_str());
                self.mark(reason.as_str());
            },
        }
        Ghost(r is SolverUnknown)
    }

    /// Notes that an interrupt handler may race with an access.
    fn race(&mut self, gate: &mut HitlGate, at: &At, operation: &str, alloc_id: usize)
        requires
            old(self).irq_race_vcs <= old(gate)@.seen.len(),
        ensures
            final(self).settings() == old(self).settings(),
            final(self).state(final(gate)@) == old(self).state(old(gate)@).race(
                at.site(),
                operation@,
                alloc_id as nat,
            ),
    {
        let kind: String = cat("irq_race_", operation);
        let vc: String = at.vc(kind.as_str());
        let id: String = decimal_of(alloc_id as u64);
        let class: String = cat("class::irq_race::alloc", id.as_str());
        let admitted: bool = gate.should_run_solver(vc.as_str(), class.as_str());
        assert(gate@.seen.len() == gate.seen.len());
        self.irq_race_vcs = self.irq_race_vcs + 1;
        if !admitted {
            let reason: String = cat("HITL gate blocked IRQ race VC: ", vc.as_str());
            self.mark(reason.as_str());
        } else {
            let mut reason: String = cat(
                "Potential IRQ race: interrupt handler may free allocation ",
                id.as_str(),
            );
            reason.append(" before ");
            reason.append(operation);
            reason.append(" in ");
            reason.append(at.function);
            self.mark(reason.as_str());
        }
    }

    /// Checks a load or store through a pointer into an allocation.
    fn touch(
        &mut self,
        gate: &mut HitlGate,
        at: &At,
        operation: &str,
        no_size: &str,
        alloc_id: usize,
        offset: &Term,
        len: Option<u64>,
    ) -> (gave_up: Ghost<bool>)
        requires
            old(self).state(old(gate)@).well_formed(old(self).settings()),
            alloc_id < old(self).allocs.len(),
        ensures
            final(self).settings() == old(self).settings(),
            final(self).state(final(gate)@) == old(self).state(old(gate)@).touch(
                old(self).settings(),
                at.site(),
                operation@,
                no_size@,
                (alloc_id as nat, offset@),
                match len {
                    Some(n) => Some(n as nat),
                    None => None,
                },
                gave_up@,
            ),
    {
        let ghost before = self.state(gate@);
        if self.allocs[alloc_id].freed {
            let mut message: String = cat("Use-after-free ", operation);
            message.append(" in function ");
            message.append(at.function);
            self.fail(message);
            return Ghost(false);
        }
        match len {
            None => {
                self.mark(no_size);
                Ghost(false)
            },
            Some(n) => {
                let gave_up: Ghost<bool> = self.access(
                    gate,
                    at,
                    operation,
                    operation,
                    operation,
                    alloc_id,
                    offset,
                    n,
                );
                if self.irq_risk && !matches!(self.result, AnalysisResult::Fail(_)) {
                    proof {
                        lemma_access(
                            before,
                            self.settings(),
                            at.site(),
                            operation@,
                            operation@,
                            operation@,
                            alloc_id as nat,
                            offset@,
                            n as nat,
                            gave_up@,
                        );
                        reveal(State::leads_to);
                    }
                    self.race(gate, at, operation, alloc_id);
                }
                gave_up
            },
        }
    }

    // ---- calls ----

    /// Tracks a new allocation.
    fn allocate(&mut self, size: u64, dma: bool, dest: &Option<Name>)
        ensures
            final(self).settings() == old(self).settings(),
            forall|gate: GateState| #[trigger]
                final(self).state(gate) == old(self).state(gate).allocate(size, dma, *dest),
    {
        let alloc_id: usize = self.allocs.len();
        self.allocs.push(Allocation { size, freed: false, dma, mapped: false });
        match dest {
            Some(name) => {
                let offset: Term = Term::from_u64(0);
                let pointer: PtrVal = if dma {
                    PtrVal::DmaAlloc { alloc_id, offset }
                } else {
                    PtrVal::Kmalloc { alloc_id, offset }
                };
                self.bind_ptr(name, pointer);
            },
            None => {},
        }
    }

    fn kmalloc(&mut self, call: &Call)
        ensures
            final(self).settings() == old(self).settings(),
            forall|gate: GateState| #[trigger]
                final(self).state(gate) == old(self).state(gate).kmalloc(*call),
    {
        if call.arguments.len() == 0 {
            self.mark("kmalloc/kzalloc missing size argument");
            return ;
        }
        match operand_const_u64(&call.arguments[0]) {
            None => self.mark("kmalloc/kzalloc with non-constant size unsupported"),
            Some(size) => self.allocate(size, false, &call.dest),
        }
    }

    fn kcalloc(&mut self, call: &Call)
        ensures
            final(self).settings() == old(self).settings(),
            forall|gate: GateState| #[trigger]
                final(self).state(gate) == old(self).state(gate).kcalloc(*call),
    {
        if call.arguments.len() == 0 {
            self.mark("kcalloc missing nmemb argument");
            return ;
        }
        if call.arguments.len() == 1 {
            self.mark("kcalloc missing size argument");
            return ;
        }
        match (operand_const_u64(&call.arguments[0]), operand_const_u64(&call.arguments[1])) {
            (Some(nmemb), Some(size)) => match nmemb.checked_mul(size) {
                Some(total_size) => self.allocate(total_size, false, &call.dest),
                None => self.fail("kcalloc size multiplication overflow".to_owned()),
            },
            _ => self.mark("kcalloc with non-constant nmemb/size unsupported"),
        }
    }

    fn kfree(&mut self, at: &At, call: &Call, gate: Ghost<GateState>)
        requires
            old(self).state(gate@).well_formed(old(self).settings()),
        ensures
            final(self).settings() == old(self).settings(),
            final(self).state(gate@) == old(self).state(gate@).kfree(at.site(), *call),
    {
        if call.arguments.len() == 0 {
            self.mark("kfree missing pointer argument");
            return ;
        }
        if operand_local_name(&call.arguments[0]).is_none() {
            self.mark("kfree on non-local operand unsupported");
            return ;
        }
        match self.pointer_of(&call.arguments[0]) {
            Some(PtrVal::Kmalloc { alloc_id, .. }) => {
                let allocation: Allocation = self.allocs[alloc_id];
                if allocation.freed {
                    self.fail(cat("Double free detected in function ", at.function));
                } else {
                    self.allocs.set(alloc_id, Allocation { freed: true, ..allocation });
                }
            },
            _ => self.unfollow("kfree on pointer of unsupported provenance"),
        }
    }

    /// Checks an access through one pointer argument of a call.
    fn fill(
        &mut self,
        gate: &mut HitlGate,
        at: &At,
        kind: &str,
        access: &str,
        operation: &str,
        op: &Operand,
        len: u64,
    ) -> (gave_up: Ghost<bool>)
        requires
            old(self).state(old(gate)@).well_formed(old(self).settings()),
        ensures
            final(self).settings() == old(self).settings(),
            final(self).state(final(gate)@) == old(self).state(old(gate)@).fill(
                at.site(),
                kind@,
                access@,
                operation@,
                *op,
                len as nat,
                gave_up@,
            ),
    {
        match self.place_of_operand(op) {
            Some((alloc_id, offset)) => {
                if self.allocs[alloc_id].freed {
                    let mut message: String = cat("Use-after-free in ", access);
                    message.append(" in function ");
                    message.append(at.function);
                    self.fail(message);
                    Ghost(false)
                } else {
                    self.access(gate, at, kind, access, operation, alloc_id, &offset, len)
                }
            },
            None => {
                let reason: String = cat(access, " through pointer of unknown provenance");
                self.unfollow(reason.as_str());
                Ghost(false)
            },
        }
    }

    fn memset(&mut self, gate: &mut HitlGate, at: &At, call: &Call) -> (gave_up: Ghost<bool>)
        requires
            old(self).state(old(gate)@).well_formed(old(self).settings()),
        ensures
            final(self).settings() == old(self).settings(),
            final(self).state(final(gate)@) == old(self).state(old(gate)@).memset(
                at.site(),
                *call,
                gave_up@,
            ),
    {
        if call.arguments.len() == 0 {
            self.unfollow("memset missing destination argument");
            return Ghost(false);
        }
        if call.arguments.len() <= 2 {
            self.mark("memset missing length argument");
            return Ghost(false);
        }
        if operand_local_name(&call.arguments[0]).is_none() {
            self.unfollow("memset through pointer of unknown provenance");
            return Ghost(false);
        }
        match operand_const_u64(&call.arguments[2]) {
            None => {
                self.mark("memset with non-constant length unsupported");
                Ghost(false)
            },
            Some(len) => self.fill(
                gate,
                at,
                "memset",
                "memset",
                "memset",
                &call.arguments[0],
                len,
            ),
        }
    }

    fn memcpy(&mut self, gate: &mut HitlGate, at: &At, call: &Call) -> (gave_up: Ghost<
        (bool, bool),
    >)
        requires
            old(self).state(old(gate)@).well_formed(old(self).settings()),
        ensures
            final(self).settings() == old(self).settings(),
            final(self).state(final(gate)@) == old(self).state(old(gate)@).memcpy(
                at.site(),
                *call,
                gave_up@,
            ),
    {
        if call.arguments.len() == 0 {
            self.unfollow("memcpy missing destination argument");
            return Ghost((false, false));
        }
        if call.arguments.len() == 1 {
            self.mark("memcpy missing source argument");
            return Ghost((false, false));
        }
        if call.arguments.len() == 2 {
            self.mark("memcpy missing length argument");
            return Ghost((false, false));
        }
        match operand_const_u64(&call.arguments[2]) {
            None => {
                self.mark("memcpy with non-constant length unsupported");
                Ghost((false, false))
            },
            Some(len) => {
                let ghost before = self.state(gate@);
                let first: Ghost<bool> = self.fill(
                    gate,
                    at,
                    "memcpy_destination",
                    "memcpy destination",
                    "memcpy",
                    &call.arguments[0],
                    len,
                );
                if matches!(self.result, AnalysisResult::Fail(_)) {
                    return Ghost((first@, false));
                }
                proof {
                    lemma_fill(
                        before,
                        self.settings(),
                        at.site(),
                        "memcpy_destination"@,
                        "memcpy destination"@,
                        "memcpy"@,
                        call.arguments@[0],
                        len as nat,
                        first@,
                    );
                    reveal(State::leads_to);
                }
                let second: Ghost<bool> = self.fill(
                    gate,
                    at,
                    "memcpy_source",
                    "memcpy source",
                    "memcpy",
                    &call.arguments[1],
                    len,
                );
                Ghost((first@, second@))
            },
        }
    }

    fn dma_alloc(&mut self, gate: &mut HitlGate, at: &At, call: &Call)
        requires
            old(self).dma_vcs <= old(gate)@.seen.len(),
        ensures
            final(self).settings() == old(self).settings(),
            final(self).state(final(gate)@) == old(self).state(old(gate)@).dma_alloc(
                at.site(),
                *call,
            ),
    {
        if call.arguments.len() <= 1 {
            self.mark("dma_alloc_coherent missing size argument");
            return ;
        }
        match operand_const_u64(&call.arguments[1]) {
            None => self.mark("dma_alloc_coherent with non-constant size"),
            Some(size) => {
                let ghost before = gate@;
                self.allocate(size, true, &call.dest);
                assert(self.state(before) == old(self).state(before).allocate(
                    size,
                    true,
                    call.dest,
                ));
                let vc: String = at.vc("dma_alloc");
                let class: String = vc_class_id("dma_alloc", size);
                gate.should_run_solver(vc.as_str(), class.as_str());
                assert(gate@.seen.len() == gate.seen.len());
                self.dma_vcs = self.dma_vcs + 1;
            },
        }
    }

    fn dma_map(&mut self, gate: &mut HitlGate, at: &At, call: &Call) -> (gave_up: Ghost<bool>)
        requires
            old(self).state(old(gate)@).well_formed(old(self).settings()),
        ensures
            final(self).settings() == old(self).settings(),
            final(self).state(final(gate)@) == old(self).state(old(gate)@).dma_map(
                at.site(),
                *call,
                gave_up@,
            ),
    {
        if call.arguments.len() <= 1 {
            self.mark("dma_map_single missing ptr argument");
            return Ghost(false);
        }
        if call.arguments.len() == 2 {
            self.mark("dma_map_single missing size argument");
            return Ghost(false);
        }
        let size: u64 = match operand_const_u64(&call.arguments[2]) {
            None => {
                self.mark("dma_map_single with non-constant size");
                return Ghost(false);
            },
            Some(size) => size,
        };
        match self.place_of_operand(&call.arguments[1]) {
            None => {
                self.unfollow("dma_map_single on pointer of unknown provenance");
                Ghost(false)
            },
            Some((alloc_id, offset)) => {
                let vc: String = at.vc("dma_map");
                let class: String = vc_class_id("dma_bounds", size);
                let r: AccessCheckResult = self.check(
                    gate,
                    vc.as_str(),
                    class.as_str(),
                    alloc_id,
                    &offset,
                    size,
                );
                assert(gate@.seen.len() == gate.seen.len());
                match r {
                    AccessCheckResult::Oob => {
                        self.dma_vcs = self.dma_vcs + 1;
                        self.fail(
                            cat(
                                "DMA mapping exceeds allocation bounds in function ",
                                at.function,
                            ),
                        );
                    },
                    AccessCheckResult::Safe => {},
                    AccessCheckResult::SolverUnknown => {
                        self.dma_vcs = self.dma_vcs + 1;
                        self.mark("Solver unknown for DMA mapping bound check");
                    },
                    AccessCheckResult::HitlBlocked => {
                        self.dma_vcs = self.dma_vcs + 1;
                        let reason: String = cat("HITL gate blocked DMA VC: ", vc.as_str());
                        self.mark(reason.as_str());
                    },
                }
                Ghost(r is SolverUnknown)
            },
        }
    }

    fn iommu_map(&mut self, call: &Call, gate: Ghost<GateState>)
        requires
            old(self).state(gate@).well_formed(old(self).settings()),
        ensures
            final(self).settings() == old(self).settings(),
            final(self).state(gate@) == old(self).state(gate@).iommu_map(*call),
    {
        let ghost before = self.state(gate@);
        let mut i: usize = 0;
        while i < call.arguments.len()
            invariant
                i <= call.arguments.len(),
                before.well_formed(self.settings()),
                self.settings() == old(self).settings(),
                before == old(self).state(gate@),
                self.state(gate@) == (State { allocs: self.allocs@, ..before }),
                self.allocs.len() == before.allocs.len(),
                forall|k: int|
                    0 <= k < before.allocs.len() ==> #[trigger] self.allocs@[k] == (Allocation {
                        mapped: before.allocs[k].mapped || before.allocs[k].dma && exists|j: int|
                            0 <= j < i && place_in(before, #[trigger] call.arguments@[j], k),
                        ..before.allocs[k]
                    }),
            decreases call.arguments.len() - i,
        {
            let ghost prior = self.allocs@;
            let ghost op = call.arguments@[i as int];
            assert(target(self.state(gate@), op) == target(before, op));
            if let Some((alloc_id, _)) = self.place_of_operand(&call.arguments[i]) {
                assert(place_in(before, op, alloc_id as int));
                let a: Allocation = self.allocs[alloc_id];
                if a.dma {
                    self.allocs.set(alloc_id, Allocation { mapped: true, ..a });
                }
            }
            i = i + 1;
            assert forall|k: int| 0 <= k < before.allocs.len() implies #[trigger] self.allocs@[k]
                == (Allocation {
                mapped: before.allocs[k].mapped || before.allocs[k].dma && exists|j: int|
                    0 <= j < i && place_in(before, #[trigger] call.arguments@[j], k),
                ..before.allocs[k]
            }) by {
                let old_k = prior[k];
                if place_in(before, op, k) {
                    assert(place_in(before, call.arguments@[i - 1], k));
                } else {
                    assert((exists|j: int|
                        0 <= j < i && place_in(before, #[trigger] call.arguments@[j], k)) ==> (
                    exists|j: int|
                        0 <= j < i - 1 && place_in(before, #[trigger] call.arguments@[j], k)));
                }
            }
        }
        assert(self.allocs@ =~= before.iommu_map(*call).allocs);
    }

    fn assembly(&mut self, gate: &mut HitlGate, at: &At, text: &str)
        requires
            old(self).state(old(gate)@).well_formed(old(self).settings()),
            !(old(self).result is Fail),
        ensures
            final(self).settings() == old(self).settings(),
            final(self).state(final(gate)@) == old(self).state(old(gate)@).assembly(
                old(self).settings(),
                at.site(),
                text@,
            ),
    {
        match self.assembly {
            InlineAsmPolicy::Trap => {
                self.inline_asm_vcs = self.inline_asm_vcs + 1;
                let mut message: String = cat(
                    "Inline assembly detected in function ",
                    at.function,
                );
                message.append(" (trap policy)");
                self.fail(message);
            },
            InlineAsmPolicy::Conservative => {
                if is_safe_inline_asm(text) {
                    return ;
                }
                let vc: String = at.vc("inline_asm");
                let admitted: bool = gate.should_run_solver(
                    vc.as_str(),
                    "class::inline_asm::opaque",
                );
                assert(gate@.seen.len() == gate.seen.len());
                self.inline_asm_vcs = self.inline_asm_vcs + 1;
                if !admitted {
                    let reason: String = cat("HITL gate blocked inline asm VC: ", vc.as_str());
                    self.mark(reason.as_str());
                } else {
                    let mut reason: String = cat(
                        "Opaque inline assembly in function ",
                        at.function,
                    );
                    reason.append(": '");
                    reason.append(text);
                    reason.append("'");
                    self.mark(reason.as_str());
                }
            },
        }
    }

    fn call(&mut self, gate: &mut HitlGate, at: &At, call: &Call) -> (gave_up: Ghost<(bool, bool)>)
        requires
            old(self).state(old(gate)@).well_formed(old(self).settings()),
            !(old(self).result is Fail),
        ensures
            final(self).settings() == old(self).settings(),
            final(self).state(final(gate)@) == old(self).state(old(gate)@).call(
                old(self).settings(),
                at.site(),
                *call,
                gave_up@,
            ),
    {
        let analysed: bool = !matches!(self.dma, DmaPolicy::Ignore);
        match function_name_of_call(call) {
            Some(name) => {
                if same_text(name, "kmalloc") || same_text(name, "kzalloc") {
                    self.kmalloc(call);
                } else if same_text(name, "kcalloc") {
                    self.kcalloc(call);
                } else if same_text(name, "kfree") {
                    self.kfree(at, call, Ghost(gate@));
                } else if same_text(name, "memset") {
                    let gave_up: Ghost<bool> = self.memset(gate, at, call);
                    return Ghost((gave_up@, false));
                } else if same_text(name, "memcpy") || same_text(name, "__memcpy") {
                    return self.memcpy(gate, at, call);
                } else if same_text(name, "dma_alloc_coherent") && analysed {
                    self.dma_alloc(gate, at, call);
                } else if same_text(name, "dma_map_single") && analysed {
                    let gave_up: Ghost<bool> = self.dma_map(gate, at, call);
                    return Ghost((gave_up@, false));
                } else if same_text(name, "iommu_map") {
                    self.iommu_map(call, Ghost(gate@));
                }
                Ghost((false, false))
            },
            None => {
                if let Callee::InlineAssembly(text) = &call.function {
                    self.assembly(gate, at, text.as_str());
                }
                Ghost((false, false))
            },
        }
    }

    // ---- pointer arithmetic ----

    fn gep(&mut self, gep: &GetElementPtr)
        ensures
            final(self).settings() == old(self).settings(),
            forall|gate: GateState| #[trigger]
                final(self).state(gate) == old(self).state(gate).gep(old(self).settings(), *gep),
    {
        let found: Option<PtrVal> = match operand_local_name(&gep.address) {
            None => {
                self.bind_ptr(&gep.dest, PtrVal::Unknown);
                self.mark("GEP base is not a local operand");
                return ;
            },
            Some(base) => match self.ptr_env.get(base) {
                Some(pv) => Some(pv.clone()),
                None => match self.alloca_store.get(base) {
                    Some(pv) => Some(pv.clone()),
                    None => None,
                },
            },
        };
        match found {
            Some(PtrVal::Kmalloc { alloc_id, offset }) => match infer_gep_offset(
                gep,
                &offset,
                self.module,
            ) {
                Some(offset) => self.bind_ptr(&gep.dest, PtrVal::Kmalloc { alloc_id, offset }),
                None => {
                    self.bind_ptr(&gep.dest, PtrVal::Unknown);
                    self.mark("GEP with unsupported index/type pattern");
                },
            },
            Some(PtrVal::DmaAlloc { alloc_id, offset }) => match infer_gep_offset(
                gep,
                &offset,
                self.module,
            ) {
                Some(offset) => self.bind_ptr(&gep.dest, PtrVal::DmaAlloc { alloc_id, offset }),
                None => {
                    self.bind_ptr(&gep.dest, PtrVal::Unknown);
                    self.mark("GEP with unsupported index/type pattern (DMA)");
                },
            },
            _ => self.bind_ptr(&gep.dest, PtrVal::Unknown),
        }
    }

    fn ptr_to_int(&mut self, cast: &Cast)
        ensures
            final(self).settings() == old(self).settings(),
            forall|gate: GateState| #[trigger]
                final(self).state(gate) == old(self).state(gate).ptr_to_int(*cast),
    {
        if operand_local_name(&cast.operand).is_none() {
            self.bind_int(&cast.dest, IntVal::Unknown);
            self.mark("PtrToInt from non-local operand unsupported");
            return ;
        }
        let value: IntVal = match self.pointer_of(&cast.operand) {
            Some(PtrVal::Kmalloc { alloc_id, offset }) => IntVal::PtrOffset { alloc_id, offset },
            _ => IntVal::Unknown,
        };
        self.bind_int(&cast.dest, value);
    }

    fn int_to_ptr(&mut self, cast: &Cast)
        ensures
            final(self).settings() == old(self).settings(),
            forall|gate: GateState| #[trigger]
                final(self).state(gate) == old(self).state(gate).int_to_ptr(*cast),
    {
        if operand_local_name(&cast.operand).is_none() {
            self.bind_ptr(&cast.dest, PtrVal::Unknown);
            self.mark("IntToPtr from non-local operand unsupported");
            return ;
        }
        let pointer: PtrVal = match self.integer_of(&cast.operand) {
            Some(IntVal::PtrOffset { alloc_id, offset }) => PtrVal::Kmalloc { alloc_id, offset },
            _ => PtrVal::Unknown,
        };
        self.bind_ptr(&cast.dest, pointer);
    }

    fn bit_cast(&mut self, cast: &Cast)
        ensures
            final(self).settings() == old(self).settings(),
            forall|gate: GateState| #[trigger]
                final(self).state(gate) == old(self).state(gate).bit_cast(*cast),
    {
        if operand_local_name(&cast.operand).is_none() {
            self.bind_ptr(&cast.dest, PtrVal::Unknown);
            self.mark("BitCast from non-local operand unsupported");
            return ;
        }
        let pointer: PtrVal = match self.pointer_of(&cast.operand) {
            Some(pointer) => pointer,
            None => PtrVal::Unknown,
        };
        self.bind_ptr(&cast.dest, pointer);
    }

    fn add_int(&mut self, op: &BinaryOp)
        ensures
            final(self).settings() == old(self).settings(),
            forall|gate: GateState| #[trigger]
                final(self).state(gate) == old(self).state(gate).add_int(*op),
    {
        let lhs: Option<IntVal> = self.integer_of(&op.operand0);
        let rhs: Option<IntVal> = self.integer_of(&op.operand1);
        let derived: bool = lhs.is_some() || rhs.is_some();
        let sum: Option<IntVal> = match (lhs, rhs) {
            (Some(IntVal::PtrOffset { alloc_id, offset }), _) => match int_const_ast(
                &op.operand1,
            ) {
                Some(n) => Some(IntVal::PtrOffset { alloc_id, offset: offset.plus(&n) }),
                None => None,
            },
            (_, Some(IntVal::PtrOffset { alloc_id, offset })) => match int_const_ast(
                &op.operand0,
            ) {
                Some(n) => Some(IntVal::PtrOffset { alloc_id, offset: offset.plus(&n) }),
                None => None,
            },
            _ => None,
        };
        match sum {
            Some(value) => self.bind_int(&op.dest, value),
            None => {
                if derived {
                    self.bind_int(&op.dest, IntVal::Unknown);
                    self.mark("Unsupported pointer-derived integer add pattern");
                }
            },
        }
    }

    fn sub_int(&mut self, op: &BinaryOp)
        ensures
            final(self).settings() == old(self).settings(),
            forall|gate: GateState| #[trigger]
                final(self).state(gate) == old(self).state(gate).sub_int(*op),
    {
        let lhs: Option<IntVal> = self.integer_of(&op.operand0);
        let subtracted: bool = self.integer_of(&op.operand1).is_some();
        let derived: bool = lhs.is_some() || subtracted;
        let difference: Option<IntVal> = match (lhs, int_const_ast(&op.operand1)) {
            (Some(IntVal::PtrOffset { alloc_id, offset }), Some(n)) => Some(
                IntVal::PtrOffset { alloc_id, offset: offset.minus(&n) },
            ),
            _ => None,
        };
        match difference {
            Some(value) => self.bind_int(&op.dest, value),
            None => {
                if derived {
                    self.bind_int(&op.dest, IntVal::Unknown);
                    self.mark("Unsupported pointer-derived integer sub pattern");
                }
            },
        }
        if subtracted {
            self.mark("Subtracting pointer-derived integer as RHS is unsupported");
        }
    }

    // ---- memory ----

    fn store(&mut self, gate: &mut HitlGate, at: &At, address: &Operand, value: &Operand) -> (gave_up:
        Ghost<bool>)
        requires
            old(self).state(old(gate)@).well_formed(old(self).settings()),
        ensures
            final(self).settings() == old(self).settings(),
            final(self).state(final(gate)@) == old(self).state(old(gate)@).store(
                old(self).settings(),
                at.site(),
                *address,
                *value,
                gave_up@,
            ),
    {
        let slot: bool = self.slot_at(address);
        let ghost before = self.state(gate@);
        let place: Option<(usize, Term)> = self.place_of_operand(address);
        assert(slot == is_slot(before, *address));
        assert(target(before, *address) is Some == place is Some);
        if slot {
            let kept: PtrVal = match self.pointer_of(value) {
                Some(pointer) => pointer,
                None => PtrVal::Unknown,
            };
            if let Some(dest) = operand_local_name(address) {
                self.alloca_store.insert(dest, kept);
            }
        }
        assert(self.state(gate@) == before.spill(*address, *value));
        match place {
            Some((alloc_id, offset)) => {
                let size: Option<u64> = size_of_operand(value, self.module);
                self.touch(
                    gate,
                    at,
                    "store",
                    "Store with unknown value type size",
                    alloc_id,
                    &offset,
                    size,
                )
            },
            None => {
                if !slot {
                    self.unfollow("Store through pointer of unknown provenance");
                }
                Ghost(false)
            },
        }
    }

    fn load(
        &mut self,
        gate: &mut HitlGate,
        at: &At,
        address: &Operand,
        dest: &Name,
        loaded_ty: &Type,
    ) -> (gave_up: Ghost<bool>)
        requires
            old(self).state(old(gate)@).well_formed(old(self).settings()),
        ensures
            final(self).settings() == old(self).settings(),
            final(self).state(final(gate)@) == old(self).state(old(gate)@).load(
                old(self).settings(),
                at.site(),
                *address,
                *dest,
                *loaded_ty,
                gave_up@,
            ),
    {
        let slot: bool = self.slot_at(address);
        let ghost before = self.state(gate@);
        assert(slot == is_slot(before, *address));
        if slot {
            let spilled: Option<PtrVal> = match operand_local_name(address) {
                Some(source) => match self.alloca_store.get(source) {
                    Some(pointer) => Some(pointer.clone()),
                    None => None,
                },
                None => None,
            };
            if let Some(pointer) = spilled {
                self.bind_ptr(dest, pointer);
            }
        }
        let ghost recovered = before.reload(*address, *dest);
        assert(self.state(gate@) == recovered);
        let place: Option<(usize, Term)> = self.place_of_operand(address);
        assert(target(recovered, *address) is Some == place is Some);
        match place {
            Some((alloc_id, offset)) => {
                let size: Option<u64> = type_size(loaded_ty, self.module);
                self.touch(
                    gate,
                    at,
                    "load",
                    "Load with unknown type size",
                    alloc_id,
                    &offset,
                    size,
                )
            },
            None => {
                if !slot {
                    self.unfollow("Load through pointer of unknown provenance");
                }
                Ghost(false)
            },
        }
    }

    // ---- instructions in order ----

    /// Forgets the names of another function.
    fn enter(&mut self, function: &str)
        ensures
            final(self).settings() == old(self).settings(),
            forall|gate: GateState| #[trigger]
                final(self).state(gate) == old(self).state(gate).inside(function@),
    {
        if !same_text(self.scope.as_str(), function) {
            self.scope = function.to_owned();
            self.ptr_env = NameMap::new();
            self.int_env = NameMap::new();
            self.alloca_names = NameSet::new();
            self.alloca_store = NameMap::new();
        }
    }

    /// Analyses one instruction.
    fn step(&mut self, gate: &mut HitlGate, at: &At, instr: &Instruction)
        requires
            old(self).state(old(gate)@).well_formed(old(self).settings()),
        ensures
            final(self).settings() == old(self).settings(),
            one_step(
                old(self).settings(),
                old(self).state(old(gate)@),
                (at.site(), *instr),
                final(self).state(final(gate)@),
            ),
            final(self).state(final(gate)@).well_formed(old(self).settings()),
    {
        proof {
            lemma_inside(self.state(gate@), self.settings(), at.function@);
            reveal(State::leads_to);
        }
        self.enter(at.function);
        let ghost before = self.state(gate@);
        let mut gave_up: Ghost<(bool, bool)> = Ghost((false, false));
        if !matches!(self.result, AnalysisResult::Fail(_)) {
            match instr {
                Instruction::Alloca { dest } => self.alloca_names.insert(dest),
                Instruction::Call(call) => {
                    gave_up = self.call(gate, at, call);
                },
                Instruction::GetElementPtr(gep) => self.gep(gep),
                Instruction::PtrToInt(cast) => self.ptr_to_int(cast),
                Instruction::IntToPtr(cast) => self.int_to_ptr(cast),
                Instruction::BitCast(cast) => self.bit_cast(cast),
                Instruction::Add(op) => self.add_int(op),
                Instruction::Sub(op) => self.sub_int(op),
                Instruction::Store { address, value } => {
                    let first: Ghost<bool> = self.store(gate, at, address, value);
                    gave_up = Ghost((first@, false));
                },
                Instruction::Load { address, dest, loaded_ty } => {
                    let first: Ghost<bool> = self.load(gate, at, address, dest, loaded_ty);
                    gave_up = Ghost((first@, false));
                },
                Instruction::OtherAccess => self.unfollow("Unsupported memory access instruction"),
                Instruction::Other => {},
            }
        }
        proof {
            let settings = old(self).settings();
            assert(self.state(gate@) == before.step(settings, at.site(), *instr, gave_up@));
            lemma_step(before, settings, at.site(), *instr, gave_up@);
            reveal(State::leads_to);
        }
    }

    /// Analyses the instructions of one block.
    fn block(
        &mut self,
        gate: &mut HitlGate,
        function: &str,
        bb: usize,
        block: &BasicBlock,
        start: Ghost<State>,
        path: Ghost<Seq<(Site, Instruction)>>,
    )
        requires
            reaches(old(self).settings(), start@, path@, old(self).state(old(gate)@)),
            old(self).state(old(gate)@).well_formed(old(self).settings()),
        ensures
            final(self).settings() == old(self).settings(),
            reaches(
                old(self).settings(),
                start@,
                path@ + block_sites(function@, bb as nat, *block),
                final(self).state(final(gate)@),
            ),
            final(self).state(final(gate)@).well_formed(old(self).settings()),
    {
        let ghost settings = self.settings();
        let ghost all = block_sites(function@, bb as nat, *block);
        let mut i: usize = 0;
        assert(path@ + all.take(0) =~= path@);
        while i < block.instrs.len()
            invariant
                i <= block.instrs.len(),
                all == block_sites(function@, bb as nat, *block),
                settings == old(self).settings(),
                self.settings() == settings,
                reaches(settings, start@, path@ + all.take(i as int), self.state(gate@)),
                self.state(gate@).well_formed(settings),
            decreases block.instrs.len() - i,
        {
            let ghost mid = self.state(gate@);
            let at: At = At { function, bb, index: i };
            self.step(gate, &at, &block.instrs[i]);
            proof {
                lemma_reaches_push(
                    settings,
                    start@,
                    path@ + all.take(i as int),
                    mid,
                    all[i as int],
                    self.state(gate@),
                );
                assert((path@ + all.take(i as int)).push(all[i as int]) =~= path@ + all.take(
                    i + 1,
                ));
            }
            i = i + 1;
        }
        assert(all.take(i as int) =~= all);
    }

    /// Analyses the blocks of one function.
    fn function(
        &mut self,
        gate: &mut HitlGate,
        function: &Function,
        start: Ghost<State>,
        path: Ghost<Seq<(Site, Instruction)>>,
    )
        requires
            reaches(old(self).settings(), start@, path@, old(self).state(old(gate)@)),
            old(self).state(old(gate)@).well_formed(old(self).settings()),
        ensures
            final(self).settings() == old(self).settings(),
            reaches(
                old(self).settings(),
                start@,
                path@ + function_sites(*function, function.basic_blocks@.len()),
                final(self).state(final(gate)@),
            ),
            final(self).state(final(gate)@).well_formed(old(self).settings()),
    {
        let ghost settings = self.settings();
        let mut b: usize = 0;
        assert(path@ + function_sites(*function, 0) =~= path@);
        while b < function.basic_blocks.len()
            invariant
                b <= function.basic_blocks.len(),
                settings == old(self).settings(),
                self.settings() == settings,
                reaches(
                    settings,
                    start@,
                    path@ + function_sites(*function, b as nat),
                    self.state(gate@),
                ),
                self.state(gate@).well_formed(settings),
            decreases function.basic_blocks.len() - b,
        {
            let block: &BasicBlock = &function.basic_blocks[b];
            let ghost so_far = path@ + function_sites(*function, b as nat);
            self.block(gate, function.name.as_str(), b, block, start, Ghost(so_far));
            assert(so_far + block_sites(function.name@, b as nat, *block) =~= path@
                + function_sites(*function, (b + 1) as nat));
            b = b + 1;
        }
    }

    /// The result once all instructions are done.
    fn finish(self) -> (r: AnalysisResult)
        ensures
            forall|gate: GateState| r@ == #[trigger] self.state(gate).finished(self.dma),
    {
        if matches!(self.dma, DmaPolicy::RequireIommu) {
            let mut id: usize = 0;
            while id < self.allocs.len()
                invariant
                    id <= self.allocs.len(),
                    self.dma is RequireIommu,
                    forall|k: int|
                        0 <= k < id ==> !(self.allocs@[k].dma && !(#[trigger] self.allocs@[k]).mapped),
                decreases self.allocs.len() - id,
            {
                if self.allocs[id].dma && !self.allocs[id].mapped {
                    let number: String = decimal_of(id as u64);
                    let mut message: String = cat("DMA allocation ", number.as_str());
                    message.append(" has no paired iommu_map call (require-iommu policy)");
                    proof {
                        assert forall|gate: GateState| #[trigger]
                            self.state(gate).finished(self.dma) == Finding::Fail(message@) by {
                            let s = self.state(gate);
                            assert(s.unmapped(id as int));
                            assert forall|k: int| 0 <= k < id implies !s.unmapped(k) by {}
                            let first = choose|k: int|
                                s.unmapped(k) && forall|j: int| 0 <= j < k ==> !s.unmapped(j);
                            assert(first == id as int);
                        }
                    }
                    return AnalysisResult::Fail(message);
                }
                id = id + 1;
            }
            assert forall|gate: GateState, k: int| !(#[trigger] self.state(gate).unmapped(k)) by {}
        }
        let mut result: AnalysisResult = self.result;
        if let Some(reason) = &self.unfollowed {
            mark_unknown(&mut result, reason.as_str());
        }
        result
    }
}

pub(crate) proof fn lemma_reaches_push(
    settings: Settings,
    start: State,
    path: Seq<(Site, Instruction)>,
    mid: State,
    at: (Site, Instruction),
    after: State,
)
    requires
        reaches(settings, start, path, mid),
        one_step(settings, mid, at, after),
    ensures
        reaches(settings, start, path.push(at), after),
{
    let longer = path.push(at);
    assert(longer.drop_last() =~= path);
    assert(one_step(settings, mid, longer.last(), after));
}

/// `r` is the outcome of an analysis of `module` that found the human-in-the-loop
/// gate in `before` and left it in `after`: it reports a state that the
/// instructions of the module lead to.
pub open spec fn analysed(
    module: Module,
    assembly: InlineAsmPolicy,
    dma: DmaPolicy,
    before: GateState,
    after: GateState,
    r: AnalysisOutcome,
) -> bool {
    exists|end: State| #[trigger]
        reaches(
            settings_for(module, assembly, dma),
            State::initial(before),
            sites(module),
            end,
        ) && end.gate == after && r.reports(end, dma)
}

/// Analyses all functions of a module in order.
///
/// The human-in-the-loop gate keeps record of the verification conditions; a
/// condition that it blocks is not handed to the solver. The analysis stops at
/// the first failure.
pub fn analyze(
    module: &Module,
    hitl_gate: &mut HitlGate,
    inline_asm_policy: InlineAsmPolicy,
    dma_policy: DmaPolicy,
) -> (r: AnalysisOutcome)
    ensures
        analysed(
            *module,
            inline_asm_policy,
            dma_policy,
            old(hitl_gate)@,
            final(hitl_gate)@,
            r,
        ),
{
    let handlers: StringSet = scan_irq_handlers(module);
    let mut analyzer: Analyzer = Analyzer {
        module,
        irq_risk: !handlers.is_empty(),
        assembly: inline_asm_policy,
        dma: dma_policy,
        scope: String::new(),
        ptr_env: NameMap::new(),
        int_env: NameMap::new(),
        allocs: Vec::new(),
        alloca_names: NameSet::new(),
        alloca_store: NameMap::new(),
        checked: Ghost(Seq::empty()),
        inline_asm_vcs: 0,
        dma_vcs: 0,
        irq_race_vcs: 0,
        result: AnalysisResult::Pass,
        unfollowed: None,
    };
    let ghost settings = settings_for(*module, inline_asm_policy, dma_policy);
    let ghost start = State::initial(hitl_gate@);
    proof {
        if handlers@ =~= Set::empty() {
            assert forall|h: Seq<char>| !handler_frees(module.functions@, h) by {
                assert(!handlers@.contains(h));
            }
        } else {
            let h = choose|h: Seq<char>| handlers@.contains(h);
            assert(handlers@.contains(h));
            assert(handler_frees(module.functions@, h));
        }
        assert(analyzer.settings() == settings);
        assert(analyzer.state(hitl_gate@) == start);
    }
    let mut f: usize = 0;
    while f < module.functions.len()
        invariant
            f <= module.functions.len(),
            start == State::initial(old(hitl_gate)@),
            analyzer.settings() == settings,
            reaches(
                settings,
                start,
                module_sites(module.functions@, f as nat),
                analyzer.state(hitl_gate@),
            ),
            analyzer.state(hitl_gate@).well_formed(settings),
        decreases module.functions.len() - f,
    {
        let function: &Function = &module.functions[f];
        analyzer.function(
            hitl_gate,
            function,
            Ghost(start),
            Ghost(module_sites(module.functions@, f as nat)),
        );
        f = f + 1;
    }
    let ghost end = analyzer.state(hitl_gate@);
    let hitl_seen_vcs: usize = count_distinct(&hitl_gate.seen);
    let hitl_blocked_vcs: usize = count_distinct(&hitl_gate.blocked);
    let hitl_seen_classes: usize = count_distinct(&hitl_gate.seen_classes);
    let hitl_blocked_classes: usize = count_distinct(&hitl_gate.blocked_classes);
    let inline_asm_vcs: usize = analyzer.inline_asm_vcs;
    let dma_vcs: usize = analyzer.dma_vcs;
    let irq_race_vcs: usize = analyzer.irq_race_vcs;
    let r: AnalysisOutcome = AnalysisOutcome {
        result: analyzer.finish(),
        hitl_seen_vcs,
        hitl_blocked_vcs,
        hitl_seen_classes,
        hitl_blocked_classes,
        inline_asm_vcs,
        dma_vcs,
        irq_race_vcs,
    };
    assert(reaches(settings, start, sites(*module), end) && r.reports(end, dma_policy));
    r
}

/// Runs `analyze` with a time limit on every query.
///
/// Sets the limit with `Config::set_timeout_msec` and calls `analyze` in
/// `with_z3_config`, which makes solvers use the configuration, calls the closure
/// once and returns what it returns. A query that exceeds the limit is one that
/// the solver gives up on.
#[verifier::external_body]
fn analyze_limited(
    timeout_msec: u64,
    module: &Module,
    hitl_gate: &mut HitlGate,
    inline_asm_policy: InlineAsmPolicy,
    dma_policy: DmaPolicy,
) -> (r: AnalysisOutcome)
    ensures
        analysed(
            *module,
            inline_asm_policy,
            dma_policy,
            old(hitl_gate)@,
            final(hitl_gate)@,
            r,
        ),
{
    let mut cfg = Config::new();
    cfg.set_timeout_msec(timeout_msec);
    with_z3_config(&cfg, || analyze(module, hitl_gate, inline_asm_policy, dma_policy))
}

/// Analyses a module with a limit of five seconds for every query.
pub fn analyze_within_limit(
    module: &Module,
    hitl_gate: &mut HitlGate,
    inline_asm_policy: InlineAsmPolicy,
    dma_policy: DmaPolicy,
) -> (r: AnalysisOutcome)
    ensures
        analysed(
            *module,
            inline_asm_policy,
            dma_policy,
            old(hitl_gate)@,
            final(hitl_gate)@,
            r,
        ),
{
    analyze_limited(5_000, module, hitl_gate, inline_asm_policy, dma_policy)
}

} // verus!
