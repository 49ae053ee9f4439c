//! What the analysis does: the state that it keeps and the effect of every
//! instruction on it.
use crate::assembly::safe_inline_asm;
use crate::hitl::{vc_class_text, vc_text, GateState};
use crate::ir::{
    called_name, const_value, gep_distance, handler_frees, local_name, operand_size, size_of_type,
    BasicBlock, BinaryOp, Call, Callee, Cast, Function, GetElementPtr, Instruction, Module, Name,
    NameId, Operand, Type,
};
use crate::modes::{DmaPolicy, InlineAsmPolicy};
use crate::solver::{AccessCheckResult, out_of_bounds};
use crate::text::decimal;
use crate::verdict::Finding;
use vstd::prelude::*;

verus! {

/// Where a pointer points.
pub enum Pointer {
    /// Into an allocation of the kmalloc family, at a byte offset.
    Kmalloc { alloc_id: nat, offset: int },
    /// Into a DMA allocation, at a byte offset.
    DmaAlloc { alloc_id: nat, offset: int },
    /// Somewhere that is not tracked.
    Unknown,
}

/// What an integer was derived from.
pub enum Derived {
    /// A pointer into an allocation of the kmalloc family.
    PtrOffset { alloc_id: nat, offset: int },
    /// Something that is not tracked.
    Unknown,
}

/// An allocation.
#[derive(Copy, Clone, Debug)]
pub struct Allocation {
    /// Its size in bytes.
    pub size: u64,
    /// It was passed to `kfree`.
    pub freed: bool,
    /// It came from `dma_alloc_coherent`.
    pub dma: bool,
    /// It is a DMA allocation, and a pointer into it was passed to `iommu_map`.
    pub mapped: bool,
}

/// One bound check: the VC, the access, and what came of it.
pub struct Access {
    pub vc: Seq<char>,
    pub class: Seq<char>,
    pub alloc_id: nat,
    pub alloc_size: nat,
    pub offset: int,
    pub len: nat,
    pub verdict: AccessCheckResult,
}

/// The settings of an analysis.
pub struct Settings {
    /// The definitions of named types.
    pub types: Map<Seq<char>, Type>,
    /// Some registered interrupt handler calls `kfree`.
    pub irq_risk: bool,
    pub assembly: InlineAsmPolicy,
    pub dma: DmaPolicy,
}

/// The place of an instruction in its module.
pub struct Site {
    pub function: Seq<char>,
    pub bb: nat,
    pub index: nat,
}

impl Site {
    pub open spec fn vc(self, kind: Seq<char>) -> Seq<char> {
        vc_text(self.function, self.bb, self.index, kind)
    }
}

/// The state of an analysis.
pub struct State {
    /// The function whose names are bound.
    pub scope: Seq<char>,
    pub ptr_env: Map<NameId, Pointer>,
    pub int_env: Map<NameId, Derived>,
    pub allocs: Seq<Allocation>,
    pub alloca_names: Set<NameId>,
    pub alloca_store: Map<NameId, Pointer>,
    pub checked: Seq<Access>,
    pub gate: GateState,
    pub inline_asm_vcs: nat,
    pub dma_vcs: nat,
    pub irq_race_vcs: nat,
    pub result: Finding,
    /// Why memory was touched or freed that is not followed, where that happened.
    pub unfollowed: Option<Seq<char>>,
}

/// What comes of a bound check. Where the VC is admitted, the solver decides
/// unless it gives up.
pub open spec fn access_verdict(
    gate: GateState,
    vc: Seq<char>,
    class: Seq<char>,
    alloc_size: nat,
    offset: int,
    len: nat,
    gave_up: bool,
) -> AccessCheckResult {
    if !gate.admits(vc, class) {
        AccessCheckResult::HitlBlocked
    } else if gave_up {
        AccessCheckResult::SolverUnknown
    } else if out_of_bounds(alloc_size as int, offset, len as int) {
        AccessCheckResult::Oob
    } else {
        AccessCheckResult::Safe
    }
}

/// The allocation and offset of a tracked pointer.
pub open spec fn place_of(pointer: Pointer) -> Option<(nat, int)> {
    match pointer {
        Pointer::Kmalloc { alloc_id, offset } => Some((alloc_id, offset)),
        Pointer::DmaAlloc { alloc_id, offset } => Some((alloc_id, offset)),
        Pointer::Unknown => None,
    }
}

/// The value at `key`, where there is one.
pub open spec fn lookup<K, V>(map: Map<K, V>, key: K) -> Option<V> {
    if map.contains_key(key) {
        Some(map[key])
    } else {
        None
    }
}

/// The value of a local operand in `map`.
pub open spec fn lookup_local<V>(map: Map<NameId, V>, op: Operand) -> Option<V> {
    match local_name(op) {
        Some(name) => lookup(map, name),
        None => None,
    }
}

/// The place that a local operand points to, where it is followed.
pub open spec fn target(s: State, op: Operand) -> Option<(nat, int)> {
    match lookup_local(s.ptr_env, op) {
        Some(pointer) => place_of(pointer),
        None => None,
    }
}

/// The operand points into the allocation `alloc_id`.
pub open spec fn place_in(s: State, op: Operand, alloc_id: int) -> bool {
    target(s, op) is Some && (target(s, op)->0).0 == alloc_id
}

/// The operand is the address of a stack slot.
pub open spec fn is_slot(s: State, op: Operand) -> bool {
    local_name(op) is Some && s.alloca_names.contains(local_name(op)->0)
}

impl State {
    /// The state before the first instruction.
    pub open spec fn initial(gate: GateState) -> State {
        State {
            scope: Seq::empty(),
            ptr_env: Map::empty(),
            int_env: Map::empty(),
            allocs: Seq::empty(),
            alloca_names: Set::empty(),
            alloca_store: Map::empty(),
            checked: Seq::empty(),
            gate,
            inline_asm_vcs: 0,
            dma_vcs: 0,
            irq_race_vcs: 0,
            result: Finding::Pass,
            unfollowed: None,
        }
    }

    /// The state on the way into `function`: names of another function mean
    /// nothing there. Allocations outlive the function that made them.
    pub open spec fn inside(self, function: Seq<char>) -> State {
        if self.scope == function {
            self
        } else {
            State {
                scope: function,
                ptr_env: Map::empty(),
                int_env: Map::empty(),
                alloca_names: Set::empty(),
                alloca_store: Map::empty(),
                ..self
            }
        }
    }

    pub open spec fn fail(self, message: Seq<char>) -> State {
        State { result: Finding::Fail(message), ..self }
    }

    pub open spec fn mark(self, reason: Seq<char>) -> State {
        State { result: self.result.marked(reason), ..self }
    }

    /// Memory that is not followed was touched or freed. The first reason is kept
    /// aside: it decides only where nothing else was found.
    pub open spec fn unfollow(self, reason: Seq<char>) -> State {
        State {
            unfollowed: if self.unfollowed is Some {
                self.unfollowed
            } else {
                Some(reason)
            },
            ..self
        }
    }

    /// Nothing was found, and nothing was left unfollowed.
    pub open spec fn passes(self) -> bool {
        self.result is Pass && self.unfollowed is None
    }

    pub open spec fn bind_ptr(self, dest: NameId, pointer: Pointer) -> State {
        State { ptr_env: self.ptr_env.insert(dest, pointer), ..self }
    }

    pub open spec fn bind_int(self, dest: NameId, value: Derived) -> State {
        State { int_env: self.int_env.insert(dest, value), ..self }
    }

    /// Puts a VC that needs no solver to the human-in-the-loop gate.
    pub open spec fn put(self, vc: Seq<char>, class: Seq<char>) -> State {
        State { gate: self.gate.after(vc, class), ..self }
    }

    // ---- bound checks ----

    pub open spec fn verdict_on(
        self,
        vc: Seq<char>,
        class: Seq<char>,
        alloc_id: nat,
        offset: int,
        len: nat,
        gave_up: bool,
    ) -> AccessCheckResult {
        access_verdict(
            self.gate,
            vc,
            class,
            self.allocs[alloc_id as int].size as nat,
            offset,
            len,
            gave_up,
        )
    }

    /// Records a bound check.
    pub open spec fn record(
        self,
        vc: Seq<char>,
        class: Seq<char>,
        alloc_id: nat,
        offset: int,
        len: nat,
        gave_up: bool,
    ) -> State {
        State {
            gate: self.gate.after(vc, class),
            checked: self.checked.push(
                Access {
                    vc,
                    class,
                    alloc_id,
                    alloc_size: self.allocs[alloc_id as int].size as nat,
                    offset,
                    len,
                    verdict: self.verdict_on(vc, class, alloc_id, offset, len, gave_up),
                },
            ),
            ..self
        }
    }

    /// A checked access of `len` bytes. `kind` names the VC and its class,
    /// `access` the access and `operation` the operation in messages.
    pub open spec fn access(
        self,
        site: Site,
        kind: Seq<char>,
        access: Seq<char>,
        operation: Seq<char>,
        alloc_id: nat,
        offset: int,
        len: nat,
        gave_up: bool,
    ) -> State {
        let vc = site.vc(kind);
        let class = vc_class_text(kind, len);
        let next = self.record(vc, class, alloc_id, offset, len, gave_up);
        match self.verdict_on(vc, class, alloc_id, offset, len, gave_up) {
            AccessCheckResult::Oob => next.fail(
                "Out-of-bounds "@ + access + " in function "@ + site.function,
            ),
            AccessCheckResult::Safe => next,
            AccessCheckResult::SolverUnknown => next.mark(
                "Solver returned unknown for "@ + operation + " bound check"@,
            ),
            AccessCheckResult::HitlBlocked => next.mark("HITL gate blocked unapproved VC: "@ + vc),
        }
    }

    /// An access that an interrupt handler may race with.
    pub open spec fn race(self, site: Site, operation: Seq<char>, alloc_id: nat) -> State {
        let vc = site.vc("irq_race_"@ + operation);
        let class = "class::irq_race::alloc"@ + decimal(alloc_id);
        let next = State { irq_race_vcs: self.irq_race_vcs + 1, ..self.put(vc, class) };
        if self.gate.admits(vc, class) {
            next.mark(
                "Potential IRQ race: interrupt handler may free allocation "@ + decimal(alloc_id)
                    + " before "@ + operation + " in "@ + site.function,
            )
        } else {
            next.mark("HITL gate blocked IRQ race VC: "@ + vc)
        }
    }

    /// A load or store of `len` bytes through a tracked pointer.
    pub open spec fn touch(
        self,
        settings: Settings,
        site: Site,
        operation: Seq<char>,
        no_size: Seq<char>,
        place: (nat, int),
        len: Option<nat>,
        gave_up: bool,
    ) -> State {
        if self.allocs[place.0 as int].freed {
            self.fail("Use-after-free "@ + operation + " in function "@ + site.function)
        } else {
            match len {
                None => self.mark(no_size),
                Some(n) => {
                    let next = self.access(
                        site,
                        operation,
                        operation,
                        operation,
                        place.0,
                        place.1,
                        n,
                        gave_up,
                    );
                    if settings.irq_risk && !(next.result is Fail) {
                        next.race(site, operation, place.0)
                    } else {
                        next
                    }
                },
            }
        }
    }

    // ---- calls ----

    /// A new allocation; its address goes to `dest`.
    pub open spec fn allocate(self, size: u64, dma: bool, dest: Option<Name>) -> State {
        let alloc_id = self.allocs.len();
        let next = State {
            allocs: self.allocs.push(Allocation { size, freed: false, dma, mapped: false }),
            ..self
        };
        match dest {
            Some(name) => next.bind_ptr(
                name@,
                if dma {
                    Pointer::DmaAlloc { alloc_id, offset: 0 }
                } else {
                    Pointer::Kmalloc { alloc_id, offset: 0 }
                },
            ),
            None => next,
        }
    }

    /// `kmalloc(size, ..)` and `kzalloc(size, ..)`.
    pub open spec fn kmalloc(self, call: Call) -> State {
        if call.arguments@.len() == 0 {
            self.mark("kmalloc/kzalloc missing size argument"@)
        } else {
            match const_value(call.arguments@[0]) {
                None => self.mark("kmalloc/kzalloc with non-constant size unsupported"@),
                Some(size) => self.allocate(size, false, call.dest),
            }
        }
    }

    /// `kcalloc(nmemb, size, ..)`.
    pub open spec fn kcalloc(self, call: Call) -> State {
        if call.arguments@.len() == 0 {
            self.mark("kcalloc missing nmemb argument"@)
        } else if call.arguments@.len() == 1 {
            self.mark("kcalloc missing size argument"@)
        } else {
            match (const_value(call.arguments@[0]), const_value(call.arguments@[1])) {
                (Some(nmemb), Some(size)) => if nmemb * size <= u64::MAX {
                    self.allocate((nmemb * size) as u64, false, call.dest)
                } else {
                    self.fail("kcalloc size multiplication overflow"@)
                },
                _ => self.mark("kcalloc with non-constant nmemb/size unsupported"@),
            }
        }
    }

    /// `kfree(ptr)`.
    pub open spec fn kfree(self, site: Site, call: Call) -> State {
        if call.arguments@.len() == 0 {
            self.mark("kfree missing pointer argument"@)
        } else if local_name(call.arguments@[0]) is None {
            self.mark("kfree on non-local operand unsupported"@)
        } else {
            match lookup_local(self.ptr_env, call.arguments@[0]) {
                Some(Pointer::Kmalloc { alloc_id, .. }) => if self.allocs[alloc_id as int].freed {
                    self.fail("Double free detected in function "@ + site.function)
                } else {
                    State {
                        allocs: self.allocs.update(
                            alloc_id as int,
                            Allocation { freed: true, ..self.allocs[alloc_id as int] },
                        ),
                        ..self
                    }
                },
                _ => self.unfollow("kfree on pointer of unsupported provenance"@),
            }
        }
    }

    /// An access of `len` bytes through one pointer argument of a call. A
    /// pointer that is not followed leaves nothing to check against.
    pub open spec fn fill(
        self,
        site: Site,
        kind: Seq<char>,
        access: Seq<char>,
        operation: Seq<char>,
        op: Operand,
        len: nat,
        gave_up: bool,
    ) -> State {
        match target(self, op) {
            Some(place) => if self.allocs[place.0 as int].freed {
                self.fail("Use-after-free in "@ + access + " in function "@ + site.function)
            } else {
                self.access(site, kind, access, operation, place.0, place.1, len, gave_up)
            },
            None => self.unfollow(access + " through pointer of unknown provenance"@),
        }
    }

    /// `memset(dest, value, len)`.
    pub open spec fn memset(self, site: Site, call: Call, gave_up: bool) -> State {
        if call.arguments@.len() == 0 {
            self.unfollow("memset missing destination argument"@)
        } else if call.arguments@.len() <= 2 {
            self.mark("memset missing length argument"@)
        } else if local_name(call.arguments@[0]) is None {
            self.unfollow("memset through pointer of unknown provenance"@)
        } else {
            match const_value(call.arguments@[2]) {
                None => self.mark("memset with non-constant length unsupported"@),
                Some(len) => self.fill(
                    site,
                    "memset"@,
                    "memset"@,
                    "memset"@,
                    call.arguments@[0],
                    len as nat,
                    gave_up,
                ),
            }
        }
    }

    /// `memcpy(dest, source, len)`: the destination is checked first.
    pub open spec fn memcpy(self, site: Site, call: Call, gave_up: (bool, bool)) -> State {
        if call.arguments@.len() == 0 {
            self.unfollow("memcpy missing destination argument"@)
        } else if call.arguments@.len() == 1 {
            self.mark("memcpy missing source argument"@)
        } else if call.arguments@.len() == 2 {
            self.mark("memcpy missing length argument"@)
        } else {
            match const_value(call.arguments@[2]) {
                None => self.mark("memcpy with non-constant length unsupported"@),
                Some(len) => {
                    let next = self.fill(
                        site,
                        "memcpy_destination"@,
                        "memcpy destination"@,
                        "memcpy"@,
                        call.arguments@[0],
                        len as nat,
                        gave_up.0,
                    );
                    if next.result is Fail {
                        next
                    } else {
                        next.fill(
                            site,
                            "memcpy_source"@,
                            "memcpy source"@,
                            "memcpy"@,
                            call.arguments@[1],
                            len as nat,
                            gave_up.1,
                        )
                    }
                },
            }
        }
    }

    /// `dma_alloc_coherent(dev, size, ..)`.
    pub open spec fn dma_alloc(self, site: Site, call: Call) -> State {
        if call.arguments@.len() <= 1 {
            self.mark("dma_alloc_coherent missing size argument"@)
        } else {
            match const_value(call.arguments@[1]) {
                None => self.mark("dma_alloc_coherent with non-constant size"@),
                Some(size) => {
                    let next = self.allocate(size, true, call.dest);
                    State { dma_vcs: next.dma_vcs + 1, ..next }.put(
                        site.vc("dma_alloc"@),
                        vc_class_text("dma_alloc"@, size as nat),
                    )
                },
            }
        }
    }

    /// `dma_map_single(dev, ptr, size, ..)`.
    pub open spec fn dma_map(self, site: Site, call: Call, gave_up: bool) -> State {
        if call.arguments@.len() <= 1 {
            self.mark("dma_map_single missing ptr argument"@)
        } else if call.arguments@.len() == 2 {
            self.mark("dma_map_single missing size argument"@)
        } else {
            match const_value(call.arguments@[2]) {
                None => self.mark("dma_map_single with non-constant size"@),
                Some(size) => match target(self, call.arguments@[1]) {
                    Some(place) => self.dma_check(site, place, size as nat, gave_up),
                    None => self.unfollow("dma_map_single on pointer of unknown provenance"@),
                },
            }
        }
    }

    /// The bound check of a DMA mapping.
    pub open spec fn dma_check(self, site: Site, place: (nat, int), len: nat, gave_up: bool) -> State {
        let vc = site.vc("dma_map"@);
        let class = vc_class_text("dma_bounds"@, len);
        let next = self.record(vc, class, place.0, place.1, len, gave_up);
        let counted = State { dma_vcs: next.dma_vcs + 1, ..next };
        match self.verdict_on(vc, class, place.0, place.1, len, gave_up) {
            AccessCheckResult::Oob => counted.fail(
                "DMA mapping exceeds allocation bounds in function "@ + site.function,
            ),
            AccessCheckResult::Safe => next,
            AccessCheckResult::SolverUnknown => counted.mark(
                "Solver unknown for DMA mapping bound check"@,
            ),
            AccessCheckResult::HitlBlocked => counted.mark("HITL gate blocked DMA VC: "@ + vc),
        }
    }

    /// An argument of the call points into the allocation `alloc_id`.
    pub open spec fn passed(self, call: Call, alloc_id: int) -> bool {
        exists|j: int|
            0 <= j < call.arguments@.len() && place_in(
                self,
                #[trigger] call.arguments@[j],
                alloc_id,
            )
    }

    /// `iommu_map(..)` covers the DMA allocations that its arguments point into.
    pub open spec fn iommu_map(self, call: Call) -> State {
        State {
            allocs: Seq::new(
                self.allocs.len(),
                |k: int|
                    Allocation {
                        mapped: self.allocs[k].mapped || self.allocs[k].dma && self.passed(call, k),
                        ..self.allocs[k]
                    },
            ),
            ..self
        }
    }

    /// Inline assembly.
    pub open spec fn assembly(self, settings: Settings, site: Site, text: Seq<char>) -> State {
        let counted = State { inline_asm_vcs: self.inline_asm_vcs + 1, ..self };
        match settings.assembly {
            InlineAsmPolicy::Trap => counted.fail(
                "Inline assembly detected in function "@ + site.function + " (trap policy)"@,
            ),
            InlineAsmPolicy::Conservative => if safe_inline_asm(text) {
                self
            } else {
                let vc = site.vc("inline_asm"@);
                let class = "class::inline_asm::opaque"@;
                if self.gate.admits(vc, class) {
                    counted.put(vc, class).mark(
                        "Opaque inline assembly in function "@ + site.function + ": '"@ + text
                            + "'"@,
                    )
                } else {
                    counted.put(vc, class).mark("HITL gate blocked inline asm VC: "@ + vc)
                }
            },
        }
    }

    /// A call.
    pub open spec fn call(
        self,
        settings: Settings,
        site: Site,
        call: Call,
        gave_up: (bool, bool),
    ) -> State {
        match called_name(call) {
            Some(name) => if name == "kmalloc"@ || name == "kzalloc"@ {
                self.kmalloc(call)
            } else if name == "kcalloc"@ {
                self.kcalloc(call)
            } else if name == "kfree"@ {
                self.kfree(site, call)
            } else if name == "memset"@ {
                self.memset(site, call, gave_up.0)
            } else if name == "memcpy"@ || name == "__memcpy"@ {
                self.memcpy(site, call, gave_up)
            } else if name == "dma_alloc_coherent"@ && !(settings.dma is Ignore) {
                self.dma_alloc(site, call)
            } else if name == "dma_map_single"@ && !(settings.dma is Ignore) {
                self.dma_map(site, call, gave_up.0)
            } else if name == "iommu_map"@ {
                self.iommu_map(call)
            } else {
                self
            },
            None => match call.function {
                Callee::InlineAssembly(text) => self.assembly(settings, site, text@),
                _ => self,
            },
        }
    }

    // ---- pointer arithmetic ----

    /// A pointer computation. The base is looked up among the pointers, then
    /// among those that were spilled to the stack.
    pub open spec fn gep(self, settings: Settings, gep: GetElementPtr) -> State {
        let dest = gep.dest@;
        let distance = gep_distance(settings.types, gep.source_element_type, gep.indices@);
        match local_name(gep.address) {
            None => self.bind_ptr(dest, Pointer::Unknown).mark("GEP base is not a local operand"@),
            Some(base) => {
                let found = if self.ptr_env.contains_key(base) {
                    lookup(self.ptr_env, base)
                } else {
                    lookup(self.alloca_store, base)
                };
                match (found, distance) {
                    (Some(Pointer::Kmalloc { alloc_id, offset }), Some(d)) => self.bind_ptr(
                        dest,
                        Pointer::Kmalloc { alloc_id, offset: offset + d },
                    ),
                    (Some(Pointer::DmaAlloc { alloc_id, offset }), Some(d)) => self.bind_ptr(
                        dest,
                        Pointer::DmaAlloc { alloc_id, offset: offset + d },
                    ),
                    (Some(Pointer::Kmalloc { .. }), None) => self.bind_ptr(
                        dest,
                        Pointer::Unknown,
                    ).mark("GEP with unsupported index/type pattern"@),
                    (Some(Pointer::DmaAlloc { .. }), None) => self.bind_ptr(
                        dest,
                        Pointer::Unknown,
                    ).mark("GEP with unsupported index/type pattern (DMA)"@),
                    _ => self.bind_ptr(dest, Pointer::Unknown),
                }
            },
        }
    }

    pub open spec fn ptr_to_int(self, cast: Cast) -> State {
        if local_name(cast.operand) is None {
            self.bind_int(cast.dest@, Derived::Unknown).mark(
                "PtrToInt from non-local operand unsupported"@,
            )
        } else {
            self.bind_int(
                cast.dest@,
                match lookup_local(self.ptr_env, cast.operand) {
                    Some(Pointer::Kmalloc { alloc_id, offset }) => Derived::PtrOffset {
                        alloc_id,
                        offset,
                    },
                    _ => Derived::Unknown,
                },
            )
        }
    }

    pub open spec fn int_to_ptr(self, cast: Cast) -> State {
        if local_name(cast.operand) is None {
            self.bind_ptr(cast.dest@, Pointer::Unknown).mark(
                "IntToPtr from non-local operand unsupported"@,
            )
        } else {
            self.bind_ptr(
                cast.dest@,
                match lookup_local(self.int_env, cast.operand) {
                    Some(Derived::PtrOffset { alloc_id, offset }) => Pointer::Kmalloc {
                        alloc_id,
                        offset,
                    },
                    _ => Pointer::Unknown,
                },
            )
        }
    }

    pub open spec fn bit_cast(self, cast: Cast) -> State {
        if local_name(cast.operand) is None {
            self.bind_ptr(cast.dest@, Pointer::Unknown).mark(
                "BitCast from non-local operand unsupported"@,
            )
        } else {
            self.bind_ptr(
                cast.dest@,
                match lookup_local(self.ptr_env, cast.operand) {
                    Some(pointer) => pointer,
                    None => Pointer::Unknown,
                },
            )
        }
    }

    /// An addition: a constant moves a pointer-derived integer on either side.
    pub open spec fn add_int(self, op: BinaryOp) -> State {
        let lhs = lookup_local(self.int_env, op.operand0);
        let rhs = lookup_local(self.int_env, op.operand1);
        let sum = match (lhs, rhs) {
            (Some(Derived::PtrOffset { alloc_id, offset }), _) => match const_value(op.operand1) {
                Some(n) => Some(Derived::PtrOffset { alloc_id, offset: offset + n }),
                None => None,
            },
            (_, Some(Derived::PtrOffset { alloc_id, offset })) => match const_value(op.operand0) {
                Some(n) => Some(Derived::PtrOffset { alloc_id, offset: offset + n }),
                None => None,
            },
            _ => None,
        };
        match sum {
            Some(value) => self.bind_int(op.dest@, value),
            None => if lhs is Some || rhs is Some {
                self.bind_int(op.dest@, Derived::Unknown).mark(
                    "Unsupported pointer-derived integer add pattern"@,
                )
            } else {
                self
            },
        }
    }

    /// A subtraction: a constant moves a pointer-derived integer on the left.
    pub open spec fn sub_int(self, op: BinaryOp) -> State {
        let lhs = lookup_local(self.int_env, op.operand0);
        let rhs = lookup_local(self.int_env, op.operand1);
        let difference = match (lhs, const_value(op.operand1)) {
            (Some(Derived::PtrOffset { alloc_id, offset }), Some(n)) => Some(
                Derived::PtrOffset { alloc_id, offset: offset - n },
            ),
            _ => None,
        };
        let next = match difference {
            Some(value) => self.bind_int(op.dest@, value),
            None => if lhs is Some || rhs is Some {
                self.bind_int(op.dest@, Derived::Unknown).mark(
                    "Unsupported pointer-derived integer sub pattern"@,
                )
            } else {
                self
            },
        };
        if rhs is Some {
            next.mark("Subtracting pointer-derived integer as RHS is unsupported"@)
        } else {
            next
        }
    }

    // ---- memory ----

    /// A store. A pointer that goes to a stack slot is remembered there, and
    /// forgotten when something else goes there. Any other address that is not
    /// followed leaves nothing to check against.
    pub open spec fn store(
        self,
        settings: Settings,
        site: Site,
        address: Operand,
        value: Operand,
        gave_up: bool,
    ) -> State {
        let spilled = self.spill(address, value);
        match target(self, address) {
            Some(place) => spilled.touch(
                settings,
                site,
                "store"@,
                "Store with unknown value type size"@,
                place,
                operand_size(settings.types, value),
                gave_up,
            ),
            None => if is_slot(self, address) {
                spilled
            } else {
                spilled.unfollow("Store through pointer of unknown provenance"@)
            },
        }
    }

    /// The state once a stack slot at `address` holds `value`.
    pub open spec fn spill(self, address: Operand, value: Operand) -> State {
        if is_slot(self, address) {
            State {
                alloca_store: self.alloca_store.insert(
                    local_name(address)->0,
                    match lookup_local(self.ptr_env, value) {
                        Some(pointer) => pointer,
                        None => Pointer::Unknown,
                    },
                ),
                ..self
            }
        } else {
            self
        }
    }

    /// The state once what a stack slot at `address` remembers is in `dest`.
    pub open spec fn reload(self, address: Operand, dest: Name) -> State {
        if is_slot(self, address) && self.alloca_store.contains_key(local_name(address)->0) {
            self.bind_ptr(dest@, self.alloca_store[local_name(address)->0])
        } else {
            self
        }
    }

    /// A load. A pointer that was remembered in the stack slot comes back. Any
    /// other address that is not followed leaves nothing to check against.
    pub open spec fn load(
        self,
        settings: Settings,
        site: Site,
        address: Operand,
        dest: Name,
        loaded_ty: Type,
        gave_up: bool,
    ) -> State {
        let recovered = self.reload(address, dest);
        match target(recovered, address) {
            Some(place) => recovered.touch(
                settings,
                site,
                "load"@,
                "Load with unknown type size"@,
                place,
                size_of_type(settings.types, loaded_ty),
                gave_up,
            ),
            None => if is_slot(self, address) {
                recovered
            } else {
                recovered.unfollow("Load through pointer of unknown provenance"@)
            },
        }
    }

    /// The state after one instruction. A failed analysis stays as it is.
    /// `gave_up` tells for each query of the instruction whether the solver
    /// gave up on it.
    pub open spec fn step(
        self,
        settings: Settings,
        site: Site,
        instr: Instruction,
        gave_up: (bool, bool),
    ) -> State {
        if self.result is Fail {
            self
        } else {
            match instr {
                Instruction::Alloca { dest } => State {
                    alloca_names: self.alloca_names.insert(dest@),
                    ..self
                },
                Instruction::Call(call) => self.call(settings, site, call, gave_up),
                Instruction::GetElementPtr(gep) => self.gep(settings, gep),
                Instruction::PtrToInt(cast) => self.ptr_to_int(cast),
                Instruction::IntToPtr(cast) => self.int_to_ptr(cast),
                Instruction::BitCast(cast) => self.bit_cast(cast),
                Instruction::Add(op) => self.add_int(op),
                Instruction::Sub(op) => self.sub_int(op),
                Instruction::Store { address, value } => self.store(
                    settings,
                    site,
                    address,
                    value,
                    gave_up.0,
                ),
                Instruction::Load { address, dest, loaded_ty } => self.load(
                    settings,
                    site,
                    address,
                    dest,
                    loaded_ty,
                    gave_up.0,
                ),
                Instruction::OtherAccess => self.unfollow(
                    "Unsupported memory access instruction"@,
                ),
                Instruction::Other => self,
            }
        }
    }

    /// A DMA allocation that no `iommu_map` covers.
    pub open spec fn unmapped(self, id: int) -> bool {
        0 <= id < self.allocs.len() && self.allocs[id].dma && !self.allocs[id].mapped
    }

    /// The result once all instructions are done: where an IOMMU is required,
    /// the first DMA allocation without one makes it fail; else, where nothing was
    /// found but something was left unfollowed, it is unknown.
    pub open spec fn finished(self, dma: DmaPolicy) -> Finding {
        if dma is RequireIommu && exists|id: int| self.unmapped(id) {
            let id = choose|id: int|
                self.unmapped(id) && forall|k: int| 0 <= k < id ==> !self.unmapped(k);
            Finding::Fail(
                "DMA allocation "@ + decimal(id as nat)
                    + " has no paired iommu_map call (require-iommu policy)"@,
            )
        } else {
            match self.unfollowed {
                Some(reason) => self.result.marked(reason),
                None => self.result,
            }
        }
    }
}

impl State {
    /// The allocation that a pointer refers to exists.
    pub open spec fn points_inside(self, pointer: Pointer) -> bool {
        match place_of(pointer) {
            Some((alloc_id, _)) => alloc_id < self.allocs.len(),
            None => true,
        }
    }

    /// What every state of an analysis keeps: pointers and integers refer to
    /// existing allocations, and no counter exceeds the number of VCs seen. A
    /// trapped assembly is counted without a VC, and ends the analysis.
    pub open spec fn well_formed(self, settings: Settings) -> bool {
        &&& forall|name: NameId| #[trigger]
            self.ptr_env.contains_key(name) ==> self.points_inside(self.ptr_env[name])
        &&& forall|name: NameId| #[trigger]
            self.alloca_store.contains_key(name) ==> self.points_inside(self.alloca_store[name])
        &&& forall|name: NameId| #[trigger]
            self.int_env.contains_key(name) ==> match self.int_env[name] {
                Derived::PtrOffset { alloc_id, .. } => alloc_id < self.allocs.len(),
                Derived::Unknown => true,
            }
        &&& self.dma_vcs <= self.gate.seen.len()
        &&& self.irq_race_vcs <= self.gate.seen.len()
        &&& match settings.assembly {
            InlineAsmPolicy::Conservative => self.inline_asm_vcs <= self.gate.seen.len(),
            InlineAsmPolicy::Trap => self.inline_asm_vcs == 0 || self.result is Fail,
        }
    }
}

/// The instructions of a block, each with its place.
pub open spec fn block_sites(
    function: Seq<char>,
    bb: nat,
    block: BasicBlock,
) -> Seq<(Site, Instruction)> {
    Seq::new(
        block.instrs@.len(),
        |i: int| (Site { function, bb, index: i as nat }, block.instrs@[i]),
    )
}

/// The instructions of the first `n` blocks of a function.
pub open spec fn function_sites(function: Function, n: nat) -> Seq<(Site, Instruction)>
    decreases n,
{
    if n == 0 {
        Seq::empty()
    } else {
        function_sites(function, (n - 1) as nat) + block_sites(
            function.name@,
            (n - 1) as nat,
            function.basic_blocks@[n - 1],
        )
    }
}

/// The instructions of the first `n` functions.
pub open spec fn module_sites(functions: Seq<Function>, n: nat) -> Seq<(Site, Instruction)>
    decreases n,
{
    if n == 0 {
        Seq::empty()
    } else {
        module_sites(functions, (n - 1) as nat) + function_sites(
            functions[n - 1],
            functions[n - 1].basic_blocks@.len(),
        )
    }
}

/// The instructions of a module in order.
pub open spec fn sites(module: Module) -> Seq<(Site, Instruction)> {
    module_sites(module.functions@, module.functions@.len())
}

/// `after` follows from `before` by one instruction, whatever the solver gave up on.
pub open spec fn one_step(
    settings: Settings,
    before: State,
    at: (Site, Instruction),
    after: State,
) -> bool {
    exists|gave_up: (bool, bool)|
        after == #[trigger] before.inside(at.0.function).step(settings, at.0, at.1, gave_up)
}

/// `after` follows from `before` by the given instructions in order.
pub open spec fn reaches(
    settings: Settings,
    before: State,
    path: Seq<(Site, Instruction)>,
    after: State,
) -> bool
    decreases path.len(),
{
    if path.len() == 0 {
        after == before
    } else {
        exists|mid: State|
            reaches(settings, before, path.drop_last(), mid) && #[trigger] one_step(
                settings,
                mid,
                path.last(),
                after,
            )
    }
}

/// The settings under which a module is analysed.
pub open spec fn settings_for(
    module: Module,
    assembly: InlineAsmPolicy,
    dma: DmaPolicy,
) -> Settings {
    Settings {
        types: module.types@,
        irq_risk: exists|h: Seq<char>| handler_frees(module.functions@, h),
        assembly,
        dma,
    }
}

} // verus!
