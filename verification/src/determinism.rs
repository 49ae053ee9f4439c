//! The outcome of an analysis depends on the solver only where it gives up.
use crate::hitl::vc_class_text;
use crate::invariants::lemma_one_step;
use crate::ir::{
    const_value, operand_size, size_of_type, Call, Instruction, Name, Operand, Type,
};
use crate::laws::law_run_keeps;
use crate::machine::{one_step, reaches, target, Access, Settings, Site, State};
use vstd::prelude::*;

verus! {

/// The solver gave up on none of the checks.
#[verifier::opaque]
pub open spec fn decided(checked: Seq<Access>) -> bool {
    forall|k: int| 0 <= k < checked.len() ==> !((#[trigger] checked[k]).verdict is SolverUnknown)
}

proof fn lemma_decided_prefix(a: Seq<Access>, b: Seq<Access>)
    requires
        a.is_prefix_of(b),
        decided(b),
    ensures
        decided(a),
{
    reveal(decided);
    assert forall|k: int| 0 <= k < a.len() implies !((#[trigger] a[k]).verdict is SolverUnknown) by {
        assert(a[k] == b[k]);
    }
}

proof fn lemma_record(
    s: State,
    vc: Seq<char>,
    class: Seq<char>,
    alloc_id: nat,
    offset: int,
    len: nat,
    gave_up: bool,
)
    requires
        decided(s.record(vc, class, alloc_id, offset, len, gave_up).checked),
    ensures
        s.verdict_on(vc, class, alloc_id, offset, len, gave_up) == s.verdict_on(
            vc,
            class,
            alloc_id,
            offset,
            len,
            false,
        ),
{
    reveal(decided);
    let checked = s.record(vc, class, alloc_id, offset, len, gave_up).checked;
    assert(!(checked[checked.len() - 1].verdict is SolverUnknown));
}

proof fn lemma_access(
    s: State,
    site: Site,
    kind: Seq<char>,
    access: Seq<char>,
    operation: Seq<char>,
    alloc_id: nat,
    offset: int,
    len: nat,
    gave_up: bool,
)
    requires
        decided(s.access(site, kind, access, operation, alloc_id, offset, len, gave_up).checked),
    ensures
        s.access(site, kind, access, operation, alloc_id, offset, len, gave_up) == s.access(
            site,
            kind,
            access,
            operation,
            alloc_id,
            offset,
            len,
            false,
        ),
{
    let class = vc_class_text(kind, len);
    lemma_record(s, site.vc(kind), class, alloc_id, offset, len, gave_up);
}

proof fn lemma_touch(
    s: State,
    settings: Settings,
    site: Site,
    operation: Seq<char>,
    no_size: Seq<char>,
    place: (nat, int),
    len: Option<nat>,
    gave_up: bool,
)
    requires
        decided(s.touch(settings, site, operation, no_size, place, len, gave_up).checked),
    ensures
        s.touch(settings, site, operation, no_size, place, len, gave_up) == s.touch(
            settings,
            site,
            operation,
            no_size,
            place,
            len,
            false,
        ),
{
    if !s.allocs[place.0 as int].freed && len is Some {
        lemma_access(
            s,
            site,
            operation,
            operation,
            operation,
            place.0,
            place.1,
            len->0,
            gave_up,
        );
    }
}

proof fn lemma_fill(
    s: State,
    site: Site,
    kind: Seq<char>,
    access: Seq<char>,
    operation: Seq<char>,
    op: Operand,
    len: nat,
    gave_up: bool,
)
    requires
        decided(s.fill(site, kind, access, operation, op, len, gave_up).checked),
    ensures
        s.fill(site, kind, access, operation, op, len, gave_up) == s.fill(
            site,
            kind,
            access,
            operation,
            op,
            len,
            false,
        ),
        decided(s.checked),
{
    let next = s.fill(site, kind, access, operation, op, len, gave_up);
    assert(s.checked.is_prefix_of(next.checked));
    lemma_decided_prefix(s.checked, next.checked);
    if let Some(place) = target(s, op) {
        if !s.allocs[place.0 as int].freed {
            lemma_access(s, site, kind, access, operation, place.0, place.1, len, gave_up);
        }
    }
}

proof fn lemma_memcpy(s: State, site: Site, call: Call, gave_up: (bool, bool))
    requires
        decided(s.memcpy(site, call, gave_up).checked),
    ensures
        s.memcpy(site, call, gave_up) == s.memcpy(site, call, (false, false)),
{
    if call.arguments@.len() > 2 && const_value(call.arguments@[2]) is Some {
        let len = const_value(call.arguments@[2])->0 as nat;
        let next = s.fill(
            site,
            "memcpy_destination"@,
            "memcpy destination"@,
            "memcpy"@,
            call.arguments@[0],
            len,
            gave_up.0,
        );
        if !(next.result is Fail) {
            lemma_fill(
                next,
                site,
                "memcpy_source"@,
                "memcpy source"@,
                "memcpy"@,
                call.arguments@[1],
                len,
                gave_up.1,
            );
        }
        lemma_fill(
            s,
            site,
            "memcpy_destination"@,
            "memcpy destination"@,
            "memcpy"@,
            call.arguments@[0],
            len,
            gave_up.0,
        );
    }
}

proof fn lemma_memset(s: State, site: Site, call: Call, gave_up: bool)
    requires
        decided(s.memset(site, call, gave_up).checked),
    ensures
        s.memset(site, call, gave_up) == s.memset(site, call, false),
{
    if call.arguments@.len() > 2 && const_value(call.arguments@[2]) is Some {
        lemma_fill(
            s,
            site,
            "memset"@,
            "memset"@,
            "memset"@,
            call.arguments@[0],
            const_value(call.arguments@[2])->0 as nat,
            gave_up,
        );
    }
}

proof fn lemma_dma_check(s: State, site: Site, place: (nat, int), len: nat, gave_up: bool)
    requires
        decided(s.dma_check(site, place, len, gave_up).checked),
    ensures
        s.dma_check(site, place, len, gave_up) == s.dma_check(site, place, len, false),
{
    let class = vc_class_text("dma_bounds"@, len);
    lemma_record(s, site.vc("dma_map"@), class, place.0, place.1, len, gave_up);
}

proof fn lemma_dma_map(s: State, site: Site, call: Call, gave_up: bool)
    requires
        decided(s.dma_map(site, call, gave_up).checked),
    ensures
        s.dma_map(site, call, gave_up) == s.dma_map(site, call, false),
{
    if call.arguments@.len() > 2 && const_value(call.arguments@[2]) is Some {
        let len = const_value(call.arguments@[2])->0 as nat;
        if let Some(place) = target(s, call.arguments@[1]) {
            lemma_dma_check(s, site, place, len, gave_up);
        }
    }
}

proof fn lemma_call(s: State, settings: Settings, site: Site, call: Call, gave_up: (bool, bool))
    requires
        decided(s.call(settings, site, call, gave_up).checked),
    ensures
        s.call(settings, site, call, gave_up) == s.call(settings, site, call, (false, false)),
{
    let next = s.call(settings, site, call, gave_up);
    if next == s.memset(site, call, gave_up.0) {
        lemma_memset(s, site, call, gave_up.0);
    }
    if next == s.memcpy(site, call, gave_up) {
        lemma_memcpy(s, site, call, gave_up);
    }
    if next == s.dma_map(site, call, gave_up.0) {
        lemma_dma_map(s, site, call, gave_up.0);
    }
}

proof fn lemma_store(
    s: State,
    settings: Settings,
    site: Site,
    address: Operand,
    value: Operand,
    gave_up: bool,
)
    requires
        decided(s.store(settings, site, address, value, gave_up).checked),
    ensures
        s.store(settings, site, address, value, gave_up) == s.store(
            settings,
            site,
            address,
            value,
            false,
        ),
{
    if let Some(place) = target(s, address) {
        lemma_touch(
            s.spill(address, value),
            settings,
            site,
            "store"@,
            "Store with unknown value type size"@,
            place,
            operand_size(settings.types, value),
            gave_up,
        );
    }
}

proof fn lemma_load(
    s: State,
    settings: Settings,
    site: Site,
    address: Operand,
    dest: Name,
    loaded_ty: Type,
    gave_up: bool,
)
    requires
        decided(s.load(settings, site, address, dest, loaded_ty, gave_up).checked),
    ensures
        s.load(settings, site, address, dest, loaded_ty, gave_up) == s.load(
            settings,
            site,
            address,
            dest,
            loaded_ty,
            false,
        ),
{
    let recovered = s.reload(address, dest);
    if let Some(place) = target(recovered, address) {
        lemma_touch(
            recovered,
            settings,
            site,
            "load"@,
            "Load with unknown type size"@,
            place,
            size_of_type(settings.types, loaded_ty),
            gave_up,
        );
    }
}

proof fn lemma_step_decided(
    s: State,
    settings: Settings,
    site: Site,
    instr: Instruction,
    gave_up: (bool, bool),
)
    requires
        decided(s.step(settings, site, instr, gave_up).checked),
    ensures
        s.step(settings, site, instr, gave_up) == s.step(settings, site, instr, (false, false)),
{
    if !(s.result is Fail) {
        match instr {
            Instruction::Call(call) => lemma_call(s, settings, site, call, gave_up),
            Instruction::Store { address, value } => lemma_store(
                s,
                settings,
                site,
                address,
                value,
                gave_up.0,
            ),
            Instruction::Load { address, dest, loaded_ty } => lemma_load(
                s,
                settings,
                site,
                address,
                dest,
                loaded_ty,
                gave_up.0,
            ),
            _ => {},
        }
    }
}

/// Two runs over the same instructions from the same state end alike, unless
/// the solver gave up on a check.
pub proof fn law_deterministic(
    settings: Settings,
    start: State,
    path: Seq<(Site, Instruction)>,
    a: State,
    b: State,
)
    requires
        start.well_formed(settings),
        reaches(settings, start, path, a),
        reaches(settings, start, path, b),
        decided(a.checked),
        decided(b.checked),
    ensures
        a == b,
    decreases path.len(),
{
    if path.len() > 0 {
        let at = path.last();
        let before_a = choose|mid: State|
            reaches(settings, start, path.drop_last(), mid) && #[trigger] one_step(
                settings,
                mid,
                at,
                a,
            );
        let before_b = choose|mid: State|
            reaches(settings, start, path.drop_last(), mid) && #[trigger] one_step(
                settings,
                mid,
                at,
                b,
            );
        lemma_before(settings, start, path.drop_last(), before_a, at, a);
        lemma_before(settings, start, path.drop_last(), before_b, at, b);
        law_deterministic(settings, start, path.drop_last(), before_a, before_b);
    }
}

pub(crate) proof fn lemma_before(
    settings: Settings,
    start: State,
    path: Seq<(Site, Instruction)>,
    mid: State,
    at: (Site, Instruction),
    after: State,
)
    requires
        start.well_formed(settings),
        reaches(settings, start, path, mid),
        one_step(settings, mid, at, after),
        decided(after.checked),
    ensures
        decided(mid.checked),
        after == mid.inside(at.0.function).step(settings, at.0, at.1, (false, false)),
{
    let here = mid.inside(at.0.function);
    let gave_up = choose|gave_up: (bool, bool)|
        after == #[trigger] here.step(settings, at.0, at.1, gave_up);
    law_run_keeps(settings, start, path, mid);
    assert(mid.extends_to(after)) by {
        lemma_one_step(mid, settings, at, after);
        reveal(State::leads_to);
    }
    lemma_decided_prefix(mid.checked, after.checked);
    lemma_step_decided(here, settings, at.0, at.1, gave_up);
}

} // verus!
