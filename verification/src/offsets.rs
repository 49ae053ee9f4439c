//! Laws of layouts and of the offsets that indices lead to.
use crate::ir::{
    const_value, gep_distance, resolved_type, scaled, selected, size_of_type, unfolded, walked,
    Operand, Type,
};
use crate::laws::vocabulary::is_number;
use crate::layout::{
    doubled, element_bits, element_offset, law_layout_covers_size, law_layout_is_aligned, law_rounded,
    layout_of, layout_within, parts_within, rounded, scalar_align, vector_bytes, Layout, MAX_ALIGN,
};
use crate::sizes::law_resolution_is_stable;
use vstd::prelude::*;

verus! {

/// A layout that is found does not change when definitions may be unfolded
/// deeper.
pub proof fn law_layout_is_stable(table: Map<Seq<char>, Type>, ty: Type, fuel: nat, more: nat)
    requires
        layout_within(table, ty, fuel) is Some,
        fuel <= more,
    ensures
        layout_within(table, ty, more) == layout_within(table, ty, fuel),
    decreases fuel, ty,
{
    match ty {
        Type::ArrayType { element_type, .. } => {
            law_layout_is_stable(table, *element_type, fuel, more);
        },
        Type::StructType { element_types, packed } => {
            lemma_parts_are_stable(table, element_types@, packed, fuel, more);
        },
        Type::NamedStructType { name } => {
            law_layout_is_stable(table, table[name@], (fuel - 1) as nat, (more - 1) as nat);
        },
        _ => {},
    }
}

proof fn lemma_parts_are_stable(
    table: Map<Seq<char>, Type>,
    elements: Seq<Type>,
    packed: bool,
    fuel: nat,
    more: nat,
)
    requires
        parts_within(table, elements, packed, fuel) is Some,
        fuel <= more,
    ensures
        parts_within(table, elements, packed, more) == parts_within(table, elements, packed, fuel),
    decreases fuel, elements,
{
    if elements.len() > 0 {
        lemma_parts_are_stable(table, elements.drop_last(), packed, fuel, more);
        law_layout_is_stable(table, elements[elements.len() - 1], fuel, more);
    }
}

proof fn lemma_layout_unfolded(table: Map<Seq<char>, Type>, ty: Type, fuel: nat)
    requires
        layout_within(table, ty, fuel) is Some,
    ensures
        unfolded(table, ty, fuel) is Some,
        (unfolded(table, ty, fuel)->0).1 <= fuel,
        (unfolded(table, ty, fuel)->0).0 !is NamedStructType,
        layout_within(table, (unfolded(table, ty, fuel)->0).0, (unfolded(table, ty, fuel)->0).1)
            is Some,
    decreases fuel,
{
    if let Type::NamedStructType { name } = ty {
        lemma_layout_unfolded(table, table[name@], (fuel - 1) as nat);
    }
}

proof fn lemma_element_has_layout(
    table: Map<Seq<char>, Type>,
    elements: Seq<Type>,
    packed: bool,
    fuel: nat,
    index: int,
)
    requires
        parts_within(table, elements, packed, fuel) is Some,
        0 <= index < elements.len(),
    ensures
        layout_within(table, elements[index], fuel) is Some,
        parts_within(table, elements.take(index), packed, fuel) is Some,
    decreases elements.len(),
{
    if index == elements.len() - 1 {
        assert(elements.take(index) =~= elements.drop_last());
    } else {
        lemma_element_has_layout(table, elements.drop_last(), packed, fuel, index);
        assert(elements.drop_last().take(index) =~= elements.take(index));
    }
}

/// Every index into a value with a layout leads to a distance, padding or not,
/// and to a part with a layout.
pub proof fn law_parts_are_found(table: Map<Seq<char>, Type>, ty: Type, index: u64)
    requires
        layout_of(table, ty) is Some,
    ensures
        selected(table, ty, index) is Some,
        layout_of(table, (selected(table, ty, index)->0).1) is Some,
{
    lemma_layout_unfolded(table, ty, table.len());
    let (inner, rest) = unfolded(table, ty, table.len())->0;
    match inner {
        Type::ArrayType { element_type, .. } => {
            law_layout_is_stable(table, *element_type, rest, table.len());
        },
        Type::VectorType { element_type, .. } => {
            assert(element_bits(*element_type) is Some);
        },
        Type::StructType { element_types, packed } => {
            if index < element_types@.len() {
                lemma_element_has_layout(table, element_types@, packed, rest, index as int);
                law_layout_is_stable(table, element_types@[index as int], rest, table.len());
                lemma_parts_are_stable(
                    table,
                    element_types@.take(index as int),
                    packed,
                    rest,
                    table.len(),
                );
            }
        },
        _ => {},
    }
}

proof fn lemma_constants_lead_on(
    table: Map<Seq<char>, Type>,
    source: Type,
    indices: Seq<Operand>,
)
    requires
        layout_of(table, source) is Some,
        forall|k: int| 0 <= k < indices.len() ==> const_value(#[trigger] indices[k]) is Some,
    ensures
        walked(table, source, indices) is Some,
        layout_of(table, (walked(table, source, indices)->0).1) is Some,
    decreases indices.len(),
{
    if indices.len() > 0 {
        let before = indices.drop_last();
        assert forall|k: int| 0 <= k < before.len() implies const_value(
            #[trigger] before[k],
        ) is Some by {
            assert(before[k] == indices[k]);
        }
        lemma_constants_lead_on(table, source, before);
        assert(const_value(indices[indices.len() - 1]) is Some);
        law_parts_are_found(
            table,
            (walked(table, source, before)->0).1,
            const_value(indices.last())->0,
        );
    }
}

proof fn lemma_offset_needs_constant(
    table: Map<Seq<char>, Type>,
    source: Type,
    indices: Seq<Operand>,
    k: int,
)
    requires
        walked(table, source, indices) is Some,
        0 <= k < indices.len(),
    ensures
        const_value(indices[k]) is Some,
    decreases indices.len(),
{
    if k < indices.len() - 1 {
        lemma_offset_needs_constant(table, source, indices.drop_last(), k);
    }
}

/// Into a type with a layout, indices lead to an offset if and only if all of them
/// are constant: padding never hides one.
pub proof fn law_constant_indices_have_an_offset(
    table: Map<Seq<char>, Type>,
    source: Type,
    indices: Seq<Operand>,
)
    requires
        layout_of(table, source) is Some,
    ensures
        gep_distance(table, source, indices) is None <==> exists|k: int|
            0 <= k < indices.len() && const_value(#[trigger] indices[k]) is None,
{
    if gep_distance(table, source, indices) is Some {
        assert forall|k: int| 0 <= k < indices.len() implies const_value(
            #[trigger] indices[k],
        ) is Some by {
            lemma_offset_needs_constant(table, source, indices, k);
        }
    }
    if forall|k: int| 0 <= k < indices.len() ==> const_value(#[trigger] indices[k]) is Some {
        lemma_constants_lead_on(table, source, indices);
    }
}

/// Indices that are all zero, or none, stay where they are, whatever the type.
pub proof fn law_zero_indices_stay(
    table: Map<Seq<char>, Type>,
    source: Type,
    indices: Seq<Operand>,
)
    requires
        forall|k: int| 0 <= k < indices.len() ==> const_value(#[trigger] indices[k]) == Some(0u64),
    ensures
        gep_distance(table, source, indices) == Some(0nat),
    decreases indices.len(),
{
    if indices.len() > 0 {
        let before = indices.drop_last();
        assert forall|k: int| 0 <= k < before.len() implies const_value(#[trigger] before[k])
            == Some(0u64) by {
            assert(before[k] == indices[k]);
        }
        law_zero_indices_stay(table, source, before);
    }
}

// ---- layouts ----

/// A number lies on a power of two, the least that covers its bytes and at most 16,
/// and takes the fewest such units that hold its bits. A pointer takes eight bytes
/// on a multiple of eight.
pub proof fn law_scalar_layout(table: Map<Seq<char>, Type>, ty: Type, bits: u32)
    requires
        ty == (Type::IntegerType { bits }) || ty == (Type::FloatType { bits }),
    ensures
        layout_of(table, ty) matches Some(layout) && {
            let (size, align) = (layout.size as int, layout.align as int);
            &&& align == 1 || align == 2 || align == 4 || align == 8 || align == 16
            &&& size % align == 0
            &&& bits <= 8 * size < bits + 8 * align
            &&& align == 16 || bits <= 8 * align
            &&& align == 1 || bits > 4 * align
        },
        layout_of(table, Type::PointerType) == Some(Layout { size: 8, align: 8 }),
{
    let bytes = (bits as int + 7) / 8;
    law_rounded(bytes, scalar_align(bytes) as int);
    law_rounded(8, 8);
}

/// An array takes the room of its elements, one directly behind the other, and is
/// aligned as they are.
pub proof fn law_array_layout(table: Map<Seq<char>, Type>, ty: Type)
    requires
        ty is ArrayType,
    ensures
        match (layout_of(table, ty), layout_of(table, *ty->ArrayType_element_type)) {
            (Some(whole), Some(part)) => {
                &&& whole.align == part.align
                &&& part.size * ty->ArrayType_num_elements <= u64::MAX ==> whole.size == part.size
                    * ty->ArrayType_num_elements
                &&& part.size * ty->ArrayType_num_elements > u64::MAX ==> whole.size == u64::MAX
            },
            (None, None) => true,
            _ => false,
        },
{
}

/// Each element of a structure begins where the one before it ends, or, unless the
/// structure is packed, at the first multiple of its alignment behind that.
pub proof fn law_elements_are_placed(
    table: Map<Seq<char>, Type>,
    elements: Seq<Type>,
    packed: bool,
    index: int,
)
    requires
        0 <= index,
        index + 1 < elements.len(),
        element_offset(table, elements, packed, index) is Some,
        element_offset(table, elements, packed, index + 1) is Some,
    ensures
        element_offset(table, elements, packed, 0) == Some(0nat),
        layout_of(table, elements[index]) is Some,
        layout_of(table, elements[index + 1]) is Some,
        ({
            let end = element_offset(table, elements, packed, index)->0 + layout_of(
                table,
                elements[index],
            )->0.size;
            let next = element_offset(table, elements, packed, index + 1)->0;
            let align = layout_of(table, elements[index + 1])->0.align as int;
            &&& packed && end <= u64::MAX ==> next == end
            &&& !packed && end + align <= u64::MAX ==> next % (align as nat) == 0 && end <= next < end
                + align
        }),
{
    let head = elements.take(index + 1);
    assert(head.drop_last() =~= elements.take(index));
    assert(head[head.len() - 1] == elements[index]);
    let part = layout_of(table, elements[index])->0;
    let after = layout_of(table, elements[index + 1])->0;
    law_layout_is_aligned(table, elements[index], table.len());
    law_layout_is_aligned(table, elements[index + 1], table.len());
    if index == 0 {
        assert(elements.take(0) =~= Seq::empty());
        law_rounded(0, part.align as int);
        assert(rounded(0, part.align as int) == 0) by {
            vstd::arithmetic::div_mod::lemma_small_mod(0, part.align as nat);
        }
    }
    let parts = parts_within(table, head, packed, table.len())->0;
    law_rounded(parts.size as int, after.align as int);
}

/// A structure ends behind its last element, or, unless it is packed, at the first
/// multiple of its alignment behind that. It is aligned as its most aligned element.
pub proof fn law_structure_layout(table: Map<Seq<char>, Type>, ty: Type, last: int, k: int)
    requires
        ty is StructType,
        layout_of(table, ty) is Some,
        last == ty->element_types@.len() - 1,
        0 <= k <= last,
    ensures
        layout_of(table, ty->element_types@[k]) is Some,
        element_offset(table, ty->element_types@, ty->packed, last) is Some,
        ({
            let layout = layout_of(table, ty)->0;
            let elements = ty->element_types@;
            let end = element_offset(table, elements, ty->packed, last)->0 + layout_of(
                table,
                elements[last],
            )->0.size;
            &&& ty->packed ==> layout.align == 1
            &&& !ty->packed ==> layout_of(table, elements[k])->0.align <= layout.align
            &&& ty->packed && end <= u64::MAX ==> layout.size == end
            &&& !ty->packed && end + layout.align <= u64::MAX ==> layout.size % layout.align == 0
                && end <= layout.size < end + layout.align
        }),
{
    let elements = ty->element_types@;
    let packed = ty->packed;
    lemma_element_has_layout(table, elements, packed, table.len(), k);
    lemma_element_has_layout(table, elements, packed, table.len(), last);
    lemma_greatest_align(table, elements, packed, table.len(), k);
    law_layout_is_aligned(table, elements[last], table.len());
    assert(elements.take(last) =~= elements.drop_last());
    let part = layout_of(table, elements[last])->0;
    if last == 0 {
        assert(elements.drop_last() =~= Seq::empty());
        law_rounded(0, part.align as int);
        assert(rounded(0, part.align as int) == 0) by {
            vstd::arithmetic::div_mod::lemma_small_mod(0, part.align as nat);
        }
    }
    let parts = parts_within(table, elements, packed, table.len())->0;
    law_rounded(parts.size as int, parts.align as int);
}

proof fn lemma_greatest_align(
    table: Map<Seq<char>, Type>,
    elements: Seq<Type>,
    packed: bool,
    fuel: nat,
    k: int,
)
    requires
        parts_within(table, elements, packed, fuel) is Some,
        0 <= k < elements.len(),
    ensures
        layout_within(table, elements[k], fuel) is Some,
        packed ==> parts_within(table, elements, packed, fuel)->0.align == 1,
        !packed ==> layout_within(table, elements[k], fuel)->0.align <= parts_within(
            table,
            elements,
            packed,
            fuel,
        )->0.align,
        parts_within(table, elements, packed, fuel)->0.align > 0,
    decreases elements.len(),
{
    lemma_last_aligned(table, elements, fuel, packed);
    if k < elements.len() - 1 {
        lemma_greatest_align(table, elements.drop_last(), packed, fuel, k);
    }
}

proof fn lemma_last_aligned(table: Map<Seq<char>, Type>, elements: Seq<Type>, fuel: nat, packed: bool)
    requires
        parts_within(table, elements, packed, fuel) is Some,
        elements.len() > 0,
    ensures
        layout_within(table, elements[elements.len() - 1], fuel)->0.align > 0,
{
    law_layout_is_aligned(table, elements[elements.len() - 1], fuel);
}

/// A structure is no more aligned than it needs: not packed, it is aligned as one of
/// its elements, or has none that needs any.
pub proof fn law_structure_alignment(
    table: Map<Seq<char>, Type>,
    elements: Seq<Type>,
    fuel: nat,
)
    requires
        parts_within(table, elements, false, fuel) is Some,
        parts_within(table, elements, false, fuel)->0.align > 1,
    ensures
        exists|k: int|
            0 <= k < elements.len() && layout_within(
                table,
                #[trigger] elements[k],
                fuel,
            )->0.align == parts_within(table, elements, false, fuel)->0.align,
    decreases elements.len(),
{
    if elements.len() > 0 {
        let before = elements.drop_last();
        let parts = parts_within(table, elements, false, fuel)->0;
        if layout_within(table, elements[elements.len() - 1], fuel)->0.align != parts.align {
            law_structure_alignment(table, before, fuel);
            let k = choose|k: int|
                0 <= k < before.len() && layout_within(
                    table,
                    #[trigger] before[k],
                    fuel,
                )->0.align == parts_within(table, before, false, fuel)->0.align;
            assert(elements[k] == before[k]);
        }
    }
}

/// A vector has room for the bits of its elements, and its alignment is the least
/// power of two that covers it.
pub proof fn law_vector_layout(table: Map<Seq<char>, Type>, ty: Type, bits: nat)
    requires
        ty is VectorType,
        element_bits(*ty->VectorType_element_type) == Some(bits),
        bits * ty->VectorType_num_elements <= 0x1_0000_0000,
    ensures
        layout_of(table, ty) matches Some(layout) && {
            let all = bits * ty->VectorType_num_elements;
            &&& all <= 8 * layout.size
            &&& layout.size == 0 || layout.size == layout.align
            &&& layout.align == 1 || all > 4 * layout.align
        },
{
    let n = ty->VectorType_num_elements as nat;
    let all = bits * n;
    let bytes = vector_bytes(bits, n) as int;
    assert(bytes == (all + 7) / 8);
    lemma_least_power(1, bytes as nat);
    let align = doubled(1, bytes as nat) as int;
    law_rounded(bytes, align);
    assert(align > 1 ==> align <= 2 * bytes - 2);
    assert(align > 1 ==> 4 * align < all);
    if 0 < bytes < align {
        vstd::arithmetic::div_mod::lemma_small_mod(bytes as nat, align as nat);
    } else if bytes == 0 {
        vstd::arithmetic::div_mod::lemma_small_mod(0, align as nat);
    } else {
        assert(align % align == 0) by {
            vstd::arithmetic::div_mod::lemma_mod_self_0(align);
        }
    }
}

proof fn lemma_least_power(p: nat, n: nat)
    requires
        0 < p,
        p == 1 || p < 2 * n,
        n <= MAX_ALIGN,
    ensures
        n <= doubled(p, n),
        doubled(p, n) == 1 || doubled(p, n) < 2 * n,
        doubled(p, n) <= u64::MAX,
        doubled(p, n) > 0,
        doubled(p, n) == p || doubled(p, n) % 2 == 0,
    decreases 2 * MAX_ALIGN - p,
{
    if !(n <= p || MAX_ALIGN <= p) {
        lemma_least_power(2 * p, n);
    }
}

/// The bits of the values that a vector can hold.
pub proof fn law_element_bits(ty: Type)
    ensures
        match ty {
            Type::IntegerType { bits } => element_bits(ty) == Some(bits as nat),
            Type::FloatType { bits } => element_bits(ty) == Some(bits as nat),
            Type::PointerType => element_bits(ty) == Some(64nat),
            _ => element_bits(ty) is None,
        },
{
}

/// The layout of a name is that of its definition.
pub proof fn law_named_layout(table: Map<Seq<char>, Type>, name: String)
    requires
        layout_of(table, Type::NamedStructType { name }) is Some,
    ensures
        table.contains_key(name@),
        layout_of(table, table[name@]) == layout_of(table, Type::NamedStructType { name }),
{
    law_layout_is_stable(table, table[name@], (table.len() - 1) as nat, table.len());
}

// ---- distances ----

/// `a` and `b` lead on alike: to the same type, `more` bytes further for `b`.
spec fn alike(a: Option<(nat, Type)>, b: Option<(nat, Type)>, more: nat) -> bool {
    match (a, b) {
        (Some((x, t)), Some((y, u))) => y == x + more && t == u,
        (None, None) => true,
        _ => false,
    }
}

proof fn lemma_lead_on_alike(
    table: Map<Seq<char>, Type>,
    a: Type,
    p: Seq<Operand>,
    b: Type,
    q: Seq<Operand>,
    rest: Seq<Operand>,
    more: nat,
)
    requires
        p.len() > 0,
        q.len() > 0,
        alike(walked(table, a, p), walked(table, b, q), more),
    ensures
        alike(walked(table, a, p + rest), walked(table, b, q + rest), more),
    decreases rest.len(),
{
    if rest.len() == 0 {
        assert(p + rest =~= p);
        assert(q + rest =~= q);
    } else {
        lemma_lead_on_alike(table, a, p, b, q, rest.drop_last(), more);
        assert((p + rest).drop_last() =~= p + rest.drop_last());
        assert((q + rest).drop_last() =~= q + rest.drop_last());
        assert((p + rest).last() == rest.last());
        assert((q + rest).last() == rest.last());
    }
}

/// The distance is `more` bytes longer, or there is none on either side.
pub open spec fn longer_by(a: Option<nat>, b: Option<nat>, more: nat) -> bool {
    match (a, b) {
        (Some(x), Some(y)) => y == x + more,
        (None, None) => true,
        _ => false,
    }
}

proof fn lemma_first_step(table: Map<Seq<char>, Type>, source: Type, first: Operand)
    ensures
        walked(table, source, seq![first]) == (match const_value(first) {
            Some(index) => match scaled(index, layout_of(table, source)) {
                Some(step) => Some((step, source)),
                None => None,
            },
            None => None,
        }),
{
    assert(seq![first].drop_last() =~= Seq::empty());
    reveal_with_fuel(walked, 2);
}

proof fn lemma_second_step(
    table: Map<Seq<char>, Type>,
    source: Type,
    first: Operand,
    second: Operand,
)
    requires
        const_value(first) == Some(0u64),
    ensures
        walked(table, source, seq![first, second]) == (match const_value(second) {
            Some(index) => selected(table, source, index),
            None => None,
        }),
{
    lemma_first_step(table, source, first);
    assert(seq![first, second].drop_last() =~= seq![first]);
    assert(seq![first, second].last() == second);
}

/// The first index counts in whole values of the source type.
pub proof fn law_first_index_counts_values(
    table: Map<Seq<char>, Type>,
    source: Type,
    zero: Operand,
    first: Operand,
    n: u64,
    rest: Seq<Operand>,
)
    requires
        is_number(zero, 0),
        is_number(first, n),
        layout_of(table, source) matches Some(layout) && n * layout.size <= u64::MAX,
    ensures
        longer_by(
            gep_distance(table, source, seq![zero] + rest),
            gep_distance(table, source, seq![first] + rest),
            (n * layout_of(table, source)->0.size) as nat,
        ),
{
    lemma_first_step(table, source, zero);
    lemma_first_step(table, source, first);
    let more = (n * layout_of(table, source)->0.size) as nat;
    assert(n == 0 ==> more == 0) by (nonlinear_arith)
        requires
            more == n * layout_of(table, source)->0.size,
    ;
    lemma_lead_on_alike(table, source, seq![zero], source, seq![first], rest, more);
}

/// An index into an array or a vector counts in elements.
pub proof fn law_array_index_counts_elements(
    table: Map<Seq<char>, Type>,
    source: Type,
    element: Type,
    zero: Operand,
    index: Operand,
    rest: Seq<Operand>,
)
    requires
        is_number(zero, 0),
        source is ArrayType && *source->ArrayType_element_type == element || source is VectorType
            && *source->VectorType_element_type == element,
    ensures
        gep_distance(table, source, seq![zero, index] + rest) == gep_distance(
            table,
            element,
            seq![index] + rest,
        ),
{
    lemma_second_step(table, source, zero, index);
    lemma_first_step(table, element, index);
    lemma_lead_on_alike(table, element, seq![index], source, seq![zero, index], rest, 0);
}

/// An index into a structure leads to the element of that number.
pub proof fn law_structure_index_selects_an_element(
    table: Map<Seq<char>, Type>,
    source: Type,
    zero: Operand,
    index: Operand,
    k: u64,
    rest: Seq<Operand>,
    offset: nat,
)
    requires
        is_number(zero, 0),
        is_number(index, k),
        source is StructType,
        k < source->element_types@.len(),
        element_offset(table, source->element_types@, source->packed, k as int) == Some(offset),
    ensures
        longer_by(
            gep_distance(table, source->element_types@[k as int], seq![zero] + rest),
            gep_distance(table, source, seq![zero, index] + rest),
            offset,
        ),
{
    let element = source->element_types@[k as int];
    lemma_second_step(table, source, zero, index);
    lemma_first_step(table, element, zero);
    lemma_lead_on_alike(table, element, seq![zero], source, seq![zero, index], rest, offset);
}

/// What two ways of writing a type lead to: the same distance, and the same type or
/// again the two ways.
spec fn same_way(
    a: Option<(nat, Type)>,
    b: Option<(nat, Type)>,
    named: Type,
    definition: Type,
) -> bool {
    match (a, b) {
        (Some((x, t)), Some((y, u))) => x == y && (t == u || t == named && u == definition),
        (None, None) => true,
        _ => false,
    }
}

proof fn lemma_named_way(table: Map<Seq<char>, Type>, name: String, indices: Seq<Operand>)
    requires
        layout_of(table, Type::NamedStructType { name }) is Some,
    ensures
        same_way(
            walked(table, Type::NamedStructType { name }, indices),
            walked(table, table[name@], indices),
            Type::NamedStructType { name },
            table[name@],
        ),
    decreases indices.len(),
{
    let named = Type::NamedStructType { name };
    let definition = table[name@];
    law_named_layout(table, name);
    lemma_layout_unfolded(table, named, table.len());
    law_resolution_is_stable(table, definition, (table.len() - 1) as nat, table.len());
    assert(resolved_type(table, named) == resolved_type(table, definition));
    if indices.len() > 0 {
        lemma_named_way(table, name, indices.drop_last());
    }
}

/// Indices into a named type lead where they lead into its definition.
pub proof fn law_named_source(table: Map<Seq<char>, Type>, name: String, indices: Seq<Operand>)
    requires
        layout_of(table, Type::NamedStructType { name }) is Some,
    ensures
        gep_distance(table, Type::NamedStructType { name }, indices) == gep_distance(
            table,
            table[name@],
            indices,
        ),
{
    lemma_named_way(table, name, indices);
}

/// Every type that accesses have a size for has a layout, which leaves room for that
/// size.
pub proof fn law_sized_types_have_layouts(table: Map<Seq<char>, Type>, ty: Type)
    requires
        size_of_type(table, ty) is Some,
    ensures
        layout_of(table, ty) matches Some(layout) && size_of_type(table, ty)->0 <= layout.size,
{
    law_layout_covers_size(table, ty, table.len());
}

} // verus!
