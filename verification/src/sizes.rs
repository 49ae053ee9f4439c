//! Laws of named types and of type sizes.
use crate::ir::{
    checked_sum, resolved_type, size_of_type, size_within, sum_within, unfolded, Type,
};
use vstd::prelude::*;

verus! {

/// A size that is found does not change when definitions may be unfolded deeper.
pub proof fn law_size_is_stable(table: Map<Seq<char>, Type>, ty: Type, fuel: nat, more: nat)
    requires
        size_within(table, ty, fuel) is Some,
        fuel <= more,
    ensures
        size_within(table, ty, more) == size_within(table, ty, fuel),
    decreases fuel, ty,
{
    match ty {
        Type::ArrayType { element_type, num_elements } => {
            law_size_is_stable(table, *element_type, fuel, more);
        },
        Type::StructType { element_types, .. } => {
            lemma_sum_is_stable(table, element_types@, fuel, more);
        },
        Type::NamedStructType { name } => {
            law_size_is_stable(table, table[name@], (fuel - 1) as nat, (more - 1) as nat);
        },
        _ => {},
    }
}

proof fn lemma_sum_is_stable(
    table: Map<Seq<char>, Type>,
    elements: Seq<Type>,
    fuel: nat,
    more: nat,
)
    requires
        sum_within(table, elements, fuel) is Some,
        fuel <= more,
    ensures
        sum_within(table, elements, more) == sum_within(table, elements, fuel),
    decreases fuel, elements,
{
    if elements.len() > 0 {
        lemma_sum_is_stable(table, elements.drop_last(), fuel, more);
        law_size_is_stable(table, elements[elements.len() - 1], fuel, more);
    }
}

/// The names whose definitions have a size within `fuel` unfoldings.
spec fn sized(table: Map<Seq<char>, Type>, fuel: nat) -> Set<Seq<char>> {
    table.dom().filter(
        |name: Seq<char>| fuel > 0 && size_within(table, table[name], (fuel - 1) as nat) is Some,
    )
}

proof fn lemma_sized(table: Map<Seq<char>, Type>, fuel: nat)
    requires
        table.dom().finite(),
        fuel > 0,
    ensures
        sized(table, (fuel - 1) as nat).subset_of(sized(table, fuel)),
        sized(table, (fuel - 1) as nat).len() <= sized(table, fuel).len() <= table.len(),
{
    let less = (fuel - 1) as nat;
    table.dom().lemma_len_filter(
        |name: Seq<char>| fuel > 0 && size_within(table, table[name], (fuel - 1) as nat) is Some,
    );
    assert forall|name: Seq<char>| sized(table, less).contains(name) implies sized(
        table,
        fuel,
    ).contains(name) by {
        law_size_is_stable(table, table[name], (less - 1) as nat, less);
    }
    vstd::set_lib::lemma_len_subset(sized(table, less), sized(table, fuel));
}

proof fn lemma_enough(table: Map<Seq<char>, Type>, ty: Type, fuel: nat)
    requires
        table.dom().finite(),
        size_within(table, ty, fuel) is Some,
    ensures
        size_within(table, ty, sized(table, fuel).len()) is Some,
    decreases fuel, ty,
{
    match ty {
        Type::ArrayType { element_type, num_elements } => {
            lemma_enough(table, *element_type, fuel);
            let few = sized(table, fuel).len();
            lemma_agree(table, *element_type, fuel, few);
        },
        Type::StructType { element_types, .. } => {
            lemma_enough_sum(table, element_types@, fuel);
        },
        Type::NamedStructType { name } => {
            let less = (fuel - 1) as nat;
            lemma_sized(table, fuel);
            lemma_enough(table, table[name@], less);
            if sized(table, less).contains(name@) {
                assert(size_within(table, ty, less) is Some);
                lemma_enough(table, ty, less);
                law_size_is_stable(table, ty, sized(table, less).len(), sized(table, fuel).len());
            } else {
                assert(sized(table, fuel).contains(name@));
                assert(sized(table, less).subset_of(sized(table, fuel).remove(name@)));
                vstd::set_lib::lemma_len_subset(
                    sized(table, less),
                    sized(table, fuel).remove(name@),
                );
                law_size_is_stable(
                    table,
                    table[name@],
                    sized(table, less).len(),
                    (sized(table, fuel).len() - 1) as nat,
                );
            }
        },
        _ => {},
    }
}

proof fn lemma_enough_sum(table: Map<Seq<char>, Type>, elements: Seq<Type>, fuel: nat)
    requires
        table.dom().finite(),
        sum_within(table, elements, fuel) is Some,
    ensures
        sum_within(table, elements, sized(table, fuel).len()) == sum_within(table, elements, fuel),
    decreases fuel, elements,
{
    if elements.len() > 0 {
        let few = sized(table, fuel).len();
        let last = elements[elements.len() - 1];
        lemma_enough_sum(table, elements.drop_last(), fuel);
        lemma_enough(table, last, fuel);
        lemma_agree(table, last, fuel, few);
    }
}

proof fn lemma_agree(table: Map<Seq<char>, Type>, ty: Type, a: nat, b: nat)
    requires
        size_within(table, ty, a) is Some,
        size_within(table, ty, b) is Some,
    ensures
        size_within(table, ty, a) == size_within(table, ty, b),
{
    if a <= b {
        law_size_is_stable(table, ty, a, b);
    } else {
        law_size_is_stable(table, ty, b, a);
    }
}

/// The size of a type is the size that it has at any depth of unfolding: no
/// size is missed by unfolding each chain of definitions at most once per
/// definition.
pub proof fn law_size_is_complete(table: Map<Seq<char>, Type>, ty: Type, fuel: nat)
    requires
        table.dom().finite(),
        size_within(table, ty, fuel) is Some,
    ensures
        size_of_type(table, ty) == size_within(table, ty, fuel),
{
    lemma_enough(table, ty, fuel);
    if fuel > 0 {
        lemma_sized(table, fuel);
    } else {
        assert(sized(table, 0) =~= Set::empty());
    }
    law_size_is_stable(table, ty, sized(table, fuel).len(), table.len());
    lemma_agree(table, ty, fuel, table.len());
}

/// A named structure has the size of its definition.
pub proof fn law_named_size(table: Map<Seq<char>, Type>, name: String)
    requires
        table.dom().finite(),
        table.contains_key(name@),
        size_of_type(table, table[name@]) is Some,
    ensures
        size_of_type(table, Type::NamedStructType { name }) == size_of_type(table, table[name@]),
{
    let ty = Type::NamedStructType { name };
    assert(size_within(table, ty, table.len() + 1) == size_within(
        table,
        table[name@],
        table.len(),
    ));
    law_size_is_complete(table, ty, table.len() + 1);
}

/// What a type stands for does not change when definitions may be unfolded
/// further.
pub proof fn law_resolution_is_stable(table: Map<Seq<char>, Type>, ty: Type, fuel: nat, more: nat)
    requires
        unfolded(table, ty, fuel) is Some,
        fuel <= more,
    ensures
        unfolded(table, ty, more) is Some,
        (unfolded(table, ty, more)->0).0 == (unfolded(table, ty, fuel)->0).0,
    decreases fuel,
{
    if let Type::NamedStructType { name } = ty {
        law_resolution_is_stable(table, table[name@], (fuel - 1) as nat, (more - 1) as nat);
    }
}

/// The names that stand for a type within `fuel` unfoldings.
spec fn resolving(table: Map<Seq<char>, Type>, fuel: nat) -> Set<Seq<char>> {
    table.dom().filter(
        |name: Seq<char>| fuel > 0 && unfolded(table, table[name], (fuel - 1) as nat) is Some,
    )
}

proof fn lemma_resolving(table: Map<Seq<char>, Type>, fuel: nat)
    requires
        table.dom().finite(),
        fuel > 0,
    ensures
        resolving(table, (fuel - 1) as nat).subset_of(resolving(table, fuel)),
        resolving(table, (fuel - 1) as nat).len() <= resolving(table, fuel).len() <= table.len(),
{
    let less = (fuel - 1) as nat;
    table.dom().lemma_len_filter(
        |name: Seq<char>| fuel > 0 && unfolded(table, table[name], (fuel - 1) as nat) is Some,
    );
    assert forall|name: Seq<char>| resolving(table, less).contains(name) implies resolving(
        table,
        fuel,
    ).contains(name) by {
        law_resolution_is_stable(table, table[name], (less - 1) as nat, less);
    }
    vstd::set_lib::lemma_len_subset(resolving(table, less), resolving(table, fuel));
}

proof fn lemma_enough_unfoldings(table: Map<Seq<char>, Type>, ty: Type, fuel: nat)
    requires
        table.dom().finite(),
        unfolded(table, ty, fuel) is Some,
    ensures
        unfolded(table, ty, resolving(table, fuel).len()) is Some,
    decreases fuel,
{
    if let Type::NamedStructType { name } = ty {
        let less = (fuel - 1) as nat;
        lemma_resolving(table, fuel);
        lemma_enough_unfoldings(table, table[name@], less);
        let before = resolving(table, less);
        let now = resolving(table, fuel);
        if before.contains(name@) {
            lemma_enough_unfoldings(table, ty, less);
            law_resolution_is_stable(table, ty, before.len(), now.len());
        } else {
            assert(now.contains(name@));
            assert(before.subset_of(now.remove(name@)));
            vstd::set_lib::lemma_len_subset(before, now.remove(name@));
            law_resolution_is_stable(table, table[name@], before.len(), (now.len() - 1) as nat);
        }
    }
}

/// A type stands for what it unfolds to at any depth.
pub proof fn law_resolution_is_complete(table: Map<Seq<char>, Type>, ty: Type, fuel: nat)
    requires
        table.dom().finite(),
        unfolded(table, ty, fuel) is Some,
    ensures
        resolved_type(table, ty) == Some((unfolded(table, ty, fuel)->0).0),
{
    lemma_enough_unfoldings(table, ty, fuel);
    let few = resolving(table, fuel).len();
    if fuel > 0 {
        lemma_resolving(table, fuel);
    } else {
        assert(resolving(table, 0) =~= Set::empty());
    }
    law_resolution_is_stable(table, ty, few, table.len());
    if few <= fuel {
        law_resolution_is_stable(table, ty, few, fuel);
    } else {
        law_resolution_is_stable(table, ty, fuel, few);
    }
}

/// An integer has as many bytes as its bits fill, the last perhaps in part; a
/// pointer has eight. Accesses to floats and vectors, and to types that are not
/// known, have no size.
pub proof fn law_scalar_size(table: Map<Seq<char>, Type>, ty: Type)
    ensures
        match ty {
            Type::IntegerType { bits } => size_of_type(table, ty) matches Some(n) && bits <= 8 * n
                < bits + 8,
            Type::PointerType => size_of_type(table, ty) == Some(8nat),
            Type::FloatType { .. } => size_of_type(table, ty) is None,
            Type::VectorType { .. } => size_of_type(table, ty) is None,
            Type::Other => size_of_type(table, ty) is None,
            _ => true,
        },
{
}

/// An array is as large as its elements together, where that fits in 64 bits.
pub proof fn law_array_size(table: Map<Seq<char>, Type>, ty: Type)
    requires
        ty is ArrayType,
    ensures
        match size_of_type(table, *ty->ArrayType_element_type) {
            Some(n) => if n * ty->ArrayType_num_elements <= u64::MAX {
                size_of_type(table, ty) == Some((n * ty->ArrayType_num_elements) as nat)
            } else {
                size_of_type(table, ty) is None
            },
            None => size_of_type(table, ty) is None,
        },
{
}

/// A structure without elements has no bytes; one element more adds the size of
/// that element, where the sum fits in 64 bits, packed or not.
pub proof fn law_structure_size(table: Map<Seq<char>, Type>, less: Type, more: Type, last: Type)
    requires
        less is StructType,
        more is StructType,
        more->element_types@ == less->element_types@.push(last),
    ensures
        less->element_types@.len() == 0 ==> size_of_type(table, less) == Some(0nat),
        match (size_of_type(table, less), size_of_type(table, last)) {
            (Some(a), Some(b)) => if a + b <= u64::MAX {
                size_of_type(table, more) == Some(a + b)
            } else {
                size_of_type(table, more) is None
            },
            _ => size_of_type(table, more) is None,
        },
{
    let (a, b) = (less->element_types@, more->element_types@);
    let fuel = table.len();
    assert(b.drop_last() =~= a);
    assert(b[b.len() - 1] == last);
    assert(size_within(table, less, fuel) == sum_within(table, a, fuel));
    assert(size_within(table, more, fuel) == sum_within(table, b, fuel));
    assert(sum_within(table, b, fuel) == checked_sum(
        sum_within(table, a, fuel),
        size_within(table, last, fuel),
    ));
    if a.len() == 0 {
        assert(sum_within(table, a, fuel) == Some(0nat));
    }
}

/// A type that is no name stands for itself, and a name that is not defined for
/// none. What a type stands for is no name, and what a name stands for is what its
/// definition does.
pub proof fn law_resolution(table: Map<Seq<char>, Type>, ty: Type)
    ensures
        !(ty is NamedStructType) ==> resolved_type(table, ty) == Some(ty),
        resolved_type(table, ty) matches Some(t) ==> !(t is NamedStructType),
        ty matches Type::NamedStructType { name } ==> {
            &&& !table.contains_key(name@) ==> resolved_type(table, ty) is None
            &&& resolved_type(table, ty) is Some ==> resolved_type(table, table[name@])
                == resolved_type(table, ty)
        },
{
    lemma_resolves_to_no_name(table, ty, table.len());
    if let Type::NamedStructType { name } = ty {
        if resolved_type(table, ty) is Some {
            law_resolution_is_stable(table, table[name@], (table.len() - 1) as nat, table.len());
        }
    }
}

proof fn lemma_resolves_to_no_name(table: Map<Seq<char>, Type>, ty: Type, fuel: nat)
    ensures
        unfolded(table, ty, fuel) matches Some((t, _)) ==> !(t is NamedStructType),
    decreases fuel,
{
    if let Type::NamedStructType { name } = ty {
        if fuel > 0 && table.contains_key(name@) {
            lemma_resolves_to_no_name(table, table[name@], (fuel - 1) as nat);
        }
    }
}

} // verus!
