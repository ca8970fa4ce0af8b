//! What holds of the mapping for every interface.
//!
//! The bound on depth is a safeguard and no part of the result: a larger bound
//! never changes a result that a smaller one allowed, and in an acyclic arena
//! the bound is never reached. On that rests the shape of each expansion, as
//! the later lemmas state it: in terms of [`mapped`] alone.

use vstd::prelude::*;
use vstd::set_lib::{lemma_int_range, lemma_len_subset, set_int_range};
use crate::expr::{TypeExpr, TypeExprView};
use crate::ir::{
    payload_below, type_below, CaseView, FieldView, Interface, InterfaceView, Type, TypeDefKindView,
};
use crate::mapping::{
    as_expected, as_option, expr_of, expr_of_id, expr_of_kind, expr_of_payload, exprs_of_fields,
    is_bool, mapped, mapped_id, mapped_payload, expected_of, outcome, MapError,
};

verus! {

/// The failure that a used-up bound gives.
pub open spec fn too_deep<T>() -> Result<T, MapError> {
    Err(MapError::TooDeep)
}

/// A result that the bound `d1` allowed is the result under every larger
/// bound.
pub proof fn lemma_depth_monotone(iface: InterfaceView, ty: Type, d1: nat, d2: nat)
    requires
        d1 <= d2,
        expr_of(iface, ty, d1) != too_deep::<TypeExprView>(),
    ensures
        expr_of(iface, ty, d2) == expr_of(iface, ty, d1),
    decreases d1, 1nat, 0nat,
{
    match ty {
        Type::Id(i) => lemma_depth_monotone_id(iface, i as int, d1, d2),
        _ => {},
    }
}

proof fn lemma_depth_monotone_id(iface: InterfaceView, id: int, d1: nat, d2: nat)
    requires
        d1 <= d2,
        expr_of_id(iface, id, d1) != too_deep::<TypeExprView>(),
    ensures
        expr_of_id(iface, id, d2) == expr_of_id(iface, id, d1),
    decreases d1, 0nat, 0nat,
{
    let def = iface.types[id];
    if def.name is None {
        lemma_depth_monotone_kind(iface, def.kind, (d1 - 1) as nat, (d2 - 1) as nat);
    }
}

proof fn lemma_depth_monotone_payload(iface: InterfaceView, payload: Option<Type>, d1: nat, d2: nat)
    requires
        d1 <= d2,
        expr_of_payload(iface, payload, d1) != too_deep::<TypeExprView>(),
    ensures
        expr_of_payload(iface, payload, d2) == expr_of_payload(iface, payload, d1),
    decreases d1, 2nat, 0nat,
{
    match payload {
        Some(t) => lemma_depth_monotone(iface, t, d1, d2),
        None => {},
    }
}

proof fn lemma_depth_monotone_fields(iface: InterfaceView, fields: Seq<FieldView>, d1: nat, d2: nat)
    requires
        d1 <= d2,
        exprs_of_fields(iface, fields, d1) != too_deep::<Seq<TypeExprView>>(),
    ensures
        exprs_of_fields(iface, fields, d2) == exprs_of_fields(iface, fields, d1),
    decreases d1, 2nat, fields.len(),
{
    if fields.len() > 0 {
        lemma_depth_monotone_fields(iface, fields.drop_last(), d1, d2);
        if exprs_of_fields(iface, fields.drop_last(), d1) is Ok {
            lemma_depth_monotone(iface, fields.last().ty, d1, d2);
        }
    }
}

proof fn lemma_depth_monotone_kind(iface: InterfaceView, kind: TypeDefKindView, d1: nat, d2: nat)
    requires
        d1 <= d2,
        expr_of_kind(iface, kind, d1) != too_deep::<TypeExprView>(),
    ensures
        expr_of_kind(iface, kind, d2) == expr_of_kind(iface, kind, d1),
    decreases d1, 3nat, 0nat,
{
    match kind {
        TypeDefKindView::Type(t) => lemma_depth_monotone(iface, t, d1, d2),
        TypeDefKindView::Pointer(t) => lemma_depth_monotone(iface, t, d1, d2),
        TypeDefKindView::ConstPointer(t) => lemma_depth_monotone(iface, t, d1, d2),
        TypeDefKindView::List(t) => {
            if t != Type::Char {
                lemma_depth_monotone(iface, t, d1, d2);
            }
        },
        TypeDefKindView::PushBuffer(_) => {},
        TypeDefKindView::PullBuffer(_) => {},
        TypeDefKindView::Record(fields) => lemma_depth_monotone_fields(iface, fields, d1, d2),
        TypeDefKindView::Variant(cases) => {
            if is_bool(cases) {
            } else if as_option(cases) is Some {
                lemma_depth_monotone(iface, as_option(cases).unwrap(), d1, d2);
            } else if as_expected(cases) is Some {
                let (ok, err) = as_expected(cases).unwrap();
                lemma_depth_monotone_payload(iface, ok, d1, d2);
                if expr_of_payload(iface, ok, d1) is Ok {
                    lemma_depth_monotone_payload(iface, err, d1, d2);
                }
            }
        },
    }
}

/// `visited` holds indices of the arena only, each ranked `bound` or higher.
pub open spec fn visited_above(iface: InterfaceView, visited: Set<int>, rank: Seq<nat>, bound: nat) -> bool {
    &&& visited.finite()
    &&& forall|v: int| #[trigger]
        visited.contains(v) ==> 0 <= v < iface.types.len() && rank[v] >= bound
}

/// In a ranked arena, a type below every definition that expansion has
/// entered so far is mapped within what is left of the bound.
proof fn lemma_ranked_within(
    iface: InterfaceView,
    rank: Seq<nat>,
    ty: Type,
    bound: nat,
    visited: Set<int>,
    depth: nat,
)
    requires
        iface.wf(),
        iface.ranked_by(rank),
        iface.type_ok(ty),
        type_below(ty, rank, bound),
        visited_above(iface, visited, rank, bound),
        depth + visited.len() >= iface.types.len(),
    ensures
        expr_of(iface, ty, depth) != too_deep::<TypeExprView>(),
    decreases depth, 1nat, 0nat,
{
    match ty {
        Type::Id(i) => {
            let id = i as int;
            let def = iface.types[id];
            if def.name is None {
                let n = iface.types.len() as int;
                let entered = visited.insert(id);
                assert(!visited.contains(id));
                assert(entered.subset_of(set_int_range(0, n)));
                lemma_int_range(0, n);
                lemma_len_subset(entered, set_int_range(0, n));
                assert(depth >= 1);
                assert(visited_above(iface, entered, rank, rank[id]));
                lemma_ranked_within_kind(iface, rank, def.kind, rank[id], entered, (depth - 1) as nat);
            }
        },
        _ => {},
    }
}

proof fn lemma_ranked_within_payload(
    iface: InterfaceView,
    rank: Seq<nat>,
    payload: Option<Type>,
    bound: nat,
    visited: Set<int>,
    depth: nat,
)
    requires
        iface.wf(),
        iface.ranked_by(rank),
        iface.payload_ok(payload),
        payload_below(payload, rank, bound),
        visited_above(iface, visited, rank, bound),
        depth + visited.len() >= iface.types.len(),
    ensures
        expr_of_payload(iface, payload, depth) != too_deep::<TypeExprView>(),
    decreases depth, 2nat, 0nat,
{
    match payload {
        Some(t) => lemma_ranked_within(iface, rank, t, bound, visited, depth),
        None => {},
    }
}

proof fn lemma_ranked_within_fields(
    iface: InterfaceView,
    rank: Seq<nat>,
    fields: Seq<FieldView>,
    bound: nat,
    visited: Set<int>,
    depth: nat,
)
    requires
        iface.wf(),
        iface.ranked_by(rank),
        iface.kind_ok(TypeDefKindView::Record(fields)),
        iface.kind_below(TypeDefKindView::Record(fields), rank, bound),
        visited_above(iface, visited, rank, bound),
        depth + visited.len() >= iface.types.len(),
    ensures
        exprs_of_fields(iface, fields, depth) != too_deep::<Seq<TypeExprView>>(),
    decreases depth, 2nat, fields.len(),
{
    if fields.len() > 0 {
        let init = fields.drop_last();
        assert forall|j: int| 0 <= j < init.len() implies iface.type_ok((#[trigger] init[j]).ty)
            && type_below(init[j].ty, rank, bound) by {
            assert(init[j] == fields[j]);
        }
        lemma_ranked_within_fields(iface, rank, init, bound, visited, depth);
        let last = fields[fields.len() - 1];
        lemma_ranked_within(iface, rank, last.ty, bound, visited, depth);
    }
}

proof fn lemma_ranked_within_kind(
    iface: InterfaceView,
    rank: Seq<nat>,
    kind: TypeDefKindView,
    bound: nat,
    visited: Set<int>,
    depth: nat,
)
    requires
        iface.wf(),
        iface.ranked_by(rank),
        iface.kind_ok(kind),
        iface.kind_below(kind, rank, bound),
        visited_above(iface, visited, rank, bound),
        depth + visited.len() >= iface.types.len(),
    ensures
        expr_of_kind(iface, kind, depth) != too_deep::<TypeExprView>(),
    decreases depth, 3nat, 0nat,
{
    match kind {
        TypeDefKindView::Type(t) => lemma_ranked_within(iface, rank, t, bound, visited, depth),
        TypeDefKindView::Pointer(t) => lemma_ranked_within(iface, rank, t, bound, visited, depth),
        TypeDefKindView::ConstPointer(t) => lemma_ranked_within(iface, rank, t, bound, visited, depth),
        TypeDefKindView::List(t) => lemma_ranked_within(iface, rank, t, bound, visited, depth),
        TypeDefKindView::PushBuffer(_) => {},
        TypeDefKindView::PullBuffer(_) => {},
        TypeDefKindView::Record(fields) => lemma_ranked_within_fields(
            iface,
            rank,
            fields,
            bound,
            visited,
            depth,
        ),
        TypeDefKindView::Variant(cases) => {
            if cases.len() == 2 {
                let first = cases[0];
                let second = cases[1];
                lemma_ranked_within_payload(iface, rank, first.ty, bound, visited, depth);
                lemma_ranked_within_payload(iface, rank, second.ty, bound, visited, depth);
            }
        },
    }
}

/// In an acyclic arena the size of the arena is bound enough: no type fails
/// for depth.
pub proof fn lemma_acyclic_never_too_deep(iface: InterfaceView, ty: Type)
    requires
        iface.wf(),
        iface.acyclic(),
        iface.type_ok(ty),
    ensures
        mapped(iface, ty) != too_deep::<TypeExprView>(),
{
    let rank = choose|rank: Seq<nat>| iface.ranked_by(rank);
    let bound: nat = match ty {
        Type::Id(i) => rank[i as int] + 1,
        _ => 0,
    };
    lemma_ranked_within(iface, rank, ty, bound, Set::<int>::empty(), iface.types.len());
}

/// What an anonymous definition is made of maps, one level further in, to
/// what it maps to on its own.
proof fn lemma_part_mapped(iface: InterfaceView, id: int, part: Type)
    requires
        iface.wf(),
        iface.acyclic(),
        0 <= id < iface.types.len(),
        iface.types[id].name is None,
        iface.type_ok(part),
        forall|rank: Seq<nat>| iface.ranked_by(rank) ==> type_below(part, rank, #[trigger] rank[id]),
    ensures
        iface.types.len() >= 1,
        expr_of(iface, part, (iface.types.len() - 1) as nat) == mapped(iface, part),
{
    let rank = choose|rank: Seq<nat>| iface.ranked_by(rank);
    let n = iface.types.len();
    assert(type_below(part, rank, rank[id]));
    let entered = Set::<int>::empty().insert(id);
    assert(visited_above(iface, entered, rank, rank[id]));
    lemma_ranked_within(iface, rank, part, rank[id], entered, (n - 1) as nat);
    lemma_depth_monotone(iface, part, (n - 1) as nat, n);
}

/// `inner` under the wrapper `wrap`, a failure passed on as it is.
pub open spec fn wrapped(
    inner: Result<TypeExprView, MapError>,
    wrap: spec_fn(TypeExprView) -> TypeExprView,
) -> Result<TypeExprView, MapError> {
    match inner {
        Ok(e) => Ok(wrap(e)),
        Err(x) => Err(x),
    }
}

/// The mapping depends on nothing but the value of the interface and the
/// type: whatever two calls on interfaces of equal value return for one type
/// is equal in value.
pub proof fn lemma_mapping_deterministic(
    a: Interface,
    b: Interface,
    ty: Type,
    first: Result<TypeExpr, MapError>,
    second: Result<TypeExpr, MapError>,
)
    requires
        a@ == b@,
        outcome(first) == mapped(a@, ty),
        outcome(second) == mapped(b@, ty),
    ensures
        outcome(first) == outcome(second),
{
}

/// A type that is an index maps to what the definition at that index maps to.
pub proof fn lemma_index_maps_as_definition(iface: InterfaceView, id: usize)
    ensures
        mapped(iface, Type::Id(id)) == mapped_id(iface, id as int),
{
}

/// A named definition maps to its name in the module of its interface,
/// whatever its kind.
pub proof fn lemma_named_is_not_expanded(iface: InterfaceView, id: int, name: Seq<char>)
    requires
        iface.types[id].name == Some(name),
    ensures
        mapped_id(iface, id) == Ok::<TypeExprView, MapError>(
            TypeExprView::Named {
                module: crate::names::snake_case(iface.name),
                name: crate::names::camel_case(name),
            },
        ),
{
}

/// An anonymous alias maps to what its target maps to.
pub proof fn lemma_alias_maps_as_target(iface: InterfaceView, id: int, target: Type)
    requires
        iface.wf(),
        iface.acyclic(),
        0 <= id < iface.types.len(),
        iface.types[id].name is None,
        iface.types[id].kind == TypeDefKindView::Type(target),
    ensures
        mapped_id(iface, id) == mapped(iface, target),
{
    lemma_part_mapped(iface, id, target);
}

/// An anonymous pointer maps to a mutable raw pointer to what its target maps
/// to, an anonymous constant pointer to a read-only one.
pub proof fn lemma_pointer_maps_to_raw_pointer(iface: InterfaceView, id: int, target: Type)
    requires
        iface.wf(),
        iface.acyclic(),
        0 <= id < iface.types.len(),
        iface.types[id].name is None,
        iface.types[id].kind == TypeDefKindView::Pointer(target) || iface.types[id].kind
            == TypeDefKindView::ConstPointer(target),
    ensures
        iface.types[id].kind is Pointer ==> mapped_id(iface, id) == wrapped(
            mapped(iface, target),
            |e: TypeExprView| TypeExprView::MutPointer(Box::new(e)),
        ),
        iface.types[id].kind is ConstPointer ==> mapped_id(iface, id) == wrapped(
            mapped(iface, target),
            |e: TypeExprView| TypeExprView::ConstPointer(Box::new(e)),
        ),
{
    lemma_part_mapped(iface, id, target);
}

/// An anonymous list of characters maps to the text string; an anonymous list
/// of anything else maps to the sequence of what the element maps to.
pub proof fn lemma_list_maps_to_text_or_sequence(iface: InterfaceView, id: int, element: Type)
    requires
        iface.wf(),
        iface.acyclic(),
        0 <= id < iface.types.len(),
        iface.types[id].name is None,
        iface.types[id].kind == TypeDefKindView::List(element),
    ensures
        element == Type::Char ==> mapped_id(iface, id) == Ok::<TypeExprView, MapError>(
            TypeExprView::Text,
        ),
        element != Type::Char ==> mapped_id(iface, id) == wrapped(
            mapped(iface, element),
            |e: TypeExprView| TypeExprView::List(Box::new(e)),
        ),
{
    lemma_part_mapped(iface, id, element);
}

/// An anonymous push or pull buffer has no mapping.
pub proof fn lemma_buffers_are_refused(iface: InterfaceView, id: int)
    requires
        iface.types.len() > 0,
        iface.types[id].name is None,
        iface.types[id].kind is PushBuffer || iface.types[id].kind is PullBuffer,
    ensures
        iface.types[id].kind is PushBuffer ==> mapped_id(iface, id) == Err::<TypeExprView, MapError>(
            MapError::PushBuffer,
        ),
        iface.types[id].kind is PullBuffer ==> mapped_id(iface, id) == Err::<TypeExprView, MapError>(
            MapError::PullBuffer,
        ),
{
}

/// All of `fields` map, and `members` holds what they map to, in
/// order.
pub open spec fn fields_map_to(
    iface: InterfaceView,
    fields: Seq<FieldView>,
    members: Seq<TypeExprView>,
) -> bool {
    &&& members.len() == fields.len()
    &&& forall|i: int|
        0 <= i < fields.len() ==> mapped(iface, (#[trigger] fields[i]).ty) == Ok::<
            TypeExprView,
            MapError,
        >(members[i])
}

/// The field at `at` is the first that does not map, and fails with `error`.
pub open spec fn first_failure_at(
    iface: InterfaceView,
    fields: Seq<FieldView>,
    at: int,
    error: MapError,
) -> bool {
    &&& 0 <= at < fields.len()
    &&& mapped(iface, fields[at].ty) == Err::<TypeExprView, MapError>(error)
    &&& forall|j: int| 0 <= j < at ==> mapped(iface, (#[trigger] fields[j]).ty) is Ok
}

proof fn lemma_fields_by_member(iface: InterfaceView, id: int, fields: Seq<FieldView>, n: int)
    requires
        iface.wf(),
        iface.acyclic(),
        0 <= id < iface.types.len(),
        iface.types[id].name is None,
        iface.types[id].kind is Record,
        0 <= n <= iface.types[id].kind->Record_0.len(),
        fields == iface.types[id].kind->Record_0.take(n),
    ensures
        match exprs_of_fields(iface, fields, (iface.types.len() - 1) as nat) {
            Ok(members) => fields_map_to(iface, fields, members),
            Err(x) => exists|at: int| first_failure_at(iface, fields, at, x),
        },
    decreases n,
{
    let all = iface.types[id].kind->Record_0;
    let depth = (iface.types.len() - 1) as nat;
    if n > 0 {
        let init = all.take(n - 1);
        assert(fields.drop_last() =~= init);
        assert(fields.last() == all[n - 1]);
        lemma_fields_by_member(iface, id, init, n - 1);
        assert(iface.kind_ok(iface.types[id].kind));
        assert forall|rank: Seq<nat>| iface.ranked_by(rank) implies type_below(
            all[n - 1].ty,
            rank,
            #[trigger] rank[id],
        ) by {
            assert(iface.kind_below(iface.types[id].kind, rank, rank[id]));
        }
        lemma_part_mapped(iface, id, all[n - 1].ty);
        match exprs_of_fields(iface, init, depth) {
            Ok(before) => {
                match expr_of(iface, all[n - 1].ty, depth) {
                    Ok(e) => {
                        let members = before.push(e);
                        assert forall|i: int| 0 <= i < fields.len() implies mapped(
                            iface,
                            (#[trigger] fields[i]).ty,
                        ) == Ok::<TypeExprView, MapError>(members[i]) by {
                            if i < n - 1 {
                                assert(fields[i] == init[i]);
                            }
                        }
                    },
                    Err(x) => {
                        assert forall|j: int| 0 <= j < n - 1 implies mapped(
                            iface,
                            (#[trigger] fields[j]).ty,
                        ) is Ok by {
                            assert(fields[j] == init[j]);
                        }
                        assert(first_failure_at(iface, fields, n - 1, x));
                    },
                }
            },
            Err(x) => {
                let at = choose|at: int| first_failure_at(iface, init, at, x);
                assert(fields[at] == init[at]);
                assert forall|j: int| 0 <= j < at implies mapped(iface, (#[trigger] fields[j]).ty) is Ok by {
                    assert(fields[j] == init[j]);
                }
                assert(first_failure_at(iface, fields, at, x));
            },
        }
    }
}

/// An anonymous record of N fields maps to the tuple of N members, the
/// member at each place being what the field at that place maps to. It fails
/// only where a field fails, and then as the first such field does.
pub proof fn lemma_record_maps_to_tuple(iface: InterfaceView, id: int, fields: Seq<FieldView>)
    requires
        iface.wf(),
        iface.acyclic(),
        0 <= id < iface.types.len(),
        iface.types[id].name is None,
        iface.types[id].kind == TypeDefKindView::Record(fields),
    ensures
        match mapped_id(iface, id) {
            Ok(e) => e is Tuple && fields_map_to(iface, fields, e->Tuple_0),
            Err(x) => exists|at: int| first_failure_at(iface, fields, at, x),
        },
{
    assert(fields.take(fields.len() as int) =~= fields);
    lemma_fields_by_member(iface, id, fields, fields.len() as int);
}

/// An anonymous variant of two cases without payloads maps to the boolean.
pub proof fn lemma_two_bare_cases_map_to_bool(iface: InterfaceView, id: int, cases: Seq<CaseView>)
    requires
        iface.types.len() > 0,
        iface.types[id].name is None,
        iface.types[id].kind == TypeDefKindView::Variant(cases),
        cases.len() == 2,
        cases[0].ty is None,
        cases[1].ty is None,
    ensures
        mapped_id(iface, id) == Ok::<TypeExprView, MapError>(TypeExprView::Bool),
{
}

/// An anonymous variant of two cases of which exactly one has a payload maps
/// to the optional value of what that payload maps to.
pub proof fn lemma_one_payload_maps_to_optional(
    iface: InterfaceView,
    id: int,
    cases: Seq<CaseView>,
    payload: Type,
)
    requires
        iface.wf(),
        iface.acyclic(),
        0 <= id < iface.types.len(),
        iface.types[id].name is None,
        iface.types[id].kind == TypeDefKindView::Variant(cases),
        cases.len() == 2,
        (cases[0].ty == Some(payload) && cases[1].ty is None) || (cases[0].ty is None && cases[1].ty
            == Some(payload)),
    ensures
        mapped_id(iface, id) == wrapped(
            mapped(iface, payload),
            |e: TypeExprView| TypeExprView::Optional(Box::new(e)),
        ),
{
    assert(iface.kind_ok(iface.types[id].kind));
    let first = cases[0];
    let second = cases[1];
    assert(iface.payload_ok(first.ty) && iface.payload_ok(second.ty));
    assert forall|rank: Seq<nat>| iface.ranked_by(rank) implies type_below(
        payload,
        rank,
        #[trigger] rank[id],
    ) by {
        assert(iface.kind_below(iface.types[id].kind, rank, rank[id]));
        assert(payload_below(first.ty, rank, rank[id]) && payload_below(second.ty, rank, rank[id]));
    }
    lemma_part_mapped(iface, id, payload);
}

/// An anonymous variant of two cases that is neither a boolean nor an
/// optional value maps to the success or failure of what its two payloads map
/// to, the first for success.
pub proof fn lemma_two_payloads_map_to_expected(iface: InterfaceView, id: int, cases: Seq<CaseView>)
    requires
        iface.wf(),
        iface.acyclic(),
        0 <= id < iface.types.len(),
        iface.types[id].name is None,
        iface.types[id].kind == TypeDefKindView::Variant(cases),
        cases.len() == 2,
        !is_bool(cases),
        as_option(cases) is None,
    ensures
        cases[0].ty is Some,
        cases[1].ty is Some,
        mapped_id(iface, id) == expected_of(
            mapped_payload(iface, cases[0].ty),
            mapped_payload(iface, cases[1].ty),
        ),
{
    assert(iface.kind_ok(iface.types[id].kind));
    let first = cases[0];
    let second = cases[1];
    assert(iface.payload_ok(first.ty) && iface.payload_ok(second.ty));
    assert forall|rank: Seq<nat>| iface.ranked_by(rank) implies type_below(
        first.ty.unwrap(),
        rank,
        #[trigger] rank[id],
    ) && type_below(second.ty.unwrap(), rank, rank[id]) by {
        assert(iface.kind_below(iface.types[id].kind, rank, rank[id]));
        assert(payload_below(first.ty, rank, rank[id]) && payload_below(second.ty, rank, rank[id]));
    }
    lemma_part_mapped(iface, id, first.ty.unwrap());
    lemma_part_mapped(iface, id, second.ty.unwrap());
}

/// An anonymous variant with another number of cases than two has no mapping.
pub proof fn lemma_other_variants_are_refused(iface: InterfaceView, id: int, cases: Seq<CaseView>)
    requires
        iface.types.len() > 0,
        iface.types[id].name is None,
        iface.types[id].kind == TypeDefKindView::Variant(cases),
        cases.len() != 2,
    ensures
        mapped_id(iface, id) == Err::<TypeExprView, MapError>(MapError::UnknownVariant),
{
}

} // verus!
