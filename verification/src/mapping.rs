//! The mapping from interface types to type expressions.
//!
//! Primitives map to the primitive of the same width and sign. A handle maps
//! to a reference to its resource. A named definition maps to its name inside
//! the module of its interface and is never expanded. An anonymous definition
//! is expanded by its kind, the variant by the shape of its case list.
//!
//! Expansion follows indices through the arena, so an arena in which an
//! anonymous definition contains itself would never finish. The mapping
//! therefore carries a bound on how many anonymous definitions it may go
//! through, one inside the other, and fails with [`MapError::TooDeep`] when
//! the bound is used up. The size of the arena is always bound enough for an
//! acyclic one ([`lemma_acyclic_never_too_deep`]).

use vstd::prelude::*;
use crate::expr::{TypeExpr, TypeExprView, views_of, lemma_tuple_view};
use crate::ir::{CaseView, FieldView, Interface, InterfaceView, Type, TypeDefKind, TypeDefKindView, Variant};
use crate::names::{camel_case, snake_case, to_camel_case, to_snake_case};

verus! {

/// Why a type has no type expression.
#[derive(Clone, Copy, PartialEq, Eq, Structural, Debug)]
pub enum MapError {
    /// The type contains a push buffer, which has no mapping.
    PushBuffer,
    /// The type contains a pull buffer, which has no mapping.
    PullBuffer,
    /// The type contains a variant whose case list has no recognised shape.
    UnknownVariant,
    /// Expansion went through more anonymous definitions, one inside the
    /// other, than the arena holds: some definition contains itself.
    TooDeep,
}

/// Two cases, neither with a payload.
pub open spec fn is_bool(cases: Seq<CaseView>) -> bool {
    cases.len() == 2 && cases[0].ty is None && cases[1].ty is None
}

/// Two cases of which exactly one has a payload: that payload.
pub open spec fn as_option(cases: Seq<CaseView>) -> Option<Type> {
    if cases.len() != 2 {
        None
    } else if cases[0].ty is None {
        cases[1].ty
    } else if cases[1].ty is None {
        cases[0].ty
    } else {
        None
    }
}

/// Two cases: the payload of the first, which stands for success, and the
/// payload of the second, which stands for failure. Either may be absent.
pub open spec fn as_expected(cases: Seq<CaseView>) -> Option<(Option<Type>, Option<Type>)> {
    if cases.len() == 2 {
        Some((cases[0].ty, cases[1].ty))
    } else {
        None
    }
}

impl Variant {
    /// Whether the variant has the shape of a boolean.
    pub fn is_bool(&self) -> (r: bool)
        ensures
            r == is_bool(self@),
    {
        self.cases.len() == 2 && self.cases[0].ty.is_none() && self.cases[1].ty.is_none()
    }

    /// The payload, if the variant has the shape of an optional value.
    pub fn as_option(&self) -> (r: Option<Type>)
        ensures
            r == as_option(self@),
    {
        if self.cases.len() != 2 {
            None
        } else if self.cases[0].ty.is_none() {
            self.cases[1].ty
        } else if self.cases[1].ty.is_none() {
            self.cases[0].ty
        } else {
            None
        }
    }

    /// The two payloads, if the variant has the shape of a success or
    /// failure.
    pub fn as_expected(&self) -> (r: Option<(Option<Type>, Option<Type>)>)
        ensures
            r == as_expected(self@),
    {
        if self.cases.len() == 2 {
            Some((self.cases[0].ty, self.cases[1].ty))
        } else {
            None
        }
    }
}

/// The expression for `ty`, going through at most `depth` anonymous
/// definitions one inside the other.
pub open spec fn expr_of(iface: InterfaceView, ty: Type, depth: nat) -> Result<TypeExprView, MapError>
    decreases depth, 1nat, 0nat,
{
    match ty {
        Type::U8 => Ok(TypeExprView::U8),
        Type::U16 => Ok(TypeExprView::U16),
        Type::U32 => Ok(TypeExprView::U32),
        Type::U64 => Ok(TypeExprView::U64),
        Type::S8 => Ok(TypeExprView::I8),
        Type::S16 => Ok(TypeExprView::I16),
        Type::S32 => Ok(TypeExprView::I32),
        Type::S64 => Ok(TypeExprView::I64),
        Type::F32 => Ok(TypeExprView::F32),
        Type::F64 => Ok(TypeExprView::F64),
        Type::Char => Ok(TypeExprView::Char),
        Type::CChar => Ok(TypeExprView::U8),
        Type::Usize => Ok(TypeExprView::Usize),
        Type::Handle(r) => Ok(TypeExprView::Borrowed { name: camel_case(iface.resources[r as int]) }),
        Type::Id(i) => expr_of_id(iface, i as int, depth),
    }
}

/// The expression for the definition at `id` of the type arena.
pub open spec fn expr_of_id(iface: InterfaceView, id: int, depth: nat) -> Result<TypeExprView, MapError>
    decreases depth, 0nat, 0nat,
{
    let def = iface.types[id];
    match def.name {
        Some(name) => Ok(
            TypeExprView::Named { module: snake_case(iface.name), name: camel_case(name) },
        ),
        None => if depth == 0 {
            Err(MapError::TooDeep)
        } else {
            expr_of_kind(iface, def.kind, (depth - 1) as nat)
        },
    }
}

/// The expansion of an anonymous definition of this `kind`.
pub open spec fn expr_of_kind(iface: InterfaceView, kind: TypeDefKindView, depth: nat) -> Result<
    TypeExprView,
    MapError,
>
    decreases depth, 3nat, 0nat,
{
    match kind {
        TypeDefKindView::Type(t) => expr_of(iface, t, depth),
        TypeDefKindView::Pointer(t) => match expr_of(iface, t, depth) {
            Ok(e) => Ok(TypeExprView::MutPointer(Box::new(e))),
            Err(x) => Err(x),
        },
        TypeDefKindView::ConstPointer(t) => match expr_of(iface, t, depth) {
            Ok(e) => Ok(TypeExprView::ConstPointer(Box::new(e))),
            Err(x) => Err(x),
        },
        TypeDefKindView::List(t) => if t == Type::Char {
            Ok(TypeExprView::Text)
        } else {
            match expr_of(iface, t, depth) {
                Ok(e) => Ok(TypeExprView::List(Box::new(e))),
                Err(x) => Err(x),
            }
        },
        TypeDefKindView::PushBuffer(_) => Err(MapError::PushBuffer),
        TypeDefKindView::PullBuffer(_) => Err(MapError::PullBuffer),
        TypeDefKindView::Record(fields) => match exprs_of_fields(iface, fields, depth) {
            Ok(members) => Ok(TypeExprView::Tuple(members)),
            Err(x) => Err(x),
        },
        TypeDefKindView::Variant(cases) => if is_bool(cases) {
            Ok(TypeExprView::Bool)
        } else if as_option(cases) is Some {
            match expr_of(iface, as_option(cases).unwrap(), depth) {
                Ok(e) => Ok(TypeExprView::Optional(Box::new(e))),
                Err(x) => Err(x),
            }
        } else if as_expected(cases) is Some {
            let (ok, err) = as_expected(cases).unwrap();
            match expr_of_payload(iface, ok, depth) {
                Ok(o) => match expr_of_payload(iface, err, depth) {
                    Ok(e) => Ok(TypeExprView::Expected(Box::new(o), Box::new(e))),
                    Err(x) => Err(x),
                },
                Err(x) => Err(x),
            }
        } else {
            Err(MapError::UnknownVariant)
        },
    }
}

/// The expression for one side of a success or failure: the unit where the
/// side has no payload.
pub open spec fn expr_of_payload(iface: InterfaceView, payload: Option<Type>, depth: nat) -> Result<
    TypeExprView,
    MapError,
>
    decreases depth, 2nat, 0nat,
{
    match payload {
        Some(t) => expr_of(iface, t, depth),
        None => Ok(TypeExprView::Unit),
    }
}

/// The expressions for the types of `fields`, in order; the first failure in
/// that order if there is one.
pub open spec fn exprs_of_fields(iface: InterfaceView, fields: Seq<FieldView>, depth: nat) -> Result<
    Seq<TypeExprView>,
    MapError,
>
    decreases depth, 2nat, fields.len(),
{
    if fields.len() == 0 {
        Ok(Seq::empty())
    } else {
        match exprs_of_fields(iface, fields.drop_last(), depth) {
            Err(x) => Err(x),
            Ok(members) => match expr_of(iface, fields.last().ty, depth) {
                Err(x) => Err(x),
                Ok(e) => Ok(members.push(e)),
            },
        }
    }
}

/// The expression that `ty` maps to in `iface`, or why it has none.
pub open spec fn mapped(iface: InterfaceView, ty: Type) -> Result<TypeExprView, MapError> {
    expr_of(iface, ty, iface.types.len())
}

/// The expression that the definition at `id` of the type arena maps to.
pub open spec fn mapped_id(iface: InterfaceView, id: int) -> Result<TypeExprView, MapError> {
    expr_of_id(iface, id, iface.types.len())
}

/// What one side of a success or failure maps to: the unit where the side has
/// no payload.
pub open spec fn mapped_payload(iface: InterfaceView, payload: Option<Type>) -> Result<
    TypeExprView,
    MapError,
> {
    match payload {
        Some(t) => mapped(iface, t),
        None => Ok(TypeExprView::Unit),
    }
}

/// The success or failure of two sides, the first failure of the two passed
/// on.
pub open spec fn expected_of(
    ok: Result<TypeExprView, MapError>,
    err: Result<TypeExprView, MapError>,
) -> Result<TypeExprView, MapError> {
    match ok {
        Ok(o) => match err {
            Ok(e) => Ok(TypeExprView::Expected(Box::new(o), Box::new(e))),
            Err(x) => Err(x),
        },
        Err(x) => Err(x),
    }
}

/// The mathematical value of a mapping's result.
pub open spec fn outcome(r: Result<TypeExpr, MapError>) -> Result<TypeExprView, MapError> {
    match r {
        Ok(e) => Ok(e@),
        Err(x) => Err(x),
    }
}

/// A failure among the first `n` fields is the failure of the whole list.
proof fn lemma_fields_failure_stays(iface: InterfaceView, fields: Seq<FieldView>, n: int, depth: nat)
    requires
        0 <= n <= fields.len(),
        exprs_of_fields(iface, fields.take(n), depth) is Err,
    ensures
        exprs_of_fields(iface, fields, depth) == exprs_of_fields(iface, fields.take(n), depth),
    decreases fields.len() - n,
{
    if n == fields.len() {
        assert(fields.take(n) =~= fields);
    } else {
        assert(fields.drop_last().take(n) =~= fields.take(n));
        lemma_fields_failure_stays(iface, fields.drop_last(), n, depth);
    }
}

/// Maps `ty` to its type expression.
///
/// Fails on a push or pull buffer, on a variant of no recognised shape, and
/// where a definition contains itself; `mapped` says which comes first.
pub fn map_type(iface: &Interface, ty: &Type) -> (r: Result<TypeExpr, MapError>)
    requires
        iface@.wf(),
        iface@.type_ok(*ty),
    ensures
        outcome(r) == mapped(iface@, *ty),
{
    map_type_within(iface, ty, iface.types.len())
}

/// Maps the definition at `id` of the type arena to its type expression: its
/// qualified name if it has a name, else its expansion.
pub fn map_type_id(iface: &Interface, id: usize) -> (r: Result<TypeExpr, MapError>)
    requires
        iface@.wf(),
        id < iface@.types.len(),
    ensures
        outcome(r) == mapped_id(iface@, id as int),
{
    map_id_within(iface, id, iface.types.len())
}

/// Maps the two payloads of a variant that has the shape of a success or
/// failure: the first stands for success, the second for failure, and a side
/// without a payload maps to the unit.
pub fn map_expected(iface: &Interface, ok: &Option<Type>, err: &Option<Type>) -> (r: Result<
    TypeExpr,
    MapError,
>)
    requires
        iface@.wf(),
        iface@.payload_ok(*ok),
        iface@.payload_ok(*err),
    ensures
        outcome(r) == expected_of(mapped_payload(iface@, *ok), mapped_payload(iface@, *err)),
{
    let depth = iface.types.len();
    match map_payload_within(iface, ok, depth) {
        Ok(o) => match map_payload_within(iface, err, depth) {
            Ok(e) => Ok(TypeExpr::Expected(Box::new(o), Box::new(e))),
            Err(x) => Err(x),
        },
        Err(x) => Err(x),
    }
}

fn map_type_within(iface: &Interface, ty: &Type, depth: usize) -> (r: Result<TypeExpr, MapError>)
    requires
        iface@.wf(),
        iface@.type_ok(*ty),
    ensures
        outcome(r) == expr_of(iface@, *ty, depth as nat),
    decreases depth, 1nat, 0nat,
{
    match *ty {
        Type::U8 => Ok(TypeExpr::U8),
        Type::U16 => Ok(TypeExpr::U16),
        Type::U32 => Ok(TypeExpr::U32),
        Type::U64 => Ok(TypeExpr::U64),
        Type::S8 => Ok(TypeExpr::I8),
        Type::S16 => Ok(TypeExpr::I16),
        Type::S32 => Ok(TypeExpr::I32),
        Type::S64 => Ok(TypeExpr::I64),
        Type::F32 => Ok(TypeExpr::F32),
        Type::F64 => Ok(TypeExpr::F64),
        Type::Char => Ok(TypeExpr::Char),
        Type::CChar => Ok(TypeExpr::U8),
        Type::Usize => Ok(TypeExpr::Usize),
        Type::Handle(r) => Ok(
            TypeExpr::Borrowed { name: to_camel_case(iface.resources[r].name.as_str()) },
        ),
        Type::Id(i) => map_id_within(iface, i, depth),
    }
}

fn map_id_within(iface: &Interface, id: usize, depth: usize) -> (r: Result<TypeExpr, MapError>)
    requires
        iface@.wf(),
        id < iface@.types.len(),
    ensures
        outcome(r) == expr_of_id(iface@, id as int, depth as nat),
    decreases depth, 0nat, 0nat,
{
    let def = &iface.types[id];
    assert(def@ == iface@.types[id as int]);
    match &def.name {
        Some(name) => Ok(
            TypeExpr::Named {
                module: to_snake_case(iface.name.as_str()),
                name: to_camel_case(name.as_str()),
            },
        ),
        None => if depth == 0 {
            Err(MapError::TooDeep)
        } else {
            map_kind_within(iface, &def.kind, depth - 1)
        },
    }
}

fn map_payload_within(iface: &Interface, payload: &Option<Type>, depth: usize) -> (r: Result<
    TypeExpr,
    MapError,
>)
    requires
        iface@.wf(),
        iface@.payload_ok(*payload),
    ensures
        outcome(r) == expr_of_payload(iface@, *payload, depth as nat),
    decreases depth, 2nat, 0nat,
{
    match payload {
        Some(t) => map_type_within(iface, t, depth),
        None => Ok(TypeExpr::Unit),
    }
}

fn map_kind_within(iface: &Interface, kind: &TypeDefKind, depth: usize) -> (r: Result<
    TypeExpr,
    MapError,
>)
    requires
        iface@.wf(),
        iface@.kind_ok(kind@),
    ensures
        outcome(r) == expr_of_kind(iface@, kind@, depth as nat),
    decreases depth, 3nat, 0nat,
{
    match kind {
        TypeDefKind::Type(t) => map_type_within(iface, t, depth),
        TypeDefKind::Pointer(t) => match map_type_within(iface, t, depth) {
            Ok(e) => Ok(TypeExpr::MutPointer(Box::new(e))),
            Err(x) => Err(x),
        },
        TypeDefKind::ConstPointer(t) => match map_type_within(iface, t, depth) {
            Ok(e) => Ok(TypeExpr::ConstPointer(Box::new(e))),
            Err(x) => Err(x),
        },
        TypeDefKind::List(t) => if *t == Type::Char {
            Ok(TypeExpr::Text)
        } else {
            match map_type_within(iface, t, depth) {
                Ok(e) => Ok(TypeExpr::List(Box::new(e))),
                Err(x) => Err(x),
            }
        },
        TypeDefKind::PushBuffer(_) => Err(MapError::PushBuffer),
        TypeDefKind::PullBuffer(_) => Err(MapError::PullBuffer),
        TypeDefKind::Record(record) => {
            let mut members: Vec<TypeExpr> = Vec::new();
            let mut j: usize = 0;
            proof {
                assert(record@.take(0) =~= Seq::<FieldView>::empty());
                assert(views_of(members@) =~= Seq::<TypeExprView>::empty());
            }
            while j < record.fields.len()
                invariant
                    iface@.wf(),
                    kind@ == TypeDefKindView::Record(record@),
                    iface@.kind_ok(kind@),
                    j <= record.fields.len(),
                    exprs_of_fields(iface@, record@.take(j as int), depth as nat) == Ok::<
                        _,
                        MapError,
                    >(views_of(members@)),
                decreases record.fields.len() - j,
            {
                assert(record@[j as int].ty == record.fields[j as int].ty);
                assert(record@.take(j + 1).drop_last() =~= record@.take(j as int));
                assert(record@.take(j + 1).last() == record@[j as int]);
                match map_type_within(iface, &record.fields[j].ty, depth) {
                    Ok(e) => {
                        let ghost before = members@;
                        members.push(e);
                        assert(views_of(members@) =~= views_of(before).push(e@));
                    },
                    Err(x) => {
                        proof {
                            lemma_fields_failure_stays(iface@, record@, j + 1, depth as nat);
                        }
                        return Err(x);
                    },
                }
                j += 1;
            }
            proof {
                assert(record@.take(j as int) =~= record@);
                lemma_tuple_view(members);
            }
            Ok(TypeExpr::Tuple(members))
        },
        TypeDefKind::Variant(variant) => {
            if variant.is_bool() {
                Ok(TypeExpr::Bool)
            } else if let Some(t) = variant.as_option() {
                match map_type_within(iface, &t, depth) {
                    Ok(e) => Ok(TypeExpr::Optional(Box::new(e))),
                    Err(x) => Err(x),
                }
            } else if let Some((ok, err)) = variant.as_expected() {
                match map_payload_within(iface, &ok, depth) {
                    Ok(o) => match map_payload_within(iface, &err, depth) {
                        Ok(e) => Ok(TypeExpr::Expected(Box::new(o), Box::new(e))),
                        Err(x) => Err(x),
                    },
                    Err(x) => Err(x),
                }
            } else {
                Err(MapError::UnknownVariant)
            }
        },
    }
}

} // verus!
