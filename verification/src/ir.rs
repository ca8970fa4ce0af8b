//! The interface description: functions, a type arena and a resource arena.
//!
//! Every relationship between definitions is an index into one of the two
//! arenas. A definition may refer to one that comes later in its arena.

use vstd::prelude::*;

verus! {

/// A reference to a type: a primitive, a resource handle, or a definition in
/// the type arena.
#[derive(Clone, Copy, PartialEq, Eq, Structural, Debug)]
pub enum Type {
    U8,
    U16,
    U32,
    U64,
    S8,
    S16,
    S32,
    S64,
    F32,
    F64,
    /// A Unicode scalar value.
    Char,
    /// An eight-bit character as C has it.
    CChar,
    /// An unsigned integer as wide as a pointer of the host.
    Usize,
    /// Index into the resource arena.
    Handle(usize),
    /// Index into the type arena.
    Id(usize),
}

/// A named member of a record.
#[derive(Clone, PartialEq, Eq, Debug)]
pub struct Field {
    pub name: String,
    pub ty: Type,
}

/// An ordered product of named fields.
#[derive(Clone, PartialEq, Eq, Debug)]
pub struct Record {
    pub fields: Vec<Field>,
}

/// One alternative of a variant, with or without a payload.
#[derive(Clone, PartialEq, Eq, Debug)]
pub struct Case {
    pub name: String,
    pub ty: Option<Type>,
}

/// A tagged union of cases.
#[derive(Clone, PartialEq, Eq, Debug)]
pub struct Variant {
    pub cases: Vec<Case>,
}

/// What a definition in the type arena is.
#[derive(Clone, PartialEq, Eq, Debug)]
pub enum TypeDefKind {
    /// Another name for a type.
    Type(Type),
    Pointer(Type),
    ConstPointer(Type),
    List(Type),
    PushBuffer(Type),
    PullBuffer(Type),
    Record(Record),
    Variant(Variant),
}

/// A slot of the type arena.
#[derive(Clone, PartialEq, Eq, Debug)]
pub struct TypeDef {
    pub name: Option<String>,
    pub kind: TypeDefKind,
}

/// A slot of the resource arena: an opaque handle type, known by name only.
#[derive(Clone, PartialEq, Eq, Debug)]
pub struct Resource {
    pub name: String,
}

/// A parameter or a result of a function.
#[derive(Clone, PartialEq, Eq, Debug)]
pub struct Param {
    pub name: String,
    pub ty: Type,
}

/// A function of an interface.
#[derive(Clone, PartialEq, Eq, Debug)]
pub struct Function {
    pub name: String,
    pub params: Vec<Param>,
    pub results: Vec<Param>,
}

/// An interface: its name, its two arenas and its functions.
#[derive(Clone, PartialEq, Eq, Debug)]
pub struct Interface {
    pub name: String,
    pub types: Vec<TypeDef>,
    pub resources: Vec<Resource>,
    pub functions: Vec<Function>,
}

/// Mathematical value of a [`Field`].
pub struct FieldView {
    pub name: Seq<char>,
    pub ty: Type,
}

/// Mathematical value of a [`Case`].
pub struct CaseView {
    pub name: Seq<char>,
    pub ty: Option<Type>,
}

/// Mathematical value of a [`TypeDefKind`].
pub enum TypeDefKindView {
    Type(Type),
    Pointer(Type),
    ConstPointer(Type),
    List(Type),
    PushBuffer(Type),
    PullBuffer(Type),
    Record(Seq<FieldView>),
    Variant(Seq<CaseView>),
}

/// Mathematical value of a [`TypeDef`].
pub struct TypeDefView {
    pub name: Option<Seq<char>>,
    pub kind: TypeDefKindView,
}

/// Mathematical value of a [`Param`].
pub struct ParamView {
    pub name: Seq<char>,
    pub ty: Type,
}

/// Mathematical value of a [`Function`].
pub struct FunctionView {
    pub name: Seq<char>,
    pub params: Seq<ParamView>,
    pub results: Seq<ParamView>,
}

/// Mathematical value of an [`Interface`].
pub struct InterfaceView {
    pub name: Seq<char>,
    pub types: Seq<TypeDefView>,
    /// The names of the resources, by index.
    pub resources: Seq<Seq<char>>,
    pub functions: Seq<FunctionView>,
}

impl View for Field {
    type V = FieldView;

    open spec fn view(&self) -> FieldView {
        FieldView { name: self.name@, ty: self.ty }
    }
}

impl View for Record {
    type V = Seq<FieldView>;

    open spec fn view(&self) -> Seq<FieldView> {
        self.fields@.map_values(|f: Field| f@)
    }
}

impl View for Case {
    type V = CaseView;

    open spec fn view(&self) -> CaseView {
        CaseView { name: self.name@, ty: self.ty }
    }
}

impl View for Variant {
    type V = Seq<CaseView>;

    open spec fn view(&self) -> Seq<CaseView> {
        self.cases@.map_values(|c: Case| c@)
    }
}

impl View for TypeDefKind {
    type V = TypeDefKindView;

    open spec fn view(&self) -> TypeDefKindView {
        match *self {
            TypeDefKind::Type(t) => TypeDefKindView::Type(t),
            TypeDefKind::Pointer(t) => TypeDefKindView::Pointer(t),
            TypeDefKind::ConstPointer(t) => TypeDefKindView::ConstPointer(t),
            TypeDefKind::List(t) => TypeDefKindView::List(t),
            TypeDefKind::PushBuffer(t) => TypeDefKindView::PushBuffer(t),
            TypeDefKind::PullBuffer(t) => TypeDefKindView::PullBuffer(t),
            TypeDefKind::Record(r) => TypeDefKindView::Record(r@),
            TypeDefKind::Variant(v) => TypeDefKindView::Variant(v@),
        }
    }
}

impl View for TypeDef {
    type V = TypeDefView;

    open spec fn view(&self) -> TypeDefView {
        TypeDefView {
            name: match self.name {
                Some(n) => Some(n@),
                None => None,
            },
            kind: self.kind@,
        }
    }
}

impl View for Resource {
    type V = Seq<char>;

    open spec fn view(&self) -> Seq<char> {
        self.name@
    }
}

impl View for Param {
    type V = ParamView;

    open spec fn view(&self) -> ParamView {
        ParamView { name: self.name@, ty: self.ty }
    }
}

impl View for Function {
    type V = FunctionView;

    open spec fn view(&self) -> FunctionView {
        FunctionView {
            name: self.name@,
            params: self.params@.map_values(|p: Param| p@),
            results: self.results@.map_values(|p: Param| p@),
        }
    }
}

impl View for Interface {
    type V = InterfaceView;

    open spec fn view(&self) -> InterfaceView {
        InterfaceView {
            name: self.name@,
            types: self.types@.map_values(|t: TypeDef| t@),
            resources: self.resources@.map_values(|r: Resource| r@),
            functions: self.functions@.map_values(|f: Function| f@),
        }
    }
}

impl InterfaceView {
    /// `ty` is a primitive or an index inside the arena it points into.
    pub open spec fn type_ok(self, ty: Type) -> bool {
        match ty {
            Type::Handle(r) => r < self.resources.len(),
            Type::Id(i) => i < self.types.len(),
            _ => true,
        }
    }

    /// Every type that `kind` mentions is [`type_ok`](Self::type_ok).
    pub open spec fn kind_ok(self, kind: TypeDefKindView) -> bool {
        match kind {
            TypeDefKindView::Type(t) => self.type_ok(t),
            TypeDefKindView::Pointer(t) => self.type_ok(t),
            TypeDefKindView::ConstPointer(t) => self.type_ok(t),
            TypeDefKindView::List(t) => self.type_ok(t),
            TypeDefKindView::PushBuffer(t) => self.type_ok(t),
            TypeDefKindView::PullBuffer(t) => self.type_ok(t),
            TypeDefKindView::Record(fields) => forall|j: int|
                0 <= j < fields.len() ==> self.type_ok((#[trigger] fields[j]).ty),
            TypeDefKindView::Variant(cases) => forall|j: int|
                0 <= j < cases.len() ==> self.payload_ok((#[trigger] cases[j]).ty),
        }
    }

    /// An absent payload, or one that is [`type_ok`](Self::type_ok).
    pub open spec fn payload_ok(self, payload: Option<Type>) -> bool {
        match payload {
            Some(t) => self.type_ok(t),
            None => true,
        }
    }

    /// Every parameter in `params` has a type that is
    /// [`type_ok`](Self::type_ok).
    pub open spec fn params_ok(self, params: Seq<ParamView>) -> bool {
        forall|j: int| 0 <= j < params.len() ==> self.type_ok((#[trigger] params[j]).ty)
    }

    /// The parameters and the results of `function` are
    /// [`params_ok`](Self::params_ok).
    pub open spec fn function_ok(self, function: FunctionView) -> bool {
        self.params_ok(function.params) && self.params_ok(function.results)
    }

    /// The invariant of an interface: every type reference, wherever it
    /// stands, is a primitive or a valid index into its arena.
    pub open spec fn wf(self) -> bool {
        &&& forall|i: int| 0 <= i < self.types.len() ==> self.kind_ok((#[trigger] self.types[i]).kind)
        &&& forall|i: int| 0 <= i < self.functions.len() ==> self.function_ok(#[trigger] self.functions[i])
    }

    /// The types that an anonymous definition with this `kind` expands to
    /// all lie strictly below `bound` in `rank`. Primitives and handles lie
    /// below everything.
    pub open spec fn kind_below(self, kind: TypeDefKindView, rank: Seq<nat>, bound: nat) -> bool {
        match kind {
            TypeDefKindView::Type(t) => type_below(t, rank, bound),
            TypeDefKindView::Pointer(t) => type_below(t, rank, bound),
            TypeDefKindView::ConstPointer(t) => type_below(t, rank, bound),
            TypeDefKindView::List(t) => type_below(t, rank, bound),
            TypeDefKindView::PushBuffer(t) => type_below(t, rank, bound),
            TypeDefKindView::PullBuffer(t) => type_below(t, rank, bound),
            TypeDefKindView::Record(fields) => forall|j: int|
                0 <= j < fields.len() ==> type_below((#[trigger] fields[j]).ty, rank, bound),
            TypeDefKindView::Variant(cases) => forall|j: int|
                0 <= j < cases.len() ==> payload_below((#[trigger] cases[j]).ty, rank, bound),
        }
    }

    /// `rank` orders the type arena so that every anonymous definition ranks
    /// strictly above the definitions it is made of. Named definitions are
    /// referred to by name and never expanded, so they bound nothing.
    pub open spec fn ranked_by(self, rank: Seq<nat>) -> bool {
        &&& rank.len() == self.types.len()
        &&& forall|i: int|
            0 <= i < self.types.len() && (#[trigger] self.types[i]).name is None ==> self.kind_below(
                self.types[i].kind,
                rank,
                rank[i],
            )
    }

    /// No anonymous definition contains itself, directly or through others.
    pub open spec fn acyclic(self) -> bool {
        exists|rank: Seq<nat>| self.ranked_by(rank)
    }
}

/// `ty` is no arena index, or one whose rank is less than `bound`.
pub open spec fn type_below(ty: Type, rank: Seq<nat>, bound: nat) -> bool {
    match ty {
        Type::Id(i) => i < rank.len() && rank[i as int] < bound,
        _ => true,
    }
}

/// An absent payload, or one that is [`type_below`] `bound`.
pub open spec fn payload_below(payload: Option<Type>, rank: Seq<nat>, bound: nat) -> bool {
    match payload {
        Some(t) => type_below(t, rank, bound),
        None => true,
    }
}

impl Interface {
    /// An interface called `name` with nothing in it.
    pub fn new(name: String) -> (r: Interface)
        ensures
            r@.name == name@,
            r@.types.len() == 0,
            r@.resources.len() == 0,
            r@.functions.len() == 0,
            r@.wf(),
    {
        Interface { name, types: Vec::new(), resources: Vec::new(), functions: Vec::new() }
    }

    /// Whether `ty` is a primitive or points inside its arena.
    pub fn type_ok(&self, ty: &Type) -> (r: bool)
        ensures
            r == self@.type_ok(*ty),
    {
        match *ty {
            Type::Handle(r) => r < self.resources.len(),
            Type::Id(i) => i < self.types.len(),
            _ => true,
        }
    }

    fn params_ok(&self, params: &Vec<Param>) -> (r: bool)
        ensures
            r == self@.params_ok(params@.map_values(|p: Param| p@)),
    {
        let mut j: usize = 0;
        while j < params.len()
            invariant
                j <= params.len(),
                forall|k: int| 0 <= k < j ==> self@.type_ok((#[trigger] params@[k]).ty),
            decreases params.len() - j,
        {
            if !self.type_ok(&params[j].ty) {
                assert(!self@.type_ok(params@.map_values(|p: Param| p@)[j as int].ty));
                return false;
            }
            j += 1;
        }
        true
    }

    fn kind_ok(&self, kind: &TypeDefKind) -> (r: bool)
        ensures
            r == self@.kind_ok(kind@),
    {
        match kind {
            TypeDefKind::Type(t) => self.type_ok(t),
            TypeDefKind::Pointer(t) => self.type_ok(t),
            TypeDefKind::ConstPointer(t) => self.type_ok(t),
            TypeDefKind::List(t) => self.type_ok(t),
            TypeDefKind::PushBuffer(t) => self.type_ok(t),
            TypeDefKind::PullBuffer(t) => self.type_ok(t),
            TypeDefKind::Record(record) => {
                let mut j: usize = 0;
                while j < record.fields.len()
                    invariant
                        kind@ == TypeDefKindView::Record(record@),
                        j <= record.fields.len(),
                        forall|k: int| 0 <= k < j ==> self@.type_ok((#[trigger] record@[k]).ty),
                    decreases record.fields.len() - j,
                {
                    if !self.type_ok(&record.fields[j].ty) {
                        assert(!self@.type_ok(record@[j as int].ty));
                        return false;
                    }
                    j += 1;
                }
                true
            },
            TypeDefKind::Variant(variant) => {
                let mut j: usize = 0;
                while j < variant.cases.len()
                    invariant
                        kind@ == TypeDefKindView::Variant(variant@),
                        j <= variant.cases.len(),
                        forall|k: int| 0 <= k < j ==> self@.payload_ok((#[trigger] variant@[k]).ty),
                    decreases variant.cases.len() - j,
                {
                    let ok = match &variant.cases[j].ty {
                        Some(t) => self.type_ok(t),
                        None => true,
                    };
                    if !ok {
                        assert(!self@.payload_ok(variant@[j as int].ty));
                        return false;
                    }
                    j += 1;
                }
                true
            },
        }
    }

    /// Checks the invariant: whether every type reference in the interface is
    /// a primitive or a valid index into its arena.
    pub fn is_well_formed(&self) -> (r: bool)
        ensures
            r == self@.wf(),
    {
        let mut i: usize = 0;
        while i < self.types.len()
            invariant
                i <= self.types.len(),
                forall|k: int| 0 <= k < i ==> self@.kind_ok((#[trigger] self@.types[k]).kind),
            decreases self.types.len() - i,
        {
            if !self.kind_ok(&self.types[i].kind) {
                assert(!self@.kind_ok(self@.types[i as int].kind));
                return false;
            }
            i += 1;
        }
        let mut i: usize = 0;
        while i < self.functions.len()
            invariant
                i <= self.functions.len(),
                forall|k: int| 0 <= k < self.types.len() ==> self@.kind_ok((#[trigger] self@.types[k]).kind),
                forall|k: int| 0 <= k < i ==> self@.function_ok(#[trigger] self@.functions[k]),
            decreases self.functions.len() - i,
        {
            let f = &self.functions[i];
            if !self.params_ok(&f.params) || !self.params_ok(&f.results) {
                assert(!self@.function_ok(self@.functions[i as int]));
                return false;
            }
            i += 1;
        }
        true
    }
}

} // verus!
