//! Type expressions of the language that bindings are generated in.

use vstd::prelude::*;
use vstd::string::StringExecFns;

verus! {

/// A type expression of the target language.
#[derive(PartialEq, Eq, Debug)]
pub enum TypeExpr {
    U8,
    I8,
    U16,
    I16,
    U32,
    I32,
    U64,
    I64,
    Usize,
    F32,
    F64,
    Char,
    Bool,
    /// The empty tuple.
    Unit,
    /// The owned text string.
    Text,
    /// A shared reference to the type called `name`.
    Borrowed { name: String },
    /// The type called `name` in the module called `module`.
    Named { module: String, name: String },
    /// A mutable raw pointer.
    MutPointer(Box<TypeExpr>),
    /// A read-only raw pointer.
    ConstPointer(Box<TypeExpr>),
    /// The owned growable sequence.
    List(Box<TypeExpr>),
    /// An ordered product; one member makes a one-tuple.
    Tuple(Vec<TypeExpr>),
    /// A value that may be absent.
    Optional(Box<TypeExpr>),
    /// A success of the first type or a failure of the second.
    Expected(Box<TypeExpr>, Box<TypeExpr>),
}

/// Mathematical value of a [`TypeExpr`].
pub enum TypeExprView {
    U8,
    I8,
    U16,
    I16,
    U32,
    I32,
    U64,
    I64,
    Usize,
    F32,
    F64,
    Char,
    Bool,
    Unit,
    Text,
    Borrowed { name: Seq<char> },
    Named { module: Seq<char>, name: Seq<char> },
    MutPointer(Box<TypeExprView>),
    ConstPointer(Box<TypeExprView>),
    List(Box<TypeExprView>),
    Tuple(Seq<TypeExprView>),
    Optional(Box<TypeExprView>),
    Expected(Box<TypeExprView>, Box<TypeExprView>),
}

impl View for TypeExpr {
    type V = TypeExprView;

    open spec fn view(&self) -> TypeExprView
        decreases self,
    {
        match self {
            TypeExpr::U8 => TypeExprView::U8,
            TypeExpr::I8 => TypeExprView::I8,
            TypeExpr::U16 => TypeExprView::U16,
            TypeExpr::I16 => TypeExprView::I16,
            TypeExpr::U32 => TypeExprView::U32,
            TypeExpr::I32 => TypeExprView::I32,
            TypeExpr::U64 => TypeExprView::U64,
            TypeExpr::I64 => TypeExprView::I64,
            TypeExpr::Usize => TypeExprView::Usize,
            TypeExpr::F32 => TypeExprView::F32,
            TypeExpr::F64 => TypeExprView::F64,
            TypeExpr::Char => TypeExprView::Char,
            TypeExpr::Bool => TypeExprView::Bool,
            TypeExpr::Unit => TypeExprView::Unit,
            TypeExpr::Text => TypeExprView::Text,
            TypeExpr::Borrowed { name } => TypeExprView::Borrowed { name: name@ },
            TypeExpr::Named { module, name } => TypeExprView::Named { module: module@, name: name@ },
            TypeExpr::MutPointer(inner) => TypeExprView::MutPointer(Box::new((**inner).view())),
            TypeExpr::ConstPointer(inner) => TypeExprView::ConstPointer(Box::new((**inner).view())),
            TypeExpr::List(inner) => TypeExprView::List(Box::new((**inner).view())),
            TypeExpr::Tuple(members) => TypeExprView::Tuple(
                Seq::new(
                    members@.len(),
                    |i: int|
                        if 0 <= i < members@.len() {
                            members@[i].view()
                        } else {
                            TypeExprView::Unit
                        },
                ),
            ),
            TypeExpr::Optional(inner) => TypeExprView::Optional(Box::new((**inner).view())),
            TypeExpr::Expected(ok, err) => TypeExprView::Expected(
                Box::new((**ok).view()),
                Box::new((**err).view()),
            ),
        }
    }
}

/// The values of `members`, in order.
pub open spec fn views_of(members: Seq<TypeExpr>) -> Seq<TypeExprView> {
    Seq::new(members.len(), |i: int| members[i]@)
}

/// The value of a tuple is the tuple of its members' values.
pub proof fn lemma_tuple_view(members: Vec<TypeExpr>)
    ensures
        TypeExpr::Tuple(members)@ == TypeExprView::Tuple(views_of(members@)),
{
    let e = TypeExpr::Tuple(members);
    assert(e@ matches TypeExprView::Tuple(s) && s =~= views_of(members@));
}

impl TypeExprView {
    /// The expression as source text.
    pub open spec fn text(self) -> Seq<char>
        decreases self, 0nat,
    {
        match self {
            TypeExprView::U8 => "u8"@,
            TypeExprView::I8 => "i8"@,
            TypeExprView::U16 => "u16"@,
            TypeExprView::I16 => "i16"@,
            TypeExprView::U32 => "u32"@,
            TypeExprView::I32 => "i32"@,
            TypeExprView::U64 => "u64"@,
            TypeExprView::I64 => "i64"@,
            TypeExprView::Usize => "usize"@,
            TypeExprView::F32 => "f32"@,
            TypeExprView::F64 => "f64"@,
            TypeExprView::Char => "char"@,
            TypeExprView::Bool => "bool"@,
            TypeExprView::Unit => "()"@,
            TypeExprView::Text => "String"@,
            TypeExprView::Borrowed { name } => "&"@ + name,
            TypeExprView::Named { module, name } => module + "::"@ + name,
            TypeExprView::MutPointer(inner) => "*mut "@ + inner.text(),
            TypeExprView::ConstPointer(inner) => "*const "@ + inner.text(),
            TypeExprView::List(inner) => "Vec<"@ + inner.text() + ">"@,
            TypeExprView::Tuple(members) => "("@ + members_text(members, members.len()) + ")"@,
            TypeExprView::Optional(inner) => "Option<"@ + inner.text() + ">"@,
            TypeExprView::Expected(ok, err) => "Result<"@ + ok.text() + ", "@ + err.text() + ">"@,
        }
    }
}

/// The first `n` members of a tuple as source text: each followed by a
/// comma, and a space between one and the next.
pub open spec fn members_text(members: Seq<TypeExprView>, n: nat) -> Seq<char>
    decreases members, n,
{
    if n == 0 || n > members.len() {
        Seq::empty()
    } else if n == 1 {
        members[0].text() + ","@
    } else {
        members_text(members, (n - 1) as nat) + " "@ + members[n - 1].text() + ","@
    }
}

impl TypeExpr {
    /// Writes the expression as source text.
    pub fn render(&self) -> (r: String)
        ensures
            r@ == self@.text(),
        decreases self,
    {
        match self {
            TypeExpr::U8 => String::from_str("u8"),
            TypeExpr::I8 => String::from_str("i8"),
            TypeExpr::U16 => String::from_str("u16"),
            TypeExpr::I16 => String::from_str("i16"),
            TypeExpr::U32 => String::from_str("u32"),
            TypeExpr::I32 => String::from_str("i32"),
            TypeExpr::U64 => String::from_str("u64"),
            TypeExpr::I64 => String::from_str("i64"),
            TypeExpr::Usize => String::from_str("usize"),
            TypeExpr::F32 => String::from_str("f32"),
            TypeExpr::F64 => String::from_str("f64"),
            TypeExpr::Char => String::from_str("char"),
            TypeExpr::Bool => String::from_str("bool"),
            TypeExpr::Unit => String::from_str("()"),
            TypeExpr::Text => String::from_str("String"),
            TypeExpr::Borrowed { name } => String::from_str("&").concat(name.as_str()),
            TypeExpr::Named { module, name } => {
                let r = module.clone().concat("::").concat(name.as_str());
                r
            },
            TypeExpr::MutPointer(inner) => {
                let inside = inner.render();
                String::from_str("*mut ").concat(inside.as_str())
            },
            TypeExpr::ConstPointer(inner) => {
                let inside = inner.render();
                String::from_str("*const ").concat(inside.as_str())
            },
            TypeExpr::List(inner) => {
                let inside = inner.render();
                String::from_str("Vec<").concat(inside.as_str()).concat(">")
            },
            TypeExpr::Tuple(members) => {
                let mut r = String::from_str("(");
                let mut i: usize = 0;
                proof {
                    lemma_tuple_view(*members);
                    assert(r@ =~= "("@ + members_text(self@->Tuple_0, 0));
                }
                while i < members.len()
                    invariant
                        i <= members.len(),
                        *self == TypeExpr::Tuple(*members),
                        self@ == TypeExprView::Tuple(views_of(members@)),
                        r@ == "("@ + members_text(views_of(members@), i as nat),
                    decreases members.len() - i,
                {
                    let inside = members[i].render();
                    if i > 0 {
                        r.append(" ");
                    }
                    r.append(inside.as_str());
                    r.append(",");
                    i += 1;
                    assert(r@ =~= "("@ + members_text(views_of(members@), i as nat));
                }
                r.append(")");
                r
            },
            TypeExpr::Optional(inner) => {
                let inside = inner.render();
                String::from_str("Option<").concat(inside.as_str()).concat(">")
            },
            TypeExpr::Expected(ok, err) => {
                let first = ok.render();
                let second = err.render();
                let r = String::from_str("Result<").concat(first.as_str()).concat(", ").concat(
                    second.as_str(),
                ).concat(">");
                assert(r@ =~= self@.text());
                r
            },
        }
    }
}

} // verus!
