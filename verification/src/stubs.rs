//! Placeholder implementations of an interface.
//!
//! For each function of an interface a stub is declared: a method with the
//! function's parameter and result types whose body never returns. The stubs
//! exist so that generated bindings can be type-checked in a test harness
//! without anyone writing an implementation; they are not meant to run.
//! An accessor gathers the stubs of one interface into an anonymous type that
//! implements the interface's trait, and hands out a reference to it.

use vstd::prelude::*;
use vstd::string::StringExecFns;
use crate::expr::{lemma_tuple_view, views_of, TypeExpr, TypeExprView};
use crate::ir::{Function, FunctionView, Interface, InterfaceView, Param, ParamView};
use crate::mapping::{map_type, mapped, MapError};
use crate::names::{camel_case, snake_case, to_camel_case, to_snake_case};

verus! {

/// The declaration of a method that takes `params`, returns `ret` and never
/// returns.
#[derive(PartialEq, Eq, Debug)]
pub struct Stub {
    pub name: String,
    pub params: Vec<TypeExpr>,
    pub ret: TypeExpr,
}

/// A function without arguments that returns a reference to a placeholder
/// implementation of an interface.
#[derive(PartialEq, Eq, Debug)]
pub struct Accessor {
    /// The name of the function, which is also the module of the interface.
    pub name: String,
    /// The name of the trait that the placeholder implements.
    pub contract: String,
    /// One stub for each function of the interface, in order.
    pub methods: Vec<Stub>,
}

/// Mathematical value of a [`Stub`].
pub struct StubView {
    pub name: Seq<char>,
    pub params: Seq<TypeExprView>,
    pub ret: TypeExprView,
}

/// Mathematical value of an [`Accessor`].
pub struct AccessorView {
    pub name: Seq<char>,
    pub contract: Seq<char>,
    pub methods: Seq<StubView>,
}

impl View for Stub {
    type V = StubView;

    open spec fn view(&self) -> StubView {
        StubView { name: self.name@, params: views_of(self.params@), ret: self.ret@ }
    }
}

/// The values of `stubs`, in order.
pub open spec fn stubs_view(stubs: Seq<Stub>) -> Seq<StubView> {
    stubs.map_values(|s: Stub| s@)
}

impl View for Accessor {
    type V = AccessorView;

    open spec fn view(&self) -> AccessorView {
        AccessorView {
            name: self.name@,
            contract: self.contract@,
            methods: stubs_view(self.methods@),
        }
    }
}

/// What the types of `params` map to, in order; the first failure in that
/// order if there is one.
pub open spec fn mapped_params(iface: InterfaceView, params: Seq<ParamView>) -> Result<
    Seq<TypeExprView>,
    MapError,
>
    decreases params.len(),
{
    if params.len() == 0 {
        Ok(Seq::empty())
    } else {
        match mapped_params(iface, params.drop_last()) {
            Err(x) => Err(x),
            Ok(exprs) => match mapped(iface, params.last().ty) {
                Err(x) => Err(x),
                Ok(e) => Ok(exprs.push(e)),
            },
        }
    }
}

/// The one return type that stands for `results`: the unit for none, the
/// type itself for one, the tuple of them for more.
pub open spec fn collapsed(results: Seq<TypeExprView>) -> TypeExprView {
    if results.len() == 0 {
        TypeExprView::Unit
    } else if results.len() == 1 {
        results[0]
    } else {
        TypeExprView::Tuple(results)
    }
}

/// The stub for `function`. Its results are mapped before its parameters, so
/// a failure among the results is the one reported.
pub open spec fn stub_of(iface: InterfaceView, function: FunctionView) -> Result<StubView, MapError> {
    match mapped_params(iface, function.results) {
        Err(x) => Err(x),
        Ok(results) => match mapped_params(iface, function.params) {
            Err(x) => Err(x),
            Ok(params) => Ok(
                StubView { name: snake_case(function.name), params, ret: collapsed(results) },
            ),
        },
    }
}

/// The stubs for `functions`, in order; the first failure in that order if
/// there is one.
pub open spec fn stubs_of(iface: InterfaceView, functions: Seq<FunctionView>) -> Result<
    Seq<StubView>,
    MapError,
>
    decreases functions.len(),
{
    if functions.len() == 0 {
        Ok(Seq::empty())
    } else {
        match stubs_of(iface, functions.drop_last()) {
            Err(x) => Err(x),
            Ok(stubs) => match stub_of(iface, functions.last()) {
                Err(x) => Err(x),
                Ok(s) => Ok(stubs.push(s)),
            },
        }
    }
}

/// The accessor for `iface`: none for an interface without functions.
pub open spec fn accessor_of(iface: InterfaceView) -> Result<Option<AccessorView>, MapError> {
    if iface.functions.len() == 0 {
        Ok(None)
    } else {
        match stubs_of(iface, iface.functions) {
            Err(x) => Err(x),
            Ok(methods) => Ok(
                Some(
                    AccessorView {
                        name: snake_case(iface.name),
                        contract: camel_case(iface.name),
                        methods,
                    },
                ),
            ),
        }
    }
}

proof fn lemma_params_failure_stays(iface: InterfaceView, params: Seq<ParamView>, n: int)
    requires
        0 <= n <= params.len(),
        mapped_params(iface, params.take(n)) is Err,
    ensures
        mapped_params(iface, params) == mapped_params(iface, params.take(n)),
    decreases params.len() - n,
{
    if n == params.len() {
        assert(params.take(n) =~= params);
    } else {
        assert(params.drop_last().take(n) =~= params.take(n));
        lemma_params_failure_stays(iface, params.drop_last(), n);
    }
}

proof fn lemma_stubs_failure_stays(iface: InterfaceView, functions: Seq<FunctionView>, n: int)
    requires
        0 <= n <= functions.len(),
        stubs_of(iface, functions.take(n)) is Err,
    ensures
        stubs_of(iface, functions) == stubs_of(iface, functions.take(n)),
    decreases functions.len() - n,
{
    if n == functions.len() {
        assert(functions.take(n) =~= functions);
    } else {
        assert(functions.drop_last().take(n) =~= functions.take(n));
        lemma_stubs_failure_stays(iface, functions.drop_last(), n);
    }
}

/// The types of `params` map member by member: where all map, the result
/// holds at each place what the parameter at that place maps to; where one
/// does not, the failure is that of the first such parameter.
pub proof fn lemma_params_map_in_order(iface: InterfaceView, params: Seq<ParamView>)
    ensures
        match mapped_params(iface, params) {
            Ok(exprs) => exprs.len() == params.len() && forall|i: int|
                0 <= i < params.len() ==> mapped(iface, (#[trigger] params[i]).ty) == Ok::<
                    TypeExprView,
                    MapError,
                >(exprs[i]),
            Err(x) => exists|at: int|
                0 <= at < params.len() && mapped(iface, (#[trigger] params[at]).ty) == Err::<
                    TypeExprView,
                    MapError,
                >(x) && forall|j: int| 0 <= j < at ==> mapped(iface, (#[trigger] params[j]).ty) is Ok,
        },
    decreases params.len(),
{
    if params.len() > 0 {
        let init = params.drop_last();
        let n = params.len() - 1;
        lemma_params_map_in_order(iface, init);
        assert(forall|i: int| 0 <= i < n ==> init[i] == params[i]);
        match mapped_params(iface, init) {
            Ok(before) => {
                match mapped(iface, params[n].ty) {
                    Ok(e) => {
                        let exprs = before.push(e);
                        assert forall|i: int| 0 <= i < params.len() implies mapped(
                            iface,
                            (#[trigger] params[i]).ty,
                        ) == Ok::<TypeExprView, MapError>(exprs[i]) by {
                            if i < n {
                                assert(init[i] == params[i]);
                            }
                        }
                    },
                    Err(x) => {
                        assert forall|j: int| 0 <= j < n implies mapped(
                            iface,
                            (#[trigger] params[j]).ty,
                        ) is Ok by {
                            assert(init[j] == params[j]);
                        }
                        assert(mapped(iface, params[n].ty) == Err::<TypeExprView, MapError>(x));
                    },
                }
            },
            Err(x) => {
                let at = choose|at: int|
                    0 <= at < init.len() && mapped(iface, (#[trigger] init[at]).ty) == Err::<
                        TypeExprView,
                        MapError,
                    >(x) && forall|j: int| 0 <= j < at ==> mapped(iface, (#[trigger] init[j]).ty) is Ok;
                assert(init[at] == params[at]);
                assert forall|j: int| 0 <= j < at implies mapped(iface, (#[trigger] params[j]).ty) is Ok by {
                    assert(init[j] == params[j]);
                }
            },
        }
    }
}

/// The values of `params`, in order.
pub open spec fn params_view(params: Seq<Param>) -> Seq<ParamView> {
    params.map_values(|p: Param| p@)
}

/// Maps the type of each parameter, in order.
pub fn map_params(iface: &Interface, params: &Vec<Param>) -> (r: Result<Vec<TypeExpr>, MapError>)
    requires
        iface@.wf(),
        iface@.params_ok(params_view(params@)),
    ensures
        mapped_params(iface@, params_view(params@)) == match r {
            Ok(exprs) => Ok::<Seq<TypeExprView>, MapError>(views_of(exprs@)),
            Err(x) => Err(x),
        },
{
    let mut exprs: Vec<TypeExpr> = Vec::new();
    let ghost all = params_view(params@);
    let mut j: usize = 0;
    proof {
        assert(all.take(0) =~= Seq::<ParamView>::empty());
        assert(views_of(exprs@) =~= Seq::<TypeExprView>::empty());
    }
    while j < params.len()
        invariant
            iface@.wf(),
            all == params_view(params@),
            iface@.params_ok(all),
            j <= params.len(),
            mapped_params(iface@, all.take(j as int)) == Ok::<Seq<TypeExprView>, MapError>(
                views_of(exprs@),
            ),
        decreases params.len() - j,
    {
        assert(all[j as int].ty == params[j as int].ty);
        assert(all.take(j + 1).drop_last() =~= all.take(j as int));
        assert(all.take(j + 1).last() == all[j as int]);
        match map_type(iface, &params[j].ty) {
            Ok(e) => {
                let ghost before = exprs@;
                exprs.push(e);
                assert(views_of(exprs@) =~= views_of(before).push(e@));
            },
            Err(x) => {
                proof {
                    lemma_params_failure_stays(iface@, all, j + 1);
                }
                return Err(x);
            },
        }
        j += 1;
    }
    proof {
        assert(all.take(j as int) =~= all);
    }
    Ok(exprs)
}

/// Collapses the types of a function's results into its return type.
pub fn collapse(results: Vec<TypeExpr>) -> (r: TypeExpr)
    ensures
        r@ == collapsed(views_of(results@)),
{
    let mut results = results;
    if results.len() == 0 {
        TypeExpr::Unit
    } else if results.len() == 1 {
        let ghost only = results@[0];
        let r = results.pop().unwrap();
        assert(r == only);
        r
    } else {
        proof {
            lemma_tuple_view(results);
        }
        TypeExpr::Tuple(results)
    }
}

/// Declares the stub for `function`: the function's name in snake case, one
/// parameter for each of its parameters, and its results collapsed into one
/// return type.
pub fn stub(iface: &Interface, function: &Function) -> (r: Result<Stub, MapError>)
    requires
        iface@.wf(),
        iface@.function_ok(function@),
    ensures
        stub_of(iface@, function@) == match r {
            Ok(s) => Ok::<StubView, MapError>(s@),
            Err(x) => Err(x),
        },
{
    let results = match map_params(iface, &function.results) {
        Ok(results) => results,
        Err(x) => {
            return Err(x);
        },
    };
    let params = match map_params(iface, &function.params) {
        Ok(params) => params,
        Err(x) => {
            return Err(x);
        },
    };
    Ok(Stub { name: to_snake_case(function.name.as_str()), params, ret: collapse(results) })
}

/// Declares the accessor for `iface`, with a stub for each of its functions.
/// An interface without functions has no accessor.
pub fn accessor(iface: &Interface) -> (r: Result<Option<Accessor>, MapError>)
    requires
        iface@.wf(),
    ensures
        accessor_of(iface@) == match r {
            Ok(Some(a)) => Ok::<Option<AccessorView>, MapError>(Some(a@)),
            Ok(None) => Ok(None),
            Err(x) => Err(x),
        },
{
    if iface.functions.len() == 0 {
        return Ok(None);
    }
    let mut methods: Vec<Stub> = Vec::new();
    let ghost all = iface@.functions;
    let mut j: usize = 0;
    proof {
        assert(all.take(0) =~= Seq::<FunctionView>::empty());
        assert(stubs_view(methods@) =~= Seq::<StubView>::empty());
    }
    while j < iface.functions.len()
        invariant
            iface@.wf(),
            all == iface@.functions,
            j <= iface.functions.len(),
            stubs_of(iface@, all.take(j as int)) == Ok::<Seq<StubView>, MapError>(
                stubs_view(methods@),
            ),
        decreases iface.functions.len() - j,
    {
        assert(all[j as int] == iface.functions[j as int]@);
        assert(all.take(j + 1).drop_last() =~= all.take(j as int));
        assert(all.take(j + 1).last() == all[j as int]);
        match stub(iface, &iface.functions[j]) {
            Ok(s) => {
                let ghost before = methods@;
                methods.push(s);
                assert(stubs_view(methods@) =~= stubs_view(before).push(s@));
            },
            Err(x) => {
                proof {
                    lemma_stubs_failure_stays(iface@, all, j + 1);
                }
                return Err(x);
            },
        }
        j += 1;
    }
    proof {
        assert(all.take(j as int) =~= all);
    }
    Ok(
        Some(
            Accessor {
                name: to_snake_case(iface.name.as_str()),
                contract: to_camel_case(iface.name.as_str()),
                methods,
            },
        ),
    )
}

/// The first `n` of a stub's parameters as source text: none of them is
/// named, and each follows a comma.
pub open spec fn params_text(params: Seq<TypeExprView>, n: nat) -> Seq<char>
    decreases n,
{
    if n == 0 || n > params.len() {
        Seq::empty()
    } else {
        params_text(params, (n - 1) as nat) + ", _: "@ + params[n - 1].text()
    }
}

/// The first `n` stubs as source text, each followed by a space.
pub open spec fn methods_text(methods: Seq<StubView>, n: nat) -> Seq<char>
    decreases n,
{
    if n == 0 || n > methods.len() {
        Seq::empty()
    } else {
        methods_text(methods, (n - 1) as nat) + methods[n - 1].text() + " "@
    }
}

impl StubView {
    /// The stub as source text: a method whose body is an endless loop.
    pub open spec fn text(self) -> Seq<char> {
        "fn "@ + self.name + "(&self"@ + params_text(self.params, self.params.len()) + ") -> "@
            + self.ret.text() + " { loop {} }"@
    }
}

impl AccessorView {
    /// The accessor as source text: a function that declares a type without
    /// fields, implements the trait for it with the stubs, and returns a
    /// reference to a value of it.
    pub open spec fn text(self) -> Seq<char> {
        "fn "@ + self.name + "() -> &'static impl "@ + self.name + "::"@ + self.contract
            + " { struct A; impl "@ + self.name + "::"@ + self.contract + " for A { "@
            + methods_text(self.methods, self.methods.len()) + "} &A }"@
    }
}

impl Stub {
    /// Writes the stub as source text.
    pub fn render(&self) -> (r: String)
        ensures
            r@ == self@.text(),
    {
        let mut r = String::from_str("fn ");
        r.append(self.name.as_str());
        r.append("(&self");
        let ghost head = r@;
        let mut i: usize = 0;
        assert(r@ =~= head + params_text(self@.params, 0));
        while i < self.params.len()
            invariant
                i <= self.params.len(),
                head == "fn "@ + self.name@ + "(&self"@,
                r@ == head + params_text(self@.params, i as nat),
            decreases self.params.len() - i,
        {
            let inside = self.params[i].render();
            r.append(", _: ");
            r.append(inside.as_str());
            i += 1;
            assert(r@ =~= head + params_text(self@.params, i as nat));
        }
        let ret = self.ret.render();
        r.append(") -> ");
        r.append(ret.as_str());
        r.append(" { loop {} }");
        assert(r@ =~= self@.text());
        r
    }
}

impl Accessor {
    /// Writes the accessor as source text.
    pub fn render(&self) -> (r: String)
        ensures
            r@ == self@.text(),
    {
        let mut r = String::from_str("fn ");
        r.append(self.name.as_str());
        r.append("() -> &'static impl ");
        r.append(self.name.as_str());
        r.append("::");
        r.append(self.contract.as_str());
        r.append(" { struct A; impl ");
        r.append(self.name.as_str());
        r.append("::");
        r.append(self.contract.as_str());
        r.append(" for A { ");
        let ghost head = r@;
        let mut i: usize = 0;
        assert(r@ =~= head + methods_text(self@.methods, 0));
        while i < self.methods.len()
            invariant
                i <= self.methods.len(),
                head == "fn "@ + self.name@ + "() -> &'static impl "@ + self.name@ + "::"@
                    + self.contract@ + " { struct A; impl "@ + self.name@ + "::"@ + self.contract@
                    + " for A { "@,
                r@ == head + methods_text(self@.methods, i as nat),
            decreases self.methods.len() - i,
        {
            let inside = self.methods[i].render();
            r.append(inside.as_str());
            r.append(" ");
            i += 1;
            assert(r@ =~= head + methods_text(self@.methods, i as nat));
        }
        r.append("} &A }");
        assert(r@ =~= self@.text());
        r
    }
}

} // verus!
