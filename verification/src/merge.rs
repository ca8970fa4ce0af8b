//! The interfaces of a component, and how the pieces found in a module are
//! put together.
//!
//! A component has at most one default interface and any number of imported
//! and exported interfaces, each known by a name of its own. Two pieces that
//! name the same thing are never merged: the second is an error.

use vstd::prelude::*;
use vstd::string::StringExecFns;
use crate::ir::{Interface, InterfaceView};

verus! {

/// An interface together with the name it is imported or exported under.
#[derive(Clone, PartialEq, Eq, Debug)]
pub struct NamedInterface {
    pub name: String,
    pub interface: Interface,
}

/// The interfaces of a component, or of one piece of it.
///
/// Imports and exports keep the order in which they were added.
#[derive(Clone, PartialEq, Eq, Debug)]
pub struct ComponentInterfaces {
    pub default: Option<Interface>,
    pub imports: Vec<NamedInterface>,
    pub exports: Vec<NamedInterface>,
}

/// Why a piece could not be merged.
#[derive(Clone, PartialEq, Eq, Debug)]
pub enum MergeError {
    /// A second piece has a default interface.
    DuplicateDefault,
    /// A second import has this name.
    DuplicateImport(String),
    /// A second export has this name.
    DuplicateExport(String),
}

/// Mathematical value of a [`NamedInterface`].
pub struct NamedInterfaceView {
    pub name: Seq<char>,
    pub interface: InterfaceView,
}

/// Mathematical value of a [`ComponentInterfaces`].
pub struct ComponentInterfacesView {
    pub default: Option<InterfaceView>,
    pub imports: Seq<NamedInterfaceView>,
    pub exports: Seq<NamedInterfaceView>,
}

/// Mathematical value of a [`MergeError`].
pub enum MergeErrorView {
    DuplicateDefault,
    DuplicateImport(Seq<char>),
    DuplicateExport(Seq<char>),
}

impl View for NamedInterface {
    type V = NamedInterfaceView;

    open spec fn view(&self) -> NamedInterfaceView {
        NamedInterfaceView { name: self.name@, interface: self.interface@ }
    }
}

/// The values of `entries`, in order.
pub open spec fn entries_view(entries: Seq<NamedInterface>) -> Seq<NamedInterfaceView> {
    entries.map_values(|e: NamedInterface| e@)
}

/// The value of an interface that may be absent.
pub open spec fn default_view(default: Option<Interface>) -> Option<InterfaceView> {
    match default {
        Some(i) => Some(i@),
        None => None,
    }
}

impl View for ComponentInterfaces {
    type V = ComponentInterfacesView;

    open spec fn view(&self) -> ComponentInterfacesView {
        ComponentInterfacesView {
            default: default_view(self.default),
            imports: entries_view(self.imports@),
            exports: entries_view(self.exports@),
        }
    }
}

impl View for MergeError {
    type V = MergeErrorView;

    open spec fn view(&self) -> MergeErrorView {
        match self {
            MergeError::DuplicateDefault => MergeErrorView::DuplicateDefault,
            MergeError::DuplicateImport(name) => MergeErrorView::DuplicateImport(name@),
            MergeError::DuplicateExport(name) => MergeErrorView::DuplicateExport(name@),
        }
    }
}

/// Some entry of `entries` is called `name`.
pub open spec fn has_name(entries: Seq<NamedInterfaceView>, name: Seq<char>) -> bool {
    exists|i: int| 0 <= i < entries.len() && (#[trigger] entries[i]).name == name
}

/// No two entries of `entries` have the same name.
pub open spec fn distinct_names(entries: Seq<NamedInterfaceView>) -> bool {
    forall|i: int, j: int|
        0 <= i < j < entries.len() ==> (#[trigger] entries[i]).name != (#[trigger] entries[j]).name
}

/// The component with nothing in it.
pub open spec fn empty_component() -> ComponentInterfacesView {
    ComponentInterfacesView { default: None, imports: Seq::empty(), exports: Seq::empty() }
}

impl ComponentInterfacesView {
    /// The invariant of a component: no name is imported twice and none is
    /// exported twice. One name may be both imported and exported.
    pub open spec fn wf(self) -> bool {
        distinct_names(self.imports) && distinct_names(self.exports)
    }
}

/// Adds the entries of `incoming` to `existing` one by one, up to the first
/// whose name is already there. Gives the entries as they then are, and the
/// name that stopped the adding, if one did.
pub open spec fn take_in(existing: Seq<NamedInterfaceView>, incoming: Seq<NamedInterfaceView>) -> (
    Seq<NamedInterfaceView>,
    Option<Seq<char>>,
)
    decreases incoming.len(),
{
    if incoming.len() == 0 {
        (existing, None)
    } else if has_name(existing, incoming[0].name) {
        (existing, Some(incoming[0].name))
    } else {
        take_in(existing.push(incoming[0]), incoming.skip(1))
    }
}

/// Merging `piece` into `whole`: the component as it is afterwards, and
/// whether the merge went through.
///
/// The default interface is looked at first, then the imports in their
/// order, then the exports in theirs. The first duplicate ends the merge, and
/// what was added before it stays.
pub open spec fn merged(whole: ComponentInterfacesView, piece: ComponentInterfacesView) -> (
    ComponentInterfacesView,
    Result<(), MergeErrorView>,
) {
    if piece.default is Some && whole.default is Some {
        (whole, Err(MergeErrorView::DuplicateDefault))
    } else {
        let default = if piece.default is Some {
            piece.default
        } else {
            whole.default
        };
        let (imports, import_clash) = take_in(whole.imports, piece.imports);
        match import_clash {
            Some(name) => (
                ComponentInterfacesView { default, imports, exports: whole.exports },
                Err(MergeErrorView::DuplicateImport(name)),
            ),
            None => {
                let (exports, export_clash) = take_in(whole.exports, piece.exports);
                (
                    ComponentInterfacesView { default, imports, exports },
                    match export_clash {
                        Some(name) => Err(MergeErrorView::DuplicateExport(name)),
                        None => Ok(()),
                    },
                )
            },
        }
    }
}

/// Merging `pieces` into `whole` one after the other: the component that
/// holds them all, or the first error.
pub open spec fn folded(whole: ComponentInterfacesView, pieces: Seq<ComponentInterfacesView>) -> Result<
    ComponentInterfacesView,
    MergeErrorView,
>
    decreases pieces.len(),
{
    if pieces.len() == 0 {
        Ok(whole)
    } else {
        let (next, result) = merged(whole, pieces[0]);
        match result {
            Err(e) => Err(e),
            Ok(_) => folded(next, pieces.skip(1)),
        }
    }
}

/// The values of `pieces`, in order.
pub open spec fn pieces_view(pieces: Seq<ComponentInterfaces>) -> Seq<ComponentInterfacesView> {
    pieces.map_values(|p: ComponentInterfaces| p@)
}

/// The mathematical value of a merge's result.
pub open spec fn merge_outcome(r: Result<(), MergeError>) -> Result<(), MergeErrorView> {
    match r {
        Ok(_) => Ok(()),
        Err(e) => Err(e@),
    }
}

/// Taking in keeps names distinct, whether it goes through or stops.
pub proof fn lemma_take_in_keeps_distinct(
    existing: Seq<NamedInterfaceView>,
    incoming: Seq<NamedInterfaceView>,
)
    requires
        distinct_names(existing),
    ensures
        distinct_names(take_in(existing, incoming).0),
    decreases incoming.len(),
{
    if incoming.len() > 0 && !has_name(existing, incoming[0].name) {
        let grown = existing.push(incoming[0]);
        assert forall|i: int, j: int| 0 <= i < j < grown.len() implies (#[trigger] grown[i]).name != (
        #[trigger] grown[j]).name by {
            if j == existing.len() {
                assert(grown[i] == existing[i]);
            } else {
                assert(grown[i] == existing[i] && grown[j] == existing[j]);
            }
        }
        lemma_take_in_keeps_distinct(grown, incoming.skip(1));
    }
}

/// Merging keeps the invariant of a component, whether it goes through or
/// stops.
pub proof fn lemma_merged_keeps_wf(whole: ComponentInterfacesView, piece: ComponentInterfacesView)
    requires
        whole.wf(),
    ensures
        merged(whole, piece).0.wf(),
{
    lemma_take_in_keeps_distinct(whole.imports, piece.imports);
    lemma_take_in_keeps_distinct(whole.exports, piece.exports);
}

/// Whether some entry of `entries` is called `name`.
pub fn contains_name(entries: &Vec<NamedInterface>, name: &String) -> (r: bool)
    ensures
        r == has_name(entries_view(entries@), name@),
{
    let mut i: usize = 0;
    while i < entries.len()
        invariant
            i <= entries.len(),
            forall|k: int| 0 <= k < i ==> (#[trigger] entries_view(entries@)[k]).name != name@,
        decreases entries.len() - i,
    {
        if entries[i].name == *name {
            assert(entries_view(entries@)[i as int].name == name@);
            return true;
        }
        i += 1;
    }
    false
}

/// Adds `incoming` to `existing` entry by entry. On the first entry whose
/// name is already there it stops and returns that name.
fn insert_all(existing: &mut Vec<NamedInterface>, incoming: Vec<NamedInterface>) -> (r: Option<String>)
    ensures
        take_in(entries_view(old(existing)@), entries_view(incoming@)) == (
            entries_view(final(existing)@),
            match r {
                Some(name) => Some(name@),
                None => None,
            },
        ),
{
    let mut rest = incoming;
    let ghost first = entries_view(existing@);
    let ghost all = entries_view(rest@);
    while rest.len() > 0
        invariant
            first == entries_view(old(existing)@),
            all == entries_view(incoming@),
            take_in(first, all) == take_in(entries_view(existing@), entries_view(rest@)),
        decreases rest.len(),
    {
        let ghost before = entries_view(existing@);
        let ghost left = entries_view(rest@);
        assert(left[0] == rest@[0]@);
        if contains_name(existing, &rest[0].name) {
            let entry = rest.remove(0);
            assert(entry@ == left[0]);
            assert(take_in(before, left) == (before, Some(left[0].name)));
            return Some(entry.name);
        }
        let entry = rest.remove(0);
        existing.push(entry);
        proof {
            assert(entry@ == left[0]);
            assert(entries_view(existing@) =~= before.push(left[0]));
            assert(entries_view(rest@) =~= left.skip(1));
        }
    }
    None
}

impl ComponentInterfaces {
    /// The component with nothing in it.
    pub fn new() -> (r: ComponentInterfaces)
        ensures
            r@ == empty_component(),
            r@.wf(),
    {
        let r = ComponentInterfaces { default: None, imports: Vec::new(), exports: Vec::new() };
        assert(r@.imports =~= Seq::empty());
        assert(r@.exports =~= Seq::empty());
        r
    }

    /// Merges `piece` into this component.
    ///
    /// Fails if `piece` has a default interface and this component has one
    /// already, or if it imports or exports under a name that is taken.
    /// Nothing is undone on failure: what was added before the duplicate
    /// stays, as `merged` says.
    pub fn merge(&mut self, piece: ComponentInterfaces) -> (r: Result<(), MergeError>)
        ensures
            merged(old(self)@, piece@) == (final(self)@, merge_outcome(r)),
            old(self)@.wf() ==> final(self)@.wf(),
    {
        proof {
            if old(self)@.wf() {
                lemma_merged_keeps_wf(old(self)@, piece@);
            }
        }
        let ComponentInterfaces { default, imports, exports } = piece;
        if let Some(interface) = default {
            if self.default.is_some() {
                return Err(MergeError::DuplicateDefault);
            }
            self.default = Some(interface);
        }
        if let Some(name) = insert_all(&mut self.imports, imports) {
            return Err(MergeError::DuplicateImport(name));
        }
        if let Some(name) = insert_all(&mut self.exports, exports) {
            return Err(MergeError::DuplicateExport(name));
        }
        Ok(())
    }

    /// Merges `pieces`, in order, into one component. Stops at the first
    /// piece that cannot be merged and returns its error.
    pub fn merge_all(pieces: Vec<ComponentInterfaces>) -> (r: Result<ComponentInterfaces, MergeError>)
        ensures
            folded(empty_component(), pieces_view(pieces@)) == match r {
                Ok(whole) => Ok::<ComponentInterfacesView, MergeErrorView>(whole@),
                Err(e) => Err(e@),
            },
            r matches Ok(whole) ==> whole@.wf(),
    {
        let mut whole = ComponentInterfaces::new();
        let mut rest = pieces;
        let ghost all = pieces_view(rest@);
        while rest.len() > 0
            invariant
                all == pieces_view(pieces@),
                whole@.wf(),
                folded(empty_component(), all) == folded(whole@, pieces_view(rest@)),
            decreases rest.len(),
        {
            let ghost left = pieces_view(rest@);
            let ghost before = whole@;
            let piece = rest.remove(0);
            proof {
                assert(piece@ == left[0]);
                assert(pieces_view(rest@) =~= left.skip(1));
            }
            match whole.merge(piece) {
                Ok(_) => {
                    assert(folded(before, left) == folded(whole@, left.skip(1)));
                },
                Err(e) => {
                    assert(folded(before, left) == Err::<ComponentInterfacesView, MergeErrorView>(e@));
                    return Err(e);
                },
            }
        }
        Ok(whole)
    }
}

impl MergeError {
    /// The error in words.
    pub fn message(&self) -> (r: String)
        ensures
            r@ == self@.message(),
    {
        match self {
            MergeError::DuplicateDefault => String::from_str(
                "default interface specified a second time",
            ),
            MergeError::DuplicateImport(name) => String::from_str("import interface `").concat(
                name.as_str(),
            ).concat("` specified twice"),
            MergeError::DuplicateExport(name) => String::from_str("export interface `").concat(
                name.as_str(),
            ).concat("` specified twice"),
        }
    }
}

impl MergeErrorView {
    /// The error in words.
    pub open spec fn message(self) -> Seq<char> {
        match self {
            MergeErrorView::DuplicateDefault => "default interface specified a second time"@,
            MergeErrorView::DuplicateImport(name) => "import interface `"@ + name
                + "` specified twice"@,
            MergeErrorView::DuplicateExport(name) => "export interface `"@ + name
                + "` specified twice"@,
        }
    }
}

} // verus!
