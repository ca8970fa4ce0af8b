//! Finding the interface descriptions that are embedded in a module.
//!
//! A module carries them in custom sections whose name begins with
//! `component-type`. Each such section is one piece of the component's
//! interfaces. The pieces are decoded and merged in the order in which their
//! sections stand in the module, and the first failure of any kind ends the
//! extraction.
//!
//! How a section's bytes become a piece is not decided here: the caller
//! passes the decoder in.

use vstd::prelude::*;
use vstd::slice::slice_to_vec;
use vstd::string::{StrSliceExecFns, StringExecFns};
use crate::merge::{
    empty_component, merged, ComponentInterfaces, ComponentInterfacesView, MergeError,
    MergeErrorView,
};

verus! {

/// A custom section: its name and its contents.
#[derive(Clone, PartialEq, Eq, Debug)]
pub struct RawSection {
    pub name: String,
    pub data: Vec<u8>,
}

/// Why a module could not be read further.
#[derive(Clone, PartialEq, Eq, Debug)]
pub struct ParseFailure {
    pub message: String,
    /// Where in the module, in bytes from its start.
    pub offset: u64,
}

/// One item of a module, as far as extraction cares.
#[derive(Clone, PartialEq, Eq, Debug)]
pub enum ModuleItem {
    Custom(RawSection),
    /// Anything that is no custom section.
    Other,
    /// The module is malformed from here; nothing follows this item.
    Malformed(ParseFailure),
}

/// Why a section gave no piece.
#[derive(Clone, PartialEq, Eq, Debug)]
pub enum SectionError {
    /// The decoder refused the contents, with this message.
    Decode(String),
    /// The piece repeats what an earlier piece has.
    Merge(MergeError),
}

/// Why extraction failed.
#[derive(Clone, PartialEq, Eq, Debug)]
pub enum ExtractError {
    /// The module itself is malformed.
    Module(ParseFailure),
    /// The section called `name` gave no piece.
    Section { name: String, cause: SectionError },
}

/// What was extracted from a module.
#[derive(Clone, PartialEq, Eq, Debug)]
pub struct ModuleInterfaces {
    /// The module. The sections that were decoded are still in it.
    pub wasm: Vec<u8>,
    /// The interfaces found in the module.
    pub interfaces: ComponentInterfaces,
}

/// Mathematical value of a [`ModuleItem`].
pub enum ModuleItemView {
    Custom { name: Seq<char>, data: Seq<u8> },
    Other,
    Malformed { message: Seq<char>, offset: u64 },
}

/// Mathematical value of a [`SectionError`].
pub enum SectionErrorView {
    Decode(Seq<char>),
    Merge(MergeErrorView),
}

/// Mathematical value of an [`ExtractError`].
pub enum ExtractErrorView {
    Module { message: Seq<char>, offset: u64 },
    Section { name: Seq<char>, cause: SectionErrorView },
}

/// Mathematical value of a [`ModuleInterfaces`].
pub struct ModuleInterfacesView {
    pub wasm: Seq<u8>,
    pub interfaces: ComponentInterfacesView,
}

impl View for ModuleItem {
    type V = ModuleItemView;

    open spec fn view(&self) -> ModuleItemView {
        match self {
            ModuleItem::Custom(section) => ModuleItemView::Custom {
                name: section.name@,
                data: section.data@,
            },
            ModuleItem::Other => ModuleItemView::Other,
            ModuleItem::Malformed(failure) => ModuleItemView::Malformed {
                message: failure.message@,
                offset: failure.offset,
            },
        }
    }
}

impl View for SectionError {
    type V = SectionErrorView;

    open spec fn view(&self) -> SectionErrorView {
        match self {
            SectionError::Decode(message) => SectionErrorView::Decode(message@),
            SectionError::Merge(e) => SectionErrorView::Merge(e@),
        }
    }
}

impl View for ExtractError {
    type V = ExtractErrorView;

    open spec fn view(&self) -> ExtractErrorView {
        match self {
            ExtractError::Module(failure) => ExtractErrorView::Module {
                message: failure.message@,
                offset: failure.offset,
            },
            ExtractError::Section { name, cause } => ExtractErrorView::Section {
                name: name@,
                cause: cause@,
            },
        }
    }
}

impl View for ModuleInterfaces {
    type V = ModuleInterfacesView;

    open spec fn view(&self) -> ModuleInterfacesView {
        ModuleInterfacesView { wasm: self.wasm@, interfaces: self.interfaces@ }
    }
}

/// The values of `items`, in order.
pub open spec fn items_view(items: Seq<ModuleItem>) -> Seq<ModuleItemView> {
    items.map_values(|item: ModuleItem| item@)
}

/// The items that `wasmparser` reads from the bytes of a module, in the order
/// of the module. If the module is malformed, the last item says so.
pub uninterp spec fn module_items(wasm: Seq<u8>) -> Seq<ModuleItemView>;

/// Reads all items of a module with `wasmparser::Parser::parse_all`, on a
/// parser made by `wasmparser::Parser::new` for offset 0.
///
/// The parser reads nothing but the bytes, so what it yields is
/// [`module_items`] of them. Each item yielded is kept, in order: a custom
/// section with its name and contents, a parse error with its message and
/// offset, anything else as [`ModuleItem::Other`]. Nothing else is claimed.
#[verifier::external_body]
pub(crate) fn read_items(wasm: &[u8]) -> (r: Vec<ModuleItem>)
    ensures
        items_view(r@) == module_items(wasm@),
{
    wasmparser::Parser::new(0).parse_all(wasm).map(|payload| match payload {
        Ok(wasmparser::Payload::CustomSection(section)) => ModuleItem::Custom(
            RawSection { name: section.name().to_string(), data: section.data().to_vec() },
        ),
        Ok(_) => ModuleItem::Other,
        Err(e) => ModuleItem::Malformed(
            ParseFailure { message: e.message().to_string(), offset: e.offset() },
        ),
    }).collect()
}

/// What the name of a section that holds a piece begins with.
pub open spec fn marker() -> Seq<char> {
    "component-type"@
}

/// `item` is a custom section that holds a piece.
pub open spec fn is_candidate(item: ModuleItemView) -> bool {
    item matches ModuleItemView::Custom { name, .. } && marker().is_prefix_of(name)
}

/// Whether a section of this name holds a piece: whether the name begins with
/// `component-type`.
pub fn is_interface_section(name: &str) -> (r: bool)
    ensures
        r == marker().is_prefix_of(name@),
{
    let marker = "component-type";
    let n = marker.unicode_len();
    if name.unicode_len() < n {
        return false;
    }
    let mut i: usize = 0;
    while i < n
        invariant
            i <= n,
            n == marker@.len(),
            n <= name@.len(),
            marker@ == self::marker(),
            forall|k: int| 0 <= k < i ==> name@[k] == marker@[k],
        decreases n - i,
    {
        if name.get_char(i) != marker.get_char(i) {
            assert(name@.subrange(0, n as int)[i as int] != marker@[i as int]);
            return false;
        }
        i += 1;
    }
    assert(name@.subrange(0, n as int) =~= marker@);
    true
}

/// What a decoder made of a section's contents: the piece, or the message it
/// refused them with.
pub open spec fn answer_view(answer: Result<ComponentInterfaces, String>) -> Result<
    ComponentInterfacesView,
    Seq<char>,
> {
    match answer {
        Ok(piece) => Ok(piece@),
        Err(message) => Err(message@),
    }
}

/// `answer` is something that `decoder` may return for the contents `data`.
pub open spec fn may_answer<F: Fn(&[u8]) -> Result<ComponentInterfaces, String>>(
    decoder: F,
    data: Seq<u8>,
    answer: Result<ComponentInterfacesView, Seq<char>>,
) -> bool {
    exists|bytes: &[u8], decoded: Result<ComponentInterfaces, String>|
        bytes@ == data && #[trigger] call_ensures(decoder, (bytes,), decoded) && answer_view(decoded)
            == answer
}

/// Taking a decoder's answer for one section into what was extracted so
/// far: what is extracted afterwards, and whether the section gave a piece.
pub open spec fn absorbed(
    whole: ModuleInterfacesView,
    answer: Result<ComponentInterfacesView, Seq<char>>,
) -> (ModuleInterfacesView, Result<(), SectionErrorView>) {
    match answer {
        Err(message) => (whole, Err(SectionErrorView::Decode(message))),
        Ok(piece) => {
            let (next, result) = merged(whole.interfaces, piece);
            (
                ModuleInterfacesView { wasm: whole.wasm, interfaces: next },
                match result {
                    Ok(_) => Ok(()),
                    Err(e) => Err(SectionErrorView::Merge(e)),
                },
            )
        },
    }
}

/// The interfaces after one more item, given the decoder's answer for it. The
/// answer counts for a candidate only.
pub open spec fn after_item(
    whole: ComponentInterfacesView,
    item: ModuleItemView,
    answer: Result<ComponentInterfacesView, Seq<char>>,
) -> Result<ComponentInterfacesView, ExtractErrorView> {
    match item {
        ModuleItemView::Malformed { message, offset } => Err(
            ExtractErrorView::Module { message, offset },
        ),
        ModuleItemView::Other => Ok(whole),
        ModuleItemView::Custom { name, data } => if !marker().is_prefix_of(name) {
            Ok(whole)
        } else {
            match answer {
                Err(message) => Err(
                    ExtractErrorView::Section { name, cause: SectionErrorView::Decode(message) },
                ),
                Ok(piece) => match merged(whole, piece).1 {
                    Ok(_) => Ok(merged(whole, piece).0),
                    Err(e) => Err(
                        ExtractErrorView::Section { name, cause: SectionErrorView::Merge(e) },
                    ),
                },
            }
        },
    }
}

/// The interfaces after the first `n` items, or the first failure among
/// them. `answers` holds at each candidate's place what the decoder made of
/// it.
pub open spec fn after_items(
    items: Seq<ModuleItemView>,
    answers: Seq<Result<ComponentInterfacesView, Seq<char>>>,
    n: int,
) -> Result<ComponentInterfacesView, ExtractErrorView>
    decreases n,
{
    if n <= 0 {
        Ok(empty_component())
    } else {
        match after_items(items, answers, n - 1) {
            Err(e) => Err(e),
            Ok(whole) => after_item(whole, items[n - 1], answers[n - 1]),
        }
    }
}

/// `result` is how extraction over `items` ends when the decoder gives
/// `answers`.
///
/// There is an answer for each item that extraction came to, candidate or
/// not, and so for all of them if it went through. At each candidate's place
/// stands something that the decoder may return for its contents.
pub open spec fn ends_with<F: Fn(&[u8]) -> Result<ComponentInterfaces, String>>(
    decoder: F,
    items: Seq<ModuleItemView>,
    answers: Seq<Result<ComponentInterfacesView, Seq<char>>>,
    result: Result<ComponentInterfacesView, ExtractErrorView>,
) -> bool {
    &&& answers.len() <= items.len()
    &&& forall|i: int|
        0 <= i < answers.len() && is_candidate(#[trigger] items[i]) ==> may_answer(
            decoder,
            items[i]->data,
            answers[i],
        )
    &&& forall|i: int| 0 <= i < answers.len() ==> after_items(items, answers, i) is Ok
    &&& result == after_items(items, answers, answers.len() as int)
    &&& result is Ok ==> answers.len() == items.len()
}

/// The mathematical value of what [`ModuleInterfaces::decode`] returns.
pub open spec fn section_outcome(r: Result<(), SectionError>) -> Result<(), SectionErrorView> {
    match r {
        Ok(_) => Ok(()),
        Err(e) => Err(e@),
    }
}

/// The mathematical value of what [`collect_interfaces`] returns.
pub open spec fn collect_outcome(r: Result<ComponentInterfaces, ExtractError>) -> Result<
    ComponentInterfacesView,
    ExtractErrorView,
> {
    match r {
        Ok(whole) => Ok(whole@),
        Err(e) => Err(e@),
    }
}

/// What was extracted from the module `wasm` when its interfaces are, or
/// fail to be, `interfaces`.
pub open spec fn extraction(
    wasm: Seq<u8>,
    interfaces: Result<ComponentInterfacesView, ExtractErrorView>,
) -> Result<ModuleInterfacesView, ExtractErrorView> {
    match interfaces {
        Ok(whole) => Ok(ModuleInterfacesView { wasm, interfaces: whole }),
        Err(e) => Err(e),
    }
}

/// The mathematical value of what [`extract_module_interfaces`] returns.
pub open spec fn extract_outcome(r: Result<ModuleInterfaces, ExtractError>) -> Result<
    ModuleInterfacesView,
    ExtractErrorView,
> {
    match r {
        Ok(found) => Ok(found@),
        Err(e) => Err(e@),
    }
}

proof fn lemma_later_answers_do_not_count(
    items: Seq<ModuleItemView>,
    answers: Seq<Result<ComponentInterfacesView, Seq<char>>>,
    more: Result<ComponentInterfacesView, Seq<char>>,
    n: int,
)
    requires
        n <= answers.len(),
    ensures
        after_items(items, answers.push(more), n) == after_items(items, answers, n),
    decreases n,
{
    if n > 0 {
        lemma_later_answers_do_not_count(items, answers, more, n - 1);
        assert(answers.push(more)[n - 1] == answers[n - 1]);
    }
}

impl ModuleInterfaces {
    /// Nothing extracted, from no module.
    pub fn new() -> (r: ModuleInterfaces)
        ensures
            r@.wasm == Seq::<u8>::empty(),
            r@.interfaces == empty_component(),
            r@.interfaces.wf(),
    {
        ModuleInterfaces { wasm: Vec::new(), interfaces: ComponentInterfaces::new() }
    }

    /// Takes in what a decoder made of one section: merges the piece, or
    /// passes the decoder's refusal on.
    pub fn absorb(&mut self, answer: Result<ComponentInterfaces, String>) -> (r: Result<
        (),
        SectionError,
    >)
        ensures
            absorbed(old(self)@, answer_view(answer)) == (final(self)@, section_outcome(r)),
            old(self)@.interfaces.wf() ==> final(self)@.interfaces.wf(),
    {
        match answer {
            Err(message) => Err(SectionError::Decode(message)),
            Ok(piece) => match self.interfaces.merge(piece) {
                Ok(_) => Ok(()),
                Err(e) => Err(SectionError::Merge(e)),
            },
        }
    }

    /// Decodes the contents of one section with `decoder` and merges the
    /// piece into the interfaces found so far.
    ///
    /// Fails if the decoder refuses the contents, or if the piece repeats a
    /// default interface, an import or an export that is already there.
    pub fn decode<F: Fn(&[u8]) -> Result<ComponentInterfaces, String>>(
        &mut self,
        component: &[u8],
        decoder: &F,
    ) -> (r: Result<(), SectionError>)
        requires
            call_requires(*decoder, (component,)),
        ensures
            exists|answer: Result<ComponentInterfaces, String>|
                #[trigger] call_ensures(*decoder, (component,), answer) && absorbed(
                    old(self)@,
                    answer_view(answer),
                ) == (final(self)@, section_outcome(r)),
            old(self)@.interfaces.wf() ==> final(self)@.interfaces.wf(),
    {
        let answer = decoder(component);
        let ghost given = answer;
        let r = self.absorb(answer);
        assert(call_ensures(*decoder, (component,), given) && absorbed(old(self)@, answer_view(given))
            == (self@, section_outcome(r)));
        r
    }
}

impl Default for ModuleInterfaces {
    fn default() -> (r: ModuleInterfaces)
        ensures
            r@.wasm == Seq::<u8>::empty(),
            r@.interfaces == empty_component(),
    {
        ModuleInterfaces::new()
    }
}

/// Goes through the items of a module in order, decodes each section that
/// holds a piece and merges the pieces.
///
/// Fails at the first item that says the module is malformed, the first
/// section that the decoder refuses, or the first piece that cannot be
/// merged, whichever comes first. An error about a section carries the
/// section's name.
pub fn collect_interfaces<F: Fn(&[u8]) -> Result<ComponentInterfaces, String>>(
    items: &Vec<ModuleItem>,
    decoder: &F,
) -> (r: Result<ComponentInterfaces, ExtractError>)
    requires
        forall|bytes: &[u8]| call_requires(*decoder, (bytes,)),
    ensures
        exists|answers: Seq<Result<ComponentInterfacesView, Seq<char>>>| #[trigger]
            ends_with(*decoder, items_view(items@), answers, collect_outcome(r)),
        r matches Ok(whole) ==> whole@.wf(),
{
    let mut ret = ModuleInterfaces::new();
    let ghost views = items_view(items@);
    let ghost mut answers: Seq<Result<ComponentInterfacesView, Seq<char>>> = Seq::empty();
    let ghost filler: Result<ComponentInterfacesView, Seq<char>> = Err(Seq::empty());
    let mut i: usize = 0;
    while i < items.len()
        invariant
            i <= items.len(),
            views == items_view(items@),
            ret@.interfaces.wf(),
            answers.len() == i,
            forall|bytes: &[u8]| call_requires(*decoder, (bytes,)),
            forall|k: int|
                0 <= k < i && is_candidate(#[trigger] views[k]) ==> may_answer(
                    *decoder,
                    views[k]->data,
                    answers[k],
                ),
            forall|k: int| 0 <= k < i ==> after_items(views, answers, k) is Ok,
            after_items(views, answers, i as int) == Ok::<ComponentInterfacesView, ExtractErrorView>(
                ret@.interfaces,
            ),
        decreases items.len() - i,
    {
        let ghost before = answers;
        let ghost whole = ret@;
        assert(views[i as int] == items@[i as int]@);
        match &items[i] {
            ModuleItem::Malformed(failure) => {
                let e = ExtractError::Module(
                    ParseFailure { message: failure.message.clone(), offset: failure.offset },
                );
                proof {
                    answers = before.push(filler);
                    assert forall|k: int| 0 <= k <= i implies after_items(views, answers, k)
                        == after_items(views, before, k) by {
                        lemma_later_answers_do_not_count(views, before, filler, k);
                    }
                    assert(ends_with(*decoder, views, answers, Err(e@)));
                }
                return Err(e);
            },
            ModuleItem::Other => {
                proof {
                    answers = before.push(filler);
                }
            },
            ModuleItem::Custom(section) => {
                if is_interface_section(section.name.as_str()) {
                    let bytes = section.data.as_slice();
                    let r = ret.decode(bytes, decoder);
                    let ghost given = choose|answer: Result<ComponentInterfaces, String>|
                        #[trigger] call_ensures(*decoder, (bytes,), answer)
                            && absorbed(whole, answer_view(answer)) == (ret@, section_outcome(r));
                    proof {
                        answers = before.push(answer_view(given));
                        assert(may_answer(*decoder, views[i as int]->data, answers[i as int]));
                    }
                    match r {
                        Ok(_) => {},
                        Err(cause) => {
                            let e = ExtractError::Section { name: section.name.clone(), cause };
                            proof {
                                assert forall|k: int| 0 <= k <= i implies after_items(
                                    views,
                                    answers,
                                    k,
                                ) == after_items(views, before, k) by {
                                    lemma_later_answers_do_not_count(
                                        views,
                                        before,
                                        answer_view(given),
                                        k,
                                    );
                                }
                                assert(ends_with(*decoder, views, answers, Err(e@)));
                            }
                            return Err(e);
                        },
                    }
                } else {
                    proof {
                        answers = before.push(filler);
                    }
                }
            },
        }
        proof {
            assert forall|k: int| 0 <= k <= i implies after_items(views, answers, k) == after_items(
                views,
                before,
                k,
            ) by {
                lemma_later_answers_do_not_count(views, before, answers[i as int], k);
                assert(answers =~= before.push(answers[i as int]));
            }
        }
        i += 1;
    }
    proof {
        assert(ends_with(*decoder, views, answers, Ok(ret@.interfaces)));
    }
    Ok(ret.interfaces)
}

/// Extracts the interfaces that are embedded in the module `wasm`.
///
/// Reads the module's items, decodes with `decoder` the contents of each
/// custom section whose name begins with `component-type`, and merges the
/// pieces in the order of their sections. Returns the interfaces together
/// with the module's bytes as they were given: the sections are not taken
/// out of the module. The first failure ends the extraction, and nothing is
/// returned but the error.
pub fn extract_module_interfaces<F: Fn(&[u8]) -> Result<ComponentInterfaces, String>>(
    wasm: &[u8],
    decoder: F,
) -> (r: Result<ModuleInterfaces, ExtractError>)
    requires
        forall|bytes: &[u8]| call_requires(decoder, (bytes,)),
    ensures
        exists|answers: Seq<Result<ComponentInterfacesView, Seq<char>>>, found: Result<
            ComponentInterfacesView,
            ExtractErrorView,
        >| #[trigger]
            ends_with(decoder, module_items(wasm@), answers, found) && extract_outcome(r)
                == extraction(wasm@, found),
        r matches Ok(found) ==> found@.wasm == wasm@ && found@.interfaces.wf(),
{
    let items = read_items(wasm);
    match collect_interfaces(&items, &decoder) {
        Ok(interfaces) => Ok(ModuleInterfaces { wasm: slice_to_vec(wasm), interfaces }),
        Err(e) => Err(e),
    }
}

impl SectionError {
    /// The error in words.
    pub fn message(&self) -> (r: String)
        ensures
            r@ == self@.message(),
    {
        match self {
            SectionError::Decode(message) => message.clone(),
            SectionError::Merge(e) => e.message(),
        }
    }
}

impl SectionErrorView {
    /// The error in words.
    pub open spec fn message(self) -> Seq<char> {
        match self {
            SectionErrorView::Decode(message) => message,
            SectionErrorView::Merge(e) => e.message(),
        }
    }
}

impl ExtractError {
    /// The error in words: what was being done, then why it failed.
    pub fn message(&self) -> (r: String)
        ensures
            r@ == self@.message(),
    {
        match self {
            ExtractError::Module(failure) => String::from_str("decoding item in module: ").concat(
                failure.message.as_str(),
            ),
            ExtractError::Section { name, cause } => {
                let why = cause.message();
                String::from_str("decoding custom section ").concat(name.as_str()).concat(
                    ": ",
                ).concat(why.as_str())
            },
        }
    }
}

impl ExtractErrorView {
    /// The error in words: what was being done, then why it failed.
    pub open spec fn message(self) -> Seq<char> {
        match self {
            ExtractErrorView::Module { message, offset } => "decoding item in module: "@ + message,
            ExtractErrorView::Section { name, cause } => "decoding custom section "@ + name + ": "@
                + cause.message(),
        }
    }
}

} // verus!
