//! What holds of merging for every sequence of pieces.
//!
//! Merging goes through exactly when no two pieces have a default interface
//! and no name is imported twice or exported twice; the component then holds
//! every import and every export of every piece, in order. Where it does not
//! go through, the error is that of the first duplicate met.

use vstd::prelude::*;
use crate::ir::InterfaceView;
use crate::merge::{
    distinct_names, empty_component, folded, has_name, merged, take_in, ComponentInterfacesView,
    MergeErrorView, NamedInterfaceView,
};

verus! {

/// The two name spaces of a component.
pub enum Direction {
    Import,
    Export,
}

impl ComponentInterfacesView {
    /// The imports or the exports.
    pub open spec fn entries(self, direction: Direction) -> Seq<NamedInterfaceView> {
        match direction {
            Direction::Import => self.imports,
            Direction::Export => self.exports,
        }
    }
}

/// The imports, or the exports, of all `pieces`, one piece after the other.
pub open spec fn all_entries(pieces: Seq<ComponentInterfacesView>, direction: Direction) -> Seq<
    NamedInterfaceView,
>
    decreases pieces.len(),
{
    if pieces.len() == 0 {
        Seq::empty()
    } else {
        pieces[0].entries(direction) + all_entries(pieces.skip(1), direction)
    }
}

/// The default interface of the first piece that has one.
pub open spec fn first_default(pieces: Seq<ComponentInterfacesView>) -> Option<InterfaceView>
    decreases pieces.len(),
{
    if pieces.len() == 0 {
        None
    } else if pieces[0].default is Some {
        pieces[0].default
    } else {
        first_default(pieces.skip(1))
    }
}

/// No piece has a default interface.
pub open spec fn no_default(pieces: Seq<ComponentInterfacesView>) -> bool {
    forall|i: int| 0 <= i < pieces.len() ==> (#[trigger] pieces[i]).default is None
}

/// At most one piece has a default interface.
pub open spec fn single_default(pieces: Seq<ComponentInterfacesView>) -> bool {
    forall|i: int, j: int|
        0 <= i < j < pieces.len() ==> (#[trigger] pieces[i]).default is None || (#[trigger] pieces[j]).default
            is None
}

/// Nothing in `pieces` repeats anything in `whole` or in another piece.
pub open spec fn compatible(whole: ComponentInterfacesView, pieces: Seq<ComponentInterfacesView>) -> bool {
    &&& single_default(pieces)
    &&& whole.default is Some ==> no_default(pieces)
    &&& distinct_names(whole.imports + all_entries(pieces, Direction::Import))
    &&& distinct_names(whole.exports + all_entries(pieces, Direction::Export))
}

/// `whole` with everything in `pieces` added.
pub open spec fn holding_all(
    whole: ComponentInterfacesView,
    pieces: Seq<ComponentInterfacesView>,
) -> ComponentInterfacesView {
    ComponentInterfacesView {
        default: if whole.default is Some {
            whole.default
        } else {
            first_default(pieces)
        },
        imports: whole.imports + all_entries(pieces, Direction::Import),
        exports: whole.exports + all_entries(pieces, Direction::Export),
    }
}

/// The entry at `at` of `incoming` is the first whose name is in `existing`
/// or earlier in `incoming`.
pub open spec fn first_clash(
    existing: Seq<NamedInterfaceView>,
    incoming: Seq<NamedInterfaceView>,
    at: int,
) -> bool {
    &&& 0 <= at < incoming.len()
    &&& has_name(existing + incoming.take(at), incoming[at].name)
    &&& forall|k: int|
        0 <= k < at ==> !has_name(existing + #[trigger] incoming.take(k), incoming[k].name)
}

proof fn lemma_distinct_parts(front: Seq<NamedInterfaceView>, back: Seq<NamedInterfaceView>)
    requires
        distinct_names(front + back),
    ensures
        distinct_names(front),
        distinct_names(back),
{
    let s = front + back;
    assert forall|i: int, j: int| 0 <= i < j < front.len() implies (#[trigger] front[i]).name != (
    #[trigger] front[j]).name by {
        assert(s[i] == front[i] && s[j] == front[j]);
    }
    assert forall|i: int, j: int| 0 <= i < j < back.len() implies (#[trigger] back[i]).name != (
    #[trigger] back[j]).name by {
        assert(s[front.len() + i] == back[i] && s[front.len() + j] == back[j]);
    }
}

proof fn lemma_has_name_in_parts(front: Seq<NamedInterfaceView>, back: Seq<NamedInterfaceView>, name: Seq<char>)
    ensures
        has_name(front + back, name) <==> has_name(front, name) || has_name(back, name),
{
    let s = front + back;
    if has_name(front, name) {
        let i = choose|i: int| 0 <= i < front.len() && (#[trigger] front[i]).name == name;
        assert(s[i] == front[i]);
    }
    if has_name(back, name) {
        let i = choose|i: int| 0 <= i < back.len() && (#[trigger] back[i]).name == name;
        assert(s[front.len() + i] == back[i]);
    }
    if has_name(s, name) {
        let i = choose|i: int| 0 <= i < s.len() && (#[trigger] s[i]).name == name;
        if i < front.len() {
            assert(s[i] == front[i]);
        } else {
            assert(s[i] == back[i - front.len()]);
        }
    }
}

/// A name in both parts is a name that occurs twice.
proof fn lemma_shared_name_repeats(front: Seq<NamedInterfaceView>, back: Seq<NamedInterfaceView>, name: Seq<char>)
    requires
        has_name(front, name),
        has_name(back, name),
    ensures
        !distinct_names(front + back),
{
    let s = front + back;
    let i = choose|i: int| 0 <= i < front.len() && (#[trigger] front[i]).name == name;
    let j = choose|j: int| 0 <= j < back.len() && (#[trigger] back[j]).name == name;
    assert(s[i] == front[i]);
    assert(s[front.len() + j] == back[j]);
}

/// Taking in goes through exactly when no name is then there twice, and
/// then appends.
pub proof fn lemma_take_in_appends(existing: Seq<NamedInterfaceView>, incoming: Seq<NamedInterfaceView>)
    requires
        distinct_names(existing),
    ensures
        take_in(existing, incoming).1 is None <==> distinct_names(existing + incoming),
        take_in(existing, incoming).1 is None ==> take_in(existing, incoming).0 == existing + incoming,
    decreases incoming.len(),
{
    if incoming.len() == 0 {
        assert(existing + incoming =~= existing);
    } else if has_name(existing, incoming[0].name) {
        assert(has_name(incoming, incoming[0].name));
        lemma_shared_name_repeats(existing, incoming, incoming[0].name);
    } else {
        let grown = existing.push(incoming[0]);
        assert forall|i: int, j: int| 0 <= i < j < grown.len() implies (#[trigger] grown[i]).name != (
        #[trigger] grown[j]).name by {
            if j == existing.len() {
                assert(grown[i] == existing[i]);
            } else {
                assert(grown[i] == existing[i] && grown[j] == existing[j]);
            }
        }
        assert(grown + incoming.skip(1) =~= existing + incoming);
        lemma_take_in_appends(grown, incoming.skip(1));
    }
}

/// Taking in stops at the first clash, with what came before it added.
pub proof fn lemma_take_in_stops_at_first_clash(
    existing: Seq<NamedInterfaceView>,
    incoming: Seq<NamedInterfaceView>,
    at: int,
)
    requires
        first_clash(existing, incoming, at),
    ensures
        take_in(existing, incoming) == (existing + incoming.take(at), Some(incoming[at].name)),
    decreases at,
{
    if at == 0 {
        assert(existing + incoming.take(0) =~= existing);
    } else {
        assert(existing + incoming.take(0) =~= existing);
        assert(!has_name(existing + incoming.take(0), incoming[0].name));
        let grown = existing.push(incoming[0]);
        let rest = incoming.skip(1);
        assert(grown + rest.take(at - 1) =~= existing + incoming.take(at));
        assert forall|k: int| 0 <= k < at - 1 implies !has_name(
            grown + #[trigger] rest.take(k),
            rest[k].name,
        ) by {
            assert(grown + rest.take(k) =~= existing + incoming.take(k + 1));
            assert(!has_name(existing + incoming.take(k + 1), incoming[k + 1].name));
        }
        lemma_take_in_stops_at_first_clash(grown, rest, at - 1);
    }
}

/// Folding a sequence is folding its first `n` pieces and then the rest.
pub proof fn lemma_fold_in_two(whole: ComponentInterfacesView, pieces: Seq<ComponentInterfacesView>, n: int)
    requires
        0 <= n <= pieces.len(),
    ensures
        folded(whole, pieces) == match folded(whole, pieces.take(n)) {
            Ok(mid) => folded(mid, pieces.skip(n)),
            Err(e) => Err(e),
        },
    decreases n,
{
    if n == 0 {
        assert(pieces.skip(0) =~= pieces);
    } else {
        let (next, result) = merged(whole, pieces[0]);
        assert(pieces.take(n)[0] == pieces[0]);
        assert(pieces.take(n).skip(1) =~= pieces.skip(1).take(n - 1));
        assert(pieces.skip(1).skip(n - 1) =~= pieces.skip(n));
        if result is Ok {
            lemma_fold_in_two(next, pieces.skip(1), n - 1);
        }
    }
}

/// Folding goes through exactly on compatible pieces, and then keeps them
/// all.
pub proof fn lemma_fold_keeps_all(whole: ComponentInterfacesView, pieces: Seq<ComponentInterfacesView>)
    requires
        whole.wf(),
    ensures
        folded(whole, pieces) is Ok <==> compatible(whole, pieces),
        folded(whole, pieces) is Ok ==> folded(whole, pieces) == Ok::<
            ComponentInterfacesView,
            MergeErrorView,
        >(holding_all(whole, pieces)),
    decreases pieces.len(),
{
    if pieces.len() == 0 {
        assert(whole.imports + all_entries(pieces, Direction::Import) =~= whole.imports);
        assert(whole.exports + all_entries(pieces, Direction::Export) =~= whole.exports);
    } else {
        let piece = pieces[0];
        let rest = pieces.skip(1);
        let rest_imports = all_entries(rest, Direction::Import);
        let rest_exports = all_entries(rest, Direction::Export);
        assert(whole.imports + all_entries(pieces, Direction::Import) =~= (whole.imports
            + piece.imports) + rest_imports);
        assert(whole.exports + all_entries(pieces, Direction::Export) =~= (whole.exports
            + piece.exports) + rest_exports);
        lemma_take_in_appends(whole.imports, piece.imports);
        lemma_take_in_appends(whole.exports, piece.exports);
        if piece.default is Some && whole.default is Some {
            assert(!no_default(pieces));
        } else if take_in(whole.imports, piece.imports).1 is Some {
            if distinct_names((whole.imports + piece.imports) + rest_imports) {
                lemma_distinct_parts(whole.imports + piece.imports, rest_imports);
            }
        } else if take_in(whole.exports, piece.exports).1 is Some {
            if distinct_names((whole.exports + piece.exports) + rest_exports) {
                lemma_distinct_parts(whole.exports + piece.exports, rest_exports);
            }
        } else {
            let (next, result) = merged(whole, piece);
            assert(result is Ok);
            assert(next.imports == whole.imports + piece.imports);
            assert(next.exports == whole.exports + piece.exports);
            lemma_fold_keeps_all(next, rest);
            assert(forall|k: int| 0 <= k < rest.len() ==> rest[k] == pieces[k + 1]);
            if compatible(next, rest) {
                assert forall|i: int, j: int| 0 <= i < j < pieces.len() implies (#[trigger] pieces[i]).default
                    is None || (#[trigger] pieces[j]).default is None by {
                    if i == 0 {
                        if piece.default is Some {
                            assert(rest[j - 1].default is None);
                        }
                    } else {
                        assert(rest[i - 1] == pieces[i] && rest[j - 1] == pieces[j]);
                    }
                }
                if whole.default is Some {
                    assert forall|i: int| 0 <= i < pieces.len() implies (#[trigger] pieces[i]).default
                        is None by {
                        if i > 0 {
                            assert(rest[i - 1].default is None);
                        }
                    }
                }
            }
            if compatible(whole, pieces) {
                assert forall|i: int, j: int| 0 <= i < j < rest.len() implies (#[trigger] rest[i]).default
                    is None || (#[trigger] rest[j]).default is None by {
                    assert(pieces[i + 1].default is None || pieces[j + 1].default is None);
                }
                if next.default is Some {
                    assert forall|i: int| 0 <= i < rest.len() implies (#[trigger] rest[i]).default
                        is None by {
                        if whole.default is Some {
                            assert(pieces[i + 1].default is None);
                        } else {
                            assert(pieces[0].default is None || pieces[i + 1].default is None);
                        }
                    }
                }
            }
        }
    }
}

/// Pieces without duplicates fold, and the component holds the union of
/// their imports and of their exports; pieces with a duplicate do not fold.
///
/// Without duplicates means: at most one piece has a default interface, no
/// name is imported by two pieces or twice by one, and no name is exported
/// by two pieces or twice by one.
pub proof fn lemma_fold_without_duplicates(pieces: Seq<ComponentInterfacesView>)
    ensures
        folded(empty_component(), pieces) is Ok <==> {
            &&& single_default(pieces)
            &&& distinct_names(all_entries(pieces, Direction::Import))
            &&& distinct_names(all_entries(pieces, Direction::Export))
        },
        folded(empty_component(), pieces) is Ok ==> folded(empty_component(), pieces) == Ok::<
            ComponentInterfacesView,
            MergeErrorView,
        >(
            ComponentInterfacesView {
                default: first_default(pieces),
                imports: all_entries(pieces, Direction::Import),
                exports: all_entries(pieces, Direction::Export),
            },
        ),
{
    let whole = empty_component();
    assert(whole.imports + all_entries(pieces, Direction::Import) =~= all_entries(
        pieces,
        Direction::Import,
    ));
    assert(whole.exports + all_entries(pieces, Direction::Export) =~= all_entries(
        pieces,
        Direction::Export,
    ));
    lemma_fold_keeps_all(whole, pieces);
}

/// The entries of all pieces are the union of the entries of each: an entry
/// is among them exactly if some piece has it.
pub proof fn lemma_all_entries_is_union(
    pieces: Seq<ComponentInterfacesView>,
    direction: Direction,
    entry: NamedInterfaceView,
)
    ensures
        all_entries(pieces, direction).contains(entry) <==> exists|k: int|
            0 <= k < pieces.len() && (#[trigger] pieces[k]).entries(direction).contains(entry),
    decreases pieces.len(),
{
    if pieces.len() > 0 {
        let head = pieces[0].entries(direction);
        let rest = pieces.skip(1);
        let tail = all_entries(rest, direction);
        let all = head + tail;
        lemma_all_entries_is_union(rest, direction, entry);
        if all.contains(entry) {
            let i = choose|i: int| 0 <= i < all.len() && all[i] == entry;
            if i < head.len() {
                assert(head[i] == entry);
                assert(pieces[0].entries(direction).contains(entry));
            } else {
                assert(tail[i - head.len()] == entry);
                let k = choose|k: int|
                    0 <= k < rest.len() && (#[trigger] rest[k]).entries(direction).contains(entry);
                assert(pieces[k + 1] == rest[k]);
            }
        }
        if exists|k: int|
            0 <= k < pieces.len() && (#[trigger] pieces[k]).entries(direction).contains(entry) {
            let k = choose|k: int|
                0 <= k < pieces.len() && (#[trigger] pieces[k]).entries(direction).contains(entry);
            if k == 0 {
                let i = choose|i: int| 0 <= i < head.len() && head[i] == entry;
                assert(all[i] == entry);
            } else {
                assert(rest[k - 1] == pieces[k]);
                assert(tail.contains(entry));
                let i = choose|i: int| 0 <= i < tail.len() && tail[i] == entry;
                assert(all[head.len() + i] == entry);
            }
        }
    }
}

proof fn lemma_name_of_piece_is_among_all(
    pieces: Seq<ComponentInterfacesView>,
    direction: Direction,
    k: int,
    name: Seq<char>,
)
    requires
        0 <= k < pieces.len(),
        has_name(pieces[k].entries(direction), name),
    ensures
        has_name(all_entries(pieces, direction), name),
    decreases pieces.len(),
{
    let head = pieces[0].entries(direction);
    let rest = pieces.skip(1);
    lemma_has_name_in_parts(head, all_entries(rest, direction), name);
    if k > 0 {
        assert(rest[k - 1] == pieces[k]);
        lemma_name_of_piece_is_among_all(rest, direction, k - 1, name);
    }
}

proof fn lemma_name_in_two_pieces_repeats(
    pieces: Seq<ComponentInterfacesView>,
    direction: Direction,
    i: int,
    j: int,
    name: Seq<char>,
)
    requires
        0 <= i < j < pieces.len(),
        has_name(pieces[i].entries(direction), name),
        has_name(pieces[j].entries(direction), name),
    ensures
        !distinct_names(all_entries(pieces, direction)),
    decreases pieces.len(),
{
    let head = pieces[0].entries(direction);
    let rest = pieces.skip(1);
    let tail = all_entries(rest, direction);
    assert(rest[j - 1] == pieces[j]);
    if i == 0 {
        lemma_name_of_piece_is_among_all(rest, direction, j - 1, name);
        lemma_shared_name_repeats(head, tail, name);
    } else {
        assert(rest[i - 1] == pieces[i]);
        lemma_name_in_two_pieces_repeats(rest, direction, i - 1, j - 1, name);
        if distinct_names(head + tail) {
            lemma_distinct_parts(head, tail);
        }
    }
}

proof fn lemma_first_default_is_some(pieces: Seq<ComponentInterfacesView>, i: int)
    requires
        0 <= i < pieces.len(),
        pieces[i].default is Some,
    ensures
        first_default(pieces) is Some,
    decreases pieces.len(),
{
    if pieces[0].default is None {
        assert(pieces.skip(1)[i - 1] == pieces[i]);
        lemma_first_default_is_some(pieces.skip(1), i - 1);
    }
}

/// Two pieces with a default interface never fold. Where the pieces before
/// the second of them fold, the error is the duplicate default; where they
/// do not, it is theirs.
pub proof fn lemma_second_default_fails(pieces: Seq<ComponentInterfacesView>, i: int, j: int)
    requires
        0 <= i < j < pieces.len(),
        pieces[i].default is Some,
        pieces[j].default is Some,
    ensures
        folded(empty_component(), pieces) is Err,
        folded(empty_component(), pieces.take(j)) is Ok ==> folded(empty_component(), pieces) == Err::<
            ComponentInterfacesView,
            MergeErrorView,
        >(MergeErrorView::DuplicateDefault),
        folded(empty_component(), pieces.take(j)) is Err ==> folded(empty_component(), pieces)
            == folded(empty_component(), pieces.take(j)),
{
    let whole = empty_component();
    let before = pieces.take(j);
    lemma_fold_in_two(whole, pieces, j);
    lemma_fold_keeps_all(whole, before);
    if folded(whole, before) is Ok {
        assert(before[i] == pieces[i]);
        lemma_first_default_is_some(before, i);
        assert(pieces.skip(j)[0] == pieces[j]);
    }
}

/// Merging `pieces` gets as far as the entry at `at` of the piece at `j`, in
/// the name space `direction`, without an error.
pub open spec fn reaches(
    pieces: Seq<ComponentInterfacesView>,
    j: int,
    direction: Direction,
    at: int,
) -> bool {
    let before = folded(empty_component(), pieces.take(j));
    &&& before is Ok
    &&& pieces[j].default is None || before->Ok_0.default is None
    &&& direction is Export ==> take_in(before->Ok_0.imports, pieces[j].imports).1 is None
    &&& forall|k: int|
        0 <= k < at ==> !has_name(
            before->Ok_0.entries(direction) + #[trigger] pieces[j].entries(direction).take(k),
            pieces[j].entries(direction)[k].name,
        )
}

/// The error that reports `name` as a duplicate in the name space
/// `direction`.
pub open spec fn duplicate(direction: Direction, name: Seq<char>) -> MergeErrorView {
    match direction {
        Direction::Import => MergeErrorView::DuplicateImport(name),
        Direction::Export => MergeErrorView::DuplicateExport(name),
    }
}

/// Two pieces that export one name never fold, and neither do two that
/// import one name. Where merging gets as far as the second piece's entry of
/// that name, the error is the duplicate of that name.
pub proof fn lemma_repeated_name_fails(
    pieces: Seq<ComponentInterfacesView>,
    direction: Direction,
    i: int,
    j: int,
    at: int,
)
    requires
        0 <= i < j < pieces.len(),
        0 <= at < pieces[j].entries(direction).len(),
        has_name(pieces[i].entries(direction), pieces[j].entries(direction)[at].name),
    ensures
        folded(empty_component(), pieces) is Err,
        reaches(pieces, j, direction, at) ==> folded(empty_component(), pieces) == Err::<
            ComponentInterfacesView,
            MergeErrorView,
        >(duplicate(direction, pieces[j].entries(direction)[at].name)),
{
    let whole = empty_component();
    let incoming = pieces[j].entries(direction);
    let name = incoming[at].name;
    assert(has_name(incoming, name));
    lemma_name_in_two_pieces_repeats(pieces, direction, i, j, name);
    lemma_fold_without_duplicates(pieces);
    if reaches(pieces, j, direction, at) {
        let before = pieces.take(j);
        let mid = folded(whole, before)->Ok_0;
        lemma_fold_in_two(whole, pieces, j);
        lemma_fold_without_duplicates(before);
        assert(before[i] == pieces[i]);
        lemma_name_of_piece_is_among_all(before, direction, i, name);
        let existing = mid.entries(direction);
        assert(existing == all_entries(before, direction));
        lemma_has_name_in_parts(existing, incoming.take(at), name);
        assert(first_clash(existing, incoming, at));
        lemma_take_in_stops_at_first_clash(existing, incoming, at);
        assert(pieces.skip(j)[0] == pieces[j]);
    }
}

} // verus!
