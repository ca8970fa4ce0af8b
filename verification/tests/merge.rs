use wit_bindings::ir::Interface;
use wit_bindings::merge::{contains_name, ComponentInterfaces, MergeError, NamedInterface};

fn iface(name: &str) -> Interface {
    Interface::new(name.to_string())
}

fn entry(name: &str, interface: &str) -> NamedInterface {
    NamedInterface { name: name.to_string(), interface: iface(interface) }
}

fn piece(default: Option<&str>, imports: Vec<(&str, &str)>, exports: Vec<(&str, &str)>) -> ComponentInterfaces {
    ComponentInterfaces {
        default: default.map(iface),
        imports: imports.into_iter().map(|(n, i)| entry(n, i)).collect(),
        exports: exports.into_iter().map(|(n, i)| entry(n, i)).collect(),
    }
}

#[test]
fn new_component_is_empty() {
    let whole = ComponentInterfaces::new();
    assert_eq!(whole, piece(None, vec![], vec![]));
}

#[test]
fn merge_adds_default_imports_and_exports() {
    let mut whole = ComponentInterfaces::new();
    assert_eq!(whole.merge(piece(Some("d"), vec![("a", "ia")], vec![("x", "ix")])), Ok(()));
    assert_eq!(whole, piece(Some("d"), vec![("a", "ia")], vec![("x", "ix")]));
    assert_eq!(whole.merge(piece(None, vec![("b", "ib"), ("c", "ic")], vec![("y", "iy")])), Ok(()));
    assert_eq!(
        whole,
        piece(
            Some("d"),
            vec![("a", "ia"), ("b", "ib"), ("c", "ic")],
            vec![("x", "ix"), ("y", "iy")]
        )
    );
}

#[test]
fn one_name_may_be_imported_and_exported() {
    let mut whole = ComponentInterfaces::new();
    assert_eq!(whole.merge(piece(None, vec![("same", "i")], vec![("same", "e")])), Ok(()));
    assert_eq!(whole, piece(None, vec![("same", "i")], vec![("same", "e")]));
}

#[test]
fn second_default_is_refused() {
    let mut whole = ComponentInterfaces::new();
    assert_eq!(whole.merge(piece(Some("first"), vec![], vec![])), Ok(()));
    let r = whole.merge(piece(Some("second"), vec![("a", "ia")], vec![("x", "ix")]));
    assert_eq!(r, Err(MergeError::DuplicateDefault));
    assert_eq!(whole, piece(Some("first"), vec![], vec![]));
}

#[test]
fn repeated_import_is_refused_with_its_name() {
    let mut whole = ComponentInterfaces::new();
    assert_eq!(whole.merge(piece(None, vec![("a", "one")], vec![])), Ok(()));
    let r = whole.merge(piece(Some("d"), vec![("b", "two"), ("a", "three"), ("c", "four")], vec![("x", "ix")]));
    assert_eq!(r, Err(MergeError::DuplicateImport("a".to_string())));
    assert_eq!(whole, piece(Some("d"), vec![("a", "one"), ("b", "two")], vec![]));
}

#[test]
fn repeated_export_is_refused_with_its_name() {
    let mut whole = ComponentInterfaces::new();
    assert_eq!(whole.merge(piece(None, vec![], vec![("calculator", "one")])), Ok(()));
    let r = whole.merge(piece(None, vec![("i", "ii")], vec![("other", "two"), ("calculator", "three")]));
    assert_eq!(r, Err(MergeError::DuplicateExport("calculator".to_string())));
    assert_eq!(
        whole,
        piece(None, vec![("i", "ii")], vec![("calculator", "one"), ("other", "two")])
    );
}

#[test]
fn name_repeated_inside_one_piece_is_refused() {
    let mut whole = ComponentInterfaces::new();
    let r = whole.merge(piece(None, vec![], vec![("x", "one"), ("x", "two")]));
    assert_eq!(r, Err(MergeError::DuplicateExport("x".to_string())));
    assert_eq!(whole, piece(None, vec![], vec![("x", "one")]));
}

#[test]
fn import_duplicate_is_reported_before_export_duplicate() {
    let mut whole = ComponentInterfaces::new();
    assert_eq!(whole.merge(piece(None, vec![("a", "ia")], vec![("x", "ix")])), Ok(()));
    let r = whole.merge(piece(None, vec![("a", "again")], vec![("x", "again")]));
    assert_eq!(r, Err(MergeError::DuplicateImport("a".to_string())));
}

#[test]
fn default_duplicate_is_reported_before_name_duplicates() {
    let mut whole = ComponentInterfaces::new();
    assert_eq!(whole.merge(piece(Some("d"), vec![("a", "ia")], vec![])), Ok(()));
    let r = whole.merge(piece(Some("e"), vec![("a", "again")], vec![]));
    assert_eq!(r, Err(MergeError::DuplicateDefault));
}

#[test]
fn merge_all_without_duplicates_is_the_union_in_order() {
    let r = ComponentInterfaces::merge_all(vec![
        piece(None, vec![("a", "ia")], vec![("x", "ix")]),
        piece(Some("d"), vec![], vec![("y", "iy"), ("z", "iz")]),
        piece(None, vec![("b", "ib")], vec![]),
    ]);
    assert_eq!(
        r,
        Ok(piece(
            Some("d"),
            vec![("a", "ia"), ("b", "ib")],
            vec![("x", "ix"), ("y", "iy"), ("z", "iz")]
        ))
    );
}

#[test]
fn merge_all_of_nothing_is_empty() {
    assert_eq!(ComponentInterfaces::merge_all(vec![]), Ok(ComponentInterfaces::new()));
}

#[test]
fn merge_all_with_two_defaults_fails() {
    let r = ComponentInterfaces::merge_all(vec![
        piece(Some("one"), vec![], vec![]),
        piece(None, vec![("a", "ia")], vec![]),
        piece(Some("two"), vec![], vec![]),
    ]);
    assert_eq!(r, Err(MergeError::DuplicateDefault));
}

#[test]
fn merge_all_with_repeated_export_fails_with_that_name() {
    let r = ComponentInterfaces::merge_all(vec![
        piece(None, vec![], vec![("calculator", "one")]),
        piece(None, vec![], vec![("logger", "two")]),
        piece(None, vec![], vec![("calculator", "three")]),
    ]);
    assert_eq!(r, Err(MergeError::DuplicateExport("calculator".to_string())));
}

#[test]
fn merge_all_reports_the_first_failure() {
    let r = ComponentInterfaces::merge_all(vec![
        piece(Some("one"), vec![("a", "ia")], vec![]),
        piece(None, vec![("a", "again")], vec![]),
        piece(Some("two"), vec![], vec![]),
    ]);
    assert_eq!(r, Err(MergeError::DuplicateImport("a".to_string())));
}

#[test]
fn contains_name_finds_names_only() {
    let entries = vec![entry("a", "one"), entry("b", "two")];
    assert!(contains_name(&entries, &"a".to_string()));
    assert!(contains_name(&entries, &"b".to_string()));
    assert!(!contains_name(&entries, &"one".to_string()));
    assert!(!contains_name(&entries, &"".to_string()));
    assert!(!contains_name(&Vec::new(), &"a".to_string()));
}

#[test]
fn merge_errors_in_words() {
    assert_eq!(
        MergeError::DuplicateDefault.message(),
        "default interface specified a second time"
    );
    assert_eq!(
        MergeError::DuplicateImport("wasi".to_string()).message(),
        "import interface `wasi` specified twice"
    );
    assert_eq!(
        MergeError::DuplicateExport("calculator".to_string()).message(),
        "export interface `calculator` specified twice"
    );
}

#[test]
fn failed_merge_leaves_names_distinct() {
    let mut whole = ComponentInterfaces::new();
    assert_eq!(whole.merge(piece(None, vec![("a", "1"), ("b", "2")], vec![("x", "3")])), Ok(()));
    let r = whole.merge(piece(None, vec![("c", "4"), ("b", "5"), ("c", "6")], vec![("x", "7")]));
    assert_eq!(r, Err(MergeError::DuplicateImport("b".to_string())));
    let names: Vec<&str> = whole.imports.iter().map(|e| e.name.as_str()).collect();
    assert_eq!(names, vec!["a", "b", "c"]);
    assert_eq!(whole.imports[1].interface, iface("2"));
    assert_eq!(whole.exports, vec![entry("x", "3")]);
}
