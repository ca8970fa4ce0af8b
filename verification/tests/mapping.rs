use wit_bindings::expr::TypeExpr;
use wit_bindings::ir::{
    Case, Field, Interface, Record, Resource, Type, TypeDef, TypeDefKind, Variant,
};
use wit_bindings::mapping::{map_expected, map_type, map_type_id, MapError};

fn anonymous(kind: TypeDefKind) -> TypeDef {
    TypeDef { name: None, kind }
}

fn named(name: &str, kind: TypeDefKind) -> TypeDef {
    TypeDef { name: Some(name.to_string()), kind }
}

fn case(name: &str, ty: Option<Type>) -> Case {
    Case { name: name.to_string(), ty }
}

fn field(name: &str, ty: Type) -> Field {
    Field { name: name.to_string(), ty }
}

fn variant(cases: Vec<Case>) -> TypeDefKind {
    TypeDefKind::Variant(Variant { cases })
}

fn record(fields: Vec<Field>) -> TypeDefKind {
    TypeDefKind::Record(Record { fields })
}

fn interface(name: &str, types: Vec<TypeDef>) -> Interface {
    let mut iface = Interface::new(name.to_string());
    iface.types = types;
    assert!(iface.is_well_formed());
    iface
}

fn boxed(e: TypeExpr) -> Box<TypeExpr> {
    Box::new(e)
}

#[test]
fn primitives_map_to_the_primitive_of_same_width_and_sign() {
    let iface = interface("numbers", vec![]);
    let table = vec![
        (Type::U8, TypeExpr::U8),
        (Type::S8, TypeExpr::I8),
        (Type::U16, TypeExpr::U16),
        (Type::S16, TypeExpr::I16),
        (Type::U32, TypeExpr::U32),
        (Type::S32, TypeExpr::I32),
        (Type::U64, TypeExpr::U64),
        (Type::S64, TypeExpr::I64),
        (Type::F32, TypeExpr::F32),
        (Type::F64, TypeExpr::F64),
        (Type::Char, TypeExpr::Char),
        (Type::CChar, TypeExpr::U8),
        (Type::Usize, TypeExpr::Usize),
    ];
    for (ty, expected) in table {
        assert_eq!(map_type(&iface, &ty), Ok(expected));
    }
}

#[test]
fn handle_maps_to_reference_to_camel_cased_resource() {
    let mut iface = Interface::new("files".to_string());
    iface.resources.push(Resource { name: "open-file".to_string() });
    iface.resources.push(Resource { name: "dir_entry".to_string() });
    assert!(iface.is_well_formed());
    assert_eq!(
        map_type(&iface, &Type::Handle(0)),
        Ok(TypeExpr::Borrowed { name: "OpenFile".to_string() })
    );
    assert_eq!(
        map_type(&iface, &Type::Handle(1)),
        Ok(TypeExpr::Borrowed { name: "DirEntry".to_string() })
    );
}

#[test]
fn dangling_references_are_not_well_formed() {
    let mut iface = Interface::new("broken".to_string());
    iface.types.push(anonymous(TypeDefKind::List(Type::Id(1))));
    assert!(!iface.is_well_formed());
    assert!(iface.type_ok(&Type::Id(0)));
    assert!(!iface.type_ok(&Type::Id(1)));
    assert!(!iface.type_ok(&Type::Handle(0)));
    assert!(iface.type_ok(&Type::U64));
}

#[test]
fn named_definition_maps_to_qualified_name_and_is_not_expanded() {
    let iface = interface(
        "MyInterface",
        vec![named("some-record", record(vec![field("a", Type::U8)]))],
    );
    let expected = TypeExpr::Named {
        module: "my_interface".to_string(),
        name: "SomeRecord".to_string(),
    };
    assert_eq!(map_type(&iface, &Type::Id(0)), Ok(TypeExpr::Named {
        module: "my_interface".to_string(),
        name: "SomeRecord".to_string(),
    }));
    assert_eq!(map_type_id(&iface, 0), Ok(expected));
}

#[test]
fn named_buffer_is_referred_to_by_name() {
    let iface = interface("io", vec![named("sink", TypeDefKind::PushBuffer(Type::U8))]);
    assert_eq!(
        map_type(&iface, &Type::Id(0)),
        Ok(TypeExpr::Named { module: "io".to_string(), name: "Sink".to_string() })
    );
}

#[test]
fn alias_maps_as_its_target() {
    let iface = interface("a", vec![anonymous(TypeDefKind::Type(Type::S32))]);
    assert_eq!(map_type(&iface, &Type::Id(0)), Ok(TypeExpr::I32));
}

#[test]
fn pointers_map_to_raw_pointers() {
    let iface = interface(
        "p",
        vec![
            anonymous(TypeDefKind::Pointer(Type::U8)),
            anonymous(TypeDefKind::ConstPointer(Type::Id(0))),
        ],
    );
    assert_eq!(map_type(&iface, &Type::Id(0)), Ok(TypeExpr::MutPointer(boxed(TypeExpr::U8))));
    assert_eq!(
        map_type(&iface, &Type::Id(1)),
        Ok(TypeExpr::ConstPointer(boxed(TypeExpr::MutPointer(boxed(TypeExpr::U8)))))
    );
}

#[test]
fn list_of_characters_maps_to_text() {
    let iface = interface("l", vec![anonymous(TypeDefKind::List(Type::Char))]);
    assert_eq!(map_type(&iface, &Type::Id(0)), Ok(TypeExpr::Text));
}

#[test]
fn list_of_anything_else_maps_to_sequence() {
    let iface = interface(
        "l",
        vec![
            anonymous(TypeDefKind::List(Type::U32)),
            anonymous(TypeDefKind::List(Type::CChar)),
            anonymous(TypeDefKind::List(Type::Id(3))),
            anonymous(TypeDefKind::List(Type::Char)),
        ],
    );
    assert_eq!(map_type(&iface, &Type::Id(0)), Ok(TypeExpr::List(boxed(TypeExpr::U32))));
    assert_eq!(map_type(&iface, &Type::Id(1)), Ok(TypeExpr::List(boxed(TypeExpr::U8))));
    assert_eq!(map_type(&iface, &Type::Id(2)), Ok(TypeExpr::List(boxed(TypeExpr::Text))));
}

#[test]
fn record_maps_to_tuple_in_field_order() {
    let iface = interface(
        "r",
        vec![
            anonymous(record(vec![
                field("first", Type::U8),
                field("second", Type::F64),
                field("third", Type::Id(1)),
            ])),
            anonymous(TypeDefKind::List(Type::Char)),
            anonymous(record(vec![])),
            anonymous(record(vec![field("only", Type::S16)])),
        ],
    );
    assert_eq!(
        map_type(&iface, &Type::Id(0)),
        Ok(TypeExpr::Tuple(vec![TypeExpr::U8, TypeExpr::F64, TypeExpr::Text]))
    );
    assert_eq!(map_type(&iface, &Type::Id(2)), Ok(TypeExpr::Tuple(vec![])));
    assert_eq!(map_type(&iface, &Type::Id(3)), Ok(TypeExpr::Tuple(vec![TypeExpr::I16])));
}

#[test]
fn record_fails_as_its_first_failing_field() {
    let iface = interface(
        "r",
        vec![
            anonymous(record(vec![
                field("fine", Type::U8),
                field("pull", Type::Id(2)),
                field("push", Type::Id(1)),
            ])),
            anonymous(TypeDefKind::PushBuffer(Type::U8)),
            anonymous(TypeDefKind::PullBuffer(Type::U8)),
        ],
    );
    assert_eq!(map_type(&iface, &Type::Id(0)), Err(MapError::PullBuffer));
}

#[test]
fn two_bare_cases_map_to_bool() {
    let iface = interface(
        "v",
        vec![anonymous(variant(vec![case("false", None), case("true", None)]))],
    );
    assert_eq!(map_type(&iface, &Type::Id(0)), Ok(TypeExpr::Bool));
}

#[test]
fn one_payload_maps_to_optional() {
    let iface = interface(
        "v",
        vec![
            anonymous(variant(vec![case("none", None), case("some", Some(Type::U32))])),
            anonymous(variant(vec![case("some", Some(Type::Id(2))), case("none", None)])),
            anonymous(TypeDefKind::List(Type::Char)),
        ],
    );
    assert_eq!(map_type(&iface, &Type::Id(0)), Ok(TypeExpr::Optional(boxed(TypeExpr::U32))));
    assert_eq!(map_type(&iface, &Type::Id(1)), Ok(TypeExpr::Optional(boxed(TypeExpr::Text))));
}

#[test]
fn two_payloads_map_to_expected() {
    let iface = interface(
        "v",
        vec![
            anonymous(variant(vec![case("ok", Some(Type::U32)), case("err", Some(Type::Id(1)))])),
            anonymous(TypeDefKind::List(Type::Char)),
        ],
    );
    assert_eq!(
        map_type(&iface, &Type::Id(0)),
        Ok(TypeExpr::Expected(boxed(TypeExpr::U32), boxed(TypeExpr::Text)))
    );
}

#[test]
fn shape_recognisers_agree_with_the_case_list() {
    let bare = Variant { cases: vec![case("a", None), case("b", None)] };
    assert!(bare.is_bool());
    assert_eq!(bare.as_option(), None);
    assert_eq!(bare.as_expected(), Some((None, None)));

    let one = Variant { cases: vec![case("a", None), case("b", Some(Type::U8))] };
    assert!(!one.is_bool());
    assert_eq!(one.as_option(), Some(Type::U8));
    assert_eq!(one.as_expected(), Some((None, Some(Type::U8))));

    let other = Variant { cases: vec![case("a", Some(Type::S8)), case("b", None)] };
    assert_eq!(other.as_option(), Some(Type::S8));

    let both = Variant { cases: vec![case("a", Some(Type::U8)), case("b", Some(Type::U16))] };
    assert!(!both.is_bool());
    assert_eq!(both.as_option(), None);
    assert_eq!(both.as_expected(), Some((Some(Type::U8), Some(Type::U16))));

    let three = Variant { cases: vec![case("a", None), case("b", None), case("c", None)] };
    assert!(!three.is_bool());
    assert_eq!(three.as_option(), None);
    assert_eq!(three.as_expected(), None);
}

#[test]
fn variant_of_another_shape_is_refused() {
    let iface = interface(
        "v",
        vec![
            anonymous(variant(vec![case("a", None), case("b", None), case("c", None)])),
            anonymous(variant(vec![case("only", Some(Type::U8))])),
            anonymous(variant(vec![])),
        ],
    );
    assert_eq!(map_type(&iface, &Type::Id(0)), Err(MapError::UnknownVariant));
    assert_eq!(map_type(&iface, &Type::Id(1)), Err(MapError::UnknownVariant));
    assert_eq!(map_type(&iface, &Type::Id(2)), Err(MapError::UnknownVariant));
}

#[test]
fn buffers_are_refused() {
    let iface = interface(
        "b",
        vec![
            anonymous(TypeDefKind::PushBuffer(Type::U8)),
            anonymous(TypeDefKind::PullBuffer(Type::U8)),
            anonymous(TypeDefKind::List(Type::Id(0))),
        ],
    );
    assert_eq!(map_type(&iface, &Type::Id(0)), Err(MapError::PushBuffer));
    assert_eq!(map_type(&iface, &Type::Id(1)), Err(MapError::PullBuffer));
    assert_eq!(map_type(&iface, &Type::Id(2)), Err(MapError::PushBuffer));
}

#[test]
fn forward_references_are_followed() {
    let iface = interface(
        "f",
        vec![
            anonymous(record(vec![field("later", Type::Id(2))])),
            anonymous(TypeDefKind::List(Type::Id(0))),
            anonymous(variant(vec![case("none", None), case("some", Some(Type::Id(3)))])),
            anonymous(TypeDefKind::Pointer(Type::U64)),
        ],
    );
    let inner = TypeExpr::Tuple(vec![TypeExpr::Optional(boxed(TypeExpr::MutPointer(boxed(
        TypeExpr::U64,
    ))))]);
    assert_eq!(map_type(&iface, &Type::Id(1)), Ok(TypeExpr::List(boxed(inner))));
}

#[test]
fn longest_possible_chain_is_within_the_bound() {
    let iface = interface(
        "chain",
        vec![
            anonymous(TypeDefKind::List(Type::Id(1))),
            anonymous(TypeDefKind::List(Type::Id(2))),
            anonymous(TypeDefKind::List(Type::Id(3))),
            anonymous(TypeDefKind::List(Type::U8)),
        ],
    );
    assert_eq!(
        map_type(&iface, &Type::Id(0)),
        Ok(TypeExpr::List(boxed(TypeExpr::List(boxed(TypeExpr::List(boxed(TypeExpr::List(
            boxed(TypeExpr::U8)
        ))))))))
    );
}

#[test]
fn definition_that_contains_itself_is_too_deep() {
    let iface = interface(
        "cycle",
        vec![
            anonymous(TypeDefKind::List(Type::Id(1))),
            anonymous(TypeDefKind::Pointer(Type::Id(0))),
            anonymous(TypeDefKind::Type(Type::Id(2))),
        ],
    );
    assert_eq!(map_type(&iface, &Type::Id(0)), Err(MapError::TooDeep));
    assert_eq!(map_type(&iface, &Type::Id(1)), Err(MapError::TooDeep));
    assert_eq!(map_type(&iface, &Type::Id(2)), Err(MapError::TooDeep));
}

#[test]
fn cycle_through_a_named_definition_ends_at_the_name() {
    let iface = interface(
        "tree",
        vec![
            named("node", record(vec![field("children", Type::Id(1))])),
            anonymous(TypeDefKind::List(Type::Id(0))),
        ],
    );
    assert_eq!(
        map_type(&iface, &Type::Id(1)),
        Ok(TypeExpr::List(boxed(TypeExpr::Named {
            module: "tree".to_string(),
            name: "Node".to_string()
        })))
    );
}

#[test]
fn mapping_twice_gives_the_same_expression() {
    let iface = interface(
        "same",
        vec![
            anonymous(record(vec![field("a", Type::Id(1)), field("b", Type::Char)])),
            anonymous(variant(vec![case("ok", Some(Type::U8)), case("err", Some(Type::U16))])),
        ],
    );
    let copy = iface.clone();
    let first = map_type(&iface, &Type::Id(0));
    let second = map_type(&iface, &Type::Id(0));
    let third = map_type(&copy, &Type::Id(0));
    assert_eq!(first, second);
    assert_eq!(first, third);
    assert_eq!(
        first,
        Ok(TypeExpr::Tuple(vec![
            TypeExpr::Expected(boxed(TypeExpr::U8), boxed(TypeExpr::U16)),
            TypeExpr::Char
        ]))
    );
}

#[test]
fn expressions_render_as_source_text() {
    assert_eq!(TypeExpr::U8.render(), "u8");
    assert_eq!(TypeExpr::I64.render(), "i64");
    assert_eq!(TypeExpr::F32.render(), "f32");
    assert_eq!(TypeExpr::F64.render(), "f64");
    assert_eq!(TypeExpr::Usize.render(), "usize");
    assert_eq!(TypeExpr::Char.render(), "char");
    assert_eq!(TypeExpr::Bool.render(), "bool");
    assert_eq!(TypeExpr::Unit.render(), "()");
    assert_eq!(TypeExpr::Text.render(), "String");
    assert_eq!(TypeExpr::Borrowed { name: "File".to_string() }.render(), "&File");
    assert_eq!(
        TypeExpr::Named { module: "fs".to_string(), name: "Stat".to_string() }.render(),
        "fs::Stat"
    );
    assert_eq!(TypeExpr::MutPointer(boxed(TypeExpr::U8)).render(), "*mut u8");
    assert_eq!(TypeExpr::ConstPointer(boxed(TypeExpr::U8)).render(), "*const u8");
    assert_eq!(TypeExpr::List(boxed(TypeExpr::Text)).render(), "Vec<String>");
    assert_eq!(TypeExpr::Optional(boxed(TypeExpr::I16)).render(), "Option<i16>");
    assert_eq!(
        TypeExpr::Expected(boxed(TypeExpr::U32), boxed(TypeExpr::Unit)).render(),
        "Result<u32, ()>"
    );
    assert_eq!(TypeExpr::Tuple(vec![]).render(), "()");
    assert_eq!(TypeExpr::Tuple(vec![TypeExpr::U8]).render(), "(u8,)");
    assert_eq!(
        TypeExpr::Tuple(vec![
            TypeExpr::U8,
            TypeExpr::List(boxed(TypeExpr::Tuple(vec![TypeExpr::Bool, TypeExpr::Char]))),
            TypeExpr::F64
        ])
        .render(),
        "(u8, Vec<(bool, char,)>, f64,)"
    );
}

#[test]
fn expected_maps_an_absent_side_to_unit() {
    let iface = interface(
        "e",
        vec![
            anonymous(TypeDefKind::List(Type::Char)),
            anonymous(TypeDefKind::PushBuffer(Type::U8)),
            anonymous(TypeDefKind::PullBuffer(Type::U8)),
        ],
    );
    assert_eq!(
        map_expected(&iface, &Some(Type::U32), &None),
        Ok(TypeExpr::Expected(boxed(TypeExpr::U32), boxed(TypeExpr::Unit)))
    );
    assert_eq!(
        map_expected(&iface, &None, &Some(Type::Id(0))),
        Ok(TypeExpr::Expected(boxed(TypeExpr::Unit), boxed(TypeExpr::Text)))
    );
    assert_eq!(
        map_expected(&iface, &None, &None),
        Ok(TypeExpr::Expected(boxed(TypeExpr::Unit), boxed(TypeExpr::Unit)))
    );
    assert_eq!(
        map_expected(&iface, &Some(Type::S64), &Some(Type::F32)),
        Ok(TypeExpr::Expected(boxed(TypeExpr::I64), boxed(TypeExpr::F32)))
    );
    assert_eq!(
        map_expected(&iface, &Some(Type::Id(2)), &Some(Type::Id(1))),
        Err(MapError::PullBuffer)
    );
    assert_eq!(map_expected(&iface, &None, &Some(Type::Id(1))), Err(MapError::PushBuffer));
}

#[test]
fn expected_fails_as_its_first_failing_side() {
    let iface = interface(
        "e",
        vec![
            anonymous(variant(vec![case("ok", Some(Type::Id(1))), case("err", Some(Type::Id(2)))])),
            anonymous(TypeDefKind::PushBuffer(Type::U8)),
            anonymous(variant(vec![])),
        ],
    );
    assert_eq!(map_type(&iface, &Type::Id(0)), Err(MapError::PushBuffer));
}
