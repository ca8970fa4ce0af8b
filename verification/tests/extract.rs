use wit_bindings::extract::{
    collect_interfaces, extract_module_interfaces, is_interface_section, ExtractError,
    ModuleInterfaces, ModuleItem, ParseFailure, RawSection, SectionError,
};
use wit_bindings::ir::{Function, Interface, Param, Type};
use wit_bindings::merge::{ComponentInterfaces, MergeError, NamedInterface};
use wit_bindings::stubs::{accessor, stub};

const HEADER: [u8; 8] = [0x00, 0x61, 0x73, 0x6d, 0x01, 0x00, 0x00, 0x00];

fn custom_section(name: &str, data: &[u8]) -> Vec<u8> {
    assert!(name.len() < 128 && name.len() + data.len() + 1 < 128);
    let mut out = vec![0x00, (1 + name.len() + data.len()) as u8, name.len() as u8];
    out.extend_from_slice(name.as_bytes());
    out.extend_from_slice(data);
    out
}

fn module(sections: &[Vec<u8>]) -> Vec<u8> {
    let mut out = HEADER.to_vec();
    for s in sections {
        out.extend_from_slice(s);
    }
    out
}

fn calculator() -> Interface {
    let mut iface = Interface::new("calculator".to_string());
    iface.functions.push(Function {
        name: "add".to_string(),
        params: vec![
            Param { name: "a".to_string(), ty: Type::U32 },
            Param { name: "b".to_string(), ty: Type::U32 },
        ],
        results: vec![Param { name: "sum".to_string(), ty: Type::U32 }],
    });
    iface
}

fn named(name: &str) -> NamedInterface {
    let interface = if name == "calculator" {
        calculator()
    } else {
        Interface::new(name.to_string())
    };
    NamedInterface { name: name.to_string(), interface }
}

/// Reads contents of the form `default`, `import:NAME` or `export:NAME`,
/// several of them separated by commas.
fn toy_decoder(bytes: &[u8]) -> Result<ComponentInterfaces, String> {
    let text = std::str::from_utf8(bytes).map_err(|_| "not text".to_string())?;
    let mut piece = ComponentInterfaces::new();
    for part in text.split(',').filter(|p| !p.is_empty()) {
        if part == "default" {
            piece.default = Some(Interface::new("default".to_string()));
        } else if let Some(name) = part.strip_prefix("import:") {
            piece.imports.push(named(name));
        } else if let Some(name) = part.strip_prefix("export:") {
            piece.exports.push(named(name));
        } else {
            return Err(format!("unknown part `{}`", part));
        }
    }
    Ok(piece)
}

fn section_error(name: &str, cause: SectionError) -> ExtractError {
    ExtractError::Section { name: name.to_string(), cause }
}

#[test]
fn marker_is_a_prefix_of_the_section_name() {
    assert!(is_interface_section("component-type"));
    assert!(is_interface_section("component-type:calculator"));
    assert!(is_interface_section("component-typeX"));
    assert!(!is_interface_section("component-typ"));
    assert!(!is_interface_section(""));
    assert!(!is_interface_section("name"));
    assert!(!is_interface_section("xcomponent-type"));
    assert!(!is_interface_section("Component-type"));
    assert!(!is_interface_section("component_type:calculator"));
}

#[test]
fn module_with_one_section_exporting_calculator() {
    let wasm = module(&[custom_section("component-type:calculator", b"export:calculator")]);
    let found = extract_module_interfaces(&wasm, toy_decoder).unwrap();
    assert_eq!(found.wasm, wasm);
    assert_eq!(found.interfaces.default, None);
    assert_eq!(found.interfaces.imports, vec![]);
    assert_eq!(found.interfaces.exports, vec![named("calculator")]);

    let iface = &found.interfaces.exports[0].interface;
    assert!(iface.is_well_formed());
    let add = stub(iface, &iface.functions[0]).unwrap();
    assert_eq!(add.params.len(), 2);
    assert_eq!(add.render(), "fn add(&self, _: u32, _: u32) -> u32 { loop {} }");
    let a = accessor(iface).unwrap().unwrap();
    assert_eq!(a.name, "calculator");
    assert_eq!(a.methods.len(), 1);
    assert!(a.render().contains("fn add(&self, _: u32, _: u32) -> u32 { loop {} }"));
}

#[test]
fn two_sections_with_a_default_fail() {
    let wasm = module(&[
        custom_section("component-type:one", b"default"),
        custom_section("component-type:two", b"default"),
    ]);
    assert_eq!(
        extract_module_interfaces(&wasm, toy_decoder),
        Err(section_error("component-type:two", SectionError::Merge(MergeError::DuplicateDefault)))
    );
}

#[test]
fn module_without_sections_has_no_interfaces() {
    let wasm = module(&[]);
    let found = extract_module_interfaces(&wasm, toy_decoder).unwrap();
    assert_eq!(found, ModuleInterfaces { wasm: wasm.clone(), interfaces: ComponentInterfaces::new() });
}

#[test]
fn other_sections_are_passed_over() {
    let wasm = module(&[
        custom_section("name", b"not for the decoder"),
        custom_section("component-type", b"import:a"),
        custom_section("producers", &[0x00]),
        custom_section("component-type-more", b"import:b,export:x"),
    ]);
    let found = extract_module_interfaces(&wasm, toy_decoder).unwrap();
    assert_eq!(found.wasm, wasm);
    assert_eq!(found.interfaces.imports, vec![named("a"), named("b")]);
    assert_eq!(found.interfaces.exports, vec![named("x")]);
}

#[test]
fn sections_are_merged_in_module_order() {
    let wasm = module(&[
        custom_section("component-type:2", b"export:second"),
        custom_section("component-type:1", b"export:first"),
    ]);
    let found = extract_module_interfaces(&wasm, toy_decoder).unwrap();
    assert_eq!(found.interfaces.exports, vec![named("second"), named("first")]);
}

#[test]
fn decoder_refusal_names_the_section() {
    let wasm = module(&[
        custom_section("component-type:good", b"import:a"),
        custom_section("component-type:bad", b"gibberish"),
        custom_section("component-type:late", b"import:a"),
    ]);
    assert_eq!(
        extract_module_interfaces(&wasm, toy_decoder),
        Err(section_error(
            "component-type:bad",
            SectionError::Decode("unknown part `gibberish`".to_string())
        ))
    );
}

#[test]
fn repeated_export_names_section_and_key() {
    let wasm = module(&[
        custom_section("component-type:a", b"export:calculator"),
        custom_section("component-type:b", b"export:calculator"),
    ]);
    let e = extract_module_interfaces(&wasm, toy_decoder).unwrap_err();
    assert_eq!(
        e,
        section_error(
            "component-type:b",
            SectionError::Merge(MergeError::DuplicateExport("calculator".to_string()))
        )
    );
    assert_eq!(
        e.message(),
        "decoding custom section component-type:b: export interface `calculator` specified twice"
    );
}

#[test]
fn malformed_module_fails() {
    let r = extract_module_interfaces(&[0x00, 0x61, 0x73], toy_decoder);
    match r {
        Err(ExtractError::Module(failure)) => {
            assert!(!failure.message.is_empty());
        }
        other => panic!("unexpected: {:?}", other),
    }
    let r = extract_module_interfaces(b"not a module at all", toy_decoder);
    assert!(matches!(r, Err(ExtractError::Module(_))));
}

#[test]
fn earlier_section_failure_comes_before_later_malformation() {
    let mut wasm = module(&[custom_section("component-type:bad", b"gibberish")]);
    wasm.extend_from_slice(&[0x00, 0x7f, 0x01]);
    assert_eq!(
        extract_module_interfaces(&wasm, toy_decoder),
        Err(section_error(
            "component-type:bad",
            SectionError::Decode("unknown part `gibberish`".to_string())
        ))
    );
    let mut wasm = module(&[custom_section("component-type:good", b"import:a")]);
    wasm.extend_from_slice(&[0x00, 0x7f, 0x01]);
    assert!(matches!(
        extract_module_interfaces(&wasm, toy_decoder),
        Err(ExtractError::Module(_))
    ));
}

#[test]
fn collect_goes_through_items_in_order() {
    let items = vec![
        ModuleItem::Other,
        ModuleItem::Custom(RawSection { name: "component-type".to_string(), data: b"default,import:a".to_vec() }),
        ModuleItem::Custom(RawSection { name: "names".to_string(), data: b"gibberish".to_vec() }),
        ModuleItem::Other,
        ModuleItem::Custom(RawSection { name: "component-type:x".to_string(), data: b"export:x".to_vec() }),
    ];
    let whole = collect_interfaces(&items, &toy_decoder).unwrap();
    assert_eq!(whole.default, Some(Interface::new("default".to_string())));
    assert_eq!(whole.imports, vec![named("a")]);
    assert_eq!(whole.exports, vec![named("x")]);
}

#[test]
fn collect_stops_at_a_malformed_item() {
    let failure = ParseFailure { message: "unexpected end-of-file".to_string(), offset: 9 };
    let items = vec![
        ModuleItem::Custom(RawSection { name: "component-type".to_string(), data: b"import:a".to_vec() }),
        ModuleItem::Malformed(failure.clone()),
        ModuleItem::Custom(RawSection { name: "component-type".to_string(), data: b"gibberish".to_vec() }),
    ];
    let e = collect_interfaces(&items, &toy_decoder).unwrap_err();
    assert_eq!(e, ExtractError::Module(failure));
    assert_eq!(e.message(), "decoding item in module: unexpected end-of-file");
}

#[test]
fn decode_merges_what_the_decoder_gives() {
    let mut found = ModuleInterfaces::new();
    assert_eq!(found.decode(b"import:a,export:x", &toy_decoder), Ok(()));
    assert_eq!(found.decode(b"default", &toy_decoder), Ok(()));
    assert_eq!(found.interfaces.imports, vec![named("a")]);
    assert_eq!(found.interfaces.exports, vec![named("x")]);
    assert_eq!(found.interfaces.default, Some(Interface::new("default".to_string())));
    assert_eq!(
        found.decode(b"default", &toy_decoder),
        Err(SectionError::Merge(MergeError::DuplicateDefault))
    );
    assert_eq!(
        found.decode(b"import:b,import:a", &toy_decoder),
        Err(SectionError::Merge(MergeError::DuplicateImport("a".to_string())))
    );
    assert_eq!(found.interfaces.imports, vec![named("a"), named("b")]);
    assert_eq!(
        found.decode(b"?", &toy_decoder),
        Err(SectionError::Decode("unknown part `?`".to_string()))
    );
    assert_eq!(found.wasm, Vec::<u8>::new());
}

#[test]
fn absorb_passes_refusal_on_and_merges_pieces() {
    let mut found = ModuleInterfaces::default();
    assert_eq!(found, ModuleInterfaces::new());
    assert_eq!(
        found.absorb(Err("broken".to_string())),
        Err(SectionError::Decode("broken".to_string()))
    );
    assert_eq!(found, ModuleInterfaces::new());
    assert_eq!(found.absorb(toy_decoder(b"export:x")), Ok(()));
    assert_eq!(
        found.absorb(toy_decoder(b"export:x")),
        Err(SectionError::Merge(MergeError::DuplicateExport("x".to_string())))
    );
    assert_eq!(SectionError::Decode("broken".to_string()).message(), "broken");
    assert_eq!(
        SectionError::Merge(MergeError::DuplicateDefault).message(),
        "default interface specified a second time"
    );
}
