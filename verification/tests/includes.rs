use dynspire::ast::{fnv1a_64, Interface, OpaqueDecl, TypeDecl};
use dynspire::gen::generate;
use dynspire::includes::{
    load_interface, merge_types, resolve_includes, IncludeFile, Loaded, Resolved,
};
use dynspire::parser::{parse, validate};

const BASE: &str = "src/test_data";
const SHARED: &str = "struct SharedHandle { id: u64, }\n\
                      struct SharedConfig { size: u32, flag: bool, }\n\
                      enum SharedStatus { Idle, Busy(u8), }\n";

fn fragment(dir: &str, path: &str, source: &str) -> IncludeFile {
    let full = format!("{dir}/{path}");
    let parent = full[..full.rfind('/').unwrap()].to_string();
    let name = full[full.rfind('/').unwrap() + 1..].to_string();
    IncludeFile {
        dir: dir.to_string(),
        path: path.to_string(),
        full,
        parent,
        canonical: format!("/fragments/{name}"),
        source: source.to_string(),
    }
}

fn fragments() -> Vec<IncludeFile> {
    let inner = format!("{BASE}/fragments");
    vec![
        fragment(BASE, "fragments/shared_types.dspi", SHARED),
        fragment(&inner, "shared_types.dspi", SHARED),
        fragment(
            BASE,
            "fragments/nested_fragment.dspi",
            "include \"shared_types.dspi\";\nstruct WrapperHandle { inner: u64, }\n",
        ),
        fragment(
            BASE,
            "fragments/diamond_top.dspi",
            "include \"diamond_left.dspi\";\ninclude \"diamond_right.dspi\";\nopaque struct DiamondTop;\n",
        ),
        fragment(
            &inner,
            "diamond_left.dspi",
            "include \"diamond_bottom.dspi\";\nopaque struct DiamondLeft;\n",
        ),
        fragment(
            &inner,
            "diamond_right.dspi",
            "include \"diamond_bottom.dspi\";\nopaque struct DiamondRight;\n",
        ),
        fragment(&inner, "diamond_bottom.dspi", "opaque struct DiamondBottom;\n"),
        fragment(
            BASE,
            "fragments/cycle_a.dspi",
            "include \"cycle_b.dspi\";\nopaque struct CycleA;\n",
        ),
        fragment(&inner, "cycle_b.dspi", "include \"cycle_a.dspi\";\nopaque struct CycleB;\n"),
        fragment(&inner, "cycle_a.dspi", "include \"cycle_b.dspi\";\nopaque struct CycleA;\n"),
    ]
}

fn resolve_test(includes: &[&str]) -> (Vec<TypeDecl>, Vec<String>) {
    let list: Vec<String> = includes.iter().map(|s| s.to_string()).collect();
    match resolve_includes(&list, BASE, &fragments()) {
        Resolved::Done(types, rerun) => (types, rerun),
        Resolved::Missing(dir, path) => panic!("missing {dir}/{path}"),
        Resolved::Failed(msg) => panic!("{msg}"),
    }
}

fn merge(iface: &mut Interface, included: Vec<TypeDecl>) {
    if let Err(msg) = merge_types(iface, included) {
        panic!("{msg}");
    }
}

#[test]
fn test_include_resolves_types() {
    let (types, _) = resolve_test(&["fragments/shared_types.dspi"]);
    assert_eq!(types.len(), 3);
    let names: Vec<&str> = types.iter().map(|t| t.name()).collect();
    assert!(names.contains(&"SharedHandle"));
    assert!(names.contains(&"SharedConfig"));
    assert!(names.contains(&"SharedStatus"));
}

#[test]
fn test_include_nested() {
    let (types, _) = resolve_test(&["fragments/nested_fragment.dspi"]);
    assert_eq!(types.len(), 4);
    let names: Vec<&str> = types.iter().map(|t| t.name()).collect();
    assert!(names.contains(&"WrapperHandle"));
    assert!(names.contains(&"SharedHandle"));
}

#[test]
fn test_include_diamond() {
    let (types, _) = resolve_test(&["fragments/diamond_top.dspi"]);
    let bottom_count = types.iter().filter(|t| t.name() == "DiamondBottom").count();
    assert_eq!(bottom_count, 1);
    assert_eq!(types.len(), 4);
}

#[test]
#[should_panic(expected = "circular include detected")]
fn test_include_cycle_detection() {
    resolve_test(&["fragments/cycle_a.dspi"]);
}

#[test]
fn test_include_hash_composition() {
    let (included_types, _) = resolve_test(&["fragments/shared_types.dspi"]);
    let mut iface = parse(
        r#"include "fragments/shared_types.dspi";
               interface Demo {
                   fn open(config: SharedConfig) -> SharedHandle;
               }"#,
    )
    .unwrap();
    merge(&mut iface, included_types);

    let sig = iface.canonical_sig();
    assert!(sig.contains("SharedHandle"));
    assert!(sig.contains("SharedConfig"));
    assert!(sig.contains("SharedStatus"));
    assert_ne!(fnv1a_64(sig.as_bytes()), 0);
}

#[test]
#[should_panic(expected = "both declared locally and included")]
fn test_include_conflict_local() {
    let mut iface = Interface {
        name: "Foo".into(),
        includes: vec![],
        types: vec![TypeDecl::Opaque(OpaqueDecl { name: "Dup".into() })],
        methods: vec![],
    };
    let included = vec![TypeDecl::Opaque(OpaqueDecl { name: "Dup".into() })];
    merge(&mut iface, included);
}

#[test]
#[should_panic(expected = "conflicting type definitions")]
fn test_include_conflict_between_includes() {
    let mut iface = Interface {
        name: "Foo".into(),
        includes: vec![],
        types: vec![],
        methods: vec![],
    };
    let included = vec![
        TypeDecl::Opaque(OpaqueDecl { name: "Dup".into() }),
        TypeDecl::Opaque(OpaqueDecl { name: "Dup".into() }),
    ];
    merge(&mut iface, included);
}

#[test]
fn test_include_generates_code_for_included_types() {
    let (included_types, _) = resolve_test(&["fragments/shared_types.dspi"]);
    let mut iface = parse(
        r#"include "fragments/shared_types.dspi";
               interface Demo {
                   fn open(config: SharedConfig) -> SharedHandle;
               }"#,
    )
    .unwrap();
    merge(&mut iface, included_types);
    assert!(validate(&iface).is_ok());

    let code = generate(&iface);
    assert!(
        !code.contains("impl dynspire::slots::SlotEncode for SharedHandle"),
        "no trait impls for DSL types"
    );
    assert!(code.contains("pub struct SharedConfig"));
    assert!(code.contains("pub enum SharedStatus"));
}

#[test]
fn included_files_are_watched_in_order() {
    let (_, rerun) = resolve_test(&["fragments/diamond_top.dspi"]);
    let name = |s: &str| format!("{BASE}/fragments/{s}.dspi");
    assert_eq!(rerun.len(), 4);
    assert!(rerun.contains(&name("diamond_top")));
    assert!(rerun.contains(&name("diamond_bottom")));
}

#[test]
fn missing_fragment_is_asked_for() {
    let list = vec!["fragments/none.dspi".to_string()];
    match resolve_includes(&list, BASE, &fragments()) {
        Resolved::Missing(dir, path) => {
            assert_eq!(dir, BASE);
            assert_eq!(path, "fragments/none.dspi");
        }
        _ => panic!("a missing file was not asked for"),
    }
}

#[test]
fn fragment_that_does_not_parse_is_reported() {
    let files = vec![fragment(BASE, "bad.dspi", "struct {")];
    let list = vec!["bad.dspi".to_string()];
    match resolve_includes(&list, BASE, &files) {
        Resolved::Failed(msg) => assert!(msg.contains("src/test_data/bad.dspi"), "{msg}"),
        _ => panic!("a bad fragment was taken"),
    }
}

#[test]
fn loading_completes_an_interface() {
    let src = "include \"fragments/shared_types.dspi\";\n\
               interface Demo { fn open(config: SharedConfig) -> SharedHandle; }";
    match load_interface("demo.dspi", BASE, src, &fragments()) {
        Loaded::Ready(iface, rerun) => {
            assert_eq!(iface.types.len(), 3);
            assert_eq!(rerun[0], "demo.dspi");
            assert_eq!(rerun.len(), 2);
        }
        _ => panic!("a complete interface was refused"),
    }
    match load_interface("demo.dspi", BASE, "interface {", &fragments()) {
        Loaded::Failed(msg) => {
            assert!(msg.starts_with("dynspire-codegen: parse error in demo.dspi: "), "{msg}")
        }
        _ => panic!("a bad source was taken"),
    }
    match load_interface(
        "demo.dspi",
        BASE,
        "interface Demo { fn open() -> Nothing; }",
        &fragments(),
    ) {
        Loaded::Failed(msg) => {
            assert!(msg.starts_with("dynspire-codegen: validation error in demo.dspi: "), "{msg}")
        }
        _ => panic!("an undeclared name was taken"),
    }
}
