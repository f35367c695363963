use dynspire::ast::{fnv1a_64, FieldType, TypeDecl};
use dynspire::parser::{parse, parse_type_fragment, validate};

const RLE_DSPI: &str = r#"
interface Rle {
  struct CompressionReport {
original_size: u64,
compressed_size: u64,
ratio: f64,
runs: u64,
  }

  enum Tone {
Quiet,
Normal,
Loud(u8),
  }

  fn compress(data: &DVec<u8>) -> DVec<u8>;
  fn decompress(data: &DVec<u8>) -> DVec<u8>;
  fn compress_into(data: &DVec<u8>, out: &mut DVec<u8>) -> ();
  fn stats(data: &DVec<u8>) -> (u64, u64);
  fn analyze(data: &DVec<u8>) -> CompressionReport;
  fn report_summary(report: CompressionReport) -> DString;
  fn run_labels(data: &DVec<u8>) -> DVec<DString>;
  fn split_runs(data: &DVec<u8>) -> DVec<DVec<u8>>;
  fn compress_into_checked(data: &DVec<u8>, out: &mut DVec<u8>) -> bool;
  fn first_byte(data: &DVec<u8>) -> DOption<u8>;
  fn classify(data: &DVec<u8>) -> Tone;
  fn describe_tone(tone: Tone) -> DString;
  fn delay(ms: u64) -> ();
}
"#;

#[test]
fn test_parse_full_interface() {
    let iface = parse(RLE_DSPI).unwrap();
    assert_eq!(iface.name, "Rle");
    assert_eq!(iface.types.len(), 2);
    assert_eq!(iface.methods.len(), 13);
}

#[test]
fn test_struct_decl() {
    let iface = parse(RLE_DSPI).unwrap();
    match &iface.types[0] {
        TypeDecl::Struct(s) => {
            assert_eq!(s.name, "CompressionReport");
            assert_eq!(s.fields.len(), 4);
            assert_eq!(s.fields[0].0, "original_size");
            assert_eq!(s.fields[0].1, FieldType::U64);
            assert_eq!(s.fields[2].1, FieldType::F64);
        }
        other => panic!("expected Struct, got {other:?}"),
    }
}

#[test]
fn test_enum_decl() {
    let iface = parse(RLE_DSPI).unwrap();
    match &iface.types[1] {
        TypeDecl::Enum(e) => {
            assert_eq!(e.name, "Tone");
            assert_eq!(e.variants.len(), 3);
            assert!(e.variants[0].fields.is_empty());
            assert_eq!(e.variants[2].name, "Loud");
            assert_eq!(e.variants[2].fields, vec![FieldType::U8]);
        }
        other => panic!("expected Enum, got {other:?}"),
    }
}

#[test]
fn test_method_types() {
    let iface = parse(RLE_DSPI).unwrap();

    // compress(data: &DVec<u8>) -> DVec<u8>
    let compress = &iface.methods[0];
    assert_eq!(compress.name, "compress");
    assert_eq!(compress.params[0].name, "data");
    assert_eq!(
        compress.params[0].ty,
        FieldType::Ref(Box::new(FieldType::DVec(Box::new(FieldType::U8))))
    );
    assert_eq!(
        compress.return_type,
        FieldType::DVec(Box::new(FieldType::U8))
    );

    // compress_into(data: &DVec<u8>, out: &mut DVec<u8>) -> ()
    let compress_into = &iface.methods[2];
    assert_eq!(compress_into.params[1].name, "out");
    assert_eq!(
        compress_into.params[1].ty,
        FieldType::RefMut(Box::new(FieldType::DVec(Box::new(FieldType::U8))))
    );
    assert_eq!(compress_into.return_type, FieldType::Unit);

    // stats -> (u64, u64)
    let stats = &iface.methods[3];
    assert_eq!(
        stats.return_type,
        FieldType::Tuple(vec![FieldType::U64, FieldType::U64]),
    );

    // first_byte -> DOption<u8>
    let first_byte = &iface.methods[9];
    assert_eq!(
        first_byte.return_type,
        FieldType::DOption(Box::new(FieldType::U8)),
    );

    // classify -> Tone (named)
    let classify = &iface.methods[10];
    assert_eq!(classify.return_type, FieldType::Named("Tone".into()));

    // split_runs -> DVec<DVec<u8>>
    let split = &iface.methods[7];
    assert_eq!(
        split.return_type,
        FieldType::DVec(Box::new(FieldType::DVec(Box::new(FieldType::U8)))),
    );
}

#[test]
fn test_dtype_parsing() {
    let src = "interface Foo {
        fn echo(data: &DVec<u8>) -> DVec<u8>;
        fn consume(v: DVec<u8>) -> u64;
        fn make_str(s: &DVec<u8>) -> DString;
        fn probe(x: &DVec<u8>) -> DOption<u8>;
    }";
    let iface = parse(src).unwrap();

    let echo = &iface.methods[0];
    assert_eq!(
        echo.return_type,
        FieldType::DVec(Box::new(FieldType::U8))
    );
    assert_eq!(
        echo.params[0].ty,
        FieldType::Ref(Box::new(FieldType::DVec(Box::new(FieldType::U8))))
    );
    let consume = &iface.methods[1];
    assert_eq!(
        consume.params[0].ty,
        FieldType::DVec(Box::new(FieldType::U8))
    );
    assert_eq!(
        iface.methods[2].return_type,
        FieldType::DString
    );
    assert_eq!(
        iface.methods[3].return_type,
        FieldType::DOption(Box::new(FieldType::U8))
    );
}

#[test]
fn test_canonical_sig() {
    let iface = parse(RLE_DSPI).unwrap();
    let sig = iface.canonical_sig();
    assert!(sig.starts_with("Rle|"));
    assert!(sig.contains("compress(&DVec<u8>)->DVec<u8>"));
    assert!(sig.contains("stats(&DVec<u8>)->(u64,u64)"));
}

#[test]
fn test_hash_deterministic() {
    let iface = parse(RLE_DSPI).unwrap();
    let h1 = fnv1a_64(iface.canonical_sig().as_bytes());
    let h2 = fnv1a_64(iface.canonical_sig().as_bytes());
    assert_eq!(h1, h2);
}

#[test]
fn test_opaque_struct() {
    let src = "interface Foo {
        opaque struct Handle;
        fn get(h: Handle) -> ();
    }";
    let iface = parse(src).unwrap();
    assert_eq!(iface.types.len(), 1);
    match &iface.types[0] {
        TypeDecl::Opaque(o) => assert_eq!(o.name, "Handle"),
        other => panic!("expected Opaque, got {other:?}"),
    }
}

#[test]
fn test_empty_interface_errors() {
    let err = parse("interface Empty {}").unwrap_err();
    assert!(err.msg.contains("no methods"));
}

#[test]
fn test_missing_brace_errors() {
    let err = parse("interface Foo {\nfn a() -> ()").unwrap_err();
    assert!(err.msg.contains("end of file") || err.msg.contains("`}`"));
}

#[test]
fn test_trailing_tokens_errors() {
    let err = parse("interface Foo { fn a() -> (); } extra").unwrap_err();
    assert!(err.msg.contains("trailing tokens"));
}

#[test]
fn test_native_types_rejected() {
    // Native Rust types are not allowed in the language-agnostic IDL.
    let err = parse("interface Foo { fn a(x: String) -> (); }").unwrap_err();
    assert!(err.msg.contains("not allowed in the IDL"));
    let err = parse("interface Foo { fn a(x: Vec<u8>) -> (); }").unwrap_err();
    assert!(err.msg.contains("not allowed in the IDL"));
    let err = parse("interface Foo { fn a(x: Option<u8>) -> (); }").unwrap_err();
    assert!(err.msg.contains("not allowed in the IDL"));
    let err = parse("interface Foo { fn a(x: str) -> (); }").unwrap_err();
    assert!(err.msg.contains("not allowed in the IDL"));
}

#[test]
fn test_refmut_only_dvec_allowed() {
    // &mut DVec<T> is the only valid mutable borrow form.
    let iface = parse("interface Foo { fn a(x: &mut DVec<u8>) -> (); }").unwrap();
    assert_eq!(
        iface.methods[0].params[0].ty,
        FieldType::RefMut(Box::new(FieldType::DVec(Box::new(FieldType::U8))))
    );
    // &mut DString should error.
    let err = parse("interface Foo { fn a(x: &mut DString) -> (); }").unwrap_err();
    assert!(err.msg.contains("expected `DVec<T>` after `&mut`"));
}

#[test]
fn test_ref_borrow_views() {
    // &T produces a Ref variant — the wire format is determined by the
    // codegen (2-slot ptr+len for DTypes).
    let iface = parse("interface Foo {
        fn a(d: &DVec<u8>, s: &DString) -> ();
    }").unwrap();
    assert_eq!(
        iface.methods[0].params[0].ty,
        FieldType::Ref(Box::new(FieldType::DVec(Box::new(FieldType::U8))))
    );
    assert_eq!(
        iface.methods[0].params[1].ty,
        FieldType::Ref(Box::new(FieldType::DString))
    );
}

#[test]
fn test_trailing_comma_in_struct() {
    let src = "interface Foo {
        struct Bar { x: u64, y: u64, }
        fn a(b: Bar) -> ();
    }";
    let iface = parse(src).unwrap();
    match &iface.types[0] {
        TypeDecl::Struct(s) => assert_eq!(s.fields.len(), 2),
        other => panic!("expected Struct, got {other:?}"),
    }
}

#[test]
fn test_trailing_comma_in_enum() {
    let src = "interface Foo {
        enum Bar { A, B, }
        fn a(b: Bar) -> ();
    }";
    let iface = parse(src).unwrap();
    match &iface.types[0] {
        TypeDecl::Enum(e) => assert_eq!(e.variants.len(), 2),
        other => panic!("expected Enum, got {other:?}"),
    }
}

#[test]
fn test_nested_generics() {
    let src = "interface Foo {
        fn a(x: DOption<DVec<u8>>) -> DVec<DVec<u8>>;
    }";
    let iface = parse(src).unwrap();
    let m = &iface.methods[0];
    assert_eq!(
        m.params[0].ty,
        FieldType::DOption(Box::new(FieldType::DVec(Box::new(FieldType::U8)))),
    );
    assert_eq!(
        m.return_type,
        FieldType::DVec(Box::new(FieldType::DVec(Box::new(FieldType::U8)))),
    );
}

#[test]
fn test_trailing_comma_in_tuple() {
    let src = "interface Foo { fn a() -> (u64, u64,); }";
    let iface = parse(src).unwrap();
    assert_eq!(
        iface.methods[0].return_type,
        FieldType::Tuple(vec![FieldType::U64, FieldType::U64]),
    );
}

#[test]
fn test_undeclared_type_in_return() {
    let iface = parse("interface Foo { fn a() -> MissingType; }").unwrap();
    let err = validate(&iface).unwrap_err();
    assert!(err.msg.contains("undeclared type reference: MissingType"));
}

#[test]
fn test_undeclared_type_in_param() {
    let iface = parse("interface Foo { fn a(x: MissingType) -> (); }").unwrap();
    let err = validate(&iface).unwrap_err();
    assert!(err.msg.contains("undeclared type reference: MissingType"));
}

#[test]
fn test_undeclared_type_in_dvec() {
    let iface = parse("interface Foo { fn a() -> DVec<MissingType>; }").unwrap();
    let err = validate(&iface).unwrap_err();
    assert!(err.msg.contains("undeclared type reference: MissingType"));
}

#[test]
fn test_undeclared_type_in_enum_field() {
    let src = "interface Foo {
        enum Bar { Variant(MissingType) }
        fn a() -> Bar;
    }";
    let iface = parse(src).unwrap();
    let err = validate(&iface).unwrap_err();
    assert!(err.msg.contains("undeclared type reference: MissingType"));
}

#[test]
fn test_declared_type_passes() {
    let src = "interface Foo {
        enum Bar { A, B(u64) }
        fn a() -> Bar;
    }";
    let iface = parse(src).unwrap();
    assert!(validate(&iface).is_ok());
}

#[test]
fn test_parse_includes() {
    let src = r#"
        include "types.dspi";
        include "more.dspi";

        interface Foo {
            fn a() -> ();
        }
    "#;
    let iface = parse(src).unwrap();
    assert_eq!(iface.includes, vec!["types.dspi", "more.dspi"]);
}

#[test]
fn test_no_includes() {
    let src = "interface Foo { fn a() -> (); }";
    let iface = parse(src).unwrap();
    assert!(iface.includes.is_empty());
}

#[test]
fn test_include_missing_string() {
    let err = parse("include not_a_string;\ninterface Foo { fn a() -> (); }").unwrap_err();
    assert!(err.msg.contains("expected string literal after `include`"));
}

#[test]
fn test_type_fragment_basic() {
    let src = r#"
        opaque struct Handle;
        struct Config { path: DString, }
        enum Status { Ok, Err(u32), }
    "#;
    let (types, includes) = parse_type_fragment(src).unwrap();
    assert_eq!(types.len(), 3);
    assert!(includes.is_empty());
}

#[test]
fn test_type_fragment_with_includes() {
    let src = r#"
        include "nested.dspi";

        opaque struct Handle;
    "#;
    let (types, includes) = parse_type_fragment(src).unwrap();
    assert_eq!(types.len(), 1);
    assert_eq!(includes, vec!["nested.dspi"]);
}

#[test]
fn test_type_fragment_rejects_methods() {
    let src = "opaque struct Handle;\nfn do_stuff() -> ();";
    let err = parse_type_fragment(src).unwrap_err();
    assert!(err.msg.contains("not allowed in type fragments"));
}

#[test]
fn test_type_fragment_rejects_interface() {
    let src = "interface Foo { fn a() -> (); }";
    let err = parse_type_fragment(src).unwrap_err();
    assert!(err.msg.contains("expected type declaration in fragment"));
}

#[test]
fn test_type_fragment_empty() {
    let (types, includes) = parse_type_fragment("").unwrap();
    assert!(types.is_empty());
    assert!(includes.is_empty());
}

#[test]
fn test_array_type_param() {
    let iface = parse("interface Foo { fn a(id: [u8; 16]) -> (); }").unwrap();
    let m = &iface.methods[0];
    assert_eq!(
        m.params[0].ty,
        FieldType::Array(Box::new(FieldType::U8), 16),
    );
}

#[test]
fn test_array_type_return() {
    let iface = parse("interface Foo { fn a() -> [u8; 16]; }").unwrap();
    assert_eq!(
        iface.methods[0].return_type,
        FieldType::Array(Box::new(FieldType::U8), 16),
    );
}

#[test]
fn test_array_type_in_struct() {
    let iface = parse("interface Foo {
        struct Bar { id: [u8; 16], }
        fn a(b: Bar) -> ();
    }").unwrap();
    match &iface.types[0] {
        TypeDecl::Struct(s) => assert_eq!(
            s.fields[0].1,
            FieldType::Array(Box::new(FieldType::U8), 16),
        ),
        other => panic!("expected Struct, got {other:?}"),
    }
}

#[test]
fn test_array_canonical_sig() {
    let iface = parse("interface Foo { fn a(id: [u8; 16]) -> [u8; 16]; }").unwrap();
    let sig = iface.canonical_sig();
    assert!(sig.contains("[u8;16]"));
}

#[test]
fn test_array_rejects_non_multiple_of_8() {
    let err = parse("interface Foo { fn a(id: [u8; 10]) -> (); }").unwrap_err();
    assert!(err.msg.contains("multiple of 8"));
}

#[test]
fn test_array_rejects_zero() {
    let err = parse("interface Foo { fn a(id: [u8; 0]) -> (); }").unwrap_err();
    assert!(err.msg.contains("at least 1"));
}

#[test]
fn canonical_forms_are_read_back() {
    for canonical in [
        "()", "bool", "u16", "i64", "f32", "&str", "&[u8]", "&mut Vec<u8>", "&mut DVec<Vec<u8>>",
        "DStr", "DString", "DVec<DOption<u8>>", "DSlice<Point>", "&&DString", "(u8,(),[u8;16])",
        "&[u8;8]", "[DVec<u8>;24]",
    ] {
        let text = format!("interface I {{ fn m(x: {canonical}) -> (); }}");
        let iface = parse(&text).unwrap_or_else(|e| panic!("{canonical}: {}", e.to_string()));
        assert_eq!(iface.methods[0].params[0].ty.canonical(), canonical);
    }
    for canonical in ["String", "Vec<String>", "Option<Vec<u8>>", "(String,Option<u8>)"] {
        let text = format!("interface I {{ fn m() -> {canonical}; }}");
        let iface = parse(&text).ok().unwrap();
        assert_eq!(iface.methods[0].return_type.canonical(), canonical);
        let text = format!("interface I {{ fn m(x: {canonical}) -> (); }}");
        assert!(parse(&text).is_err());
    }
}

#[test]
fn signatures_tell_interfaces_apart() {
    let sig = |src: &str| parse(src).ok().unwrap().canonical_sig();
    let base = sig("interface I { struct P { x: u8 } opaque struct H; fn m(p: P, n: u8) -> H; }");
    assert_eq!(base, "I|struct P{x:u8};opaque H|m(P,u8)->H");
    assert_eq!(
        sig("interface I { struct P { x: u8, } opaque struct H; fn m(q: (P), k: u8,) -> (H); }"),
        base
    );
    for other in [
        "interface J { struct P { x: u8 } opaque struct H; fn m(p: P, n: u8) -> H; }",
        "interface I { struct P { y: u8 } opaque struct H; fn m(p: P, n: u8) -> H; }",
        "interface I { opaque struct H; struct P { x: u8 } fn m(p: P, n: u8) -> H; }",
        "interface I { struct P { x: u8 } opaque struct H; fn k(p: P, n: u8) -> H; }",
        "interface I { struct P { x: u8 } opaque struct H; fn m(p: (P, u8)) -> H; }",
        "interface I { struct P { x: u8 } opaque struct H; fn m(p: P, n: u8) -> P; }",
        "interface I { struct P { x: u8 } opaque struct H; fn m(p: P, n: u8) -> H; fn m() -> (); }",
    ] {
        assert_ne!(sig(other), base);
    }
}

#[test]
fn fragments_say_the_same_inside_an_interface() {
    let src = "struct P { x: (u8), y: [u8; 8], } // a comment\nenum E { A, B(P) }\nopaque struct H;//";
    let (types, includes) = parse_type_fragment(src).ok().unwrap();
    assert!(includes.is_empty());
    let inside = parse(&format!("interface I {{ {src}\nfn z() -> (); }}")).ok().unwrap();
    let texts = |ts: &[TypeDecl]| ts.iter().map(|t| t.canonical()).collect::<Vec<String>>();
    assert_eq!(texts(&types), texts(&inside.types));
    assert_eq!(texts(&types), ["struct P{x:u8,y:[u8;8]}", "enum E{A,B(P)}", "opaque H"]);
    assert_eq!(inside.methods.len(), 1);
}
