use dynspire::ast::{FieldType, Interface};
use dynspire::codec::{
    gen_read_decode, gen_read_receive, gen_write_encode, gen_write_return,
};
use dynspire::gen::{can_generate, gen_field_releases, generate, generate_with_ctx, BuildContext};
use dynspire::parser::parse;
use dynspire::pygen::{can_generate_python, gen_py_write, generate_python};

const RLE_DSPI: &str = r#"
// The run-length interface.
interface Rle {
  struct CompressionReport {
    original_size: u64,
    compressed_size: u64,
    ratio: f64,
    runs: u64,
  }

  struct NamedRun {
    label: DString,
    count: u64,
  }

  enum Tone {
    Quiet,
    Normal,
    Loud(u8),
  }

  fn compress(data: &[u8]) -> Vec<u8>;
  fn decompress(data: &[u8]) -> Vec<u8>;
  fn compress_into(data: &[u8], out: &mut Vec<u8>) -> ();
  fn stats(data: &[u8]) -> (u64, u64);
  fn analyze(data: &[u8]) -> CompressionReport;
  fn report_summary(report: CompressionReport) -> String;
  fn run_labels(data: &[u8]) -> Vec<String>;
  fn split_runs(data: &[u8]) -> Vec<Vec<u8>>;
  fn compress_into_checked(data: &[u8], out: &mut Vec<u8>) -> bool;
  fn first_byte(data: &[u8]) -> Option<u8>;
  fn classify(data: &[u8]) -> Tone;
  fn describe_tone(tone: Tone) -> String;
  fn delay(ms: u64) -> ();
  fn echo_bytes(data: &[u8]) -> DVec<u8>;
  fn build_string(data: &[u8]) -> DString;
  fn consume_dvec(data: DVec<u8>) -> u64;
  fn view_slice(data: DSlice<u8>) -> u64;
  fn probe(data: &[u8]) -> DOption<u8>;
  fn make_named_run(label: &str, count: u64) -> NamedRun;
}
"#;

fn parse_rle() -> Interface {
    parse(RLE_DSPI).unwrap()
}

#[test]
fn generated_code_contains_trait() {
    let iface = parse_rle();
    let code = generate(&iface);
    assert!(code.contains("pub trait RleEngine: Send + Sync"));
    assert!(code.contains("fn compress(&self, data: &[u8]) -> Result<Vec<u8>, String>"));
}

#[test]
fn generated_code_contains_types() {
    let iface = parse_rle();
    let code = generate(&iface);
    assert!(code.contains("pub struct CompressionReport"));
    assert!(code.contains("pub enum Tone"));
    assert!(!code.contains("impl dynspire::slots::SlotEncode for CompressionReport"), "no trait impls for DSL types");
    assert!(!code.contains("impl dynspire::slots::SlotEncode for Tone"), "no trait impls for DSL types");
}

#[test]
fn generated_enum_repr_fielded_vs_fieldless() {
    let iface = parse_rle();
    let code = generate(&iface);
    // Tone has Loud(u8) → fielded enum → must keep #[repr(C, u32)]
    assert!(
        code.contains("#[repr(C, u32)]\n#[derive(Clone, Debug, PartialEq)]\npub enum Tone"),
        "fielded enum Tone must use #[repr(C, u32)]"
    );

    // RleOp is fieldless → must use #[repr(u8)] (separate generation path)
    assert!(code.contains("#[repr(u8)]"));
    assert!(
        !code.contains("#[repr(C, u32)]\n#[derive(Clone, Debug, PartialEq)]\npub enum RleOp"),
        "RleOp is generated independently and must not get #[repr(C, u32)]"
    );

    // Synthetic check: a fieldless DSL enum should get #[repr(u32)]
    let src = r#"
interface Test {
  enum Color { Red, Green, Blue }
  fn pick() -> Color;
}
"#;
    let iface2 = parse(src).unwrap();
    let code2 = generate(&iface2);
    assert!(
        code2.contains("#[repr(u32)]\n#[derive(Clone, Debug, PartialEq)]\npub enum Color"),
        "fieldless enum Color must use #[repr(u32)], got:\n{}",
        code2
    );
}

#[test]
fn generated_enum_dtype_fields_use_dtype_codec() {
    let src = r#"
interface Codec {
  enum Tag {
Empty,
Labelled(String),
Numbered(Vec<u32>),
Maybe(Option<String>),
  }
  fn make_tag(s: &str) -> Tag;
}
"#;
    let iface = parse(src).unwrap();
    let code = generate(&iface);

    // The enum definition must use DType field types
    assert!(
        code.contains("Labelled(dynspire::managed::DString)"),
        "enum variant with String field must use DString:\n{}", code
    );
    assert!(
        code.contains("Numbered(dynspire::managed::DVec<u32>)"),
        "enum variant with Vec<u32> field must use DVec<u32>:\n{}", code
    );
    assert!(
        code.contains("Maybe(dynspire::managed::DOption<dynspire::managed::DString>)"),
        "enum variant with Option<String> field must use DOption<DString>:\n{}", code
    );

    // Writer for Labelled variant must emit DString's 4-slot layout
    // (allocator, ptr, len, cap) — not String's 2-slot (ptr, len)
    assert!(
        code.contains("__f0.allocator") && code.contains("__f0.ptr")
            && code.contains("__f0.len") && code.contains("__f0.cap"),
        "enum encode must write DString's 4 fields (allocator/ptr/len/cap):\n{}", code
    );

    // Reader for Option<String> variant must produce DOption<DString>
    // (3-slot decode: tag + inner DString's 4) — not Option<String>
    assert!(
        code.contains("DOption::<dynspire::managed::DString>"),
        "enum decode for Option<String> field must produce DOption<DString>:\n{}", code
    );
}

#[test]
fn generated_code_contains_op_enum() {
    let iface = parse_rle();
    let code = generate(&iface);
    assert!(code.contains("pub enum RleOp"));
    assert!(code.contains("Compress = 0"));
    assert!(code.contains("impl dynspire::SpierOp for RleOp"));
}

#[test]
fn generated_code_contains_free_and_hash() {
    let iface = parse_rle();
    let code = generate(&iface);
    // Returns are released by the host directly via the RC header, so there
    // is no `dynspire_free`-style type_index dispatch export.
    assert!(!code.contains("dynspire_free"), "dynspire_free must be removed");
    assert!(code.contains("dynspire_release"), "returns must be released via dynspire_release");
    assert!(code.contains("dynspire_idl_hash"));
    assert!(!code.contains("__IDL_SCHEMA"), "schema statics removed");
    assert!(!code.contains("idl_schema()"), "idl_schema() accessor removed");
    assert!(!code.contains("__IDL_TYPE_TABLE"), "type table removed");
}

#[test]
fn generated_returns_use_allocator_rc() {
    let iface = parse_rle();
    let code = generate(&iface);
    // Spier-side returns are allocated through the host allocator stored at
    // `dynspire_create`, not via a global `Box::into_raw`/into_boxed_slice
    // handoff.
    assert!(
        code.contains("dynspire::managed::dynspire_alloc(__alloc,"),
        "spier must allocate returns via dynspire_alloc"
    );
    // Both the host receive path and the spier's `dynspire_free` must release
    // the returned payload through the RC header.
    assert!(
        code.contains("dynspire::managed::dynspire_release"),
        "return payloads must be released via dynspire_release"
    );
    // The old global-Box return handoff must be gone.
    assert!(
        !code.contains("into_boxed_slice"),
        "return handoff must not use into_boxed_slice"
    );
}

#[test]
fn generated_struct_with_dynamic_fields_has_drop_fn() {
    let iface = parse_rle();
    let code = generate(&iface);
    // NamedRun has a DString field → should get a drop_fn
    assert!(
        code.contains("unsafe extern \"C\" fn drop_NamedRun("),
        "struct with DString field must generate drop_NamedRun"
    );
    // The drop_fn must release the DString's buffer
    assert!(
        code.contains("dynspire::managed::dynspire_release"),
        "drop_fn must release dynamic field buffers"
    );
    // make_named_run returns NamedRun → heap-alloc with drop_fn
    assert!(
        code.contains("dynspire::managed::dyn_alloc(__alloc,"),
        "struct with dynamic fields must use dyn_alloc with drop_fn"
    );
    // Host receive must use dealloc_only (skip drop_fn) for NamedRun
    assert!(
        code.contains("dynspire::managed::dynspire_dealloc_only"),
        "host receive for struct with dynamic fields must use dynspire_dealloc_only"
    );
    // CompressionReport has no dynamic fields → must NOT get a drop_fn
    assert!(
        !code.contains("unsafe extern \"C\" fn drop_CompressionReport("),
        "struct without dynamic fields must NOT generate a drop_fn"
    );
}

#[test]
fn generated_struct_fields_use_dtypes() {
    let iface = parse_rle();
    let code = generate(&iface);
    // NamedRun's label field is DString, not String
    assert!(
        code.contains("pub label: dynspire::managed::DString"),
        "DString field in struct must use DString type"
    );
}

#[test]
fn generated_drop_fn_releases_dstring_field() {
    let iface = parse_rle();
    let code = generate(&iface);
    // The drop_fn should release label.ptr (DString's buffer)
    assert!(
        code.contains("drop_NamedRun") && code.contains("(*__s).label.ptr as *mut u8"),
        "drop_NamedRun must release the DString buffer via label.ptr"
    );
}

#[test]
fn generated_code_contains_tower() {
    let iface = parse_rle();
    let code = generate(&iface);
    assert!(code.contains("pub struct DynSpireRle"));
    assert!(code.contains("impl RleEngine for DynSpireRle"));
    assert!(code.contains("DynSpireClient::connect"));
    assert!(!code.contains("pub client:"), "client field must be private");
}

#[test]
fn generated_code_contains_spier_macro() {
    let iface = parse_rle();
    let code = generate(&iface);
    assert!(code.contains("macro_rules! impl_rle_spier"));
    assert!(code.contains("dynspire_dispatch_compress"));
    assert!(code.contains("dynspire_create"));
    assert!(code.contains("dynspire_destroy"));
    assert!(code.contains("dynspire_idl_hash"));
}

#[test]
fn generated_code_contains_hash() {
    let iface = parse_rle();
    let code = generate(&iface);
    assert!(code.contains("pub const RLE_IDL_HASH: u64"));
}

#[test]
fn generated_code_no_enum_descriptors() {
    let iface = parse_rle();
    let code = generate(&iface);
    assert!(!code.contains("__ENUM_DESC"), "enum descriptors removed");
    assert!(!code.contains("EnumVariantDesc"), "EnumVariantDesc removed");
    assert!(!code.contains("__STRUCT_DESC"), "struct descriptors removed");
}

#[test]
fn generated_code_dispatch_uses_inline_decode() {
    let iface = parse_rle();
    let code = generate(&iface);
    assert!(!code.contains("dynspire::slots::decode_param"), "decode_param should not be used");
    assert!(!code.contains("dynspire::slots::write_to_ffi"), "write_to_ffi should not be used");
    assert!(code.contains("let mut __r = dynspire::slots::SlotReader::new(__in_data)"));
    assert!(code.contains("let mut __w = dynspire::slots::SlotWriter::new()"));
}

#[test]
fn generated_code_tower_uses_inline_dispatch() {
    let iface = parse_rle();
    let code = generate(&iface);
    assert!(!code.contains("self.client.call("), "call() should not be used");
    assert!(code.contains("self.client.dispatch("));
    assert!(code.contains("let mut __w = dynspire::slots::SlotWriter::new()"));
    assert!(code.contains("let mut __r = dynspire::slots::SlotReader::new(&__out)"));
}

#[test]
fn generated_dtype_methods() {
    let iface = parse_rle();
    let code = generate(&iface);
    // Spier trait declares owning guards for owned-DType returns.
    assert!(code.contains("fn echo_bytes(&self, data: &[u8]) -> Result<dynspire::managed::OwnedDVec<u8>, String>"));
    assert!(code.contains("fn consume_dvec(&self, data: dynspire::managed::DVec<u8>) -> Result<u64, String>"));
    // Host client matches the trait via rust_output_type (guarded return).
    assert!(code.contains("fn echo_bytes(&self, data: &[u8]) -> Result<dynspire::managed::OwnedDVec<u8>, String>"));
    // DView params are passed by value (no Copy needed).
    assert!(code.contains("fn view_slice(&self, data: dynspire::managed::DSlice<u8>) -> Result<u64, String>"));
    // DOption is a managed struct on both sides, not Rust Option.
    assert!(code.contains("fn probe(&self, data: &[u8]) -> Result<dynspire::managed::DOption<u8>, String>"));
    // The spier dispatch converts owned guards to raw (into_raw) before write.
    assert!(code.contains("into_raw()"), "owned returns must hand raw DType to host");
    // The host receive path reconstructs an owning guard.
    assert!(code.contains("OwnedDVec::<u8>::from_raw"), "host must reconstruct OwnedDVec");
    assert!(code.contains("OwnedDString::from_raw"), "host must reconstruct OwnedDString");
    // DOption decode writes a tag, not a Rust Some/None pattern, on spier side.
    assert!(code.contains(".tag == 0"), "DOption decode must branch on tag field");
}

#[test]
fn generated_python_dtype_methods() {
    let iface = parse_rle();
    let py = generate_python(&iface);
    assert!(py.contains("def echo_bytes(self, data)"), "python client must expose DVec return");
    assert!(py.contains("def consume_dvec(self, data)"), "python client must accept DVec");
    assert!(py.contains("def view_slice(self, data)"), "python client must accept DSlice");
    assert!(py.contains("def probe(self, data)"), "python client must return DOption");
    assert!(py.contains("class OwnedDVec"), "python must define owning DVec wrapper");
    assert!(py.contains("class DStringHandle"), "python must define owning DString wrapper");
    assert!(py.contains("def new_dvec(self, cap)"), "python client must expose allocator helper");
    assert!(py.contains("def new_dstring(self, s)"), "python client must expose allocator helper");
    // DOption (IDL) decode maps to None or the inner value, not a struct.
    assert!(py.contains("None if"), "python DOption must map to None/value");
}


#[test]
fn generated_python_struct_with_dynamic_fields() {
    let iface = parse_rle();
    let py = generate_python(&iface);
    // NamedRun struct should be defined as an OpaqueHandle subclass
    assert!(
        py.contains("class NamedRun(OpaqueHandle)"),
        "NamedRun must be an OpaqueHandle subclass"
    );
    // make_named_run method should exist
    assert!(
        py.contains("def make_named_run(self"),
        "Python client must expose make_named_run"
    );
}

#[test]
fn generated_python_struct_class() {
    let iface = parse_rle();
    let py = generate_python(&iface);

    // ctypes mirror class
    assert!(
        py.contains("class NamedRunCtypes(ctypes.Structure)"),
        "NamedRunCtypes ctypes structure class must be generated"
    );
    assert!(
        py.contains("('label', DString)"),
        "NamedRunCtypes must have label field of type DString"
    );
    assert!(
        py.contains("('count', ctypes.c_uint64)"),
        "NamedRunCtypes must have count field of type c_uint64"
    );

    // wrapper class with __slots__
    assert!(
        py.contains("    __slots__ = "),
        "NamedRun wrapper must have __slots__"
    );

    // __init__ with both fields
    assert!(
        py.contains("def __init__(self, label, count):"),
        "NamedRun must have __init__ with label and count"
    );

    // _from_ptr classmethod
    assert!(
        py.contains("def _from_ptr(cls, client, ptr):"),
        "NamedRun must have _from_ptr classmethod"
    );

    // _default classmethod
    assert!(
        py.contains("def _default(cls):"),
        "NamedRun must have _default classmethod"
    );

    // property accessors for both fields
    assert!(
        py.contains("@property\n    def label(self):"),
        "NamedRun must have label property"
    );
    assert!(
        py.contains("@property\n    def count(self):"),
        "NamedRun must have count property"
    );

    // __repr__
    assert!(
        py.contains("def __repr__(self):"),
        "NamedRun must have __repr__"
    );

    // __eq__
    assert!(
        py.contains("def __eq__(self, other):"),
        "NamedRun must have __eq__"
    );

    // __hash__
    assert!(
        py.contains("def __hash__(self):"),
        "NamedRun must have __hash__"
    );

    // _from_ptr must be used in method decode (not direct constructor)
    assert!(
        py.contains("NamedRun._from_ptr(self,"),
        "Method returning NamedRun must use _from_ptr, not direct constructor"
    );
    // old pattern must NOT appear
    assert!(
        !py.contains("NamedRun(self,") || py.contains("_from_ptr"),
        "NamedRun(self, ...) without _from_ptr must not appear in decode"
    );
}

#[test]
fn generated_code_is_deterministic() {
    let iface = parse_rle();
    let code1 = generate(&iface);
    let code2 = generate(&iface);
    assert_eq!(code1, code2);
}

#[test]
fn generated_code_array_type() {
    let iface = parse(
        "interface Foo { fn a(id: [u8; 16]) -> [u8; 16]; }",
    ).unwrap();
    let code = generate(&iface);
    assert!(code.contains("fn a(&self, id: [u8; 16]) -> Result<[u8; 16], String>"));
}

// --- BuildContext deduplication tests ---

#[test]
fn test_ctx_dedup_skips_identical_type() {
    let mut ctx = BuildContext::new();
    let iface_a = parse(
        r#"interface A {
            struct Pair { x: u64, y: u64, }
            fn get() -> Pair;
        }"#,
    ).unwrap();
    let code_a = generate_with_ctx(&iface_a, &mut ctx).unwrap();
    assert!(code_a.contains("pub struct Pair"));

    let iface_b = parse(
        r#"interface B {
            struct Pair { x: u64, y: u64, }
            fn put(p: Pair) -> ();
        }"#,
    ).unwrap();
    let code_b = generate_with_ctx(&iface_b, &mut ctx).unwrap();
    assert!(!code_b.contains("pub struct Pair"), "Pair should be skipped — already emitted");
    assert!(code_b.contains("pub trait BEngine"), "B-specific code still generated");
}

#[test]
fn test_ctx_dedup_across_three_interfaces() {
    let mut ctx = BuildContext::new();
    let dspi = r#"struct Point { x: u64, y: u64, }"#;

    for name in &["A", "B", "C"] {
        let iface = parse(&format!(
            r#"interface {name} {{ {dspi} fn f() -> Point; }}"#
        )).unwrap();
        let code = generate_with_ctx(&iface, &mut ctx).unwrap();
        if *name == "A" {
            assert!(code.contains("pub struct Point"));
        } else {
            assert!(!code.contains("pub struct Point"), "Point should be skipped in {name}");
        }
    }
}

#[test]
#[should_panic(expected = "conflicting type `Handle`")]
fn test_ctx_dedup_panics_on_conflict() {
    let mut ctx = BuildContext::new();
    let iface_a = parse(
        r#"interface A { struct Handle { id: u64, } fn f() -> Handle; }"#,
    ).unwrap();
    generate_with_ctx(&iface_a, &mut ctx).unwrap();

    let iface_b = parse(
        r#"interface B { struct Handle { name: String, } fn f() -> Handle; }"#,
    ).unwrap();
    generate_with_ctx(&iface_b, &mut ctx).unwrap();
}

#[test]
fn test_ctx_dedup_skips_enum() {
    let mut ctx = BuildContext::new();
    let iface_a = parse(
        r#"interface A { enum Color { Red, Green, Blue, } fn f() -> Color; }"#,
    ).unwrap();
    let code_a = generate_with_ctx(&iface_a, &mut ctx).unwrap();
    assert!(code_a.contains("pub enum Color"));

    let iface_b = parse(
        r#"interface B { enum Color { Red, Green, Blue, } fn f(c: Color) -> (); }"#,
    ).unwrap();
    let code_b = generate_with_ctx(&iface_b, &mut ctx).unwrap();
    assert!(!code_b.contains("pub enum Color"), "Color definition should be skipped");
}

#[test]
fn test_ctx_dedup_skips_opaque() {
    let mut ctx = BuildContext::new();
    let iface_a = parse(
        r#"interface A { struct Handle { id: u64, } fn f() -> Handle; }"#,
    ).unwrap();
    let code_a = generate_with_ctx(&iface_a, &mut ctx).unwrap();
    assert!(code_a.contains("pub struct Handle"));

    let iface_b = parse(
        r#"interface B { struct Handle { id: u64, } fn f(h: Handle) -> (); }"#,
    ).unwrap();
    let code_b = generate_with_ctx(&iface_b, &mut ctx).unwrap();
    assert!(!code_b.contains("pub struct Handle"), "Handle definition should be skipped");
}

#[test]
fn each_side_gets_its_own_code() {
    let iface = parse_rle();
    let spier = dynspire::gen::generate_spier(&iface);
    let host = dynspire::gen::generate_host(&iface);
    assert!(spier.contains("macro_rules! impl_rle_spier"));
    assert!(!spier.contains("pub struct DynSpireRle"));
    assert!(host.contains("pub struct DynSpireRle"));
    assert!(!host.contains("macro_rules! impl_rle_spier"));
    let line = format!("pub const RLE_IDL_HASH: u64 = {};", iface.hash());
    assert!(spier.contains(&line));
    assert!(host.contains(&line));
}

#[test]
fn field_type_questions() {
    let types = parse(
        "interface A { struct Named { label: DString, } struct Plain { x: u64, } \
         enum Mixed { None, Some(Named) } opaque struct Handle; fn f() -> (); }",
    )
    .unwrap()
    .types;
    let vec = FieldType::DVec(Box::new(FieldType::U8));
    assert!(vec.has_dynamic_fields(&types));
    assert!(FieldType::DString.has_dynamic_fields(&types));
    assert!(FieldType::Named("Named".into()).has_dynamic_fields(&types));
    assert!(FieldType::Named("Mixed".into()).has_dynamic_fields(&types));
    assert!(!FieldType::Named("Plain".into()).has_dynamic_fields(&types));
    assert!(!FieldType::Named("Handle".into()).has_dynamic_fields(&types));
    assert!(!FieldType::U64.has_dynamic_fields(&types));
    assert!(!FieldType::Ref(Box::new(FieldType::DString)).has_dynamic_fields(&types));
    assert!(!vec.is_borrow());
    assert!(FieldType::Ref(Box::new(FieldType::DString)).is_borrow());
    assert!(FieldType::RefMut(Box::new(vec)).is_borrow());
}

#[test]
fn every_dynamic_field_is_released() {
    let types = parse(
        "interface A { struct Named { label: DString, } struct Plain { x: u64, } fn f() -> (); }",
    )
    .unwrap()
    .types;
    let named = || FieldType::Named("Named".into());
    let fields = vec![
        ("a".to_string(), FieldType::DString),
        ("b".to_string(), FieldType::DOption(Box::new(FieldType::DString))),
        ("c".to_string(), named()),
        ("d".to_string(), FieldType::DOption(Box::new(named()))),
        ("e".to_string(), FieldType::DOption(Box::new(FieldType::Named("Plain".into())))),
        ("f".to_string(), FieldType::DOption(Box::new(FieldType::DOption(Box::new(named()))))),
    ];
    assert_eq!(
        gen_field_releases("s.", &fields, &types),
        "        dynspire::managed::dynspire_release(s.a.ptr as *mut u8);\n\
         \x20       if s.b.tag != 0 {\n\
         \x20           dynspire::managed::dynspire_release(s.b.value.ptr as *mut u8);\n\
         \x20       }\n\
         \x20       drop_Named(&s.c as *const Named as *mut core::ffi::c_void);\n\
         \x20       if s.d.tag != 0 { drop_Named(&s.d.value as *const Named as *mut core::ffi::c_void); }\n\
         \x20       if s.f.tag != 0 {\n\
         \x20       if s.f.value.tag != 0 { drop_Named(&s.f.value.value as *const Named as *mut core::ffi::c_void); }\n\
         \x20       }\n"
    );
}

#[test]
fn byte_arrays_are_sliced_as_python_slices() {
    let array = FieldType::Array(Box::new(FieldType::U8), 16);
    assert_eq!(
        gen_py_write(&array, "id", "_w", &[], "        ", 0),
        "        _w.write_u64(int.from_bytes(id[0:8], 'little'))\n        \
         _w.write_u64(int.from_bytes(id[8:16], 'little'))\n"
    );
}

#[test]
fn clients_connect_with_a_debug_flag() {
    let host = dynspire::gen::generate_host(&parse_rle());
    assert!(host.contains(
        "pub fn connect(spier_name: &str, config: &std::collections::HashMap<String, String>, \
         debug: bool) -> Result<Self, String> {"
    ));
}

#[test]
fn generation_can_be_refused_beforehand() {
    let good = parse_rle();
    assert!(can_generate(&good));
    assert!(can_generate_python(&good));
    let undeclared = parse("interface A { fn f() -> Missing; }").unwrap();
    assert!(!can_generate(&undeclared));
    assert!(!can_generate_python(&undeclared));
    let circular = parse("interface A { enum E { V(E) } fn f(e: E) -> E; }").unwrap();
    assert!(!can_generate(&circular));
    assert!(!can_generate_python(&circular));
    let numbers = parse("interface A { fn f() -> Vec<u64>; }").unwrap();
    assert!(can_generate(&numbers));
    assert!(!can_generate_python(&numbers));
}

#[test]
fn python_modules_go_below_the_package() {
    let iface = parse_rle();
    let ctx = BuildContext::new();
    let (path, code) = ctx.build_python(&iface, Some("/pkg"), "generated/rle.py");
    assert_eq!(path, "/pkg/generated/rle.py");
    assert_eq!(code, generate_python(&iface));
    assert_eq!(ctx.build_python(&iface, Some(""), "rle.py").0, "rle.py");
    assert_eq!(ctx.build_python(&iface, None, "rle.py").0, "rle.py");
}

#[test]
fn builds_name_their_files() {
    let iface = parse_rle();
    let mut ctx = BuildContext::new();
    assert_eq!(ctx.build_spier(&iface).0, "rle_spier.rs");
    let mut ctx = BuildContext::new();
    let (name, code) = ctx.build_host(&iface);
    assert_eq!(name, "rle_host.rs");
    assert!(code.unwrap().contains("pub struct DynSpireRle"));
}

#[test]
fn layout_does_not_change_the_hash() {
    let a = parse("interface A { struct S { x: u64, } fn f(s: S) -> u8; }").unwrap();
    let b = parse(
        "// first\ninterface A{\n\tstruct S{x:u64,}// second\n\n  fn f ( s : S )->u8 ;}\n// last",
    )
    .unwrap();
    assert_eq!(a.hash(), b.hash());
    let c = parse("interface A { struct S { x: u64, } fn f(s: S) -> u16; }").unwrap();
    assert_ne!(a.hash(), c.hash());
}

#[test]
fn building_again_emits_no_types() {
    let iface = parse("interface A { struct S { x: u64, } fn f(s: S) -> u8; }").unwrap();
    let mut ctx = BuildContext::new();
    assert!(generate_with_ctx(&iface, &mut ctx).unwrap().contains("pub struct S {"));
    assert!(!generate_with_ctx(&iface, &mut ctx).unwrap().contains("pub struct S {"));
}

#[test]
fn python_carries_the_hash_of_the_interface() {
    let iface = parse_rle();
    let line = format!("_IDL_HASH = 0x{:016x}\n", iface.hash());
    assert!(generate_python(&iface).contains(&line));
}

#[test]
fn enums_inside_enums_are_read() {
    let iface = parse(
        "interface P {\n  enum ParseError { TooLarge(u64), InvalidFormat }\n  \
         enum ParseResult { Ok(u64), Err(ParseError) }\n  \
         fn parse(data: &[u8]) -> ParseResult;\n}",
    )
    .ok()
    .unwrap();
    assert!(can_generate_python(&iface));
    let py = generate_python(&iface);
    assert!(py.contains(
        "            _v = ParseResult('Err', (lambda __d: ParseError('TooLarge', _r.read_u64()) \
         if __d == 0 else ParseError('InvalidFormat') if __d == 1 else (_ for _ in ()).throw(\
         DynSpireError('invalid ParseError discriminant ' + str(__d))))(_r.read()))\n"
    ));
    assert!(!py.contains("def _read("));
}

#[test]
fn every_field_has_a_ctypes_type() {
    let iface = parse(
        "interface C {\n  opaque struct Handle;\n  enum Plain { A, B }\n  \
         enum Full { A, B(u8, u64) }\n  \
         struct Inner { x: u8 }\n  \
         struct S { h: Handle, p: Plain, f: Full, t: (u8, u16), i: Inner }\n  fn m(s: S) -> ();\n}",
    )
    .ok()
    .unwrap();
    let py = generate_python(&iface);
    for line in [
        "        ('h', ctypes.c_uint64),\n        ('p', ctypes.c_uint32),\n",
        "        ('f', type('Full', (ctypes.Structure,), {'_fields_': [('tag', ctypes.c_uint32), \
         ('payload', type('FullPayload', (ctypes.Union,), {'_fields_': [\
         ('A', type('FullA', (ctypes.Structure,), {'_fields_': []})), \
         ('B', type('FullB', (ctypes.Structure,), {'_fields_': [('_0', ctypes.c_uint8), \
         ('_1', ctypes.c_uint64)]}))]}))]})),\n",
        "        ('t', type('Tuple', (ctypes.Structure,), {'_fields_': [('_0', ctypes.c_uint8), \
         ('_1', ctypes.c_uint16)]})),\n",
        "        ('i', InnerCtypes),\n",
        "class Handle(OpaqueHandle):\n    pass\n\n\nclass Plain:\n",
    ] {
        assert!(py.contains(line), "no {line:?} in {py}");
    }
    for name in ["HandleCtypes", "PlainCtypes", "FullCtypes"] {
        assert!(!py.contains(name));
    }
}

#[test]
fn python_clients_define_each_method_once() {
    let py = generate_python(&parse_rle());
    let client = &py[py.find("# --- Client ---").unwrap()..];
    let defs: Vec<&str> = client
        .lines()
        .filter_map(|l| l.strip_prefix("    def "))
        .map(|l| &l[..l.find('(').unwrap()])
        .collect();
    let names: Vec<String> = parse_rle().methods.iter().map(|m| m.name.clone()).collect();
    assert_eq!(defs, names);
}

#[test]
fn python_client_lines_stand_once() {
    let src = "interface Two { enum E { A(u8), B } struct S { x: u8 } opaque struct H; \
               fn a(p: (u8, &str), o: &mut DVec<u8>) -> E; fn ab(e: E, h: H) -> S; \
               fn b() -> (); }";
    let py = generate_python(&parse(src).ok().unwrap());
    let count = |text: &str, start: &str| text.lines().filter(|l| l.starts_with(start)).count();
    let client = &py[py.find("# --- Client ---").unwrap()..];
    assert_eq!(count(client, "class Two(SpierClient):"), 1);
    assert_eq!(count(&py, "class Two(SpierClient):"), 1);
    for name in ["a", "ab", "b"] {
        assert_eq!(count(client, &format!("    def {name}(self")), 1);
    }
    let twice = parse("interface T { fn a() -> (); fn a() -> u8; }").ok().unwrap();
    let py = generate_python(&twice);
    let client = &py[py.find("# --- Client ---").unwrap()..];
    assert_eq!(count(client, "    def a(self"), 2);
}

#[test]
fn reads_take_as_many_slots_as_writes_put() {
    let iface = parse(
        "interface W { struct P { x: u8 } opaque struct H; \
         fn m(a: (u8, &str, DVec<u8>), b: &DString, c: [u8; 24], d: [P; 8], e: (), f: H) -> P; }",
    )
    .ok()
    .unwrap();
    let types = &iface.types;
    let widths = [7, 2, 3, 8, 0, 1];
    for (p, width) in iface.methods[0].params.iter().zip(widths) {
        let put = gen_write_encode(&p.ty, "v", "wrt", types);
        let take = gen_read_decode(&p.ty, "rdr", types);
        assert_eq!(put.matches("wrt.write_u64(").count(), width, "{put}");
        assert_eq!(take.matches("rdr.read_u64()").count(), width, "{take}");
        let put = gen_write_return(&p.ty, "v", "wrt", types);
        let take = gen_read_receive(&p.ty, "rdr", types);
        assert_eq!(put.matches("wrt.write_u64(").count(), width, "{put}");
        assert_eq!(take.matches("rdr.read_u64()").count(), width, "{take}");
    }
}
