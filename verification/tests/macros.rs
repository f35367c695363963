use dynspire::dispatch::{
    parse_dispatch_attrs, spier_dispatch, spier_storage, AttrToken, ImplItem, InitItem,
};
use dynspire::expand::{
    build_canonical_sig, clean_type_str, extract_ok_type, modulo_interface,
    parse_extra_enum_names, MethodItem, TraitItem, TypedInput,
};
use dynspire::slotgen::{
    can_number, extract_discriminants, slot_enum, slot_struct, FieldItem, TypeItem, VariantFields,
    VariantItem,
};
use dynspire::typetable::{gen_node, IdlKind, IdlTypeNode, RustType, Shape, TypeTableBuilder};

fn path(text: &str) -> RustType {
    RustType { text: text.to_string(), shape: Shape::Path(text.to_string(), true, None) }
}

fn generic(name: &str, arg: RustType, text: &str) -> RustType {
    RustType {
        text: text.to_string(),
        shape: Shape::Path(name.to_string(), true, Some(Box::new(arg))),
    }
}

fn bytes() -> RustType {
    let slice = RustType { text: "[u8]".into(), shape: Shape::Slice(Box::new(path("u8"))) };
    RustType { text: "& [u8]".into(), shape: Shape::Reference(false, Box::new(slice)) }
}

fn result_of(ty: RustType) -> RustType {
    let text = format!("Result < {} , String >", ty.text);
    generic("Result", ty, &text)
}

fn input(name: &str, ty: RustType) -> TypedInput {
    TypedInput { name: Some(name.to_string()), ty }
}

fn method(name: &str, inputs: Vec<TypedInput>, output: Option<RustType>) -> MethodItem {
    MethodItem { name: name.to_string(), inputs, output }
}

fn rle() -> TraitItem {
    TraitItem {
        head: "pub trait RleEngine".into(),
        name: "RleEngine".into(),
        supertraits: vec!["Clone".into()],
        body: "{ }".into(),
        methods: vec![
            method(
                "compress",
                vec![input("data", bytes())],
                Some(result_of(generic("Vec", path("u8"), "Vec < u8 >"))),
            ),
            method("run_count", vec![], Some(result_of(path("u64")))),
            method("describe", vec![input("report", path("Report"))], None),
        ],
    }
}

#[test]
fn canonical_signature_has_no_blanks() {
    let item = rle();
    assert_eq!(
        build_canonical_sig(&item.name, &item.methods),
        "RleEngine{compress(&[u8])->Result<Vec<u8>,String>,\
         run_count()->Result<u64,String>,describe(Report)->()}"
    );
    assert_eq!(clean_type_str("Vec < u8 >"), "Vec<u8>");
}

#[test]
fn ok_types() {
    assert!(extract_ok_type(&result_of(path("u64"))).map(|t| t.text == "u64").unwrap_or(false));
    assert!(extract_ok_type(&path("Result")).is_none());
    assert!(extract_ok_type(&generic("Option", path("u8"), "Option<u8>")).is_none());
    assert!(extract_ok_type(&bytes()).is_none());
}

#[test]
fn extra_enum_names() {
    assert_eq!(parse_extra_enum_names("enums(Value)"), vec!["Value"]);
    assert_eq!(parse_extra_enum_names(" x, enums(Value, ValueType ,) "), vec!["Value", "ValueType"]);
    assert!(parse_extra_enum_names("").is_empty());
    assert!(parse_extra_enum_names("enum(Value)").is_empty());
    assert!(parse_extra_enum_names("enums()").is_empty());
}

#[test]
fn interface_expansion() {
    let code = modulo_interface("enums(Value)", &rle());
    assert!(code.starts_with(
        "#[allow(dead_code)]\npub trait RleEngine: Clone + Send + Sync { }\n\n\
         pub const RLE_IDL_HASH: u64 = "
    ));
    assert!(code.contains("pub enum RleOp {\n    Compress = 0,\n    RunCount = 1,\n    Describe = 2,\n}"));
    assert!(code.contains("            1 => Some(Self::RunCount),\n"));
    assert!(code.contains("pub const METHODS: &[&str] = &[\"compress\", \"run_count\", \"describe\"];"));
    assert!(code.contains(
        "name: b\"compress\\0\".as_ptr(), name_len: \"compress\".len(), \
         params: [dynspire::ffi::IdlParam { name: b\"data\\0\".as_ptr(), name_len: \"data\".len(), \
         type_idx: 1 }].as_ptr(), param_count: 1, return_type_idx: 3, _pad: [0; 4]"
    ));
    assert!(code.contains(
        "name: b\"run_count\\0\".as_ptr(), name_len: \"run_count\".len(), \
         params: std::ptr::null(), param_count: 0, return_type_idx: 4, _pad: [0; 4]"
    ));
    assert!(code.contains("&(super::__SLOT_ENUM_DESCRIPTOR_Value),"));
    assert!(code.contains("&(super::__SLOT_STRUCT_DESCRIPTOR_Report),"));
    assert!(code.contains(
        "pub static __SLOT_STRUCT_DESCRIPTOR_Report: dynspire::ffi::StructDescriptor = \
         dynspire::ffi::StructDescriptor {\n    name: b\"Report\\0\".as_ptr(),\n    name_len: 6,\n};"
    ));
    assert!(code.contains("        type_count: 7,\n"));
    assert!(code.contains("        method_count: 3,\n"));
    assert!(code.contains("        enum_count: 1,\n"));
    assert!(code.contains("        struct_count: 1,\n"));
    assert!(code.contains(
        "        3 => {\n            let _: Vec < u8 > = \
         dynspire::slots::SlotReceive::from_slots(&mut r);\n        }\n"
    ));
    assert!(code.contains("        6 => {\n            let _: () = "));
}

#[test]
fn prefix_without_suffix_is_the_whole_name() {
    let mut item = rle();
    item.name = "Codec".into();
    let code = modulo_interface("", &item);
    assert!(code.contains("pub const CODEC_IDL_HASH: u64 = "));
    assert!(code.contains("pub enum CodecOp {"));
    assert!(code.contains("        enum_count: 0,\n"));
}

#[test]
fn blanks_do_not_change_the_hash() {
    let hash = |item: &TraitItem| {
        let code = modulo_interface("", item);
        let at = code.find("IDL_HASH: u64 = ").unwrap();
        code[at..at + code[at..].find(';').unwrap()].to_string()
    };
    let a = rle();
    let mut b = rle();
    b.methods[0].inputs[0].ty.text = "&[ u8 ]".into();
    assert_eq!(hash(&a), hash(&b));
    b.methods[0].inputs[0].ty.text = "&[u16]".into();
    assert_ne!(hash(&a), hash(&b));
}

#[test]
fn type_table_nodes() {
    let mut t = TypeTableBuilder::new();
    let pair = RustType {
        text: "(u8, Vec<bool>)".into(),
        shape: Shape::Tuple(vec![path("u8"), generic("Vec", path("bool"), "Vec<bool>")]),
    };
    assert_eq!(t.add(&pair), 3);
    assert_eq!(t.nodes[0].kind, IdlKind::U8);
    assert_eq!(t.nodes[1].kind, IdlKind::Bool);
    assert_eq!(t.nodes[2].kind, IdlKind::Vec);
    assert_eq!(t.nodes[2].child0, Some(1));
    assert_eq!(t.nodes[3].kind, IdlKind::Tuple);
    assert_eq!((t.nodes[3].child0, t.nodes[3].child1), (Some(0), Some(2)));

    let s1 = t.add(&path("Report"));
    let s2 = t.add(&path("Report"));
    assert_ne!(s1, s2);
    assert_eq!(t.struct_type_names, vec!["Report"]);
    assert_eq!(t.nodes[s2].child0, Some(0));
    t.add(&path("Value"));
    assert_eq!(t.enum_type_names, vec!["Value"]);

    let kinds = [
        ("u64", IdlKind::U64),
        ("i8", IdlKind::U8),
        ("i16", IdlKind::U32),
        ("u32", IdlKind::U32),
        ("usize", IdlKind::U64),
        ("f32", IdlKind::F32),
        ("f64", IdlKind::F64),
        ("String", IdlKind::String),
    ];
    for (name, kind) in kinds {
        let i = t.add(&path(name));
        assert_eq!(t.nodes[i].kind, kind, "{name}");
    }
}

#[test]
fn type_table_references() {
    let mut t = TypeTableBuilder::new();
    let str_ref =
        RustType { text: "&str".into(), shape: Shape::Reference(false, Box::new(path("str"))) };
    let i = t.add(&str_ref);
    assert_eq!(t.nodes[i].kind, IdlKind::Str);
    let i = t.add(&bytes());
    assert_eq!(t.nodes[i].kind, IdlKind::Slice);
    let vec = generic("Vec", path("u8"), "Vec<u8>");
    let out =
        RustType { text: "&mut Vec<u8>".into(), shape: Shape::Reference(true, Box::new(vec)) };
    let i = t.add(&out);
    assert_eq!(t.nodes[i].kind, IdlKind::OutVec);
    let array = RustType { text: "[u8; 16]".into(), shape: Shape::Array(Box::new(path("u8")), 16) };
    let i = t.add(&array);
    assert_eq!(t.nodes[i].kind, IdlKind::Array);
    assert_eq!(t.nodes[i].size, 16);
    let other = RustType { text: "fn()".into(), shape: Shape::Other };
    let i = t.add(&other);
    assert_eq!(t.nodes[i].kind, IdlKind::Unit);
}

#[test]
fn node_text() {
    let n = IdlTypeNode { kind: IdlKind::Array, size: 16, child0: Some(2), child1: None };
    assert_eq!(
        gen_node(n),
        "dynspire::ffi::IdlTypeNode { kind: dynspire::ffi::IDL_ARRAY, _pad: [0; 3], size: 16, \
         child0: 2, child1: -1 }"
    );
}

fn ident(s: &str) -> AttrToken {
    AttrToken::Ident(s.to_string())
}

fn dispatch_tokens() -> Vec<AttrToken> {
    vec![
        ident("name"),
        AttrToken::Punct('='),
        AttrToken::Literal("\"rle\"".into()),
        AttrToken::Punct(','),
        ident("idl"),
        AttrToken::Punct('='),
        ident("my_idl"),
        AttrToken::Punct(':'),
        AttrToken::Punct(':'),
        ident("MY_IDL_HASH"),
    ]
}

#[test]
fn dispatch_arguments() {
    let a = parse_dispatch_attrs(&dispatch_tokens());
    assert_eq!(a.name, "b\"rle\\0\"");
    assert_eq!(a.idl, "my_idl::MY_IDL_HASH");

    let none = parse_dispatch_attrs(&vec![]);
    assert_eq!(none.name, "b\"unknown\\0\"");
    assert_eq!(none.idl, "0u64");

    let cut = parse_dispatch_attrs(&vec![ident("idl"), AttrToken::Punct('=')]);
    assert_eq!(cut.idl, "");

    let group = parse_dispatch_attrs(&vec![
        ident("idl"),
        AttrToken::Punct('='),
        ident("unsafe"),
        AttrToken::Group("{ H }".into()),
        AttrToken::Punct(','),
        ident("name"),
        AttrToken::Punct('='),
        ident("x"),
    ]);
    assert_eq!(group.idl, "unsafe { H }");
    assert_eq!(group.name, "b\"unknown\\0\"");
}

fn rle_impl() -> ImplItem {
    let mut methods = rle().methods;
    methods.truncate(2);
    ImplItem {
        text: "impl RleEngine for RleState { }".into(),
        trait_path: Some("RleEngine".into()),
        state_type: "RleState".into(),
        methods,
    }
}

#[test]
fn dispatch_expansion() {
    let code = spier_dispatch(&dispatch_tokens(), &rle_impl()).unwrap();
    assert!(code.starts_with("impl RleEngine for RleState { }\n"));
    assert!(code.contains("-> u64 {\n    my_idl::MY_IDL_HASH\n}"));
    assert!(code.contains("    b\"rle\\0\".as_ptr()\n"));
    assert!(code.contains("    my_idl::idl_schema()\n"));
    assert!(code.contains("pub unsafe extern \"C\" fn dynspire_dispatch_compress("));
    assert!(code.contains("    let data: & [u8] = dynspire::slots::decode_param(&mut reader);\n"));
    assert!(code.contains("let _result = <RleState as RleEngine>::compress(state, data);"));
    assert!(code.contains("let _result = <RleState as RleEngine>::run_count(state);"));
    assert_eq!(code.matches("SlotReader::new(in_data)").count(), 1);
}

#[test]
fn schema_call_follows_the_hash_path() {
    let code = spier_dispatch(
        &vec![ident("idl"), AttrToken::Punct('='), ident("HASH")],
        &rle_impl(),
    )
    .unwrap();
    assert!(code.contains("{\n    idl_schema()\n}"));
}

#[test]
fn dispatch_refusals() {
    let mut item = rle_impl();
    item.methods.push(method("describe", vec![], None));
    assert_eq!(
        spier_dispatch(&vec![], &item),
        Err("dispatch methods must return Result<T, String>".to_string())
    );
    item.trait_path = None;
    assert_eq!(
        spier_dispatch(&vec![], &item),
        Err("#[spier_dispatch] expects impl Trait for State".to_string())
    );
}

#[test]
fn storage_expansion() {
    let mut item = InitItem {
        vis: "".into(),
        text: "fn init() { }".into(),
        name: "init".into(),
        output: Some(result_of(path("RleState"))),
    };
    let code = spier_storage(&item).unwrap();
    assert!(code.contains("match init(&config) {"));
    assert!(code.contains("drop(Box::from_raw(handle as *mut RleState));"));
    assert!(code.contains("eprintln!(\"spier init failed: {e}\");"));
    item.output = Some(path("RleState"));
    assert_eq!(
        spier_storage(&item),
        Err("init function must return Result<StateType, String>".to_string())
    );
    item.output = None;
    assert!(spier_storage(&item).is_err());
}

fn variant(name: &str, explicit: Option<i64>, fields: VariantFields) -> VariantItem {
    VariantItem { name: name.to_string(), explicit, fields }
}

fn field(name: Option<&str>, ty: RustType) -> FieldItem {
    FieldItem { ident: name.map(|s| s.to_string()), ty }
}

fn value_item() -> TypeItem {
    TypeItem {
        text: "pub enum Value { }".into(),
        name: "Value".into(),
        impl_generics: "".into(),
        ty_generics: "".into(),
        where_clause: "".into(),
    }
}

fn value_variants() -> Vec<VariantItem> {
    vec![
        variant("Text", None, VariantFields::Unnamed(vec![field(None, path("String"))])),
        variant("Null", Some(7), VariantFields::Unit),
        variant(
            "Pair",
            None,
            VariantFields::Named(vec![
                field(Some("a"), path("u8")),
                field(Some("b"), path("u64")),
            ]),
        ),
    ]
}

#[test]
fn discriminants_count_on() {
    assert_eq!(extract_discriminants(&value_variants()), vec![0, 7, 8]);
    assert!(can_number(&value_variants()));
    let top = vec![variant("Top", Some(i64::MAX), VariantFields::Unit)];
    assert!(!can_number(&top));
}

#[test]
fn enum_expansion() {
    let code = slot_enum(&value_item(), &value_variants());
    assert!(code.contains("            Value::Null => { w.write_u64(7); }\n"));
    assert!(code.contains("            7 => Value::Null,\n"));
    assert!(code.contains("            Value::Text(ref f0) => {\n                w.write_u64(0);\n"));
    assert!(code.contains("<String as dynspire::slots::SlotEncode>::encode(f0, w);\n"));
    assert!(code.contains("            0 => Value::Text(<String as dynspire::slots::SlotDecode>::decode(r)),\n"));
    assert!(code.contains("            Value::Pair { ref a, ref b } => {\n                w.write_u64(8);\n"));
    assert!(code.contains("            Value::Pair { a, b } => {\n"));
    assert!(code.contains("<u64 as dynspire::slots::SlotReturn>::into_slots(b, w);\n"));
    assert!(code.contains(
        "            8 => Value::Pair { a: <u8 as dynspire::slots::SlotReceive>::from_slots(r), \
         b: <u64 as dynspire::slots::SlotReceive>::from_slots(r) },\n"
    ));
    assert!(code.contains("pub static __SLOT_ENUM_FIELD_TYPES_Value: &[u32] = &[0, 1, 2];"));
    assert!(code.contains(
        "        disc: 8,\n        name: b\"Pair\\0\".as_ptr(),\n        name_len: \"Pair\".len(),\n        \
         field_count: 2,\n        field_type_offset: 1,\n"
    ));
    assert!(code.contains("    variant_count: 3,\n"));
    assert!(code.contains("    field_type_count: 3,\n"));
    assert!(code.contains("_ => panic!(\"invalid discriminant for {}\", stringify!(Value)),"));
}

#[test]
fn struct_expansion() {
    let mut item = value_item();
    item.name = "Stmt".into();
    item.impl_generics = "<T>".into();
    item.ty_generics = "<T>".into();
    item.where_clause = "where T: Clone".into();
    let code = slot_struct(&item);
    assert!(code.contains("impl<T> dynspire::slots::SlotEncode for Stmt<T> where T: Clone {"));
    assert!(code.contains("w.write_u64(Box::into_raw(Box::new(self)) as u64);"));
    assert!(code.contains("*Box::from_raw(r.read_u64() as *mut Self)"));
}
