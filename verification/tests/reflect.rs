use dynspire::marshal::{
    arrange, decode_reply, decode_value, encode_call, encode_value, has_outvec, is_callable,
    sound_types, write_pieces, Arg, ArgForm, Buffer, DecodeError, EncodeError, Passed, Piece, Reply,
    Source, Value, Wanted,
};
use dynspire::reflect::{
    can_merge, check_variant, enum_by_name, enum_class_repr, enum_schema_repr, enum_value_repr,
    find_method, kind_name, lib_repr, method_sig, opaque_repr, parse_schema, schema_type_str,
    struct_id_at, struct_name_at, type_at, MethodInfo, ParamInfo, RawEnum, RawSchema, RawVariant,
    SchemaData, TypeNode,
};
use dynspire::slots::{SlotReader, SlotWriter};
use dynspire::typetable::IdlKind;

fn node(kind: IdlKind, child0: i32, child1: i32) -> TypeNode {
    TypeNode { code: kind as u8, kind: Some(kind), size: 0, child0, child1 }
}

fn param(name: &str, type_idx: u32) -> ParamInfo {
    ParamInfo { name: name.to_string(), type_idx }
}

const U8: u32 = 0;
const BYTES: u32 = 1;
const U64: u32 = 2;
const PAIR: u32 = 3;
const REPORT: u32 = 4;
const OUT: u32 = 5;
const VALUE: u32 = 6;
const OPT: u32 = 7;
const TEXT: u32 = 8;
const VEC: u32 = 9;
const VEC_VEC: u32 = 10;
const VEC_TEXT: u32 = 11;
const VEC_U64: u32 = 12;
const UNIT: u32 = 13;
const BOOL: u32 = 14;
const F32: u32 = 15;
const OTHER: u32 = 16;
const ARRAY: u32 = 17;
const SLICE_U64: u32 = 18;
const U32: u32 = 19;
const F64: u32 = 20;

fn types() -> Vec<TypeNode> {
    vec![
        node(IdlKind::U8, -1, -1),
        node(IdlKind::Slice, 0, -1),
        node(IdlKind::U64, -1, -1),
        node(IdlKind::Tuple, 2, 0),
        node(IdlKind::Struct, 0, -1),
        node(IdlKind::OutVec, -1, -1),
        node(IdlKind::Enum, 0, -1),
        node(IdlKind::Option, 2, -1),
        node(IdlKind::String, -1, -1),
        node(IdlKind::Vec, 0, -1),
        node(IdlKind::Vec, 9, -1),
        node(IdlKind::Vec, 8, -1),
        node(IdlKind::Vec, 2, -1),
        node(IdlKind::Unit, -1, -1),
        node(IdlKind::Bool, -1, -1),
        node(IdlKind::F32, -1, -1),
        node(IdlKind::Struct, 1, -1),
        node(IdlKind::Array, 0, -1),
        node(IdlKind::Slice, 2, -1),
        node(IdlKind::U32, -1, -1),
        node(IdlKind::F64, -1, -1),
    ]
}

fn raw() -> RawSchema {
    RawSchema {
        hash: 0xabc,
        types: types(),
        methods: vec![
            MethodInfo {
                name: "compress".into(),
                params: vec![param("data", BYTES)],
                return_type_idx: PAIR,
            },
            MethodInfo {
                name: "fill".into(),
                params: vec![param("n", U64), param("out", OUT), param("tag", U8)],
                return_type_idx: REPORT,
            },
        ],
        struct_names: vec!["Report".into()],
        enums: vec![
            None,
            Some(RawEnum {
                name: "Value".into(),
                types: vec![node(IdlKind::U64, -1, -1), node(IdlKind::Option, 0, -1)],
                field_types: vec![0, 1, 0],
                variants: vec![
                    RawVariant {
                        name: "Null".into(),
                        disc: 3,
                        field_count: 0,
                        field_type_offset: 0,
                    },
                    RawVariant {
                        name: "Both".into(),
                        disc: 9,
                        field_count: 2,
                        field_type_offset: 1,
                    },
                    RawVariant {
                        name: "Bad".into(),
                        disc: 10,
                        field_count: 2,
                        field_type_offset: 2,
                    },
                ],
            }),
        ],
    }
}

fn schema() -> SchemaData {
    let r = raw();
    assert!(can_merge(&r));
    let s = parse_schema(r, "rle".into());
    assert!(s.methods.iter().all(|m| is_callable(&s, m)));
    s
}

#[test]
fn enum_tables_are_appended() {
    let s = schema();
    assert_eq!(s.hash, 0xabc);
    assert_eq!(s.name, "rle");
    assert_eq!(s.types.len(), 23);
    assert_eq!(s.types[21].kind, Some(IdlKind::U64));
    assert_eq!(s.types[22].child0, 21);
    assert_eq!(s.types[22].child1, -1);
    assert_eq!(s.enums.len(), 1);
    assert_eq!(s.enums[0].name, "Value");
    let fields: Vec<Vec<u32>> =
        s.enums[0].variants.iter().map(|v| v.field_type_idxs.clone()).collect();
    assert_eq!(fields, vec![vec![], vec![22, 21], vec![]]);
}

#[test]
fn references_out_of_range_are_noticed() {
    let mut r = raw();
    r.enums[1].as_mut().unwrap().types[1].child0 = i32::MAX;
    assert!(!can_merge(&r));
    let mut r = raw();
    r.enums[1].as_mut().unwrap().field_types[0] = u32::MAX;
    assert!(!can_merge(&r));
    let mut s = schema();
    s.types[BYTES as usize].child0 = -1;
    assert!(!is_callable(&s, &s.methods[0]));
    let mut s = schema();
    s.methods[0].return_type_idx = 99;
    assert!(!is_callable(&s, &s.methods[0]));
    let mut s = schema();
    s.methods[0].params[0].type_idx = 99;
    assert!(!is_callable(&s, &s.methods[0]));
    let mut s = schema();
    s.methods[0].return_type_idx = VALUE;
    assert!(is_callable(&s, &s.methods[0]));
    s.enums[0].variants[1].field_type_idxs[0] = 99;
    assert!(!is_callable(&s, &s.methods[0]));
}

#[test]
fn what_no_call_reaches_does_not_matter() {
    let mut s = schema();
    let bad = s.types.len();
    s.types.push(TypeNode { kind: Some(IdlKind::Option), child0: 77, ..s.types[PAIR as usize] });
    s.types.push(TypeNode { kind: Some(IdlKind::Slice), child0: -1, ..s.types[PAIR as usize] });
    assert!(s.methods.iter().all(|m| is_callable(&s, m)));
    let read = sound_types(&s, true);
    let written = sound_types(&s, false);
    assert!(!read[bad] && written[bad]);
    assert!(read[bad + 1] && !written[bad + 1]);
    assert!(read[PAIR as usize] && written[PAIR as usize]);
}

#[test]
fn parts_of_a_tuple_may_stand_behind_it() {
    let mut s = schema();
    let n = s.types.len() as i32;
    s.types.push(TypeNode { child0: n + 1, child1: n + 1, ..s.types[PAIR as usize] });
    s.types.push(TypeNode { child0: U64 as i32, child1: U8 as i32, ..s.types[PAIR as usize] });
    assert!(sound_types(&s, true)[n as usize]);
    let out = [1u64, 2, 3, 4];
    let mut r = SlotReader::new(&out);
    match decode_value(&s, n as u32, &mut r) {
        Ok(Value::Pair(a, b)) => {
            assert!(matches!(*a, Value::Pair(_, _)));
            assert!(matches!(*b, Value::Pair(_, _)));
        }
        _ => panic!("no pair"),
    }
    assert_eq!(r.remaining(), 0);
    s.types[n as usize + 1].child1 = n;
    let read = sound_types(&s, true);
    assert!(!read[n as usize] && !read[n as usize + 1]);
}

#[test]
fn type_texts() {
    let s = schema();
    assert_eq!(schema_type_str(&s, BYTES).unwrap(), "Slice<U8>");
    assert_eq!(schema_type_str(&s, PAIR).unwrap(), "Tuple<U64, U8>");
    assert_eq!(schema_type_str(&s, REPORT).unwrap(), "Struct<Report>");
    assert_eq!(schema_type_str(&s, OTHER).unwrap(), "Struct<?>");
    assert_eq!(schema_type_str(&s, 99).unwrap(), "?");
    assert_eq!(kind_name(Some(IdlKind::OutVec)), "OutVec");
    assert_eq!(kind_name(None), "?");
    let mut circle = schema();
    circle.types[OPT as usize].child0 = OPT as i32;
    assert!(schema_type_str(&circle, OPT).is_none());
}

#[test]
fn signatures() {
    let s = schema();
    assert_eq!(
        method_sig(&s, "compress").unwrap().unwrap(),
        "compress(data: Slice<U8>) -> Result<Tuple<U64, U8>, String>"
    );
    assert_eq!(
        method_sig(&s, "fill").unwrap().unwrap(),
        "fill(n: U64, out: OutVec, tag: U8) -> Result<Struct<Report>, String>"
    );
    assert_eq!(method_sig(&s, "none"), Err("unknown method: none".to_string()));
    assert_eq!(find_method(&s, "fill"), Ok(1));
    assert!(find_method(&s, "none").is_err());
}

#[test]
fn lookups() {
    let s = schema();
    assert_eq!(struct_id_at(&s, REPORT), Some(0));
    assert_eq!(struct_id_at(&s, U8), None);
    assert_eq!(struct_id_at(&s, 99), None);
    assert_eq!(struct_name_at(&s, REPORT), "Report");
    assert_eq!(struct_name_at(&s, OTHER), "OpaqueValue");
    assert_eq!(struct_name_at(&s, U8), "OpaqueValue");
    assert!(type_at(&s, 0).is_ok());
    assert_eq!(type_at(&s, 99).err().unwrap(), "type index 99 out of range");
    assert_eq!(enum_by_name(&s, "Value").unwrap(), vec!["Null", "Both", "Bad"]);
    assert_eq!(enum_by_name(&s, "None"), Err("unknown enum: None".to_string()));
    let names = enum_by_name(&s, "Value").unwrap();
    assert_eq!(check_variant(&names, "Both"), Ok(()));
    assert_eq!(check_variant(&names, "no\"pe"), Err("enum has no variant \"no\\\"pe\"".to_string()));
}

#[test]
fn display_texts() {
    let s = schema();
    let names = vec!["A".to_string(), "B".to_string()];
    assert_eq!(lib_repr("rle", 0xabc), "<SpierLib rle hash=0x0000000000000abc>");
    assert_eq!(enum_class_repr(&names), "<SpierEnumClass [A, B]>");
    assert_eq!(enum_schema_repr("Value", &names), "<SpierEnumSchema \"Value\" [A, B]>");
    assert_eq!(opaque_repr(&s, REPORT, 0xff), "<Report 0xff>");
    assert_eq!(enum_value_repr("A", "(1,)"), "SpierEnumValue(\"A\", (1,))");
}

fn plain() -> Arg {
    Arg {
        id: 0,
        truth: None,
        word32: None,
        word64: None,
        bits32: None,
        bits64: None,
        text: None,
        bytes: None,
        bytes_list: None,
        form: ArgForm::Other("int".into()),
    }
}

fn number(n: u64) -> Arg {
    Arg {
        truth: Some(n != 0),
        word32: if n <= u32::MAX as u64 { Some(n as u32) } else { None },
        word64: Some(n),
        ..plain()
    }
}

fn enum_arg(variant: &str, fields: Vec<Arg>) -> Arg {
    Arg { form: ArgForm::Enum(variant.to_string(), fields), ..plain() }
}

fn words(r: Result<Vec<Piece<'_>>, EncodeError>) -> Vec<u64> {
    r.ok()
        .unwrap()
        .iter()
        .map(|p| match p {
            Piece::Word(w) => *w,
            _ => panic!("not a word"),
        })
        .collect()
}

fn value_error(r: Result<Vec<Piece<'_>>, EncodeError>) -> String {
    match r {
        Err(EncodeError::Value(s)) => s,
        _ => panic!("no value error"),
    }
}

fn type_error(r: Result<Vec<Piece<'_>>, EncodeError>) -> String {
    match r {
        Err(EncodeError::Type(s)) => s,
        _ => panic!("no type error"),
    }
}

#[test]
fn scalar_arguments() {
    let s = schema();
    assert_eq!(words(encode_value(&s, U8, &number(0x1ff))), vec![0xff]);
    assert_eq!(words(encode_value(&s, U32, &number(7))), vec![7]);
    assert_eq!(words(encode_value(&s, U64, &number(1 << 40))), vec![1 << 40]);
    assert_eq!(words(encode_value(&s, BOOL, &number(5))), vec![1]);
    assert_eq!(words(encode_value(&s, BOOL, &number(0))), vec![0]);
    assert_eq!(words(encode_value(&s, UNIT, &number(5))), vec![]);
    let f = Arg { bits32: Some(1.5f32.to_bits()), bits64: Some(1.5f64.to_bits()), ..plain() };
    assert_eq!(words(encode_value(&s, F32, &f)), vec![1.5f32.to_bits() as u64]);
    assert_eq!(words(encode_value(&s, F64, &f)), vec![1.5f64.to_bits()]);
    assert!(matches!(
        encode_value(&s, U32, &number(1 << 40)),
        Err(EncodeError::Conversion(0, Wanted::Word32))
    ));
    let named = |id: usize| Arg { id, ..plain() };
    let wanted = |t: u32, id: usize| match encode_value(&s, t, &named(id)) {
        Err(EncodeError::Conversion(i, w)) => (i, w),
        _ => panic!("converted"),
    };
    assert_eq!(wanted(BOOL, 1), (1, Wanted::Truth));
    assert_eq!(wanted(U8, 2), (2, Wanted::Word32));
    assert_eq!(wanted(U64, 3), (3, Wanted::Word64));
    assert_eq!(wanted(F32, 4), (4, Wanted::Bits32));
    assert_eq!(wanted(F64, 5), (5, Wanted::Bits64));
    assert_eq!(wanted(BYTES, 6), (6, Wanted::Bytes));
}

#[test]
fn buffer_arguments() {
    let s = schema();
    let b = Arg {
        text: Some("hi".into()),
        bytes: Some(vec![1, 2]),
        bytes_list: Some(vec![vec![3]]),
        ..plain()
    };
    assert!(matches!(encode_value(&s, TEXT, &b).ok().unwrap()[..], [Piece::Text(t)] if t == "hi"));
    assert!(matches!(encode_value(&s, BYTES, &b).ok().unwrap()[..], [Piece::Bytes(v)] if v == &vec![1, 2]));
    assert!(matches!(encode_value(&s, VEC, &b).ok().unwrap()[..], [Piece::Bytes(_)]));
    assert!(matches!(encode_value(&s, VEC_VEC, &b).ok().unwrap()[..], [Piece::BytesList(_)]));
    assert_eq!(value_error(encode_value(&s, SLICE_U64, &b)), "only &[u8] slices supported");
    assert_eq!(
        value_error(encode_value(&s, VEC_U64, &b)),
        format!("unsupported Vec element kind {}", IdlKind::U64 as u8)
    );
    assert_eq!(
        value_error(encode_value(&s, ARRAY, &b)),
        format!("unsupported input type kind {}", IdlKind::Array as u8)
    );
}

#[test]
fn struct_arguments() {
    let s = schema();
    let h = Arg { form: ArgForm::Handle(REPORT, 77), ..plain() };
    assert_eq!(words(encode_value(&s, REPORT, &h)), vec![77]);
    assert_eq!(type_error(encode_value(&s, OTHER, &h)), "expected OpaqueValue, got Report");
    assert_eq!(
        type_error(encode_value(&s, REPORT, &number(1))),
        "expected Report (OpaqueHandle), got int"
    );
    assert_eq!(
        type_error(encode_value(&s, REPORT, &enum_arg("A", vec![]))),
        "expected Report (OpaqueHandle), got SpierEnumValue"
    );
}

#[test]
fn enum_arguments() {
    let mut s = schema();
    s.types[22] = node(IdlKind::U8, -1, -1);
    assert_eq!(words(encode_value(&s, VALUE, &enum_arg("Null", vec![]))), vec![3]);
    assert_eq!(
        words(encode_value(&s, VALUE, &enum_arg("Both", vec![number(300), number(5)]))),
        vec![9, 44, 5]
    );
    assert_eq!(
        value_error(encode_value(&s, VALUE, &enum_arg("Nope", vec![]))),
        "enum Value has no variant \"Nope\""
    );
    assert_eq!(
        value_error(encode_value(&s, VALUE, &enum_arg("Both", vec![number(1)]))),
        "variant \"Both\" expects 2 field(s), got 1"
    );
    assert!(matches!(
        encode_value(&s, VALUE, &number(1)),
        Err(EncodeError::Conversion(0, Wanted::Enum))
    ));
    let field = Arg { id: 8, ..plain() };
    assert!(matches!(
        encode_value(&s, VALUE, &enum_arg("Both", vec![number(1), field])),
        Err(EncodeError::Conversion(8, Wanted::Word64))
    ));
    s.types[VALUE as usize].child0 = -1;
    assert_eq!(
        value_error(encode_value(&s, VALUE, &enum_arg("Null", vec![]))),
        "enum index -1 out of range"
    );
}

fn decode(s: &SchemaData, idx: u32, slots: &[u64]) -> (Result<Value, DecodeError>, usize) {
    let mut r = SlotReader::new(slots);
    let v = decode_value(s, idx, &mut r);
    let left = r.remaining();
    (v, left)
}

#[test]
fn decoded_scalars() {
    let s = schema();
    assert!(matches!(decode(&s, UNIT, &[]), (Ok(Value::Nothing), 0)));
    assert!(matches!(decode(&s, BOOL, &[2, 1]), (Ok(Value::Bool(true)), 1)));
    assert!(matches!(decode(&s, U8, &[0x1ff]), (Ok(Value::Int(0xff)), 0)));
    assert!(matches!(decode(&s, U64, &[5]), (Ok(Value::Int(5)), 0)));
    assert!(matches!(decode(&s, F32, &[1 << 32 | 6]), (Ok(Value::Float32(6)), 0)));
    assert!(matches!(decode(&s, F64, &[6]), (Ok(Value::Float64(6)), 0)));
    assert!(matches!(decode(&s, REPORT, &[6]), (Ok(Value::Handle(REPORT, 6)), 0)));
    assert!(matches!(decode(&s, OPT, &[0, 9]), (Ok(Value::Nothing), 1)));
    assert!(matches!(decode(&s, OPT, &[1, 9]), (Ok(Value::Int(9)), 0)));
    assert!(matches!(decode(&s, U64, &[]), (Err(DecodeError::Exhausted), 0)));
    match decode(&s, PAIR, &[5, 6, 7]) {
        (Ok(Value::Pair(a, b)), 1) => {
            assert!(matches!((*a, *b), (Value::Int(5), Value::Int(6))));
        }
        _ => panic!("no pair"),
    }
    match decode(&s, ARRAY, &[1]) {
        (Err(DecodeError::Value(m)), _) => {
            assert_eq!(m, format!("unsupported return type kind {}", IdlKind::Array as u8))
        }
        _ => panic!("an array was decoded"),
    }
}

#[test]
fn decoded_buffers() {
    let s = schema();
    let b = Buffer { ptr: 100, len: 4 };
    assert!(matches!(decode(&s, TEXT, &[100, 4]), (Ok(Value::Text(Some(x))), 0) if x == b));
    assert!(matches!(decode(&s, TEXT, &[0, 4]), (Ok(Value::Text(None)), 0)));
    assert!(matches!(decode(&s, VEC, &[100, 4]), (Ok(Value::Bytes(Some(x))), 0) if x == b));
    assert!(matches!(decode(&s, VEC, &[100, 0]), (Ok(Value::Bytes(None)), 0)));
    assert!(matches!(decode(&s, VEC_VEC, &[100, 4]), (Ok(Value::BytesList(Some(_))), 0)));
    assert!(matches!(decode(&s, VEC_TEXT, &[100, 4]), (Ok(Value::TextList(Some(_))), 0)));
    assert!(matches!(decode(&s, VEC, &[100]), (Err(DecodeError::Exhausted), _)));
    match decode(&s, VEC_U64, &[100, 4]) {
        (Err(DecodeError::Value(m)), 2) => {
            assert_eq!(m, format!("unsupported Vec element kind {}", IdlKind::U64 as u8))
        }
        _ => panic!("a vector of numbers was decoded"),
    }
}

#[test]
fn decoded_enums() {
    let s = schema();
    match decode(&s, VALUE, &[9, 1, 5, 6, 7]) {
        (Ok(Value::Enum(name, fields)), 1) => {
            assert_eq!(name, "Both");
            assert!(matches!(fields[..], [Value::Int(5), Value::Int(6)]));
        }
        _ => panic!("no enum value"),
    }
    match decode(&s, VALUE, &[4]) {
        (Err(DecodeError::Value(m)), _) => assert_eq!(m, "enum Value unknown discriminant 4"),
        _ => panic!("an unknown discriminant was decoded"),
    }
    assert!(matches!(decode(&s, VALUE, &[9, 1]), (Err(DecodeError::Exhausted), _)));
}

#[test]
fn words_come_back() {
    let mut s = schema();
    s.types[22] = node(IdlKind::U8, -1, -1);
    let arg = enum_arg("Both", vec![number(300), number(5)]);
    let mut slots = words(encode_value(&s, VALUE, &arg));
    slots.push(99);
    match decode(&s, VALUE, &slots) {
        (Ok(Value::Enum(name, fields)), 1) => {
            assert_eq!(name, "Both");
            assert!(matches!(fields[..], [Value::Int(44), Value::Int(5)]));
        }
        _ => panic!("no enum value"),
    }
}

fn passed(argc: usize, keywords: &[&str], dict: Option<&[&str]>) -> Passed {
    let list = |v: &[&str]| v.iter().map(|s| s.to_string()).collect::<Vec<_>>();
    Passed { argc, keywords: list(keywords), dict: dict.map(list) }
}

#[test]
fn argument_sources() {
    let s = schema();
    let fill = &s.methods[1];
    let compress = &s.methods[0];
    assert!(has_outvec(&s, fill));
    assert!(!has_outvec(&s, compress));
    assert_eq!(
        arrange(&s, fill, &passed(2, &[], None)).unwrap(),
        vec![Source::Positional(0), Source::Positional(1)]
    );
    assert_eq!(
        arrange(&s, fill, &passed(1, &["x", "tag"], None)).unwrap(),
        vec![Source::Positional(0), Source::Keyword(1)]
    );
    assert_eq!(
        arrange(&s, fill, &passed(2, &["n"], None)).unwrap(),
        vec![Source::Keyword(0), Source::Positional(1)]
    );
    assert_eq!(
        arrange(&s, fill, &passed(1, &[], Some(&["tag", "n"]))).unwrap(),
        vec![Source::Entry(1), Source::Entry(0)]
    );
    assert_eq!(
        arrange(&s, fill, &passed(1, &["n"], None)),
        Err("missing keyword argument \"tag\"".to_string())
    );
    assert_eq!(
        arrange(&s, fill, &passed(3, &[], None)),
        Err("fill expects 2 input arg(s) (excluding out-vecs), got 3".to_string())
    );
    assert_eq!(
        arrange(&s, compress, &passed(0, &[], None)),
        Err("compress expects 1 args, got 0".to_string())
    );
}

#[test]
fn call_input_follows_the_parameters() {
    let s = schema();
    let args = vec![number(5), number(6)];
    let pieces = encode_call(&s, &s.methods[1], &args).ok().unwrap();
    assert!(matches!(pieces[..], [Piece::Word(5), Piece::OutVec, Piece::Word(6)]));
    let bad = vec![plain(), number(6)];
    assert!(matches!(
        encode_call(&s, &s.methods[1], &bad),
        Err(EncodeError::Conversion(0, Wanted::Word64))
    ));
}

#[test]
fn replies() {
    let s = schema();
    assert!(matches!(decode_reply(&s, U64, &[0, 5]), Reply::Value(Value::Int(5))));
    let b = Buffer { ptr: 100, len: 4 };
    assert!(matches!(decode_reply(&s, U64, &[1, 100, 4]), Reply::SpierError(Some(x)) if x == b));
    assert!(matches!(decode_reply(&s, U64, &[1, 0, 0]), Reply::SpierError(None)));
    assert!(matches!(decode_reply(&s, U64, &[]), Reply::Failed(DecodeError::Exhausted)));
    assert!(matches!(decode_reply(&s, U64, &[0]), Reply::Failed(DecodeError::Exhausted)));
}

#[test]
fn pieces_become_slots() {
    let text = "h\u{e9}".to_string();
    let bytes = vec![1u8, 2, 3];
    let list = vec![vec![1u8]];
    let pieces = vec![
        Piece::Word(7),
        Piece::Text(&text),
        Piece::Bytes(&bytes),
        Piece::BytesList(&list),
        Piece::OutVec,
    ];
    let mut w = SlotWriter::new();
    w.write_u64(1);
    write_pieces(&mut w, &pieces, &vec![0, 100, 200, 300, 400]);
    assert_eq!(w.as_slice(), &[1, 7, 100, 3, 200, 3, 300, 1, 400]);
}
