use dynspire::managed::{debug_allocator, DSlice, DStr, DString, DVec, Heap};
use dynspire::rle::{
    hex, init, rle_compress, rle_decompress, show_option, RleState, RunReport, Tone,
};
use dynspire::slots::{SlotReader, SlotWriter, MAX_IN_SLOTS, MAX_OUT_SLOTS};
use dynspire::text::{decimal, hexadecimal, short_hexadecimal, signed_decimal, split_commas, trim};
use dynspire::tower::{
    check_code, check_created, check_method, find, method_configs, spier_path, IdlDescriptor,
    LoadAction, LoadEvent, Loader, Stage,
};

const INPUT: &[u8] = b"AAAABBBCCCCDDDDDEEEEFFFFFFGGG";

fn view(data: &[u8]) -> DSlice<'_, u8> {
    DSlice { ptr: Some(data), len: data.len() }
}

#[test]
fn compress_and_decompress() {
    let c = rle_compress(INPUT);
    assert_eq!(c, b"\x04A\x03B\x04C\x05D\x04E\x06F\x03G");
    assert_eq!(rle_decompress(&c).unwrap(), INPUT);
    assert!(rle_compress(&[]).is_empty());
    assert_eq!(rle_decompress(&[]).unwrap(), b"");
}

#[test]
fn long_runs_are_cut() {
    let data = vec![9u8; 600];
    let c = rle_compress(&data);
    assert_eq!(c, vec![255, 9, 255, 9, 90, 9]);
    assert_eq!(rle_decompress(&c).unwrap(), data);
}

#[test]
fn odd_streams_are_refused() {
    assert_eq!(rle_decompress(&[1]), Err("corrupted RLE stream: odd length".to_string()));
    let s = RleState;
    assert!(s.decompress(view(&[1, 2, 3])).is_err());
}

#[test]
fn engine_methods() {
    let s: RleState = init().ok().unwrap();
    assert_eq!(s.compress(view(INPUT)).unwrap(), rle_compress(INPUT));
    let mut out = vec![1u8];
    s.compress_into(view(b"aa"), &mut out).unwrap();
    assert_eq!(out, vec![1, 2, b'a']);
    let mut empty = vec![];
    assert_eq!(s.compress_into_checked(view(b""), &mut empty), Ok(false));
    assert_eq!(s.compress_into_checked(view(b"x"), &mut empty), Ok(true));
    assert_eq!(s.stats(view(INPUT)), Ok((29, 14)));
    let report = RunReport { original_size: 29, compressed_size: 14, runs: 7 };
    assert_eq!(s.analyze(view(INPUT)), Ok(report));
    assert_eq!(s.try_analyze(view(b"")).unwrap().tag, 0);
    assert_eq!(s.try_analyze(view(INPUT)).unwrap().value, report);
    assert_eq!(
        s.report_summary(report, "48.3").unwrap(),
        "original=29 compressed=14 ratio=48.3% runs=7"
    );
    assert_eq!(s.run_labels(view(b"aab")).unwrap(), vec!["2xa", "1xb"]);
    assert_eq!(s.split_runs(view(b"aab")).unwrap(), vec![b"aa".to_vec(), b"b".to_vec()]);
    assert_eq!(s.split_runs(view(INPUT)).unwrap().concat(), INPUT);
}

#[test]
fn engine_options() {
    let s = RleState;
    assert_eq!(show_option(s.first_byte(view(b"xy")).unwrap()), "Some(120)");
    assert_eq!(show_option(s.first_byte(view(b"")).unwrap()), "None");
    assert_eq!(show_option(s.probe(view(b"xy")).unwrap()), "Some(120)");
    assert_eq!(show_option(s.opt_classify(view(&[3, 9, 4])).unwrap()), "Some(9)");
    assert_eq!(show_option(s.opt_classify(view(b"")).unwrap()), "None");
}

#[test]
fn engine_tones() {
    let s = RleState;
    assert_eq!(s.classify(view(b"")), Ok(Tone::Quiet));
    assert_eq!(s.classify(view(&[1, 63])), Ok(Tone::Normal));
    assert_eq!(s.classify(view(&[64, 1])), Ok(Tone::Loud(64)));
    assert_eq!(s.try_classify(view(b"")).unwrap().tag, 0);
    assert_eq!(s.try_classify(view(&[200])).unwrap().value, Tone::Loud(200));
    assert_eq!(s.describe_tone(Tone::Quiet).unwrap(), "silence");
    assert_eq!(s.describe_tone(Tone::Normal).unwrap(), "audible");
    assert_eq!(s.describe_tone(Tone::Loud(200)).unwrap(), "loud(200)");
}

#[test]
fn engine_copies_and_views() {
    let s = RleState;
    let snap = s.make_snapshot(view(INPUT)).ok().unwrap();
    let copy = snap.clone();
    assert_eq!(copy.data, INPUT);
    assert_eq!(s.snapshot_len(snap), Ok(29));
    assert_eq!(s.echo_bytes(view(INPUT)).unwrap(), INPUT);
    assert_eq!(s.build_string(view(b"ab\xc3\xa9")).unwrap(), "ab\u{e9}");
    assert_eq!(s.build_string(view(b"a\xff")).unwrap(), "a\u{fffd}");
    assert_eq!(s.view_len(DStr { ptr: Some(INPUT), len: 29 }), Ok(29));
    assert_eq!(s.view_slice(view(INPUT)), Ok(29));

    let mut heap = Heap::new(debug_allocator());
    let v = DVec::<u8>::from_vec(&mut heap, INPUT.to_vec());
    assert_eq!(s.consume_dvec(v, &mut heap), Ok(29));
    let t = DString::new_in(&mut heap, "h\u{e9}");
    assert_eq!(s.consume_dstring(t, &mut heap), Ok(3));
    assert_eq!(heap.allocator.report().live_allocations, 0);
}

#[test]
fn bytes_as_digits() {
    assert_eq!(hex(&[0, 10, 255]), "00 0a ff");
    assert_eq!(hex(&[]), "");
}

#[test]
fn slots_come_back_in_order() {
    for n in [0usize, 1, MAX_IN_SLOTS, MAX_IN_SLOTS + 1, 40] {
        let mut w = SlotWriter::new();
        for i in 0..n {
            w.write_u64(i as u64 * 3);
        }
        assert_eq!(w.len(), n);
        let mut r = SlotReader::new(w.as_slice());
        for i in 0..n {
            assert_eq!(r.read_u64(), i as u64 * 3);
        }
        assert_eq!(r.remaining(), 0);
    }
    assert_eq!(SlotWriter::default().len(), 0);
    assert_eq!((MAX_IN_SLOTS, MAX_OUT_SLOTS), (16, 8));
}

#[test]
fn numerals() {
    assert_eq!(decimal(0), "0");
    assert_eq!(decimal(u64::MAX), "18446744073709551615");
    assert_eq!(hexadecimal(0xbeef), "000000000000beef");
    assert_eq!(short_hexadecimal(0), "0");
    assert_eq!(short_hexadecimal(0xdead10), "dead10");
    assert_eq!(signed_decimal(i64::MIN), "-9223372036854775808");
    assert_eq!(signed_decimal(-1), "-1");
    assert_eq!(signed_decimal(12), "12");
}

#[test]
fn cutting() {
    assert_eq!(trim(" \t a b\u{3000}\n"), "a b");
    assert_eq!(trim(""), "");
    assert_eq!(split_commas("a, f(b, c) ,d", true), vec!["a", "f(b, c)", "d"]);
    assert_eq!(split_commas("a, f(b, c)", false), vec!["a", "f(b", "c)"]);
}

#[test]
fn library_paths() {
    assert_eq!(spier_path("rle", None, None), "librle.so");
    assert_eq!(spier_path("rle", None, Some("/opt/spiers")), "/opt/spiers/librle.so");
    assert_eq!(spier_path("rle", Some("here/"), Some("/opt")), "here/librle.so");
    assert_eq!(spier_path("rle", Some(""), None), "librle.so");
    assert_eq!(find("rle", Some("/opt"), true), Ok("/opt/librle.so".to_string()));
    assert_eq!(
        find("rle", Some("/opt"), false),
        Err("spier not found: /opt/librle.so (DYNSPIRE_LIB_DIR=/opt)".to_string())
    );
    assert_eq!(find("rle", None, false), Ok("librle.so".to_string()));
}

fn loader() -> Loader {
    Loader::new("librle.so", 0x10, &vec!["compress".to_string(), "stats".to_string()])
}

#[test]
fn loading_step_by_step() {
    let mut l = loader();
    let mut resolved = vec![];
    match l.step(LoadEvent::Done) {
        LoadAction::Resolve(s) => resolved.push(s),
        _ => panic!("no symbol is looked up"),
    }
    assert!(matches!(l.step(LoadEvent::Done), LoadAction::CallHash));
    let mut action = l.step(LoadEvent::Hash(0x10));
    while let LoadAction::Resolve(s) = action {
        resolved.push(s);
        action = l.step(LoadEvent::Done);
    }
    assert!(matches!(action, LoadAction::Ready));
    assert_eq!(l.stage, Stage::Ready);
    assert_eq!(
        resolved,
        vec![
            "dynspire_idl_hash\0",
            "dynspire_spier_name\0",
            "dynspire_create\0",
            "dynspire_destroy\0",
            "dynspire_dispatch_compress\0",
            "dynspire_dispatch_stats\0",
        ]
    );
    assert!(matches!(l.step(LoadEvent::Done), LoadAction::Wait));
}

fn failure(a: LoadAction) -> String {
    match a {
        LoadAction::Fail(s) => s,
        _ => panic!("loading went on"),
    }
}

#[test]
fn loading_failures() {
    let mut l = loader();
    assert_eq!(failure(l.step(LoadEvent::Error("gone".into()))), "dlopen librle.so: gone");
    assert_eq!(l.stage, Stage::Failed);
    assert!(matches!(l.step(LoadEvent::Done), LoadAction::Wait));
    assert_eq!(l.stage, Stage::Failed);

    let mut l = loader();
    l.step(LoadEvent::Done);
    assert_eq!(
        failure(l.step(LoadEvent::Error("gone".into()))),
        "symbol dynspire_idl_hash\0: gone"
    );

    let mut l = loader();
    l.step(LoadEvent::Done);
    l.step(LoadEvent::Done);
    assert_eq!(
        failure(l.step(LoadEvent::Hash(0xff))),
        "IDL hash mismatch: spier=0x00000000000000ff, expected=0x0000000000000010"
    );

    let mut l = loader();
    l.step(LoadEvent::Done);
    l.step(LoadEvent::Done);
    l.step(LoadEvent::Hash(0x10));
    assert_eq!(
        failure(l.step(LoadEvent::Error("gone".into()))),
        "symbol dynspire_spier_name\0: gone"
    );
}

#[test]
fn call_checks() {
    assert_eq!(check_created(false), Ok(()));
    assert_eq!(check_created(true), Err("spier create returned null".to_string()));
    assert_eq!(check_method(1, 2), Ok(()));
    assert_eq!(check_method(2, 2), Err("unknown dispatch index: 2".to_string()));
    assert_eq!(check_code(0), Ok(()));
    assert_eq!(check_code(3), Err("dispatch transport error (code 3)".to_string()));
    let idl = IdlDescriptor { hash: 1, methods: &["a", "b"] };
    let names: Vec<&str> = method_configs(&idl).iter().map(|m| m.name).collect();
    assert_eq!(names, vec!["a", "b"]);
}
