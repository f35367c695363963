use dynspire::managed::{
    can_hold, debug_allocator, default_allocator, dyn_alloc, dynspire_alloc, dynspire_dealloc,
    dynspire_dealloc_only, dynspire_realloc, dynspire_release, dynspire_retain, finish_release,
    round_up, DOption, DSlice, DStr, DString, DVec, DynSpireAllocatorReport, Heap, Release,
    HEADER_PAD_ALIGN, HEADER_SIZE,
};

fn test_heap<T>() -> Heap<T> {
    Heap::new(default_allocator())
}

fn balanced<T>(heap: &Heap<T>) -> bool {
    heap.allocator.calls.allocs == heap.allocator.calls.frees
}

#[test]
fn alloc_release_leaf() {
    let mut heap: Heap<u8> = test_heap();
    let p = dyn_alloc(&mut heap, 16, 8, 0, None);
    assert!(p.is_some());
    assert_eq!(heap.allocator.calls.allocs, 1);
    dynspire_release(&mut heap, p);
    assert_eq!(heap.allocator.calls.frees, 1);
}

#[test]
fn retain_keeps_alive_until_zero() {
    let mut heap: Heap<u8> = test_heap();
    let p = dyn_alloc(&mut heap, 8, 8, 0, None);
    dynspire_retain(&mut heap, p);
    dynspire_release(&mut heap, p);
    assert_eq!(heap.allocator.calls.frees, 0);
    dynspire_release(&mut heap, p);
    assert_eq!(heap.allocator.calls.frees, 1);
}

/// Releases a block; if a `drop_fn` has to be run, runs `drops[f]` on the live
/// block, and frees the block after that.
fn release_with(heap: &mut Heap<u8>, p: Option<usize>, drops: &mut [&mut dyn FnMut(&Heap<u8>)]) {
    if let Release::RunDrop(f) = dynspire_release(heap, p) {
        drops[f](heap);
        finish_release(heap, p.unwrap());
    }
}

#[test]
fn drop_fn_runs_on_zero() {
    let mut drop_called = 0;
    let mut heap: Heap<u8> = test_heap();
    let p = dyn_alloc(&mut heap, 8, 8, 42, Some(0));
    let mut my_drop = |h: &Heap<u8>| {
        let header = h.header_of(p.unwrap());
        assert_eq!(header.type_index, 42);
        assert_eq!(header.rc, 0);
        assert_eq!(h.allocator.calls.frees, 0);
        drop_called += 1;
    };
    dynspire_retain(&mut heap, p);
    assert_eq!(dynspire_release(&mut heap, p), Release::Kept);
    release_with(&mut heap, p, &mut [&mut my_drop]);
    assert_eq!(drop_called, 1);
    assert_eq!(heap.allocator.calls.frees, 1);
}

#[test]
fn drop_fn_sees_the_payload() {
    let mut heap: Heap<u8> = test_heap();
    let mut v = DVec::<u8>::new_in(&mut heap, 4);
    v.push(&mut heap, 9);
    assert_eq!(dynspire_release(&mut heap, v.ptr), Release::Freed);

    let p = dyn_alloc(&mut heap, 8, 8, 7, Some(3));
    assert_eq!(dynspire_release(&mut heap, p), Release::RunDrop(3));
    assert_eq!(heap.header_of(p.unwrap()).drop_fn, Some(3));
    assert_eq!(heap.allocator.calls.frees, 1);
    assert!(finish_release(&mut heap, p.unwrap()).is_empty());
    assert!(balanced(&heap));
}

#[test]
fn resizing_beyond_the_limit_changes_nothing() {
    let mut heap: Heap<u8> = Heap::new(debug_allocator());
    let mut v = DVec::<u8>::new_in(&mut heap, 4);
    v.push(&mut heap, 5);
    let before = heap.allocator.report();
    let size = isize::MAX as usize;
    assert!(dynspire_realloc(&mut heap, v.ptr, 4, size, 1).is_none());
    assert!(dynspire_realloc(&mut heap, None, 0, size, 1).is_none());
    assert_eq!(heap.allocator.report().live_bytes, before.live_bytes);
    assert_eq!(heap.allocator.calls.reallocs, 0);
    assert_eq!(v.as_slice(&heap), &[5]);
    assert_eq!(heap.header_of(v.ptr.unwrap()).size, 4);
}

#[test]
fn a_failed_resize_leaves_the_report() {
    let mut r = DynSpireAllocatorReport {
        live_bytes: 100,
        live_allocations: 2,
        peak_bytes: 120,
        total_allocations: 5,
    };
    r.record_realloc(40, 200, false);
    assert_eq!((r.live_bytes, r.live_allocations, r.peak_bytes), (100, 2, 120));
    r.record_realloc(40, 200, true);
    assert_eq!((r.live_bytes, r.live_allocations, r.peak_bytes), (260, 2, 260));
    assert_eq!(r.total_allocations, 5);
}

#[test]
fn vectors_without_a_block() {
    let mut heap = Heap::new(debug_allocator());
    let none = || DVec::<u64> { ptr: None, len: 0, cap: 0, of: std::marker::PhantomData };
    let v = none();
    assert_eq!(v.rc(&heap), 1);
    assert!(v.as_slice(&heap).is_empty());
    let c = v.clone_in(&mut heap);
    v.drop_in(&mut heap);
    c.drop_in(&mut heap);
    assert_eq!(heap.allocator.calls.allocs, 0);

    let mut v = none();
    v.push(&mut heap, 11);
    assert_eq!(v.ptr, Some(0));
    assert_eq!((v.len, v.cap), (1, 4));
    assert_eq!(v.as_slice(&heap), &[11]);
    assert_eq!(heap.allocator.report().live_bytes, HEADER_SIZE + 32);
    v.drop_in(&mut heap);
    assert!(balanced(&heap));
}

#[test]
fn texts_without_a_block() {
    let mut heap: Heap<u8> = test_heap();
    let s = DString { ptr: None, len: 0, cap: 0 };
    assert_eq!(s.rc(&heap), 1);
    assert_eq!(s.as_str(&heap), "");
    let c = s.clone_in(&mut heap);
    assert!(s.eq_in(&c, &heap));
    s.drop_in(&mut heap);
    c.drop_in(&mut heap);
    assert_eq!(heap.allocator.calls.frees, 0);
}

#[test]
fn realloc_updates_header_and_rc() {
    let mut heap: Heap<u8> = test_heap();
    let p = dyn_alloc(&mut heap, 8, 8, 0, None);
    let p2 = dynspire_realloc(&mut heap, p, 8, 64, 8);
    assert!(p2.is_some());
    assert_eq!(heap.allocator.calls.reallocs, 1);
    let h = heap.header_of(p2.unwrap());
    assert_eq!(h.size, 64);
    assert_eq!(h.align, 8);
    assert_eq!(h.rc, 1);
    dynspire_release(&mut heap, p2);
    assert_eq!(heap.allocator.calls.frees, 1);
}

#[test]
fn realloc_keeps_what_fits() {
    let mut heap: Heap<u32> = test_heap();
    let v = DVec::new_in(&mut heap, 4);
    let mut v = v;
    for x in [10, 20, 30, 40] {
        v.push(&mut heap, x);
    }
    let p = dynspire_realloc(&mut heap, v.ptr, 16, 11, 4);
    assert_eq!(p, v.ptr);
    assert_eq!(heap.header_of(p.unwrap()).size, 11);
    assert_eq!(heap.header_of(p.unwrap()).rc, 1);
    assert_eq!(heap.blocks[p.unwrap()].as_ref().unwrap().payload, vec![10, 20]);
    let p = dynspire_realloc(&mut heap, p, 11, 0, 4);
    assert!(heap.blocks[p.unwrap()].as_ref().unwrap().payload.is_empty());
    dynspire_release(&mut heap, p);
    assert!(balanced(&heap));
}

#[test]
fn realloc_null_allocates() {
    let mut heap: Heap<u8> = test_heap();
    let p = dynspire_realloc(&mut heap, None, 0, 32, 8);
    assert!(p.is_some());
    assert_eq!(heap.allocator.calls.allocs, 1);
    dynspire_release(&mut heap, p);
}

#[test]
fn default_allocator_roundtrip() {
    let mut heap: Heap<u8> = Heap::new(default_allocator());
    let p = dynspire_alloc(&mut heap, 32, 8);
    assert!(p.is_some());
    dynspire_release(&mut heap, p);
}

#[test]
fn header_layout_constants() {
    assert!(HEADER_PAD_ALIGN.is_power_of_two());
    assert_eq!(HEADER_SIZE % HEADER_PAD_ALIGN, 0);
    assert_eq!(HEADER_SIZE, round_up(48, HEADER_PAD_ALIGN));
    let mut heap: Heap<u8> = test_heap();
    let p = dyn_alloc(&mut heap, 8, 8, 0, None);
    let h = heap.header_of(p.unwrap());
    assert_eq!(h.size, 8);
    assert_eq!(h.align, 8);
    dynspire_release(&mut heap, p);
}

#[test]
fn debug_allocator_reports_occupation() {
    let mut heap: Heap<u8> = Heap::new(debug_allocator());
    let before = heap.allocator.report();
    let bytes_before = before.live_bytes;
    let allocs_before = before.live_allocations;

    let p1 = dynspire_alloc(&mut heap, 32, 8);
    assert!(p1.is_some());
    let p2 = dynspire_alloc(&mut heap, 7, 1);
    assert!(p2.is_some());
    let mid = heap.allocator.report();
    assert!(mid.live_bytes >= bytes_before + 32 + 7);
    assert_eq!(mid.live_allocations, allocs_before + 2);
    assert!(mid.total_allocations >= 2);
    assert!(mid.peak_bytes >= mid.live_bytes);

    dynspire_release(&mut heap, p1);
    let after = heap.allocator.report();
    assert!(after.live_bytes < mid.live_bytes);
    assert_eq!(after.live_allocations, allocs_before + 1);
    assert!(after.peak_bytes >= mid.peak_bytes);

    dynspire_release(&mut heap, p2);
    let done = heap.allocator.report();
    assert_eq!(done.live_allocations, allocs_before);
    assert!(done.live_bytes <= bytes_before);
}

#[test]
fn default_allocator_report_is_zero() {
    let alloc = default_allocator();
    let r = alloc.report();
    assert_eq!(r.live_bytes, 0);
    assert_eq!(r.live_allocations, 0);
    assert_eq!(r.peak_bytes, 0);
    assert_eq!(r.total_allocations, 0);

    let mut heap: Heap<u8> = Heap::new(alloc);
    dynspire_alloc(&mut heap, 32, 8);
    assert_eq!(heap.allocator.report(), r);
}

#[test]
fn dvec_new_in_fields() {
    let mut heap = test_heap();
    let v = DVec::<u8>::new_in(&mut heap, 4);
    assert_eq!(v.len, 0);
    assert_eq!(v.cap, 4);
    assert!(v.ptr.is_some());
    assert_eq!(v.as_slice(&heap), &[] as &[u8]);
}

#[test]
fn dvec_push_and_as_slice() {
    let mut heap = test_heap();
    let mut v = DVec::<u8>::new_in(&mut heap, 2);
    v.push(&mut heap, 0xAA);
    v.push(&mut heap, 0xBB);
    assert_eq!(v.len, 2);
    assert_eq!(v.as_slice(&heap), &[0xAA, 0xBB]);
}

#[test]
fn dvec_grow_via_realloc() {
    let mut heap = test_heap();
    let mut v = DVec::<u8>::new_in(&mut heap, 1);
    for i in 0..16u8 {
        v.push(&mut heap, i);
    }
    assert_eq!(v.len, 16);
    assert!(v.cap >= 16);
    let expected: Vec<u8> = (0..16).collect();
    assert_eq!(v.as_slice(&heap), expected.as_slice());
}

#[test]
fn dstring_new_in_fields() {
    let mut heap = test_heap();
    let s = DString::new_in(&mut heap, "hello");
    assert_eq!(s.len, 5);
    assert_eq!(s.as_str(&heap), "hello");
}

#[test]
fn dstring_empty() {
    let mut heap = test_heap();
    let s = DString::new_in(&mut heap, "");
    assert_eq!(s.len, 0);
    assert!(s.as_str(&heap).is_empty());
}

#[test]
fn dstr_as_str() {
    let data = b"test view";
    let view = DStr { ptr: Some(&data[..]), len: data.len() };
    assert_eq!(view.len, 9);
    assert_eq!(view.as_str(), "test view");
}

#[test]
fn dslice_as_slice() {
    let data: &[u8] = &[10, 20, 30];
    let view = DSlice::<u8> { ptr: Some(data), len: data.len() };
    assert_eq!(view.len, 3);
    assert_eq!(view.as_slice(), &[10, 20, 30]);
}

#[test]
fn doption_some_none_roundtrip() {
    let some: DOption<u8> = DOption::some(42);
    assert_eq!(some.tag, 1);
    assert_eq!(some.value, 42);

    let none: DOption<u8> = DOption::none();
    assert_eq!(none.tag, 0);
}

#[test]
fn doption_from_option() {
    let some: DOption<u32> = Some(7u32).into();
    assert_eq!(some.tag, 1);
    assert_eq!(some.value, 7);

    let none: DOption<u32> = None::<u32>.into();
    assert_eq!(none.tag, 0);
}

#[test]
fn dvec_into_raw_from_raw_roundtrip() {
    let mut heap = test_heap();
    let mut v = DVec::<u8>::new_in(&mut heap, 4);
    v.push(&mut heap, 0xCC);
    v.push(&mut heap, 0xDD);

    let raw = v.into_raw();
    let bytes = raw.as_slice(&heap).to_vec();
    assert_eq!(bytes, &[0xCC, 0xDD]);

    let v2 = DVec::<u8>::from_raw(raw);
    assert_eq!(v2.as_slice(&heap), bytes.as_slice());
    v2.drop_in(&mut heap);
    assert!(balanced(&heap));
}

#[test]
fn dstring_into_raw_from_raw_roundtrip() {
    let mut heap = test_heap();
    let s = DString::new_in(&mut heap, "round-trip");

    let bytes = s.as_str(&heap).as_bytes().to_vec();
    let raw = s.into_raw();
    assert_eq!(raw.as_str(&heap), std::str::from_utf8(&bytes).unwrap());

    let wrapped = DString::from_raw(raw);
    wrapped.drop_in(&mut heap);
    assert!(balanced(&heap));
}

#[test]
fn dvec_drop_releases() {
    let mut heap = test_heap();
    let mut v = DVec::<u8>::new_in(&mut heap, 4);
    v.push(&mut heap, 0x11);
    v.push(&mut heap, 0x22);
    assert_eq!(v.len(), 2);
    v.drop_in(&mut heap);
    assert!(balanced(&heap));
}

#[test]
fn dstring_drop_releases() {
    let mut heap = test_heap();
    let s = DString::new_in(&mut heap, "owned string");
    assert_eq!(s.as_str(&heap), "owned string");
    s.drop_in(&mut heap);
    assert!(balanced(&heap));
}

#[test]
fn dvec_clone_retains_and_drop_releases_once() {
    let mut heap = test_heap();
    let mut v = DVec::<u8>::new_in(&mut heap, 4);
    v.push(&mut heap, 0x11);
    assert_eq!(v.rc(&heap), 1);

    let c = v.clone_in(&mut heap);
    assert_eq!(v.rc(&heap), 2);
    assert_eq!(c.rc(&heap), 2);
    assert_eq!(c.as_slice(&heap), &[0x11]);

    v.drop_in(&mut heap);
    assert_eq!(c.rc(&heap), 1);
    assert_eq!(c.as_slice(&heap), &[0x11]);
    c.drop_in(&mut heap);
    assert!(balanced(&heap));
}

#[test]
fn dstring_clone_retains() {
    let mut heap = test_heap();
    let s = DString::new_in(&mut heap, "hi");
    let c = s.clone_in(&mut heap);
    assert_eq!(s.rc(&heap), 2);
    assert_eq!(c.as_str(&heap), "hi");
    s.drop_in(&mut heap);
    assert_eq!(c.rc(&heap), 1);
    c.drop_in(&mut heap);
    assert!(balanced(&heap));
}

#[test]
fn dvec_full_roundtrip_with_growth() {
    let mut heap = test_heap();
    let mut v = DVec::<u64>::new_in(&mut heap, 1);
    for i in 0..100u64 {
        v.push(&mut heap, i);
    }
    assert_eq!(v.len(), 100);
    assert_eq!(heap.allocator.calls.allocs, 1);

    let raw = v.into_raw();
    assert_eq!(raw.len, 100);
    let host_side = DVec::<u64>::from_raw(raw);
    host_side.drop_in(&mut heap);
    assert!(balanced(&heap));
}

#[test]
fn debug_allocator_leak_check() {
    let mut heap = Heap::new(debug_allocator());
    let before = heap.allocator.report();
    let live_before = before.live_bytes;
    let allocs_before = before.total_allocations;

    let mut v = DVec::<u8>::new_in(&mut heap, 64);
    for i in 0..64u8 {
        v.push(&mut heap, i);
    }
    let mid = heap.allocator.report();
    assert!(mid.live_bytes > live_before);
    assert!(mid.total_allocations > allocs_before);
    let live_after_alloc = mid.live_bytes;
    let alloc_count_after = mid.live_allocations;

    v.drop_in(&mut heap);
    let after = heap.allocator.report();
    assert_eq!(after.live_allocations, alloc_count_after - 1);
    assert!(after.live_bytes < live_after_alloc);
}

#[test]
fn debug_allocator_peak_monotonic() {
    let mut heap = Heap::new(debug_allocator());
    let before = heap.allocator.report();
    let peak_before = before.peak_bytes;

    let mut v = DVec::<u8>::new_in(&mut heap, 32);
    for i in 0..32u8 {
        v.push(&mut heap, i);
    }
    let peak1 = heap.allocator.report().peak_bytes;
    assert!(peak1 >= peak_before);
    v.drop_in(&mut heap);

    let peak2 = heap.allocator.report().peak_bytes;
    assert!(peak2 >= peak1);
}

#[test]
fn dstring_from_string() {
    let mut heap = test_heap();
    let s = DString::new_in(&mut heap, &String::from("hello world"));
    assert_eq!(s.as_str(&heap), "hello world");
    assert_eq!(s.len(), 11);
}

#[test]
fn dstring_from_str() {
    let mut heap = test_heap();
    let s = DString::new_in(&mut heap, "test");
    assert_eq!(s.as_str(&heap), "test");
}

#[test]
fn dvec_from_vec() {
    let mut heap = test_heap();
    let v: Vec<u32> = vec![10, 20, 30];
    let d = DVec::<u32>::from_vec(&mut heap, v);
    assert_eq!(d.as_slice(&heap), &[10, 20, 30]);
    assert_eq!(d.len(), 3);
}

#[test]
fn dvec_from_empty_vec() {
    let mut heap = test_heap();
    let v: Vec<u8> = vec![];
    let d = DVec::<u8>::from_vec(&mut heap, v);
    assert!(d.is_empty());
    assert_eq!(d.as_slice(&heap), &[] as &[u8]);
}

#[test]
fn dvec_from_byte_slice() {
    let mut heap = test_heap();
    let d = DVec::<u8>::from_vec(&mut heap, b"abc".to_vec());
    assert_eq!(d.as_slice(&heap), b"abc");
}

#[test]
fn dstring_traits_content_based() {
    let mut heap = test_heap();
    let a = DString::new_in(&mut heap, "foo");
    let b = DString::new_in(&mut heap, "foo");
    let c = DString::new_in(&mut heap, "bar");

    assert!(a.eq_in(&b, &heap));
    assert!(!a.eq_in(&c, &heap));
    assert!(c.lt_in(&a, &heap));
    assert_eq!(format!("{:?}", a.as_str(&heap)), "\"foo\"");

    let mut set = std::collections::HashSet::new();
    set.insert(a.as_str(&heap));
    assert!(set.contains(b.as_str(&heap)));
    assert!(!set.contains(c.as_str(&heap)));
}

#[test]
fn dvec_traits_content_based() {
    let mut heap = test_heap();
    let a = DVec::<u8>::from_vec(&mut heap, vec![1, 2, 3]);
    let b = DVec::<u8>::from_vec(&mut heap, vec![1, 2, 3]);
    let c = DVec::<u8>::from_vec(&mut heap, vec![4, 5, 6]);

    assert!(a.eq_in(&b, &heap));
    assert!(!a.eq_in(&c, &heap));
    assert!(a.lt_in(&c, &heap));
    assert_eq!(format!("{:?}", a.as_slice(&heap)), "[1, 2, 3]");
}

#[test]
fn vectors_compare_by_their_elements() {
    let mut heap: Heap<i64> = test_heap();
    let a = DVec::from_vec(&mut heap, vec![-1, 2]);
    let b = DVec::from_vec(&mut heap, vec![-1, 2]);
    let c = DVec::from_vec(&mut heap, vec![-1, 300]);
    let d = DVec::from_vec(&mut heap, vec![-1]);
    let none: DVec<i64> = DVec { ptr: None, len: 0, cap: 0, of: std::marker::PhantomData };
    assert!(a.eq_in(&b, &heap));
    assert!(!a.eq_in(&c, &heap));
    assert!(!a.eq_in(&d, &heap));
    assert!(a.lt_in(&c, &heap) && !c.lt_in(&a, &heap));
    assert!(d.lt_in(&a, &heap) && !a.lt_in(&d, &heap));
    assert!(!a.lt_in(&b, &heap));
    assert!(none.lt_in(&d, &heap) && none.eq_in(&none, &heap));
}

#[test]
fn dstring_as_ptr_as_bytes() {
    let mut heap = test_heap();
    let s = DString::new_in(&mut heap, "hello");
    assert!(s.as_ptr().is_some());
    assert_eq!(s.as_bytes(&heap), b"hello");
}

#[test]
fn dvec_as_ptr() {
    let mut heap = test_heap();
    let d = DVec::<u8>::from_vec(&mut heap, vec![1, 2, 3]);
    assert!(d.as_ptr().is_some());
}

#[test]
fn capacity_grows_to_four_and_then_doubles() {
    let mut heap = Heap::new(debug_allocator());
    let mut v = DVec::<u64>::new_in(&mut heap, 0);
    assert_eq!(heap.allocator.report().live_bytes, HEADER_SIZE);
    v.push(&mut heap, 1);
    assert_eq!(v.cap, 4);
    assert_eq!(heap.allocator.report().live_bytes, HEADER_SIZE + 32);
    for i in 0..4 {
        v.push(&mut heap, i);
    }
    assert_eq!(v.cap, 8);
    let r = heap.allocator.report();
    assert_eq!(r.live_bytes, HEADER_SIZE + 64);
    assert_eq!(r.peak_bytes, HEADER_SIZE + 64);
    assert_eq!(r.total_allocations, 1);
}

#[test]
fn other_blocks_are_untouched() {
    let mut heap = test_heap();
    let a = DVec::<u8>::from_vec(&mut heap, vec![1]);
    let mut b = DVec::<u8>::from_vec(&mut heap, vec![2]);
    b.push(&mut heap, 3);
    b.drop_in(&mut heap);
    assert_eq!(a.as_slice(&heap), &[1]);
    assert_eq!(a.rc(&heap), 1);
}

#[test]
fn direct_deallocation_ignores_the_count() {
    let mut heap: Heap<u8> = Heap::new(debug_allocator());
    let p = dynspire_alloc(&mut heap, 4, 1);
    dynspire_retain(&mut heap, p);
    dynspire_dealloc(&mut heap, p, 4, 1);
    assert_eq!(heap.allocator.report().live_allocations, 0);

    let v = DVec::<u8>::from_vec(&mut heap, vec![7, 8]);
    assert_eq!(dynspire_dealloc_only(&mut heap, v.ptr), Some(vec![7, 8]));
    assert!(balanced(&heap));
}

#[test]
fn absent_addresses_are_passed_over() {
    let mut heap: Heap<u8> = test_heap();
    dynspire_retain(&mut heap, None);
    assert_eq!(dynspire_release(&mut heap, None), Release::Kept);
    dynspire_dealloc(&mut heap, None, 0, 1);
    assert!(dynspire_dealloc_only(&mut heap, None).is_none());
    assert_eq!(heap.allocator.calls.allocs, 0);
}

#[test]
fn too_large_a_block_is_refused() {
    let mut heap: Heap<u8> = test_heap();
    let size = isize::MAX as usize - HEADER_SIZE;
    assert!(dynspire_alloc(&mut heap, size, 2).is_none());
    assert_eq!(heap.allocator.calls.allocs, 0);
    assert!(dynspire_alloc(&mut heap, size, 1).is_some());
}

#[test]
fn absent_views_are_empty() {
    let s = DStr { ptr: None, len: 0 };
    assert!(s.is_empty());
    assert_eq!(s.as_str(), "");
    let v: DSlice<u32> = DSlice { ptr: None, len: 0 };
    assert_eq!(v.len(), 0);
    assert!(v.as_slice().is_empty());
}

#[test]
fn rounding_up() {
    assert_eq!(round_up(0, 32), 0);
    assert_eq!(round_up(1, 32), 32);
    assert_eq!(round_up(32, 32), 32);
    assert_eq!(round_up(33, 32), 64);
}

#[test]
fn room_is_known_beforehand() {
    let heap: Heap<u64> = Heap::new(debug_allocator());
    assert!(can_hold(&heap, 0));
    assert!(can_hold(&heap, 1000));
    assert!(!can_hold(&heap, usize::MAX));
    assert!(!can_hold(&heap, (isize::MAX as usize) / 8));
}
