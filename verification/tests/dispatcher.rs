use foreign_calls::dispatch::{
    emulate_foreign_item, find_fn, FloatOp, FnAction, ForeignCallRequest, InstanceInfo, Outcome,
    NUM_CPUS, PAGE_SIZE, STACK_ADDR,
};
use foreign_calls::errors::EmulError;
use foreign_calls::machine::{Machine, PlatformConsts};
use foreign_calls::mem::AllocKind;
use foreign_calls::value::{Pointer, Scalar};

fn consts() -> PlatformConsts {
    PlatformConsts {
        ptr_size: 8,
        key_type_size: 4,
        system_info_size: 64,
        sys_getrandom: Some(318),
        sc_pagesize: Some(30),
        sc_getpw_r_size_max: Some(70),
        sc_nprocessors_onln: Some(84),
    }
}

fn call(name: &[u8], args: Vec<Scalar>) -> ForeignCallRequest {
    ForeignCallRequest { link_name: name.to_vec(), args, dest: Some(8), ret: Some(1) }
}

fn handled(result: Option<Scalar>) -> Outcome {
    Outcome::Handled { result, resume: 1 }
}

#[test]
fn exit_carries_its_status_code() {
    let mut m = Machine::new(consts());
    let r = emulate_foreign_item(&mut m, &call(b"exit", vec![Scalar::Int(3)]));
    assert!(matches!(r, Err(EmulError::ProcessExit(3))));
}

#[test]
fn panic_entry_points_abort_the_run() {
    let mut m = Machine::new(consts());
    let r = emulate_foreign_item(&mut m, &call(b"__rust_start_panic", vec![]));
    assert!(matches!(r, Err(EmulError::FatalAbort)));
    let r = emulate_foreign_item(&mut m, &call(b"panic_impl", vec![]));
    assert!(matches!(r, Err(EmulError::FatalAbort)));
}

#[test]
fn unknown_symbols_are_refused_by_name() {
    let mut m = Machine::new(consts());
    let r = emulate_foreign_item(&mut m, &call(b"open64", vec![]));
    match r {
        Err(EmulError::UnsupportedSymbol(n)) => assert_eq!(n, b"open64".to_vec()),
        _ => panic!("an unknown symbol must be refused by name"),
    }
}

#[test]
fn a_value_producing_call_needs_a_destination() {
    let mut m = Machine::new(consts());
    let req = ForeignCallRequest {
        link_name: b"malloc".to_vec(),
        args: vec![Scalar::Int(8)],
        dest: None,
        ret: None,
    };
    let r = emulate_foreign_item(&mut m, &req);
    assert!(matches!(r, Err(EmulError::ContractViolation(_))));
}

#[test]
fn linker_decorations_are_stripped_before_dispatch() {
    let mut m = Machine::new(consts());
    let r = emulate_foreign_item(&mut m, &call(b"isatty$UNIX2003", vec![Scalar::Int(0)]));
    assert_eq!(r.unwrap(), handled(Some(Scalar::Int(0))));
}

#[test]
fn stubbed_platform_calls_complete_with_fixed_values() {
    let mut m = Machine::new(consts());
    let zero = emulate_foreign_item(&mut m, &call(b"signal", vec![])).unwrap();
    assert_eq!(zero, handled(Some(Scalar::Int(0))));
    let heap = emulate_foreign_item(&mut m, &call(b"GetProcessHeap", vec![])).unwrap();
    assert_eq!(heap, handled(Some(Scalar::Int(1))));
    let aff = emulate_foreign_item(&mut m, &call(b"sched_getaffinity", vec![])).unwrap();
    assert_eq!(aff, handled(Some(Scalar::Int(-1))));
    let none = emulate_foreign_item(&mut m, &call(b"_tlv_atexit", vec![])).unwrap();
    assert_eq!(none, handled(None));
}

#[test]
fn malloc_and_free_work_through_the_dispatcher() {
    let mut m = Machine::new(consts());
    let r = emulate_foreign_item(&mut m, &call(b"malloc", vec![Scalar::Int(4)])).unwrap();
    let p = match r {
        Outcome::Handled { result: Some(Scalar::Ptr(p)), resume: 1 } => p,
        _ => panic!("malloc must hand back a pointer"),
    };
    m.memory.write_bytes_at(p, &[1, 2, 3, 4]).unwrap();
    let done = emulate_foreign_item(&mut m, &call(b"free", vec![Scalar::Ptr(p)])).unwrap();
    assert_eq!(done, handled(None));
}

#[test]
fn calloc_multiplies_with_an_overflow_check() {
    let mut m = Machine::new(consts());
    let r = emulate_foreign_item(
        &mut m,
        &call(b"calloc", vec![Scalar::Int(3), Scalar::Int(2)]),
    )
    .unwrap();
    let p = match r {
        Outcome::Handled { result: Some(Scalar::Ptr(p)), .. } => p,
        _ => panic!("calloc must hand back a pointer"),
    };
    assert_eq!(m.memory.read_bytes(p, 6).unwrap(), vec![0u8; 6]);
    let huge = u64::MAX as i128;
    let r = emulate_foreign_item(
        &mut m,
        &call(b"calloc", vec![Scalar::Int(huge), Scalar::Int(huge)]),
    );
    assert!(matches!(r, Err(EmulError::ContractViolation(_))));
}

#[test]
fn posix_memalign_stores_through_its_out_pointer() {
    let mut m = Machine::new(consts());
    let out = m.memory.allocate(8, 8, AllocKind::CHeap);
    let r = emulate_foreign_item(
        &mut m,
        &call(
            b"posix_memalign",
            vec![Scalar::Ptr(out), Scalar::Int(16), Scalar::Int(32)],
        ),
    )
    .unwrap();
    match r {
        Outcome::HandledStore { at, value, size, result, resume } => {
            assert_eq!(at, out);
            assert!(matches!(value, Scalar::Ptr(_)));
            assert_eq!(size, 8);
            assert_eq!(result, Some(Scalar::Int(0)));
            assert_eq!(resume, 1);
        },
        _ => panic!("the stored pointer must be delegated to the value access layer"),
    }
}

#[test]
fn memchr_through_the_dispatcher_returns_an_offset_pointer() {
    let mut m = Machine::new(consts());
    let hello = m.memory.allocate(5, 1, AllocKind::CHeap);
    m.memory.write_bytes_at(hello, b"hello").unwrap();
    let r = emulate_foreign_item(
        &mut m,
        &call(
            b"memchr",
            vec![Scalar::Ptr(hello), Scalar::Int(b'l' as i128), Scalar::Int(5)],
        ),
    )
    .unwrap();
    match r {
        Outcome::Handled { result: Some(Scalar::Ptr(q)), .. } => {
            assert_eq!(q.offset - hello.offset, 2)
        },
        _ => panic!("memchr must find the first match"),
    }
    let r = emulate_foreign_item(
        &mut m,
        &call(
            b"memrchr",
            vec![Scalar::Ptr(hello), Scalar::Int(b'l' as i128), Scalar::Int(5)],
        ),
    )
    .unwrap();
    match r {
        Outcome::Handled { result: Some(Scalar::Ptr(q)), .. } => {
            assert_eq!(q.offset - hello.offset, 3)
        },
        _ => panic!("memrchr must find the last match"),
    }
}

#[test]
fn memcmp_through_the_dispatcher_gives_signed_orderings() {
    let mut m = Machine::new(consts());
    let abc = m.memory.allocate(3, 1, AllocKind::CHeap);
    m.memory.write_bytes_at(abc, b"abc").unwrap();
    let abd = m.memory.allocate(3, 1, AllocKind::CHeap);
    m.memory.write_bytes_at(abd, b"abd").unwrap();
    let r = emulate_foreign_item(
        &mut m,
        &call(b"memcmp", vec![Scalar::Ptr(abc), Scalar::Ptr(abd), Scalar::Int(3)]),
    )
    .unwrap();
    assert_eq!(r, handled(Some(Scalar::Int(-1))));
}

#[test]
fn environment_calls_work_through_the_dispatcher() {
    let mut m = Machine::new(consts());
    let name = m.memory.allocate(4, 1, AllocKind::CHeap);
    m.memory.write_bytes_at(name, b"FOO\0").unwrap();
    let value = m.memory.allocate(4, 1, AllocKind::CHeap);
    m.memory.write_bytes_at(value, b"bar\0").unwrap();

    let r = emulate_foreign_item(
        &mut m,
        &call(b"setenv", vec![Scalar::Ptr(name), Scalar::Ptr(value)]),
    )
    .unwrap();
    assert_eq!(r, handled(Some(Scalar::Int(0))));

    let r = emulate_foreign_item(&mut m, &call(b"getenv", vec![Scalar::Ptr(name)])).unwrap();
    let buf = match r {
        Outcome::Handled { result: Some(Scalar::Ptr(b)), .. } => b,
        _ => panic!("a set variable must come back as a pointer"),
    };
    assert_eq!(m.memory.read_bytes(buf, 4).unwrap(), b"bar\0".to_vec());

    let r = emulate_foreign_item(&mut m, &call(b"unsetenv", vec![Scalar::Ptr(name)])).unwrap();
    assert_eq!(r, handled(Some(Scalar::Int(0))));
    let r = emulate_foreign_item(&mut m, &call(b"getenv", vec![Scalar::Ptr(name)])).unwrap();
    assert_eq!(r, handled(Some(Scalar::Int(0))));
    let r = emulate_foreign_item(&mut m, &call(b"unsetenv", vec![Scalar::Ptr(name)])).unwrap();
    assert_eq!(r, handled(Some(Scalar::Int(-1))));
}

#[test]
fn pthread_keys_are_created_stored_and_deleted() {
    let mut m = Machine::new(consts());
    let key_out = m.memory.allocate(4, 4, AllocKind::CHeap);
    let r = emulate_foreign_item(
        &mut m,
        &call(b"pthread_key_create", vec![Scalar::Ptr(key_out), Scalar::Int(0)]),
    )
    .unwrap();
    assert_eq!(r, handled(Some(Scalar::Int(0))));
    let raw = m.memory.read_bytes(key_out, 4).unwrap();
    let k = u32::from_le_bytes([raw[0], raw[1], raw[2], raw[3]]) as i128;

    let r = emulate_foreign_item(
        &mut m,
        &call(b"pthread_setspecific", vec![Scalar::Int(k), Scalar::Int(77)]),
    )
    .unwrap();
    assert_eq!(r, handled(Some(Scalar::Int(0))));
    let r = emulate_foreign_item(
        &mut m,
        &call(b"pthread_getspecific", vec![Scalar::Int(k)]),
    )
    .unwrap();
    assert_eq!(r, handled(Some(Scalar::Int(77))));
    let r = emulate_foreign_item(
        &mut m,
        &call(b"pthread_key_delete", vec![Scalar::Int(k)]),
    )
    .unwrap();
    assert_eq!(r, handled(Some(Scalar::Int(0))));
}

#[test]
fn tls_calls_work_under_the_windows_names() {
    let mut m = Machine::new(consts());
    let r = emulate_foreign_item(&mut m, &call(b"TlsAlloc", vec![])).unwrap();
    let k = match r {
        Outcome::Handled { result: Some(Scalar::Int(k)), .. } => k,
        _ => panic!("TlsAlloc must return a key id"),
    };
    let r = emulate_foreign_item(
        &mut m,
        &call(b"TlsSetValue", vec![Scalar::Int(k), Scalar::Int(5)]),
    )
    .unwrap();
    assert_eq!(r, handled(Some(Scalar::Int(1))));
    let r = emulate_foreign_item(&mut m, &call(b"TlsGetValue", vec![Scalar::Int(k)])).unwrap();
    assert_eq!(r, handled(Some(Scalar::Int(5))));
}

#[test]
fn the_last_error_cell_round_trips() {
    let mut m = Machine::new(consts());
    let r = emulate_foreign_item(&mut m, &call(b"SetLastError", vec![Scalar::Int(33)])).unwrap();
    assert_eq!(r, handled(None));
    let r = emulate_foreign_item(&mut m, &call(b"GetLastError", vec![])).unwrap();
    assert_eq!(r, handled(Some(Scalar::Int(33))));
    let r = emulate_foreign_item(&mut m, &call(b"GetEnvironmentVariableW", vec![])).unwrap();
    assert_eq!(r, handled(Some(Scalar::Int(0))));
    assert_eq!(m.last_error, 203);
}

#[test]
fn sysconf_answers_the_names_it_knows() {
    let mut m = Machine::new(consts());
    let r = emulate_foreign_item(&mut m, &call(b"sysconf", vec![Scalar::Int(30)])).unwrap();
    assert_eq!(r, handled(Some(Scalar::Int(PAGE_SIZE))));
    let r = emulate_foreign_item(&mut m, &call(b"sysconf", vec![Scalar::Int(84)])).unwrap();
    assert_eq!(r, handled(Some(Scalar::Int(NUM_CPUS))));
    let r = emulate_foreign_item(&mut m, &call(b"sysconf", vec![Scalar::Int(70)])).unwrap();
    assert_eq!(r, handled(Some(Scalar::Int(-1))));
    let r = emulate_foreign_item(&mut m, &call(b"sysconf", vec![Scalar::Int(9999)]));
    assert!(matches!(r, Err(EmulError::UnsupportedSymbol(_))));
}

#[test]
fn float_calls_are_deferred_to_the_host_by_bit_pattern() {
    let mut m = Machine::new(consts());
    let bits = 2.0f32.to_bits() as i128;
    let r = emulate_foreign_item(&mut m, &call(b"cbrtf", vec![Scalar::Int(bits)])).unwrap();
    assert_eq!(
        r,
        Outcome::HostFloat { op: FloatOp::Cbrtf(2.0f32.to_bits()), resume: 1 }
    );
    let b1 = 3.0f64.to_bits() as i128;
    let b2 = 4.0f64.to_bits() as i128;
    let r = emulate_foreign_item(
        &mut m,
        &call(b"hypot", vec![Scalar::Int(b1), Scalar::Int(b2)]),
    )
    .unwrap();
    assert_eq!(
        r,
        Outcome::HostFloat {
            op: FloatOp::Hypot(3.0f64.to_bits(), 4.0f64.to_bits()),
            resume: 1
        }
    );
}

#[test]
fn the_panic_shim_pushes_a_guest_frame() {
    let mut m = Machine::new(consts());
    let f = Pointer { alloc: 7, offset: 0 };
    let data = Scalar::Int(11);
    let r = emulate_foreign_item(
        &mut m,
        &call(b"__rust_maybe_catch_panic", vec![Scalar::Ptr(f), data]),
    )
    .unwrap();
    assert_eq!(r, Outcome::PushFrame { f, data, resume: 1 });
}

#[test]
fn dlsym_names_the_symbol_it_refuses() {
    let mut m = Machine::new(consts());
    let sym = m.memory.allocate(6, 1, AllocKind::CHeap);
    m.memory.write_bytes_at(sym, b"creat\0").unwrap();
    let r = emulate_foreign_item(
        &mut m,
        &call(b"dlsym", vec![Scalar::Int(0), Scalar::Ptr(sym)]),
    );
    match r {
        Err(EmulError::UnsupportedSymbol(n)) => assert_eq!(n, b"creat".to_vec()),
        _ => panic!("dynamic loading must be refused by symbol"),
    }
}

#[test]
fn syscall_only_understands_get_random() {
    let mut m = Machine::new(consts());
    m.enable_rng(1);
    let buf = m.memory.allocate(8, 1, AllocKind::CHeap);
    let r = emulate_foreign_item(
        &mut m,
        &call(
            b"syscall",
            vec![Scalar::Int(318), Scalar::Ptr(buf), Scalar::Int(8), Scalar::Int(0)],
        ),
    )
    .unwrap();
    assert_eq!(r, handled(Some(Scalar::Int(8))));
    let r = emulate_foreign_item(&mut m, &call(b"syscall", vec![Scalar::Int(1)]));
    assert!(matches!(r, Err(EmulError::UnsupportedSymbol(_))));
}

#[test]
fn get_random_without_entropy_fails_through_every_entry() {
    let mut m = Machine::new(consts());
    let buf = m.memory.allocate(8, 1, AllocKind::CHeap);
    let r = emulate_foreign_item(
        &mut m,
        &call(
            b"syscall",
            vec![Scalar::Int(318), Scalar::Ptr(buf), Scalar::Int(8), Scalar::Int(0)],
        ),
    );
    assert!(matches!(r, Err(EmulError::EntropyUnavailable)));
    let r = emulate_foreign_item(
        &mut m,
        &call(
            b"SecRandomCopyBytes",
            vec![Scalar::Int(0), Scalar::Int(8), Scalar::Ptr(buf)],
        ),
    );
    assert!(matches!(r, Err(EmulError::EntropyUnavailable)));
    let r = emulate_foreign_item(
        &mut m,
        &call(b"SystemFunction036", vec![Scalar::Ptr(buf), Scalar::Int(8)]),
    );
    assert!(matches!(r, Err(EmulError::EntropyUnavailable)));
}

#[test]
fn write_file_reports_its_count_through_memory() {
    let mut m = Machine::new(consts());
    let count = m.memory.allocate(4, 4, AllocKind::CHeap);
    let r = emulate_foreign_item(
        &mut m,
        &call(
            b"WriteFile",
            vec![Scalar::Int(7), Scalar::Int(0), Scalar::Int(5), Scalar::Ptr(count)],
        ),
    )
    .unwrap();
    assert_eq!(r, handled(Some(Scalar::Int(1))));
    let raw = m.memory.read_bytes(count, 4).unwrap();
    assert_eq!(u32::from_le_bytes([raw[0], raw[1], raw[2], raw[3]]), 5);
}

#[test]
fn get_system_info_reports_the_processor_count() {
    let mut m = Machine::new(consts());
    let rec = m.memory.allocate(64, 8, AllocKind::CHeap);
    m.memory.write_bytes_at(rec, &[0xFF; 64]).unwrap();
    let r = emulate_foreign_item(&mut m, &call(b"GetSystemInfo", vec![Scalar::Ptr(rec)]))
        .unwrap();
    assert_eq!(r, handled(None));
    let raw = m.memory.read_bytes(rec, 64).unwrap();
    let off = 8 + 3 * 8;
    assert_eq!(
        u32::from_le_bytes([raw[off], raw[off + 1], raw[off + 2], raw[off + 3]]),
        NUM_CPUS as u32
    );
    assert!(raw[0..off].iter().all(|b| *b == 0));
    assert!(raw[off + 4..64].iter().all(|b| *b == 0));
}

#[test]
fn mmap_returns_its_hint_and_stack_queries_the_fixed_base() {
    let mut m = Machine::new(consts());
    let r = emulate_foreign_item(&mut m, &call(b"mmap", vec![Scalar::Int(0x5000)])).unwrap();
    assert_eq!(r, handled(Some(Scalar::Int(0x5000))));
    let r = emulate_foreign_item(&mut m, &call(b"pthread_get_stackaddr_np", vec![])).unwrap();
    assert_eq!(r, handled(Some(Scalar::Int(STACK_ADDR))));
    let out = m.memory.allocate(8, 8, AllocKind::CHeap);
    let r = emulate_foreign_item(
        &mut m,
        &call(b"pthread_attr_getstack", vec![Scalar::Int(0), Scalar::Ptr(out)]),
    )
    .unwrap();
    assert_eq!(r, handled(Some(Scalar::Int(0))));
    let raw = m.memory.read_bytes(out, 8).unwrap();
    assert_eq!(u64::from_le_bytes(raw.try_into().unwrap()), STACK_ADDR as u64);
}

#[test]
fn get_std_handle_is_the_identity() {
    let mut m = Machine::new(consts());
    let r = emulate_foreign_item(&mut m, &call(b"GetStdHandle", vec![Scalar::Int(-11)]))
        .unwrap();
    assert_eq!(r, handled(Some(Scalar::Int(-11))));
}

#[test]
fn write_to_standard_error_reports_the_host_count() {
    let mut m = Machine::new(consts());
    let msg = m.memory.allocate(5, 1, AllocKind::CHeap);
    m.memory.write_bytes_at(msg, b"five
").unwrap();
    let r = emulate_foreign_item(
        &mut m,
        &call(b"write", vec![Scalar::Int(2), Scalar::Ptr(msg), Scalar::Int(5)]),
    )
    .unwrap();
    assert_eq!(r, handled(Some(Scalar::Int(5))));
}

#[test]
fn write_to_another_destination_is_discarded_as_fully_written() {
    let mut m = Machine::new(consts());
    let r = emulate_foreign_item(
        &mut m,
        &call(b"write", vec![Scalar::Int(9), Scalar::Int(0), Scalar::Int(7)]),
    )
    .unwrap();
    assert_eq!(r, handled(Some(Scalar::Int(7))));
}

#[test]
fn diverging_calls_need_no_destination() {
    let mut m = Machine::new(consts());
    let req = ForeignCallRequest {
        link_name: b"exit".to_vec(),
        args: vec![Scalar::Int(9)],
        dest: None,
        ret: None,
    };
    assert!(matches!(
        emulate_foreign_item(&mut m, &req),
        Err(EmulError::ProcessExit(9))
    ));
}

#[test]
fn find_fn_classifies_callees() {
    let mut m = Machine::new(consts());
    let req = call(b"whatever", vec![]);
    let hooked = InstanceInfo { hooked: true, align_offset_fn: false, foreign: false };
    assert_eq!(find_fn(&mut m, hooked, &req).unwrap(), FnAction::AlreadyHandled);

    let plain = InstanceInfo { hooked: false, align_offset_fn: false, foreign: false };
    assert_eq!(find_fn(&mut m, plain, &req).unwrap(), FnAction::RunBody);

    let align = InstanceInfo { hooked: false, align_offset_fn: true, foreign: false };
    match find_fn(&mut m, align, &req).unwrap() {
        FnAction::Emulated(Outcome::Handled { result, .. }) => {
            assert_eq!(result, Some(Scalar::Int(u64::MAX as i128)))
        },
        _ => panic!("the alignment-offset item must answer with all ones"),
    }

    let foreign = InstanceInfo { hooked: false, align_offset_fn: false, foreign: true };
    let req = call(b"malloc", vec![Scalar::Int(4)]);
    match find_fn(&mut m, foreign, &req).unwrap() {
        FnAction::Emulated(Outcome::Handled { result: Some(Scalar::Ptr(_)), .. }) => {},
        _ => panic!("a foreign callee must be emulated"),
    }
}

#[test]
fn key_ids_wider_than_the_destination_are_refused() {
    let mut m = Machine::new(consts());
    // a one-byte key type: ids 0..=255 fit, the 257th creation cannot
    m.consts.key_type_size = 1;
    let key_out = m.memory.allocate(1, 1, AllocKind::CHeap);
    for _ in 0..256 {
        let r = emulate_foreign_item(
            &mut m,
            &call(b"pthread_key_create", vec![Scalar::Ptr(key_out), Scalar::Int(0)]),
        );
        assert!(r.is_ok());
    }
    let r = emulate_foreign_item(
        &mut m,
        &call(b"pthread_key_create", vec![Scalar::Ptr(key_out), Scalar::Int(0)]),
    );
    assert!(matches!(r, Err(EmulError::KeySpaceExhausted)));
}
