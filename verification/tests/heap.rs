use foreign_calls::errors::EmulError;
use foreign_calls::machine::{Machine, PlatformConsts};
use foreign_calls::mem::AllocKind;
use foreign_calls::value::Scalar;

fn consts() -> PlatformConsts {
    PlatformConsts {
        ptr_size: 8,
        key_type_size: 4,
        system_info_size: 64,
        sys_getrandom: Some(318),
        sc_pagesize: Some(30),
        sc_getpw_r_size_max: Some(70),
        sc_nprocessors_onln: Some(84),
    }
}

#[test]
fn malloc_zero_init_reads_as_zero() {
    let mut m = Machine::new(consts());
    let r = m.malloc(16, true);
    let p = match r {
        Scalar::Ptr(p) => p,
        Scalar::Int(_) => panic!("a non-zero size must yield a pointer"),
    };
    let bytes = m.memory.read_bytes(p, 16).unwrap();
    assert_eq!(bytes, vec![0u8; 16]);
}

#[test]
fn malloc_zero_size_is_null_and_allocates_nothing() {
    let mut m = Machine::new(consts());
    let r = m.malloc(0, false);
    assert_eq!(r, Scalar::Int(0));
    assert_eq!(m.memory.allocs.len(), 0);
}

#[test]
fn rust_alloc_zero_size_is_refused() {
    let mut m = Machine::new(consts());
    let r = m.rust_alloc(0, 8, false);
    assert!(matches!(r, Err(EmulError::ZeroSizeNotAllowed)));
    assert_eq!(m.memory.allocs.len(), 0);
}

#[test]
fn rust_alloc_bad_alignment_is_refused_by_name() {
    let mut m = Machine::new(consts());
    let r = m.rust_alloc(8, 3, false);
    assert!(matches!(r, Err(EmulError::NonPowerOfTwoAlignment(3))));
}

#[test]
fn free_null_is_always_a_safe_no_op() {
    let mut m = Machine::new(consts());
    assert!(m.free(Scalar::Int(0)).is_ok());
    let p = m.malloc(4, false);
    assert!(m.free(Scalar::Int(0)).is_ok());
    assert_eq!(m.memory.allocs.len(), 1);
    assert!(m.free(p).is_ok());
}

#[test]
fn double_free_is_a_memory_fault() {
    let mut m = Machine::new(consts());
    let p = m.malloc(4, false);
    assert!(m.free(p).is_ok());
    assert!(matches!(m.free(p), Err(EmulError::MemoryAccessFault)));
}

#[test]
fn free_with_wrong_kind_is_refused() {
    let mut m = Machine::new(consts());
    let r = m.rust_alloc(8, 8, false).unwrap();
    // a tracked allocation cannot leave through the C entry point
    assert!(matches!(m.free(r), Err(EmulError::ContractViolation(_))));
}

#[test]
fn realloc_round_trip_preserves_the_surviving_prefix() {
    let mut m = Machine::new(consts());
    let r = m.malloc(4, false);
    let p = match r {
        Scalar::Ptr(p) => p,
        _ => unreachable!(),
    };
    m.memory.write_bytes_at(p, &[10, 20, 30, 40]).unwrap();

    // grow: all four original bytes survive
    let r2 = m.realloc(r, 8).unwrap();
    let q = match r2 {
        Scalar::Ptr(q) => q,
        _ => panic!("growing must yield a pointer"),
    };
    let back = m.memory.read_bytes(q, 4).unwrap();
    assert_eq!(back, vec![10, 20, 30, 40]);

    // shrink: the first two bytes survive
    let r3 = m.realloc(r2, 2).unwrap();
    let q2 = match r3 {
        Scalar::Ptr(q2) => q2,
        _ => panic!("shrinking to a non-zero size must yield a pointer"),
    };
    let back2 = m.memory.read_bytes(q2, 2).unwrap();
    assert_eq!(back2, vec![10, 20]);
}

#[test]
fn realloc_null_acts_as_malloc_and_zero_as_free() {
    let mut m = Machine::new(consts());
    let r = m.realloc(Scalar::Int(0), 0).unwrap();
    assert_eq!(r, Scalar::Int(0));
    let r2 = m.realloc(Scalar::Int(0), 8).unwrap();
    assert!(matches!(r2, Scalar::Ptr(_)));
    let r3 = m.realloc(r2, 0).unwrap();
    assert_eq!(r3, Scalar::Int(0));
    // the allocation is gone now
    match r2 {
        Scalar::Ptr(p) => {
            assert!(matches!(
                m.memory.read_bytes(p, 1),
                Err(EmulError::MemoryAccessFault)
            ));
        },
        _ => unreachable!(),
    }
}

#[test]
fn rust_realloc_demands_the_recorded_size_and_alignment() {
    let mut m = Machine::new(consts());
    let r = m.rust_alloc(8, 4, false).unwrap();
    assert!(matches!(
        m.rust_realloc(r, 6, 4, 16),
        Err(EmulError::ContractViolation(_))
    ));
    assert!(matches!(
        m.rust_realloc(r, 8, 8, 16),
        Err(EmulError::ContractViolation(_))
    ));
    let grown = m.rust_realloc(r, 8, 4, 16).unwrap();
    assert!(matches!(grown, Scalar::Ptr(_)));
}

#[test]
fn memalign_enforces_posix_alignment_rules() {
    let mut m = Machine::new(consts());
    assert!(matches!(
        m.memalign(16, 6),
        Err(EmulError::NonPowerOfTwoAlignment(6))
    ));
    assert!(matches!(
        m.memalign(16, 4),
        Err(EmulError::ContractViolation(_))
    ));
    assert_eq!(m.memalign(0, 16).unwrap(), Scalar::Int(0));
    let r = m.memalign(16, 16).unwrap();
    match r {
        Scalar::Ptr(p) => match &m.memory.allocs[p.alloc] {
            Some(a) => {
                assert_eq!(a.kind, AllocKind::CHeap);
                assert_eq!(a.align, 16);
                assert_eq!(a.bytes.len(), 16);
            },
            None => panic!("the allocation must be live"),
        },
        _ => panic!("a non-zero aligned request must yield a pointer"),
    }
}

#[test]
fn only_exit_and_abort_end_the_whole_run() {
    assert!(EmulError::ProcessExit(0).is_diverging());
    assert!(EmulError::FatalAbort.is_diverging());
    assert!(!EmulError::MemoryAccessFault.is_diverging());
    assert!(!EmulError::KeySpaceExhausted.is_diverging());
    assert!(!EmulError::EntropyUnavailable.is_diverging());
}
