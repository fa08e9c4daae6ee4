use foreign_calls::errors::EmulError;
use foreign_calls::machine::{Machine, PlatformConsts};
use foreign_calls::mem::AllocKind;
use foreign_calls::random::gen_random;
use foreign_calls::value::{Pointer, Scalar};

fn consts() -> PlatformConsts {
    PlatformConsts {
        ptr_size: 8,
        key_type_size: 4,
        system_info_size: 64,
        sys_getrandom: Some(318),
        sc_pagesize: Some(30),
        sc_getpw_r_size_max: Some(70),
        sc_nprocessors_onln: Some(84),
    }
}

#[test]
fn key_creation_yields_distinct_ids_and_may_reuse_deleted_ones() {
    let mut m = Machine::new(consts());
    let k1 = m.tls.create_key(None);
    let k2 = m.tls.create_key(None);
    assert_ne!(k1, k2);
    m.tls.delete_key(k1).unwrap();
    let k3 = m.tls.create_key(None);
    // no id is handed out while it is still associated
    assert_ne!(k3, k2);
    let k4 = m.tls.create_key(None);
    assert_ne!(k4, k2);
    assert_ne!(k4, k3);
}

#[test]
fn tls_slots_hold_what_was_stored() {
    let mut m = Machine::new(consts());
    let k = m.tls.create_key(Some(Pointer { alloc: 9, offset: 0 }));
    // a fresh slot reads as the null value
    assert_eq!(m.tls.load(k).unwrap(), Scalar::Int(0));
    m.tls.store(k, Scalar::Int(42)).unwrap();
    assert_eq!(m.tls.load(k).unwrap(), Scalar::Int(42));
    m.tls.delete_key(k).unwrap();
    assert!(matches!(m.tls.load(k), Err(EmulError::ContractViolation(_))));
    assert!(matches!(
        m.tls.store(k, Scalar::Int(1)),
        Err(EmulError::ContractViolation(_))
    ));
    assert!(matches!(
        m.tls.delete_key(k),
        Err(EmulError::ContractViolation(_))
    ));
}

#[test]
fn gen_random_without_a_source_always_fails() {
    let mut m = Machine::new(consts());
    let p = m.memory.allocate(8, 1, AllocKind::CHeap);
    let r = gen_random(&mut m, 8, Scalar::Ptr(p));
    assert!(matches!(r, Err(EmulError::EntropyUnavailable)));
    // nothing was written either
    assert_eq!(m.memory.read_bytes(p, 8).unwrap(), vec![0u8; 8]);
}

#[test]
fn gen_random_of_nothing_is_a_no_op_even_without_a_source() {
    let mut m = Machine::new(consts());
    assert!(gen_random(&mut m, 0, Scalar::Int(0)).is_ok());
}

#[test]
fn gen_random_fills_exactly_the_requested_window() {
    let mut m = Machine::new(consts());
    m.enable_rng(7);
    let p = m.memory.allocate(12, 1, AllocKind::CHeap);
    m.memory.write_bytes_at(p, &[0xAA; 12]).unwrap();
    let dest = Pointer { alloc: p.alloc, offset: 2 };
    gen_random(&mut m, 8, Scalar::Ptr(dest)).unwrap();
    let all = m.memory.read_bytes(p, 12).unwrap();
    // the bytes around the window are untouched
    assert_eq!(&all[0..2], &[0xAA, 0xAA]);
    assert_eq!(&all[10..12], &[0xAA, 0xAA]);
}

#[test]
fn gen_random_never_writes_a_partial_window() {
    let mut m = Machine::new(consts());
    m.enable_rng(7);
    let p = m.memory.allocate(4, 1, AllocKind::CHeap);
    // more bytes than the allocation holds: fail, do not truncate
    let r = gen_random(&mut m, 8, Scalar::Ptr(p));
    assert!(matches!(r, Err(EmulError::MemoryAccessFault)));
    assert_eq!(m.memory.read_bytes(p, 4).unwrap(), vec![0u8; 4]);
}

#[test]
fn seeded_generators_are_deterministic() {
    let mut m1 = Machine::new(consts());
    m1.enable_rng(123);
    let p1 = m1.memory.allocate(16, 1, AllocKind::CHeap);
    gen_random(&mut m1, 16, Scalar::Ptr(p1)).unwrap();
    let a = m1.memory.read_bytes(p1, 16).unwrap();

    let mut m2 = Machine::new(consts());
    m2.enable_rng(123);
    let p2 = m2.memory.allocate(16, 1, AllocKind::CHeap);
    gen_random(&mut m2, 16, Scalar::Ptr(p2)).unwrap();
    let b = m2.memory.read_bytes(p2, 16).unwrap();
    assert_eq!(a, b);
}
