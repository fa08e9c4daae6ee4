use foreign_calls::bytes::{memchr, memcmp, memrchr, strlen};
use foreign_calls::errors::EmulError;
use foreign_calls::machine::{Machine, PlatformConsts};
use foreign_calls::mem::AllocKind;
use foreign_calls::value::{Pointer, Scalar};

fn consts() -> PlatformConsts {
    PlatformConsts {
        ptr_size: 8,
        key_type_size: 4,
        system_info_size: 64,
        sys_getrandom: Some(318),
        sc_pagesize: Some(30),
        sc_getpw_r_size_max: Some(70),
        sc_nprocessors_onln: Some(84),
    }
}

fn put(m: &mut Machine, data: &[u8]) -> Pointer {
    let p = m.memory.allocate(data.len(), 1, AllocKind::CHeap);
    m.memory.write_bytes_at(p, data).unwrap();
    p
}

#[test]
fn memcmp_orders_byte_windows() {
    let mut m = Machine::new(consts());
    let abc = put(&mut m, b"abc");
    let abd = put(&mut m, b"abd");
    assert_eq!(memcmp(&m.memory, abc, abd, 3).unwrap(), -1);
    assert_eq!(memcmp(&m.memory, abc, abc, 3).unwrap(), 0);
    assert_eq!(memcmp(&m.memory, abd, abc, 3).unwrap(), 1);
}

#[test]
fn memcmp_out_of_bounds_is_a_fault_not_a_short_read() {
    let mut m = Machine::new(consts());
    let abc = put(&mut m, b"abc");
    assert!(matches!(
        memcmp(&m.memory, abc, abc, 4),
        Err(EmulError::MemoryAccessFault)
    ));
}

#[test]
fn memchr_finds_the_first_match_and_memrchr_the_last() {
    let mut m = Machine::new(consts());
    let hello = put(&mut m, b"hello");
    let first = memchr(&m.memory, hello, b'l', 5).unwrap().unwrap();
    assert_eq!(first.offset - hello.offset, 2);
    let last = memrchr(&m.memory, hello, b'l', 5).unwrap().unwrap();
    assert_eq!(last.offset - hello.offset, 3);
    assert!(memchr(&m.memory, hello, b'z', 5).unwrap().is_none());
}

#[test]
fn strlen_counts_to_the_terminator() {
    let mut m = Machine::new(consts());
    let s = put(&mut m, b"hello\0world");
    assert_eq!(strlen(&m.memory, s).unwrap(), 5);
    // no terminator inside the allocation: a fault, not a guess
    let raw = put(&mut m, b"abc");
    assert!(matches!(
        strlen(&m.memory, raw),
        Err(EmulError::MemoryAccessFault)
    ));
}

#[test]
fn setenv_getenv_unsetenv_round_trip() {
    let mut m = Machine::new(consts());
    assert_eq!(m.setenv(b"FOO", b"bar"), 0);
    let buf = m.getenv(b"FOO").expect("the variable must be set");
    let held = m.memory.read_bytes(buf, 4).unwrap();
    assert_eq!(held, b"bar\0".to_vec());

    assert_eq!(m.unsetenv(b"FOO"), 0);
    assert!(m.getenv(b"FOO").is_none());
    // the buffer was deallocated with the binding
    assert!(matches!(
        m.memory.read_bytes(buf, 1),
        Err(EmulError::MemoryAccessFault)
    ));
    // a second removal reports "not found" rather than success
    assert_eq!(m.unsetenv(b"FOO"), -1);
}

#[test]
fn setenv_rejects_names_with_a_separator() {
    let mut m = Machine::new(consts());
    assert_eq!(m.setenv(b"GOOD", b"v"), 0);
    let before = m.env_vars.entries.len();
    let allocs_before = m.memory.allocs.len();
    assert_eq!(m.setenv(b"BAD=NAME", b"x"), -1);
    assert_eq!(m.setenv(b"", b"x"), -1);
    assert_eq!(m.env_vars.entries.len(), before);
    assert_eq!(m.memory.allocs.len(), allocs_before);
    assert!(m.getenv(b"BAD=NAME").is_none());
}

#[test]
fn setenv_replaces_and_frees_the_old_buffer() {
    let mut m = Machine::new(consts());
    assert_eq!(m.setenv(b"K", b"one"), 0);
    let old_buf = m.getenv(b"K").unwrap();
    assert_eq!(m.setenv(b"K", b"two"), 0);
    let new_buf = m.getenv(b"K").unwrap();
    assert_ne!(old_buf.alloc, new_buf.alloc);
    assert!(matches!(
        m.memory.read_bytes(old_buf, 1),
        Err(EmulError::MemoryAccessFault)
    ));
    assert_eq!(m.memory.read_bytes(new_buf, 4).unwrap(), b"two\0".to_vec());
}

#[test]
fn unsetenv_leaves_other_variables_alone() {
    let mut m = Machine::new(consts());
    assert_eq!(m.setenv(b"A", b"1"), 0);
    assert_eq!(m.setenv(b"B", b"2"), 0);
    assert_eq!(m.unsetenv(b"A"), 0);
    let b = m.getenv(b"B").unwrap();
    assert_eq!(m.memory.read_bytes(b, 2).unwrap(), b"2\0".to_vec());
}

#[test]
fn scalars_tell_null_pointers_and_sizes_apart() {
    assert!(Scalar::Int(0).is_null());
    assert!(!Scalar::Int(7).is_null());
    assert!(!Scalar::Ptr(Pointer { alloc: 0, offset: 0 }).is_null());
    assert!(Scalar::Int(-1).to_size().is_err());
    assert_eq!(Scalar::Int(9).to_size().unwrap(), 9);
    assert!(Scalar::Int(0).to_ptr().is_err());
}
