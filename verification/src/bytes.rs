use vstd::prelude::*;
use crate::errors::EmulError;
use crate::mem::Memory;
use crate::util::{is_first_index_of, is_last_index_of};
use crate::value::Pointer;

verus! {

/// Lexicographic three-way comparison of two byte windows of equal
/// length: -1, 0 or 1.
pub open spec fn spec_memcmp(a: Seq<u8>, b: Seq<u8>) -> int
    recommends
        a.len() == b.len(),
    decreases a.len(),
{
    if a.len() == 0 {
        0
    } else if a[0] < b[0] {
        -1
    } else if a[0] > b[0] {
        1
    } else {
        spec_memcmp(a.skip(1), b.skip(1))
    }
}

/// Skipping a common prefix does not change the comparison.
proof fn lemma_memcmp_common_prefix(a: Seq<u8>, b: Seq<u8>, i: int)
    requires
        a.len() == b.len(),
        0 <= i <= a.len(),
        forall|j: int| 0 <= j < i ==> a[j] == b[j],
    ensures
        spec_memcmp(a, b) == spec_memcmp(a.skip(i), b.skip(i)),
    decreases i,
{
    if i > 0 {
        assert(a[0] == b[0]);
        assert(a.skip(1).len() == b.skip(1).len());
        assert(forall|j: int| 0 <= j < i - 1 ==> a.skip(1)[j] == b.skip(1)[j]);
        lemma_memcmp_common_prefix(a.skip(1), b.skip(1), i - 1);
        assert(a.skip(1).skip(i - 1) =~= a.skip(i));
        assert(b.skip(1).skip(i - 1) =~= b.skip(i));
    } else {
        assert(a.skip(0) =~= a);
        assert(b.skip(0) =~= b);
    }
}

/// Compares two byte slices of equal length lexicographically.
pub fn memcmp_bytes(a: &[u8], b: &[u8]) -> (r: i32)
    requires
        a@.len() == b@.len(),
    ensures
        r == spec_memcmp(a@, b@),
        -1 <= r <= 1,
        r == 0 <==> a@ == b@,
{
    let n = a.len();
    let mut i: usize = 0;
    while i < n
        invariant
            0 <= i <= n,
            n == a@.len() && n == b@.len(),
            forall|j: int| 0 <= j < i ==> a@[j] == b@[j],
        decreases n - i,
    {
        let x = a[i];
        let y = b[i];
        if x < y {
            proof {
                lemma_memcmp_common_prefix(a@, b@, i as int);
                assert(a@.skip(i as int)[0] == x && b@.skip(i as int)[0] == y);
                assert(a@ != b@);
            }
            return -1;
        }
        if x > y {
            proof {
                lemma_memcmp_common_prefix(a@, b@, i as int);
                assert(a@.skip(i as int)[0] == x && b@.skip(i as int)[0] == y);
                assert(a@ != b@);
            }
            return 1;
        }
        i = i + 1;
    }
    proof {
        lemma_memcmp_common_prefix(a@, b@, n as int);
        assert(a@.skip(n as int).len() == 0);
        assert(a@ =~= b@);
    }
    0
}

/// Emulates `memcmp`: reads exactly `n` bytes through each pointer and
/// compares them lexicographically; a window out of bounds is a memory
/// fault, never a truncated read.
pub fn memcmp(mem: &Memory, left: Pointer, right: Pointer, n: usize) -> (r: Result<
    i32,
    EmulError,
>)
    ensures
        r is Ok <==> mem.in_bounds(left, n as int) && mem.in_bounds(right, n as int),
        r is Ok ==> r->Ok_0 == spec_memcmp(
            mem.bytes_of(left.alloc as int).subrange(left.offset as int, left.offset + n),
            mem.bytes_of(right.alloc as int).subrange(right.offset as int, right.offset + n),
        ),
        r is Err ==> r == Err::<i32, EmulError>(EmulError::MemoryAccessFault),
{
    let lb = match mem.read_bytes(left, n) {
        Ok(v) => v,
        Err(e) => {
            return Err(e);
        },
    };
    let rb = match mem.read_bytes(right, n) {
        Ok(v) => v,
        Err(e) => {
            return Err(e);
        },
    };
    Ok(memcmp_bytes(lb.as_slice(), rb.as_slice()))
}

/// Emulates `memchr`: the first occurrence of `val` in the `n` bytes at
/// `ptr`, as a pointer offset to it, or `None` (null) when absent.
pub fn memchr(mem: &Memory, ptr: Pointer, val: u8, n: usize) -> (r: Result<
    Option<Pointer>,
    EmulError,
>)
    ensures
        r is Ok <==> mem.in_bounds(ptr, n as int),
        r is Ok ==> {
            let w = mem.bytes_of(ptr.alloc as int).subrange(ptr.offset as int, ptr.offset + n);
            &&& (r->Ok_0 matches Some(q) ==> q.alloc == ptr.alloc && ptr.offset <= q.offset
                && is_first_index_of(w, val, q.offset - ptr.offset))
            &&& (r->Ok_0 is None ==> forall|j: int| 0 <= j < n ==> w[j] != val)
        },
        r is Err ==> r == Err::<Option<Pointer>, EmulError>(EmulError::MemoryAccessFault),
{
    let bytes = match mem.read_bytes(ptr, n) {
        Ok(v) => v,
        Err(e) => {
            return Err(e);
        },
    };
    let mut i: usize = 0;
    while i < n
        invariant
            0 <= i <= n,
            n == bytes@.len(),
            ptr.offset + n <= usize::MAX,
            mem.in_bounds(ptr, n as int),
            bytes@ == mem.bytes_of(ptr.alloc as int).subrange(
                ptr.offset as int,
                ptr.offset + n,
            ),
            forall|j: int| 0 <= j < i ==> bytes@[j] != val,
        decreases n - i,
    {
        if bytes[i] == val {
            assert(is_first_index_of(bytes@, val, i as int));
            return Ok(Some(Pointer { alloc: ptr.alloc, offset: ptr.offset + i }));
        }
        i = i + 1;
    }
    Ok(None)
}

/// Emulates `memrchr`: the last occurrence of `val` in the `n` bytes at
/// `ptr`, as a pointer offset to it, or `None` (null) when absent. The
/// scan runs from the end, so several matches resolve to the highest
/// index.
pub fn memrchr(mem: &Memory, ptr: Pointer, val: u8, n: usize) -> (r: Result<
    Option<Pointer>,
    EmulError,
>)
    ensures
        r is Ok <==> mem.in_bounds(ptr, n as int),
        r is Ok ==> {
            let w = mem.bytes_of(ptr.alloc as int).subrange(ptr.offset as int, ptr.offset + n);
            &&& (r->Ok_0 matches Some(q) ==> q.alloc == ptr.alloc && ptr.offset <= q.offset
                && is_last_index_of(w, val, q.offset - ptr.offset))
            &&& (r->Ok_0 is None ==> forall|j: int| 0 <= j < n ==> w[j] != val)
        },
        r is Err ==> r == Err::<Option<Pointer>, EmulError>(EmulError::MemoryAccessFault),
{
    let bytes = match mem.read_bytes(ptr, n) {
        Ok(v) => v,
        Err(e) => {
            return Err(e);
        },
    };
    let mut i: usize = n;
    while i > 0
        invariant
            0 <= i <= n,
            n == bytes@.len(),
            ptr.offset + n <= usize::MAX,
            mem.in_bounds(ptr, n as int),
            bytes@ == mem.bytes_of(ptr.alloc as int).subrange(
                ptr.offset as int,
                ptr.offset + n,
            ),
            forall|j: int| i <= j < n ==> bytes@[j] != val,
        decreases i,
    {
        i = i - 1;
        if bytes[i] == val {
            assert(is_last_index_of(bytes@, val, i as int));
            return Ok(Some(Pointer { alloc: ptr.alloc, offset: ptr.offset + i }));
        }
    }
    Ok(None)
}

/// Emulates `strlen`: the length of the null-terminated run at `ptr`;
/// a missing terminator inside the allocation is a memory fault.
pub fn strlen(mem: &Memory, ptr: Pointer) -> (r: Result<usize, EmulError>)
    ensures
        r is Ok <==> mem.ptr_live(ptr) && ptr.offset <= mem.bytes_of(ptr.alloc as int).len()
            && exists|i: int|
            is_first_index_of(mem.bytes_of(ptr.alloc as int).skip(ptr.offset as int), 0u8, i),
        r is Ok ==> is_first_index_of(
            mem.bytes_of(ptr.alloc as int).skip(ptr.offset as int),
            0u8,
            r->Ok_0 as int,
        ),
        r is Err ==> r == Err::<usize, EmulError>(EmulError::MemoryAccessFault),
{
    match mem.read_c_str(ptr) {
        Ok(v) => Ok(v.len()),
        Err(e) => Err(e),
    }
}

} // verus!
