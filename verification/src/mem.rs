use vstd::prelude::*;
use crate::errors::EmulError;
use crate::value::Pointer;
use crate::util::{is_first_index_of, lemma_le_bytes_len, spec_le_bytes, u64_le_bytes, zero_vec};

verus! {

/// What an allocation was created for; deallocation must restate the
/// same kind, which keeps the emulated heaps apart.
#[derive(Clone, Copy, Debug, PartialEq, Eq, Structural)]
pub enum AllocKind {
    /// The emulated C heap (`malloc` and friends).
    CHeap,
    /// The emulated language heap (the tracked allocator ABI).
    RustHeap,
    /// Buffers owned by the environment variable store.
    Env,
}

/// One live tracked allocation: its bytes, the alignment it was created
/// with, and its kind.
pub struct Allocation {
    pub bytes: Vec<u8>,
    pub align: usize,
    pub kind: AllocKind,
}

/// The emulated memory: a table of allocations indexed by allocation id.
/// A deallocated id stays in the table as `None`, so a dangling pointer
/// is recognised rather than confused with a younger allocation.
pub struct Memory {
    pub allocs: Vec<Option<Allocation>>,
}

impl Memory {
    /// The allocation id `a` refers to a live allocation.
    pub open spec fn live(self, a: int) -> bool {
        &&& 0 <= a < self.allocs@.len()
        &&& self.allocs@[a] is Some
    }

    pub open spec fn alloc_of(self, a: int) -> Allocation {
        self.allocs@[a].unwrap()
    }

    pub open spec fn bytes_of(self, a: int) -> Seq<u8> {
        self.alloc_of(a).bytes@
    }

    /// The pointer refers to a live allocation (its provenance is valid).
    pub open spec fn ptr_live(self, p: Pointer) -> bool {
        self.live(p.alloc as int)
    }

    /// A window of `n` bytes starting at `p` lies inside a live allocation.
    pub open spec fn in_bounds(self, p: Pointer, n: int) -> bool {
        &&& self.ptr_live(p)
        &&& p.offset + n <= self.bytes_of(p.alloc as int).len()
    }

    /// `post` has the same allocation table as `pre` except possibly at id `a`.
    pub open spec fn frame_except(pre: Memory, post: Memory, a: int) -> bool {
        &&& post.allocs@.len() == pre.allocs@.len()
        &&& forall|i: int|
            0 <= i < pre.allocs@.len() && i != a ==> post.allocs@[i] == pre.allocs@[i]
    }

    /// `post` is `pre` with exactly `data` spliced in at `p`, and nothing
    /// else changed.
    pub open spec fn bytes_written(pre: Memory, post: Memory, p: Pointer, data: Seq<u8>) -> bool {
        let a = p.alloc as int;
        &&& pre.in_bounds(p, data.len() as int)
        &&& Memory::frame_except(pre, post, a)
        &&& post.live(a)
        &&& post.alloc_of(a).kind == pre.alloc_of(a).kind
        &&& post.alloc_of(a).align == pre.alloc_of(a).align
        &&& post.bytes_of(a) == pre.bytes_of(a).take(p.offset as int) + data + pre.bytes_of(
            a,
        ).skip(p.offset + data.len())
    }

    /// A null-terminated byte run can be read starting at `p`.
    pub open spec fn has_c_str(self, p: Pointer) -> bool {
        &&& self.ptr_live(p)
        &&& p.offset <= self.bytes_of(p.alloc as int).len()
        &&& exists|i: int|
            is_first_index_of(self.bytes_of(p.alloc as int).skip(p.offset as int), 0u8, i)
    }

    /// The null-terminated byte run starting at `p`, terminator excluded.
    pub open spec fn c_str_at(self, p: Pointer) -> Seq<u8> {
        let s = self.bytes_of(p.alloc as int).skip(p.offset as int);
        s.take(choose|i: int| is_first_index_of(s, 0u8, i))
    }

    /// The first index of a byte in a window is unique.
    pub proof fn lemma_first_index_unique(s: Seq<u8>, v: u8, i: int)
        requires
            is_first_index_of(s, v, i),
        ensures
            (choose|j: int| is_first_index_of(s, v, j)) == i,
    {
        let j = choose|j: int| is_first_index_of(s, v, j);
        assert(is_first_index_of(s, v, j));
        if j < i {
            assert(s[j] != v);
            assert(false);
        }
        if i < j {
            assert(s[i] != v);
            assert(false);
        }
    }

    /// Two same-length writes at the same spot compose to the second.
    pub proof fn lemma_bytes_written_twice(
        pre: Memory,
        mid: Memory,
        post: Memory,
        p: Pointer,
        d1: Seq<u8>,
        d2: Seq<u8>,
    )
        requires
            Memory::bytes_written(pre, mid, p, d1),
            Memory::bytes_written(mid, post, p, d2),
            d1.len() == d2.len(),
        ensures
            Memory::bytes_written(pre, post, p, d2),
    {
        let a = p.alloc as int;
        assert(mid.bytes_of(a).len() == pre.bytes_of(a).len());
        assert(mid.bytes_of(a).take(p.offset as int) =~= pre.bytes_of(a).take(p.offset as int));
        assert(mid.bytes_of(a).skip(p.offset + d2.len()) =~= pre.bytes_of(a).skip(
            p.offset + d1.len(),
        ));
        assert(post.bytes_of(a) =~= pre.bytes_of(a).take(p.offset as int) + d2 + pre.bytes_of(
            a,
        ).skip(p.offset + d2.len()));
    }

    /// Whether a deallocation request is consistent with what was
    /// recorded when the allocation was created.
    pub open spec fn dealloc_ok(
        self,
        ptr: Pointer,
        size_align: Option<(usize, usize)>,
        kind: AllocKind,
    ) -> bool {
        let a = ptr.alloc as int;
        &&& self.ptr_live(ptr)
        &&& ptr.offset == 0
        &&& self.alloc_of(a).kind == kind
        &&& (size_align matches Some(sa) ==> sa.0 == self.bytes_of(a).len() && sa.1
            == self.alloc_of(a).align)
    }

    pub fn new() -> (r: Memory)
        ensures
            r.allocs@.len() == 0,
    {
        Memory { allocs: Vec::new() }
    }

    /// Creates a fresh allocation of `size` bytes with the given
    /// alignment and kind, and returns a pointer to its start. The new
    /// allocation id is distinct from every id handed out before.
    pub fn allocate(&mut self, size: usize, align: usize, kind: AllocKind) -> (p: Pointer)
        ensures
            p.alloc == old(self).allocs@.len(),
            p.offset == 0,
            final(self).allocs@.len() == old(self).allocs@.len() + 1,
            forall|i: int|
                0 <= i < old(self).allocs@.len() ==> final(self).allocs@[i] == old(self).allocs@[i],
            final(self).live(p.alloc as int),
            final(self).bytes_of(p.alloc as int).len() == size,
            final(self).alloc_of(p.alloc as int).align == align,
            final(self).alloc_of(p.alloc as int).kind == kind,
    {
        let id = self.allocs.len();
        let bytes = zero_vec(size);
        self.allocs.push(Some(Allocation { bytes, align, kind }));
        Pointer { alloc: id, offset: 0 }
    }

    /// Destroys the allocation `ptr` refers to. The pointer must be to
    /// the start of a live allocation of the stated kind; when a size
    /// and alignment are supplied they must equal those recorded at
    /// creation, or the request fails and nothing changes.
    pub fn deallocate(
        &mut self,
        ptr: Pointer,
        size_align: Option<(usize, usize)>,
        kind: AllocKind,
    ) -> (r: Result<(), EmulError>)
        ensures
            r is Ok <==> old(self).dealloc_ok(ptr, size_align, kind),
            r is Ok ==> final(self).allocs@ == old(self).allocs@.update(
                ptr.alloc as int,
                None::<Allocation>,
            ),
            r is Err ==> *final(self) == *old(self),
            !(old(self).ptr_live(ptr) && ptr.offset == 0) ==> r == Err::<(),
                EmulError,
            >(EmulError::MemoryAccessFault),
            r is Err && old(self).ptr_live(ptr) && ptr.offset == 0 ==> r->Err_0
                is ContractViolation,
    {
        if ptr.alloc >= self.allocs.len() {
            return Err(EmulError::MemoryAccessFault);
        }
        let slot = &self.allocs[ptr.alloc];
        match slot {
            None => Err(EmulError::MemoryAccessFault),
            Some(a) => {
                if ptr.offset != 0 {
                    return Err(EmulError::MemoryAccessFault);
                }
                if !(a.kind == kind) {
                    return Err(EmulError::ContractViolation(
                        "deallocation with the wrong allocation kind".to_owned(),
                    ));
                }
                match size_align {
                    Some((s, al)) => {
                        if s != a.bytes.len() || al != a.align {
                            return Err(EmulError::ContractViolation(
                                "deallocation size or alignment does not match the allocation".to_owned(),
                            ));
                        }
                    },
                    None => {},
                }
                self.allocs[ptr.alloc] = None;
                Ok(())
            },
        }
    }

    /// Relocates the allocation `ptr` refers to into a fresh allocation
    /// of `new_size` bytes, preserving the first `min(old_len, new_size)`
    /// bytes; the old allocation is destroyed. The request is validated
    /// like a deallocation restating `old_size` and `old_align`, and
    /// fails without effect when that validation fails.
    pub fn reallocate(
        &mut self,
        ptr: Pointer,
        old_size: usize,
        old_align: usize,
        new_size: usize,
        new_align: usize,
        kind: AllocKind,
    ) -> (r: Result<Pointer, EmulError>)
        ensures
            r is Ok <==> old(self).dealloc_ok(ptr, Some((old_size, old_align)), kind),
            r is Ok ==> {
                let q = r->Ok_0;
                let old_len = old(self).bytes_of(ptr.alloc as int).len() as int;
                let copied = if old_len <= new_size {
                    old_len
                } else {
                    new_size as int
                };
                &&& q.alloc == old(self).allocs@.len()
                &&& q.offset == 0
                &&& final(self).allocs@.len() == old(self).allocs@.len() + 1
                &&& forall|i: int|
                    0 <= i < old(self).allocs@.len() && i != ptr.alloc ==> final(self).allocs@[i] == old(self).allocs@[i]
                &&& final(self).allocs@[ptr.alloc as int] is None
                &&& final(self).live(q.alloc as int)
                &&& final(self).bytes_of(q.alloc as int).len() == new_size
                &&& final(self).alloc_of(q.alloc as int).align == new_align
                &&& final(self).alloc_of(q.alloc as int).kind == kind
                &&& forall|j: int|
                    0 <= j < copied ==> final(self).bytes_of(q.alloc as int)[j] == old(self).bytes_of(ptr.alloc as int)[j]
            },
            r is Err ==> *final(self) == *old(self),
            !(old(self).ptr_live(ptr) && ptr.offset == 0) ==> r == Err::<Pointer,
                EmulError,
            >(EmulError::MemoryAccessFault),
            r is Err && old(self).ptr_live(ptr) && ptr.offset == 0 ==> r->Err_0
                is ContractViolation,
    {
        if ptr.alloc >= self.allocs.len() {
            return Err(EmulError::MemoryAccessFault);
        }
        let new_bytes: Vec<u8> = match &self.allocs[ptr.alloc] {
            None => {
                return Err(EmulError::MemoryAccessFault);
            },
            Some(a) => {
                if ptr.offset != 0 {
                    return Err(EmulError::MemoryAccessFault);
                }
                if !(a.kind == kind) {
                    return Err(EmulError::ContractViolation(
                        "reallocation with the wrong allocation kind".to_owned(),
                    ));
                }
                if old_size != a.bytes.len() || old_align != a.align {
                    return Err(EmulError::ContractViolation(
                        "reallocation size or alignment does not match the allocation".to_owned(),
                    ));
                }
                let copied: usize = if a.bytes.len() <= new_size {
                    a.bytes.len()
                } else {
                    new_size
                };
                let mut out: Vec<u8> = Vec::new();
                let mut i: usize = 0;
                while i < copied
                    invariant
                        0 <= i <= copied,
                        copied <= a.bytes@.len(),
                        out@ == a.bytes@.subrange(0, i as int),
                    decreases copied - i,
                {
                    let b = a.bytes[i];
                    out.push(b);
                    assert(out@ =~= a.bytes@.subrange(0, i + 1));
                    i = i + 1;
                }
                assert(out@.subrange(0, copied as int) =~= a.bytes@.subrange(
                    0,
                    copied as int,
                ));
                while i < new_size
                    invariant
                        copied <= i <= new_size,
                        copied <= a.bytes@.len(),
                        out@.len() == i,
                        out@.subrange(0, copied as int) == a.bytes@.subrange(
                            0,
                            copied as int,
                        ),
                    decreases new_size - i,
                {
                    out.push(0u8);
                    assert(out@.subrange(0, copied as int) =~= a.bytes@.subrange(
                        0,
                        copied as int,
                    ));
                    i = i + 1;
                }
                proof {
                    assert(out@.len() == new_size);
                    assert(forall|j: int|
                        0 <= j < copied ==> out@.subrange(0, copied as int)[j]
                            == a.bytes@.subrange(0, copied as int)[j]);
                    assert forall|j: int|
                        0 <= j < copied implies out@[j] == self.bytes_of(
                        ptr.alloc as int,
                    )[j] by {
                        assert(out@[j] == out@.subrange(0, copied as int)[j]);
                        assert(a.bytes@[j] == a.bytes@.subrange(0, copied as int)[j]);
                    }
                }
                out
            },
        };
        let ghost nb: Seq<u8> = new_bytes@;
        let ghost copied_len: int = if old(self).bytes_of(ptr.alloc as int).len() <= new_size {
            old(self).bytes_of(ptr.alloc as int).len() as int
        } else {
            new_size as int
        };
        assert(nb.len() == new_size);
        assert(forall|j: int|
            0 <= j < copied_len ==> nb[j] == old(self).bytes_of(ptr.alloc as int)[j]);
        let q_id = self.allocs.len();
        self.allocs.push(Some(Allocation { bytes: new_bytes, align: new_align, kind }));
        self.allocs[ptr.alloc] = None;
        proof {
            assert(self.allocs@ == old(self).allocs@.push(
                Some(Allocation { bytes: new_bytes, align: new_align, kind }),
            ).update(ptr.alloc as int, None::<Allocation>));
            assert(self.bytes_of(q_id as int) == nb);
        }
        Ok(Pointer { alloc: q_id, offset: 0 })
    }

    /// Reads exactly `n` bytes starting at `p`; fails without effect if
    /// the window is not inside a live allocation.
    pub fn read_bytes(&self, p: Pointer, n: usize) -> (r: Result<Vec<u8>, EmulError>)
        ensures
            r is Ok <==> self.in_bounds(p, n as int),
            r is Ok ==> p.offset + n <= usize::MAX,
            r is Ok ==> r->Ok_0@ == self.bytes_of(p.alloc as int).subrange(
                p.offset as int,
                p.offset + n,
            ),
            r is Err ==> r == Err::<Vec<u8>, EmulError>(EmulError::MemoryAccessFault),
    {
        if p.alloc >= self.allocs.len() {
            return Err(EmulError::MemoryAccessFault);
        }
        match &self.allocs[p.alloc] {
            None => Err(EmulError::MemoryAccessFault),
            Some(a) => {
                let blen = a.bytes.len();
                if p.offset > blen || n > blen - p.offset {
                    return Err(EmulError::MemoryAccessFault);
                }
                let mut out: Vec<u8> = Vec::new();
                let mut i: usize = 0;
                while i < n
                    invariant
                        0 <= i <= n,
                        blen == a.bytes@.len(),
                        p.offset + n <= blen,
                        out@ == a.bytes@.subrange(p.offset as int, p.offset + i),
                    decreases n - i,
                {
                    let b = a.bytes[p.offset + i];
                    out.push(b);
                    assert(out@ =~= a.bytes@.subrange(p.offset as int, p.offset + i + 1));
                    i = i + 1;
                }
                Ok(out)
            },
        }
    }

    /// Writes `data` starting at `p`; fails without effect if the window
    /// is not inside a live allocation.
    pub fn write_bytes_at(&mut self, p: Pointer, data: &[u8]) -> (r: Result<(), EmulError>)
        ensures
            r is Ok <==> old(self).in_bounds(p, data@.len() as int),
            r is Ok ==> old(self).bytes_of(p.alloc as int).len() <= usize::MAX,
            r is Ok ==> Memory::bytes_written(*old(self), *final(self), p, data@),
            r is Err ==> *final(self) == *old(self) && r == Err::<(),
                EmulError,
            >(EmulError::MemoryAccessFault),
    {
        if p.alloc >= self.allocs.len() {
            return Err(EmulError::MemoryAccessFault);
        }
        let n = data.len();
        let fits: bool = match &self.allocs[p.alloc] {
            None => false,
            Some(a) => p.offset <= a.bytes.len() && n <= a.bytes.len() - p.offset,
        };
        if !fits {
            return Err(EmulError::MemoryAccessFault);
        }
        let slot = &mut self.allocs[p.alloc];
        match slot {
            None => {
                proof {
                    assert(false);
                }
                Err(EmulError::MemoryAccessFault)
            },
            Some(a) => {
                let ghost orig: Seq<u8> = a.bytes@;
                let mut i: usize = 0;
                while i < n
                    invariant
                        0 <= i <= n,
                        n == data@.len(),
                        p.offset + n <= orig.len(),
                        a.bytes@.len() == orig.len(),
                        orig.len() <= usize::MAX,
                        orig == old(self).bytes_of(p.alloc as int),
                        a.kind == old(self).alloc_of(p.alloc as int).kind,
                        a.align == old(self).alloc_of(p.alloc as int).align,
                        forall|j: int|
                            0 <= j < orig.len() && !(p.offset <= j < p.offset + i)
                                ==> a.bytes@[j] == orig[j],
                        forall|j: int| 0 <= j < i ==> a.bytes@[p.offset + j] == data@[j],
                    decreases n - i,
                {
                    a.bytes[p.offset + i] = data[i];
                    i = i + 1;
                }
                proof {
                    assert(a.bytes@ =~= orig.take(p.offset as int) + data@ + orig.skip(
                        p.offset + data@.len(),
                    ));
                }
                Ok(())
            },
        }
    }

    /// Writes `n` copies of `val` starting at `p`.
    pub fn write_repeat(&mut self, p: Pointer, val: u8, n: usize) -> (r: Result<(), EmulError>)
        ensures
            r is Ok <==> old(self).in_bounds(p, n as int),
            r is Ok ==> old(self).bytes_of(p.alloc as int).len() <= usize::MAX,
            r is Ok ==> Memory::bytes_written(
                *old(self),
                *final(self),
                p,
                Seq::new(n as nat, |i: int| val),
            ),
            r is Err ==> *final(self) == *old(self) && r == Err::<(),
                EmulError,
            >(EmulError::MemoryAccessFault),
    {
        let mut data: Vec<u8> = Vec::new();
        let mut i: usize = 0;
        while i < n
            invariant
                0 <= i <= n,
                data@ == Seq::new(i as nat, |j: int| val),
            decreases n - i,
        {
            data.push(val);
            assert(data@ =~= Seq::new((i + 1) as nat, |j: int| val));
            i = i + 1;
        }
        self.write_bytes_at(p, data.as_slice())
    }

    /// Writes the `size`-byte little-endian encoding of `val` at `p`,
    /// as the value access layer stores an unsigned integer of that
    /// width.
    pub fn write_uint_le(&mut self, p: Pointer, val: u64, size: usize) -> (r: Result<
        (),
        EmulError,
    >)
        ensures
            r is Ok <==> old(self).in_bounds(p, size as int),
            r is Ok ==> old(self).bytes_of(p.alloc as int).len() <= usize::MAX,
            r is Ok ==> Memory::bytes_written(
                *old(self),
                *final(self),
                p,
                spec_le_bytes(val as nat, size as nat),
            ),
            r is Err ==> *final(self) == *old(self) && r == Err::<(),
                EmulError,
            >(EmulError::MemoryAccessFault),
    {
        proof {
            lemma_le_bytes_len(val as nat, size as nat);
        }
        let data = u64_le_bytes(val, size);
        self.write_bytes_at(p, data.as_slice())
    }

    /// Reads the null-terminated byte run starting at `p`, without the
    /// terminator; fails without effect if `p` is dangling or no
    /// terminator exists inside the allocation.
    pub fn read_c_str(&self, p: Pointer) -> (r: Result<Vec<u8>, EmulError>)
        ensures
            r is Ok <==> self.ptr_live(p) && p.offset <= self.bytes_of(p.alloc as int).len()
                && exists|i: int|
                is_first_index_of(self.bytes_of(p.alloc as int).skip(p.offset as int), 0u8, i),
            r is Ok ==> {
                let suffix = self.bytes_of(p.alloc as int).skip(p.offset as int);
                &&& r->Ok_0@.len() < suffix.len()
                &&& r->Ok_0@ == suffix.take(r->Ok_0@.len() as int)
                &&& suffix[r->Ok_0@.len() as int] == 0u8
                &&& forall|j: int| 0 <= j < r->Ok_0@.len() ==> suffix[j] != 0u8
            },
            r is Ok ==> r->Ok_0@.len() < usize::MAX,
            r is Ok ==> r->Ok_0@ == self.c_str_at(p),
            r is Err ==> r == Err::<Vec<u8>, EmulError>(EmulError::MemoryAccessFault),
    {
        if p.alloc >= self.allocs.len() {
            return Err(EmulError::MemoryAccessFault);
        }
        match &self.allocs[p.alloc] {
            None => Err(EmulError::MemoryAccessFault),
            Some(a) => {
                let blen = a.bytes.len();
                if p.offset > blen {
                    return Err(EmulError::MemoryAccessFault);
                }
                let ghost suffix: Seq<u8> = a.bytes@.skip(p.offset as int);
                let mut out: Vec<u8> = Vec::new();
                let mut i: usize = 0;
                while i < blen - p.offset
                    invariant
                        0 <= i <= blen - p.offset,
                        blen == a.bytes@.len(),
                        p.offset <= blen,
                        p.alloc < self.allocs@.len(),
                        self.allocs@[p.alloc as int] == Some(*a),
                        suffix == a.bytes@.skip(p.offset as int),
                        out@ == suffix.take(i as int),
                        forall|j: int| 0 <= j < i ==> suffix[j] != 0u8,
                    decreases blen - p.offset - i,
                {
                    let b = a.bytes[p.offset + i];
                    assert(b == suffix[i as int]);
                    if b == 0 {
                        proof {
                            assert(suffix =~= self.bytes_of(p.alloc as int).skip(
                                p.offset as int,
                            ));
                            assert(is_first_index_of(
                                self.bytes_of(p.alloc as int).skip(p.offset as int),
                                0u8,
                                i as int,
                            ));
                            Memory::lemma_first_index_unique(
                                self.bytes_of(p.alloc as int).skip(p.offset as int),
                                0u8,
                                i as int,
                            );
                        }
                        return Ok(out);
                    }
                    out.push(b);
                    assert(out@ =~= suffix.take(i + 1));
                    i = i + 1;
                }
                proof {
                    assert(suffix =~= self.bytes_of(p.alloc as int).skip(p.offset as int));
                    assert(forall|k: int|
                        !is_first_index_of(
                            self.bytes_of(p.alloc as int).skip(p.offset as int),
                            0u8,
                            k,
                        ));
                }
                Err(EmulError::MemoryAccessFault)
            },
        }
    }
}

/// The reallocation round trip: reading back the first
/// `min(old_len, new_size)` bytes of the relocated allocation
/// reproduces the original bytes, word for word.
pub proof fn lemma_realloc_round_trip(
    pre: Memory,
    post: Memory,
    p: Pointer,
    q: Pointer,
    new_size: int,
    copied: int,
)
    requires
        pre.live(p.alloc as int),
        post.live(q.alloc as int),
        post.bytes_of(q.alloc as int).len() == new_size,
        copied == if pre.bytes_of(p.alloc as int).len() <= new_size {
            pre.bytes_of(p.alloc as int).len() as int
        } else {
            new_size
        },
        forall|j: int|
            0 <= j < copied ==> post.bytes_of(q.alloc as int)[j] == pre.bytes_of(
                p.alloc as int,
            )[j],
    ensures
        post.bytes_of(q.alloc as int).subrange(0, copied) == pre.bytes_of(
            p.alloc as int,
        ).subrange(0, copied),
{
    assert(post.bytes_of(q.alloc as int).subrange(0, copied) =~= pre.bytes_of(
        p.alloc as int,
    ).subrange(0, copied));
}

} // verus!
