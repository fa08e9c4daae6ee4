use vstd::prelude::*;
use crate::errors::EmulError;
use crate::machine::Machine;
use crate::mem::{AllocKind, Memory};
use crate::util::{is_power_of_two, spec_power_of_two};
use crate::value::{Pointer, Scalar};

verus! {

/// `post`'s memory is `pre`'s with one fresh allocation of `size` bytes
/// appended, of the given kind and alignment, and `p` points to its
/// start.
pub open spec fn fresh_alloc(
    pre: Memory,
    post: Memory,
    p: Pointer,
    size: int,
    align: int,
    kind: AllocKind,
) -> bool {
    &&& p.alloc == pre.allocs@.len()
    &&& p.offset == 0
    &&& post.allocs@.len() == pre.allocs@.len() + 1
    &&& forall|i: int| 0 <= i < pre.allocs@.len() ==> post.allocs@[i] == pre.allocs@[i]
    &&& post.live(p.alloc as int)
    &&& post.bytes_of(p.alloc as int).len() == size
    &&& post.alloc_of(p.alloc as int).align == align
    &&& post.alloc_of(p.alloc as int).kind == kind
}

impl Machine {
    /// An allocation appended to the memory leaves the environment
    /// invariant intact.
    proof fn lemma_wf_after_growth(pre: Machine, post: Machine)
        requires
            pre.wf(),
            post.consts == pre.consts,
            post.env_vars == pre.env_vars,
            post.memory.allocs@.len() >= pre.memory.allocs@.len(),
            forall|i: int|
                0 <= i < pre.memory.allocs@.len() ==> post.memory.allocs@[i]
                    == pre.memory.allocs@[i],
        ensures
            post.wf(),
    {
        assert forall|i: int|
            0 <= i < post.env_vars.entries@.len() implies #[trigger] post.env_entry_ok(i) by {
            assert(pre.env_entry_ok(i));
        }
    }

    /// A deallocation that removes no environment-kind allocation leaves
    /// the environment invariant intact.
    proof fn lemma_wf_after_non_env_removal(pre: Machine, post: Machine, a: int)
        requires
            pre.wf(),
            post.consts == pre.consts,
            post.env_vars == pre.env_vars,
            post.memory.allocs@.len() >= pre.memory.allocs@.len(),
            forall|i: int|
                0 <= i < pre.memory.allocs@.len() && i != a ==> post.memory.allocs@[i]
                    == pre.memory.allocs@[i],
            pre.memory.live(a) ==> pre.memory.alloc_of(a).kind != AllocKind::Env,
        ensures
            post.wf(),
    {
        assert forall|i: int|
            0 <= i < post.env_vars.entries@.len() implies #[trigger] post.env_entry_ok(i) by {
            assert(pre.env_entry_ok(i));
            assert(pre.env_vars.entries@[i].buf.alloc != a);
        }
    }

    /// Emulates the C allocator entry point: size zero yields the null
    /// pointer and creates nothing; any other size creates a fresh
    /// pointer-width-aligned allocation on the emulated C heap, zeroed
    /// when `zero_init` asks for it.
    pub fn malloc(&mut self, size: usize, zero_init: bool) -> (r: Scalar)
        ensures
            Machine::same_except_memory(*old(self), *final(self)),
            size == 0 ==> r == Scalar::Int(0) && *final(self) == *old(self),
            size > 0 ==> (r matches Scalar::Ptr(p) && fresh_alloc(
                old(self).memory,
                final(self).memory,
                p,
                size as int,
                old(self).consts.ptr_size as int,
                AllocKind::CHeap,
            )),
            size > 0 && zero_init ==> (r matches Scalar::Ptr(p) && final(self).memory.bytes_of(
                p.alloc as int,
            ) == Seq::new(size as nat, |j: int| 0u8)),
            old(self).wf() ==> final(self).wf(),
    {
        if size == 0 {
            Scalar::Int(0)
        } else {
            let align = self.consts.ptr_size;
            let p = self.memory.allocate(size, align, AllocKind::CHeap);
            if zero_init {
                // the window was just created, so the write cannot fail
                let w = self.memory.write_repeat(p, 0, size);
                assert(w is Ok);
            }
            proof {
                if old(self).wf() {
                    Machine::lemma_wf_after_growth(*old(self), *self);
                }
            }
            Scalar::Ptr(p)
        }
    }

    /// Emulates freeing a C-heap pointer: null is always a safe no-op;
    /// anything else must point at a live C-heap allocation, which is
    /// destroyed.
    pub fn free(&mut self, ptr: Scalar) -> (r: Result<(), EmulError>)
        ensures
            Machine::same_except_memory(*old(self), *final(self)),
            ptr.spec_is_null() ==> r is Ok && *final(self) == *old(self),
            ptr is Int && !ptr.spec_is_null() ==> r is Err && r->Err_0 is ContractViolation
                && *final(self) == *old(self),
            ptr matches Scalar::Ptr(p) ==> {
                &&& (r is Ok <==> old(self).memory.dealloc_ok(p, None, AllocKind::CHeap))
                &&& (r is Ok ==> final(self).memory.allocs@ == old(self).memory.allocs@.update(
                    p.alloc as int,
                    None::<crate::mem::Allocation>,
                ))
                &&& (r is Err ==> *final(self) == *old(self))
            },
            old(self).wf() ==> final(self).wf(),
    {
        if ptr.is_null() {
            return Ok(());
        }
        let p = match ptr.to_ptr() {
            Ok(p) => p,
            Err(e) => {
                return Err(e);
            },
        };
        let r = self.memory.deallocate(p, None, AllocKind::CHeap);
        proof {
            if old(self).wf() {
                if r is Ok {
                    Machine::lemma_wf_after_non_env_removal(*old(self), *self, p.alloc as int);
                }
            }
        }
        r
    }

    /// Emulates the tracked allocator's allocation entry: size zero is a
    /// hard contract violation, a non-power-of-two alignment is refused
    /// by name, and otherwise a fresh allocation is made on the emulated
    /// language heap at the caller's alignment.
    pub fn rust_alloc(&mut self, size: usize, align: usize, zero_init: bool) -> (r: Result<
        Scalar,
        EmulError,
    >)
        ensures
            Machine::same_except_memory(*old(self), *final(self)),
            size == 0 ==> r == Err::<Scalar, EmulError>(EmulError::ZeroSizeNotAllowed)
                && *final(self) == *old(self),
            size > 0 && !spec_power_of_two(align as nat) ==> r == Err::<Scalar, EmulError>(
                EmulError::NonPowerOfTwoAlignment(align),
            ) && *final(self) == *old(self),
            size > 0 && spec_power_of_two(align as nat) ==> r is Ok && (r->Ok_0
                matches Scalar::Ptr(p) && fresh_alloc(
                old(self).memory,
                final(self).memory,
                p,
                size as int,
                align as int,
                AllocKind::RustHeap,
            )),
            size > 0 && spec_power_of_two(align as nat) && zero_init ==> (r->Ok_0
                matches Scalar::Ptr(p) && final(self).memory.bytes_of(p.alloc as int)
                == Seq::new(size as nat, |j: int| 0u8)),
            old(self).wf() ==> final(self).wf(),
    {
        if size == 0 {
            return Err(EmulError::ZeroSizeNotAllowed);
        }
        if !is_power_of_two(align) {
            return Err(EmulError::NonPowerOfTwoAlignment(align));
        }
        let p = self.memory.allocate(size, align, AllocKind::RustHeap);
        if zero_init {
            // the window was just created, so the write cannot fail
            let w = self.memory.write_repeat(p, 0, size);
            assert(w is Ok);
        }
        proof {
            if old(self).wf() {
                Machine::lemma_wf_after_growth(*old(self), *self);
            }
        }
        Ok(Scalar::Ptr(p))
    }

    /// Emulates the tracked allocator's deallocation entry: the caller
    /// must restate the size and alignment recorded at creation, neither
    /// zero size nor a non-power-of-two alignment is acceptable, and the
    /// pointer must refer to a live language-heap allocation.
    pub fn rust_dealloc(&mut self, ptr: Scalar, old_size: usize, align: usize) -> (r: Result<
        (),
        EmulError,
    >)
        ensures
            Machine::same_except_memory(*old(self), *final(self)),
            ptr is Int ==> r is Err && r->Err_0 is ContractViolation && *final(self) == *old(self),
            ptr is Ptr && old_size == 0 ==> r == Err::<(), EmulError>(
                EmulError::ZeroSizeNotAllowed,
            ) && *final(self) == *old(self),
            ptr is Ptr && old_size > 0 && !spec_power_of_two(align as nat) ==> r == Err::<
                (),
                EmulError,
            >(EmulError::NonPowerOfTwoAlignment(align)) && *final(self) == *old(self),
            ptr matches Scalar::Ptr(p) ==> ((old_size > 0 && spec_power_of_two(align as nat))
                ==> {
                &&& (r is Ok <==> old(self).memory.dealloc_ok(
                    p,
                    Some((old_size, align)),
                    AllocKind::RustHeap,
                ))
                &&& (r is Ok ==> final(self).memory.allocs@ == old(self).memory.allocs@.update(
                    p.alloc as int,
                    None::<crate::mem::Allocation>,
                ))
                &&& (r is Err ==> *final(self) == *old(self))
            }),
            old(self).wf() ==> final(self).wf(),
    {
        let p = match ptr.to_ptr() {
            Ok(p) => p,
            Err(e) => {
                return Err(e);
            },
        };
        if old_size == 0 {
            return Err(EmulError::ZeroSizeNotAllowed);
        }
        if !is_power_of_two(align) {
            return Err(EmulError::NonPowerOfTwoAlignment(align));
        }
        let r = self.memory.deallocate(p, Some((old_size, align)), AllocKind::RustHeap);
        proof {
            if old(self).wf() {
                if r is Ok {
                    Machine::lemma_wf_after_non_env_removal(*old(self), *self, p.alloc as int);
                }
            }
        }
        r
    }

    /// Emulates the tracked allocator's reallocation entry: both sizes
    /// must be non-zero, the alignment a power of two, and the restated
    /// size and alignment must match the allocation; the surviving
    /// prefix keeps its bytes.
    pub fn rust_realloc(
        &mut self,
        ptr: Scalar,
        old_size: usize,
        align: usize,
        new_size: usize,
    ) -> (r: Result<Scalar, EmulError>)
        ensures
            Machine::same_except_memory(*old(self), *final(self)),
            ptr is Int ==> r is Err && r->Err_0 is ContractViolation && *final(self) == *old(self),
            ptr is Ptr && (old_size == 0 || new_size == 0) ==> r == Err::<Scalar, EmulError>(
                EmulError::ZeroSizeNotAllowed,
            ) && *final(self) == *old(self),
            ptr is Ptr && old_size > 0 && new_size > 0 && !spec_power_of_two(align as nat)
                ==> r == Err::<Scalar, EmulError>(EmulError::NonPowerOfTwoAlignment(align))
                && *final(self) == *old(self),
            ptr matches Scalar::Ptr(p) ==> ((old_size > 0 && new_size > 0 && spec_power_of_two(
                align as nat,
            )) ==> {
                let pre = old(self).memory;
                &&& (r is Ok <==> pre.dealloc_ok(
                    p,
                    Some((old_size, align)),
                    AllocKind::RustHeap,
                ))
                &&& (r is Ok ==> (r->Ok_0 matches Scalar::Ptr(q) && {
                    let old_len = pre.bytes_of(p.alloc as int).len() as int;
                    let copied = if old_len <= new_size {
                        old_len
                    } else {
                        new_size as int
                    };
                    &&& q.alloc == pre.allocs@.len()
                    &&& q.offset == 0
                    &&& final(self).memory.allocs@.len() == pre.allocs@.len() + 1
                    &&& forall|i: int|
                        0 <= i < pre.allocs@.len() && i != p.alloc ==> final(self).memory.allocs@[i] == pre.allocs@[i]
                    &&& !final(self).memory.live(p.alloc as int)
                    &&& final(self).memory.live(q.alloc as int)
                    &&& final(self).memory.bytes_of(q.alloc as int).len() == new_size
                    &&& final(self).memory.alloc_of(q.alloc as int).kind == AllocKind::RustHeap
                    &&& final(self).memory.alloc_of(q.alloc as int).align == align
                    &&& forall|j: int|
                        0 <= j < copied ==> final(self).memory.bytes_of(q.alloc as int)[j]
                            == pre.bytes_of(p.alloc as int)[j]
                }))
                &&& (r is Err ==> *final(self) == *old(self))
            }),
            old(self).wf() ==> final(self).wf(),
    {
        let p = match ptr.to_ptr() {
            Ok(p) => p,
            Err(e) => {
                return Err(e);
            },
        };
        if old_size == 0 || new_size == 0 {
            return Err(EmulError::ZeroSizeNotAllowed);
        }
        if !is_power_of_two(align) {
            return Err(EmulError::NonPowerOfTwoAlignment(align));
        }
        let r = self.memory.reallocate(p, old_size, align, new_size, align, AllocKind::RustHeap);
        match r {
            Ok(q) => {
                proof {
                    if old(self).wf() {
                        assert forall|i: int|
                            0 <= i < self.env_vars.entries@.len() implies #[trigger] self.env_entry_ok(
                            i,
                        ) by {
                            assert(old(self).env_entry_ok(i));
                            assert(old(self).env_vars.entries@[i].buf.alloc != p.alloc);
                        }
                    }
                }
                Ok(Scalar::Ptr(q))
            },
            Err(e) => Err(e),
        }
    }

    /// Emulates the aligned allocation behind `posix_memalign`: the
    /// alignment must be a power of two and at least pointer width; size
    /// zero yields null without creating an allocation.
    pub fn memalign(&mut self, size: usize, align: usize) -> (r: Result<Scalar, EmulError>)
        ensures
            Machine::same_except_memory(*old(self), *final(self)),
            !spec_power_of_two(align as nat) ==> r == Err::<Scalar, EmulError>(
                EmulError::NonPowerOfTwoAlignment(align),
            ) && *final(self) == *old(self),
            spec_power_of_two(align as nat) && align < old(self).consts.ptr_size ==> r is Err
                && r->Err_0 is ContractViolation && *final(self) == *old(self),
            spec_power_of_two(align as nat) && align >= old(self).consts.ptr_size && size == 0
                ==> r == Ok::<Scalar, EmulError>(Scalar::Int(0)) && *final(self) == *old(self),
            spec_power_of_two(align as nat) && align >= old(self).consts.ptr_size && size > 0
                ==> r is Ok && (r->Ok_0 matches Scalar::Ptr(p) && fresh_alloc(
                old(self).memory,
                final(self).memory,
                p,
                size as int,
                align as int,
                AllocKind::CHeap,
            )),
            old(self).wf() ==> final(self).wf(),
    {
        if !is_power_of_two(align) {
            return Err(EmulError::NonPowerOfTwoAlignment(align));
        }
        if align < self.consts.ptr_size {
            return Err(EmulError::ContractViolation(
                "alignment for an aligned allocation must be at least the width of a pointer".to_owned(),
            ));
        }
        if size == 0 {
            return Ok(Scalar::Int(0));
        }
        let p = self.memory.allocate(size, align, AllocKind::CHeap);
        proof {
            if old(self).wf() {
                Machine::lemma_wf_after_growth(*old(self), *self);
            }
        }
        Ok(Scalar::Ptr(p))
    }

    /// Emulates the C reallocator: a null pointer in behaves as an
    /// allocation, a new size of zero behaves as a deallocation that
    /// returns null, and otherwise the allocation is relocated with the
    /// first `min(old_len, new_size)` bytes preserved.
    pub fn realloc(&mut self, old_ptr: Scalar, new_size: usize) -> (r: Result<
        Scalar,
        EmulError,
    >)
        ensures
            Machine::same_except_memory(*old(self), *final(self)),
            old_ptr.spec_is_null() && new_size == 0 ==> r == Ok::<Scalar, EmulError>(
                Scalar::Int(0),
            ) && *final(self) == *old(self),
            old_ptr.spec_is_null() && new_size > 0 ==> r is Ok && (r->Ok_0 matches Scalar::Ptr(
                p,
            ) && fresh_alloc(
                old(self).memory,
                final(self).memory,
                p,
                new_size as int,
                old(self).consts.ptr_size as int,
                AllocKind::CHeap,
            )),
            old_ptr is Int && !old_ptr.spec_is_null() ==> r is Err && r->Err_0
                is ContractViolation && *final(self) == *old(self),
            old_ptr matches Scalar::Ptr(p) ==> {
                let pre = old(self).memory;
                let can_touch = pre.dealloc_ok(
                    p,
                    Some((pre.bytes_of(p.alloc as int).len() as usize, old(self).consts.ptr_size)),
                    AllocKind::CHeap,
                );
                &&& (new_size == 0 ==> {
                    &&& (r is Ok <==> can_touch)
                    &&& (r is Ok ==> r->Ok_0 == Scalar::Int(0) && final(self).memory.allocs@
                        == pre.allocs@.update(p.alloc as int, None::<crate::mem::Allocation>))
                })
                &&& (new_size > 0 ==> {
                    &&& (r is Ok <==> can_touch)
                    &&& (r is Ok ==> (r->Ok_0 matches Scalar::Ptr(q) && {
                        let old_len = pre.bytes_of(p.alloc as int).len() as int;
                        let copied = if old_len <= new_size {
                            old_len
                        } else {
                            new_size as int
                        };
                        &&& q.alloc == pre.allocs@.len()
                        &&& q.offset == 0
                        &&& final(self).memory.allocs@.len() == pre.allocs@.len() + 1
                        &&& forall|i: int|
                            0 <= i < pre.allocs@.len() && i != p.alloc ==> final(self).memory.allocs@[i] == pre.allocs@[i]
                        &&& !final(self).memory.live(p.alloc as int)
                        &&& final(self).memory.live(q.alloc as int)
                        &&& final(self).memory.bytes_of(q.alloc as int).len() == new_size
                        &&& final(self).memory.alloc_of(q.alloc as int).kind == AllocKind::CHeap
                        &&& forall|j: int|
                            0 <= j < copied ==> final(self).memory.bytes_of(q.alloc as int)[j]
                                == pre.bytes_of(p.alloc as int)[j]
                    }))
                })
                &&& (r is Err ==> *final(self) == *old(self))
            },
            old(self).wf() ==> final(self).wf(),
    {
        let align = self.consts.ptr_size;
        if old_ptr.is_null() {
            if new_size == 0 {
                Ok(Scalar::Int(0))
            } else {
                let p = self.memory.allocate(new_size, align, AllocKind::CHeap);
                proof {
                    if old(self).wf() {
                        Machine::lemma_wf_after_growth(*old(self), *self);
                    }
                }
                Ok(Scalar::Ptr(p))
            }
        } else {
            let p = match old_ptr.to_ptr() {
                Ok(p) => p,
                Err(e) => {
                    return Err(e);
                },
            };
            if p.alloc >= self.memory.allocs.len() {
                return Err(EmulError::MemoryAccessFault);
            }
            let old_size: usize = match &self.memory.allocs[p.alloc] {
                None => {
                    return Err(EmulError::MemoryAccessFault);
                },
                Some(a) => a.bytes.len(),
            };
            if new_size == 0 {
                let r = self.memory.deallocate(p, Some((old_size, align)), AllocKind::CHeap);
                match r {
                    Ok(()) => {
                        proof {
                            if old(self).wf() {
                                Machine::lemma_wf_after_non_env_removal(
                                    *old(self),
                                    *self,
                                    p.alloc as int,
                                );
                            }
                        }
                        Ok(Scalar::Int(0))
                    },
                    Err(e) => Err(e),
                }
            } else {
                let r = self.memory.reallocate(
                    p,
                    old_size,
                    align,
                    new_size,
                    align,
                    AllocKind::CHeap,
                );
                match r {
                    Ok(q) => {
                        proof {
                            if old(self).wf() {
                                assert forall|i: int|
                                    0 <= i < self.env_vars.entries@.len() implies #[trigger] self.env_entry_ok(
                                    i,
                                ) by {
                                    assert(old(self).env_entry_ok(i));
                                    assert(old(self).env_vars.entries@[i].buf.alloc != p.alloc);
                                }
                            }
                        }
                        Ok(Scalar::Ptr(q))
                    },
                    Err(e) => Err(e),
                }
            }
        }
    }
}

} // verus!
