use vstd::prelude::*;
use vstd::slice::{slice_subrange, slice_to_vec};
use vstd::string::StringSliceAdditionalSpecFns;
use crate::errors::EmulError;
use crate::heap::fresh_alloc;
use crate::machine::Machine;
use crate::mem::{AllocKind, Memory};
use crate::stubs::{spec_stub_effect, stub_lookup, StubEffect};
use crate::random::{gen_random, window_refilled};
use crate::tls::TlsData;
use crate::util::{bytes_eq, key_fits, spec_le_bytes, spec_pow256, spec_zeros};
use crate::value::{Pointer, Scalar};

verus! {

/// The page size the emulation reports to the guest.
pub const PAGE_SIZE: i128 = 4096;

/// The processor count the emulation reports to the guest.
pub const NUM_CPUS: i128 = 1;

/// The arbitrary but fixed stack base address the emulation reports.
pub const STACK_ADDR: i128 = 0x10000000;

/// One foreign call as the stepper hands it over: the resolved symbol
/// name, the ordered argument values, the width of the destination the
/// result is to be written to (when the call has one), and the point
/// at which execution resumes.
pub struct ForeignCallRequest {
    pub link_name: Vec<u8>,
    pub args: Vec<Scalar>,
    pub dest: Option<usize>,
    pub ret: Option<u64>,
}

/// A floating-point computation the emulation defers to the host: the
/// operand bit patterns go out, the result bit pattern is written to
/// the destination.
#[derive(Clone, Copy, Debug, PartialEq, Eq, Structural)]
pub enum FloatOp {
    Cbrtf(u32),
    Coshf(u32),
    Sinhf(u32),
    Tanf(u32),
    Hypotf(u32, u32),
    Atan2f(u32, u32),
    Cbrt(u64),
    Cosh(u64),
    Sinh(u64),
    Tan(u64),
    Hypot(u64, u64),
    Atan2(u64, u64),
}

/// What the stepper is to do after a handled call.
#[derive(Clone, Copy, Debug, PartialEq, Eq, Structural)]
pub enum Outcome {
    /// The call completed: write `result` to the destination when one
    /// is given, and resume at `resume`.
    Handled { result: Option<Scalar>, resume: u64 },
    /// As `Handled`, but first have the value access layer store
    /// `value` as a `size`-byte typed value at `at` in emulated memory
    /// (used where a pointer, provenance included, lands in memory).
    HandledStore { at: Pointer, value: Scalar, size: usize, result: Option<Scalar>, resume: u64 },
    /// Push a guest activation record calling the function at `f` with
    /// the single argument `data`; the destination was already set to
    /// zero, and completion returns to `resume`.
    PushFrame { f: Pointer, data: Scalar, resume: u64 },
    /// Evaluate the host float operation, write its result bits to the
    /// destination, and resume at `resume`.
    HostFloat { op: FloatOp, resume: u64 },
}

/// The linker decoration the loader leaves on some symbols, stripped
/// before dispatch, repeatedly if need be.
pub open spec fn spec_strip(name: Seq<u8>) -> Seq<u8>
    decreases name.len(),
{
    if name.len() >= 9 && name.skip(name.len() - 9) == "$UNIX2003".spec_bytes() {
        spec_strip(name.take(name.len() - 9))
    } else {
        name
    }
}

/// Strips trailing linker decorations from a symbol name.
pub fn strip_linker_suffix(name: &[u8]) -> (r: &[u8])
    ensures
        r@ == spec_strip(name@),
{
    let mut n: usize = name.len();
    proof {
        assert(name@.take(n as int) =~= name@);
    }
    while n >= 9 && bytes_eq(slice_subrange(name, n - 9, n), "$UNIX2003".as_bytes())
        invariant
            n <= name@.len(),
            spec_strip(name@) == spec_strip(name@.take(n as int)),
        decreases n,
    {
        proof {
            assert(name@.take(n as int).skip(n - 9) =~= name@.subrange(n - 9, n as int));
            assert(name@.take(n as int).take(n - 9) =~= name@.take(n - 9));
        }
        n = n - 9;
    }
    proof {
        if name@.take(n as int).len() >= 9 {
            assert(name@.take(n as int).skip(n - 9) =~= name@.subrange(n - 9, n as int));
        }
        assert(spec_strip(name@.take(n as int)) == name@.take(n as int));
    }
    slice_subrange(name, 0, n)
}

/// The call failed with a contract violation.
pub open spec fn is_cv(r: Result<Outcome, EmulError>) -> bool {
    r is Err && r->Err_0 is ContractViolation
}

/// Argument `i` exists and is an integer that fits a size.
pub open spec fn size_arg_ok(args: Seq<Scalar>, i: int) -> bool {
    0 <= i < args.len() && args[i] is Int && 0 <= args[i]->Int_0 <= usize::MAX
}

pub open spec fn size_arg(args: Seq<Scalar>, i: int) -> usize {
    args[i]->Int_0 as usize
}

/// Argument `i` exists and is an integer that fits an `i32`.
pub open spec fn i32_arg_ok(args: Seq<Scalar>, i: int) -> bool {
    0 <= i < args.len() && args[i] is Int && i32::MIN <= args[i]->Int_0 <= i32::MAX
}

pub open spec fn i32_arg(args: Seq<Scalar>, i: int) -> i32 {
    args[i]->Int_0 as i32
}

/// Argument `i` exists and is an integer that fits a `u32`.
pub open spec fn u32_arg_ok(args: Seq<Scalar>, i: int) -> bool {
    0 <= i < args.len() && args[i] is Int && 0 <= args[i]->Int_0 <= u32::MAX
}

pub open spec fn u32_arg(args: Seq<Scalar>, i: int) -> u32 {
    args[i]->Int_0 as u32
}

/// Argument `i` exists and is a provenance-carrying pointer.
pub open spec fn ptr_arg_ok(args: Seq<Scalar>, i: int) -> bool {
    0 <= i < args.len() && args[i] is Ptr
}

pub open spec fn ptr_arg(args: Seq<Scalar>, i: int) -> Pointer {
    args[i]->Ptr_0
}

/// Fetches an argument, refusing a malformed argument list.
fn get_arg(args: &Vec<Scalar>, i: usize) -> (r: Result<Scalar, EmulError>)
    ensures
        r is Ok <==> i < args@.len(),
        r is Ok ==> r->Ok_0 == args@[i as int],
        r is Err ==> r->Err_0 is ContractViolation,
{
    if i < args.len() {
        Ok(args[i])
    } else {
        Err(EmulError::ContractViolation("a foreign call argument is missing".to_owned()))
    }
}

/// What the `malloc` handler leaves behind.
pub open spec fn malloc_call_post(
    pre: Machine,
    post: Machine,
    args: Seq<Scalar>,
    rv: u64,
    r: Result<Outcome, EmulError>,
) -> bool {
    if !size_arg_ok(args, 0) {
        post == pre && is_cv(r)
    } else {
        let size = size_arg(args, 0);
        &&& Machine::same_except_memory(pre, post)
        &&& (size == 0 ==> post == pre && r == Ok::<Outcome, EmulError>(
            Outcome::Handled { result: Some(Scalar::Int(0)), resume: rv },
        ))
        &&& (size > 0 ==> (r matches Ok(Outcome::Handled { result, resume }) && resume == rv
            && (result matches Some(sc) && sc matches Scalar::Ptr(p) && fresh_alloc(
            pre.memory,
            post.memory,
            p,
            size as int,
            pre.consts.ptr_size as int,
            AllocKind::CHeap,
        ))))
    }
}

/// What the `calloc` handler leaves behind: the element count and width
/// are multiplied with an overflow check, and the buffer reads as zero.
pub open spec fn calloc_call_post(
    pre: Machine,
    post: Machine,
    args: Seq<Scalar>,
    rv: u64,
    r: Result<Outcome, EmulError>,
) -> bool {
    if !size_arg_ok(args, 0) || !size_arg_ok(args, 1) {
        post == pre && is_cv(r)
    } else {
        let items = size_arg(args, 0) as int;
        let len = size_arg(args, 1) as int;
        if items * len > usize::MAX {
            post == pre && is_cv(r)
        } else {
            let size = items * len;
            &&& Machine::same_except_memory(pre, post)
            &&& (size == 0 ==> post == pre && r == Ok::<Outcome, EmulError>(
                Outcome::Handled { result: Some(Scalar::Int(0)), resume: rv },
            ))
            &&& (size > 0 ==> (r matches Ok(Outcome::Handled { result, resume }) && resume == rv
                && (result matches Some(sc) && sc matches Scalar::Ptr(p) && fresh_alloc(
                pre.memory,
                post.memory,
                p,
                size,
                pre.consts.ptr_size as int,
                AllocKind::CHeap,
            ) && post.memory.bytes_of(p.alloc as int) == Seq::new(size as nat, |j: int| 0u8))))
        }
    }
}

/// What the `free` handler leaves behind.
pub open spec fn free_call_post(
    pre: Machine,
    post: Machine,
    args: Seq<Scalar>,
    rv: u64,
    r: Result<Outcome, EmulError>,
) -> bool {
    if args.len() < 1 {
        post == pre && is_cv(r)
    } else {
        let ptr = args[0];
        &&& Machine::same_except_memory(pre, post)
        &&& (ptr.spec_is_null() ==> post == pre && r == Ok::<Outcome, EmulError>(
            Outcome::Handled { result: None, resume: rv },
        ))
        &&& (ptr is Int && !ptr.spec_is_null() ==> post == pre && is_cv(r))
        &&& (ptr matches Scalar::Ptr(p) ==> {
            &&& (r is Ok <==> pre.memory.dealloc_ok(p, None, AllocKind::CHeap))
            &&& (r is Ok ==> r == Ok::<Outcome, EmulError>(
                Outcome::Handled { result: None, resume: rv },
            ) && post.memory.allocs@ == pre.memory.allocs@.update(
                p.alloc as int,
                None::<crate::mem::Allocation>,
            ))
            &&& (r is Err ==> post == pre)
        })
    }
}

/// What the `realloc` handler leaves behind: the machine changes as the
/// C reallocator says, and the surviving pointer comes back.
pub open spec fn realloc_call_post(
    pre: Machine,
    post: Machine,
    args: Seq<Scalar>,
    rv: u64,
    r: Result<Outcome, EmulError>,
) -> bool {
    if args.len() < 1 || !size_arg_ok(args, 1) {
        post == pre && is_cv(r)
    } else {
        let old_ptr = args[0];
        let new_size = size_arg(args, 1);
        &&& Machine::same_except_memory(pre, post)
        &&& (r matches Ok(o) ==> (o matches Outcome::Handled { result, resume } && resume == rv
            && result is Some))
        &&& (old_ptr.spec_is_null() && new_size == 0 ==> post == pre && r == Ok::<
            Outcome,
            EmulError,
        >(Outcome::Handled { result: Some(Scalar::Int(0)), resume: rv }))
        &&& (old_ptr.spec_is_null() && new_size > 0 ==> (r matches Ok(Outcome::Handled {
            result,
            resume,
        }) && (result matches Some(sc) && sc matches Scalar::Ptr(p) && fresh_alloc(
            pre.memory,
            post.memory,
            p,
            new_size as int,
            pre.consts.ptr_size as int,
            AllocKind::CHeap,
        ))))
        &&& (old_ptr is Int && !old_ptr.spec_is_null() ==> post == pre && is_cv(r))
        &&& (old_ptr matches Scalar::Ptr(p) ==> {
            let can_touch = pre.memory.dealloc_ok(
                p,
                Some((pre.memory.bytes_of(p.alloc as int).len() as usize, pre.consts.ptr_size)),
                AllocKind::CHeap,
            );
            &&& (r is Ok <==> can_touch)
            &&& (r is Err ==> post == pre)
            &&& (new_size == 0 && r is Ok ==> r == Ok::<Outcome, EmulError>(
                Outcome::Handled { result: Some(Scalar::Int(0)), resume: rv },
            ) && post.memory.allocs@ == pre.memory.allocs@.update(
                p.alloc as int,
                None::<crate::mem::Allocation>,
            ))
            &&& (new_size > 0 && r is Ok ==> (r matches Ok(Outcome::Handled { result, resume })
                && (result matches Some(sc) && sc matches Scalar::Ptr(q) && {
                let old_len = pre.memory.bytes_of(p.alloc as int).len() as int;
                let copied = if old_len <= new_size {
                    old_len
                } else {
                    new_size as int
                };
                &&& q.alloc == pre.memory.allocs@.len()
                &&& q.offset == 0
                &&& post.memory.allocs@.len() == pre.memory.allocs@.len() + 1
                &&& !post.memory.live(p.alloc as int)
                &&& post.memory.live(q.alloc as int)
                &&& post.memory.bytes_of(q.alloc as int).len() == new_size
                &&& forall|j: int|
                    0 <= j < copied ==> post.memory.bytes_of(q.alloc as int)[j]
                        == pre.memory.bytes_of(p.alloc as int)[j]
            })))
        })
    }
}

/// What the `posix_memalign` handler leaves behind: on success the
/// resulting pointer (or null for size zero) is stored through the
/// first argument and the call itself returns zero.
pub open spec fn posix_memalign_call_post(
    pre: Machine,
    post: Machine,
    args: Seq<Scalar>,
    rv: u64,
    r: Result<Outcome, EmulError>,
) -> bool {
    if !ptr_arg_ok(args, 0) || !size_arg_ok(args, 1) || !size_arg_ok(args, 2) {
        post == pre && is_cv(r)
    } else {
        let out = ptr_arg(args, 0);
        let align = size_arg(args, 1);
        let size = size_arg(args, 2);
        &&& Machine::same_except_memory(pre, post)
        &&& (!crate::util::spec_power_of_two(align as nat) ==> post == pre && r == Err::<
            Outcome,
            EmulError,
        >(EmulError::NonPowerOfTwoAlignment(align)))
        &&& (crate::util::spec_power_of_two(align as nat) && align < pre.consts.ptr_size
            ==> post == pre && is_cv(r))
        &&& (crate::util::spec_power_of_two(align as nat) && align >= pre.consts.ptr_size ==> {
            &&& (size == 0 ==> post == pre && r == Ok::<Outcome, EmulError>(
                Outcome::HandledStore {
                    at: out,
                    value: Scalar::Int(0),
                    size: pre.consts.ptr_size,
                    result: Some(Scalar::Int(0)),
                    resume: rv,
                },
            ))
            &&& (size > 0 ==> (r matches Ok(Outcome::HandledStore {
                at,
                value,
                size: wsize,
                result,
                resume,
            }) && at == out && wsize == pre.consts.ptr_size && result == Some(Scalar::Int(0))
                && resume == rv && (value matches Scalar::Ptr(p) && fresh_alloc(
                pre.memory,
                post.memory,
                p,
                size as int,
                align as int,
                AllocKind::CHeap,
            ))))
        })
    }
}

/// What the tracked allocator's allocation handler leaves behind.
pub open spec fn rust_alloc_call_post(
    pre: Machine,
    post: Machine,
    args: Seq<Scalar>,
    rv: u64,
    zero_init: bool,
    r: Result<Outcome, EmulError>,
) -> bool {
    if !size_arg_ok(args, 0) || !size_arg_ok(args, 1) {
        post == pre && is_cv(r)
    } else {
        let size = size_arg(args, 0);
        let align = size_arg(args, 1);
        &&& Machine::same_except_memory(pre, post)
        &&& (size == 0 ==> post == pre && r == Err::<Outcome, EmulError>(
            EmulError::ZeroSizeNotAllowed,
        ))
        &&& (size > 0 && !crate::util::spec_power_of_two(align as nat) ==> post == pre && r
            == Err::<Outcome, EmulError>(EmulError::NonPowerOfTwoAlignment(align)))
        &&& (size > 0 && crate::util::spec_power_of_two(align as nat) ==> (r matches Ok(
            Outcome::Handled { result, resume },
        ) && resume == rv && (result matches Some(sc) && sc matches Scalar::Ptr(p)
            && fresh_alloc(
            pre.memory,
            post.memory,
            p,
            size as int,
            align as int,
            AllocKind::RustHeap,
        ) && (zero_init ==> post.memory.bytes_of(p.alloc as int) == Seq::new(
            size as nat,
            |j: int| 0u8,
        )))))
    }
}

/// What the tracked allocator's deallocation handler leaves behind.
pub open spec fn rust_dealloc_call_post(
    pre: Machine,
    post: Machine,
    args: Seq<Scalar>,
    rv: u64,
    r: Result<Outcome, EmulError>,
) -> bool {
    if args.len() < 1 || !size_arg_ok(args, 1) || !size_arg_ok(args, 2) {
        post == pre && is_cv(r)
    } else {
        let ptr = args[0];
        let old_size = size_arg(args, 1);
        let align = size_arg(args, 2);
        &&& Machine::same_except_memory(pre, post)
        &&& (ptr is Int ==> post == pre && is_cv(r))
        &&& (ptr is Ptr && old_size == 0 ==> post == pre && r == Err::<Outcome, EmulError>(
            EmulError::ZeroSizeNotAllowed,
        ))
        &&& (ptr is Ptr && old_size > 0 && !crate::util::spec_power_of_two(align as nat)
            ==> post == pre && r == Err::<Outcome, EmulError>(
            EmulError::NonPowerOfTwoAlignment(align),
        ))
        &&& (ptr matches Scalar::Ptr(p) ==> ((old_size > 0 && crate::util::spec_power_of_two(
            align as nat,
        )) ==> {
            &&& (r is Ok <==> pre.memory.dealloc_ok(
                p,
                Some((old_size, align)),
                AllocKind::RustHeap,
            ))
            &&& (r is Ok ==> r == Ok::<Outcome, EmulError>(
                Outcome::Handled { result: None, resume: rv },
            ) && post.memory.allocs@ == pre.memory.allocs@.update(
                p.alloc as int,
                None::<crate::mem::Allocation>,
            ))
            &&& (r is Err ==> post == pre)
        }))
    }
}

/// What the tracked allocator's reallocation handler leaves behind.
pub open spec fn rust_realloc_call_post(
    pre: Machine,
    post: Machine,
    args: Seq<Scalar>,
    rv: u64,
    r: Result<Outcome, EmulError>,
) -> bool {
    if args.len() < 1 || !size_arg_ok(args, 1) || !size_arg_ok(args, 2) || !size_arg_ok(
        args,
        3,
    ) {
        post == pre && is_cv(r)
    } else {
        let ptr = args[0];
        let old_size = size_arg(args, 1);
        let align = size_arg(args, 2);
        let new_size = size_arg(args, 3);
        &&& Machine::same_except_memory(pre, post)
        &&& (ptr is Int ==> post == pre && is_cv(r))
        &&& (ptr is Ptr && (old_size == 0 || new_size == 0) ==> post == pre && r == Err::<
            Outcome,
            EmulError,
        >(EmulError::ZeroSizeNotAllowed))
        &&& (ptr is Ptr && old_size > 0 && new_size > 0 && !crate::util::spec_power_of_two(
            align as nat,
        ) ==> post == pre && r == Err::<Outcome, EmulError>(
            EmulError::NonPowerOfTwoAlignment(align),
        ))
        &&& (ptr matches Scalar::Ptr(p) ==> ((old_size > 0 && new_size > 0
            && crate::util::spec_power_of_two(align as nat)) ==> {
            &&& (r is Ok <==> pre.memory.dealloc_ok(
                p,
                Some((old_size, align)),
                AllocKind::RustHeap,
            ))
            &&& (r is Err ==> post == pre)
            &&& (r is Ok ==> (r matches Ok(Outcome::Handled { result, resume }) && resume == rv
                && (result matches Some(sc) && sc matches Scalar::Ptr(q) && {
                let old_len = pre.memory.bytes_of(p.alloc as int).len() as int;
                let copied = if old_len <= new_size {
                    old_len
                } else {
                    new_size as int
                };
                &&& q.alloc == pre.memory.allocs@.len()
                &&& q.offset == 0
                &&& !post.memory.live(p.alloc as int)
                &&& post.memory.live(q.alloc as int)
                &&& post.memory.bytes_of(q.alloc as int).len() == new_size
                &&& forall|j: int|
                    0 <= j < copied ==> post.memory.bytes_of(q.alloc as int)[j]
                        == pre.memory.bytes_of(p.alloc as int)[j]
            })))
        }))
    }
}

/// A named platform constant, resolved through the embedding's symbol
/// resolver into the guest's namespace.
#[derive(Clone, Copy, Debug, PartialEq, Eq, Structural)]
pub enum PlatformPath {
    SysGetrandom,
    ScPagesize,
    ScGetpwRSizeMax,
    ScNprocessorsOnln,
}

pub open spec fn spec_eval_path(c: crate::machine::PlatformConsts, path: PlatformPath) -> Option<
    i128,
> {
    match path {
        PlatformPath::SysGetrandom => c.sys_getrandom,
        PlatformPath::ScPagesize => match c.sc_pagesize {
            Some(v) => Some(v as i128),
            None => None,
        },
        PlatformPath::ScGetpwRSizeMax => match c.sc_getpw_r_size_max {
            Some(v) => Some(v as i128),
            None => None,
        },
        PlatformPath::ScNprocessorsOnln => match c.sc_nprocessors_onln {
            Some(v) => Some(v as i128),
            None => None,
        },
    }
}

impl Machine {
    /// Evaluates the value at the given platform path, or `None` when
    /// the guest's namespace does not resolve it.
    pub fn eval_path_scalar(&self, path: PlatformPath) -> (r: Option<i128>)
        ensures
            r == spec_eval_path(self.consts, path),
    {
        match path {
            PlatformPath::SysGetrandom => self.consts.sys_getrandom,
            PlatformPath::ScPagesize => match self.consts.sc_pagesize {
                Some(v) => Some(v as i128),
                None => None,
            },
            PlatformPath::ScGetpwRSizeMax => match self.consts.sc_getpw_r_size_max {
                Some(v) => Some(v as i128),
                None => None,
            },
            PlatformPath::ScNprocessorsOnln => match self.consts.sc_nprocessors_onln {
                Some(v) => Some(v as i128),
                None => None,
            },
        }
    }
}

/// Argument `i` exists and is an integer.
pub open spec fn int_arg_ok(args: Seq<Scalar>, i: int) -> bool {
    0 <= i < args.len() && args[i] is Int
}

pub open spec fn int_arg(args: Seq<Scalar>, i: int) -> i128 {
    args[i]->Int_0
}

/// Argument `i` exists and is an integer that fits a `u64`.
pub open spec fn u64_arg_ok(args: Seq<Scalar>, i: int) -> bool {
    0 <= i < args.len() && args[i] is Int && 0 <= args[i]->Int_0 <= u64::MAX
}

pub open spec fn u64_arg(args: Seq<Scalar>, i: int) -> u64 {
    args[i]->Int_0 as u64
}

/// What filling `len` random bytes at `dest` leaves behind, with
/// `good` the value reported on success: with no generator the call
/// fails outright, and on success the whole window was refilled.
pub open spec fn random_fill_post(
    pre: Machine,
    post: Machine,
    len: usize,
    dest: Scalar,
    good: Option<Scalar>,
    rv: u64,
    r: Result<Outcome, EmulError>,
) -> bool {
    &&& (len == 0 ==> post == pre && r == Ok::<Outcome, EmulError>(
        Outcome::Handled { result: good, resume: rv },
    ))
    &&& (len > 0 && !(dest is Ptr) ==> post == pre && is_cv(r))
    &&& (len > 0 && dest is Ptr && pre.rng is None ==> post == pre && r == Err::<
        Outcome,
        EmulError,
    >(EmulError::EntropyUnavailable))
    &&& (dest matches Scalar::Ptr(p) ==> ((len > 0 && pre.rng is Some) ==> {
        &&& Machine::same_except_memory_rng(pre, post)
        &&& post.rng is Some
        &&& (pre.memory.in_bounds(p, len as int) ==> r == Ok::<Outcome, EmulError>(
            Outcome::Handled { result: good, resume: rv },
        ) && window_refilled(pre.memory, post.memory, p, len as int))
        &&& (!pre.memory.in_bounds(p, len as int) ==> r == Err::<Outcome, EmulError>(
            EmulError::MemoryAccessFault,
        ) && post.memory == pre.memory)
    }))
}

/// What the `syscall` handler leaves behind: only the get-random
/// syscall is understood, with the count of bytes delivered as result.
pub open spec fn syscall_call_post(
    pre: Machine,
    post: Machine,
    name: Seq<u8>,
    args: Seq<Scalar>,
    rv: u64,
    r: Result<Outcome, EmulError>,
) -> bool {
    if pre.consts.sys_getrandom is None {
        post == pre && is_cv(r)
    } else if !size_arg_ok(args, 0) {
        post == pre && is_cv(r)
    } else if size_arg(args, 0) as int == pre.consts.sys_getrandom.unwrap() {
        if args.len() < 4 || !size_arg_ok(args, 2) || !i32_arg_ok(args, 3) {
            post == pre && is_cv(r)
        } else {
            let len = size_arg(args, 2);
            random_fill_post(
                pre,
                post,
                len,
                args[1],
                Some(Scalar::Int(len as i128)),
                rv,
                r,
            )
        }
    } else {
        post == pre && unsupported(r, name)
    }
}

/// What the `dlsym` handler leaves behind: dynamic loading is refused,
/// naming the symbol that was asked for.
pub open spec fn dlsym_call_post(
    pre: Machine,
    post: Machine,
    args: Seq<Scalar>,
    r: Result<Outcome, EmulError>,
) -> bool {
    post == pre && if args.len() < 2 || !ptr_arg_ok(args, 1) {
        is_cv(r)
    } else {
        let sp = ptr_arg(args, 1);
        if pre.memory.has_c_str(sp) {
            r matches Err(EmulError::UnsupportedSymbol(v)) && v@ == pre.memory.c_str_at(sp)
        } else {
            r == Err::<Outcome, EmulError>(EmulError::MemoryAccessFault)
        }
    }
}

/// What the panic-catching shim leaves behind: the guest closure is
/// called through a pushed activation record, and the destination was
/// already set to zero, so an unwound call still reads as success.
pub open spec fn catch_panic_call_post(
    pre: Machine,
    post: Machine,
    args: Seq<Scalar>,
    rv: u64,
    r: Result<Outcome, EmulError>,
) -> bool {
    post == pre && if !ptr_arg_ok(args, 0) || args.len() < 2 {
        is_cv(r)
    } else {
        r == Ok::<Outcome, EmulError>(
            Outcome::PushFrame { f: ptr_arg(args, 0), data: args[1], resume: rv },
        )
    }
}

/// What the `memcmp` handler leaves behind.
pub open spec fn memcmp_call_post(
    pre: Machine,
    post: Machine,
    args: Seq<Scalar>,
    rv: u64,
    r: Result<Outcome, EmulError>,
) -> bool {
    post == pre && if args.len() < 3 || !size_arg_ok(args, 2) {
        is_cv(r)
    } else {
        let n = size_arg(args, 2);
        if n == 0 {
            r == Ok::<Outcome, EmulError>(
                Outcome::Handled { result: Some(Scalar::Int(0)), resume: rv },
            )
        } else if !ptr_arg_ok(args, 0) || !ptr_arg_ok(args, 1) {
            is_cv(r)
        } else {
            let l = ptr_arg(args, 0);
            let rp = ptr_arg(args, 1);
            if pre.memory.in_bounds(l, n as int) && pre.memory.in_bounds(rp, n as int) {
                r matches Ok(Outcome::Handled { result, resume }) && resume == rv && (result
                    matches Some(sc) && sc matches Scalar::Int(v) && v
                    == crate::bytes::spec_memcmp(
                    pre.memory.bytes_of(l.alloc as int).subrange(l.offset as int, l.offset + n),
                    pre.memory.bytes_of(rp.alloc as int).subrange(
                        rp.offset as int,
                        rp.offset + n,
                    ),
                ))
            } else {
                r == Err::<Outcome, EmulError>(EmulError::MemoryAccessFault)
            }
        }
    }
}

/// What the `memchr` and `memrchr` handlers leave behind: a pointer to
/// the first (or last) occurrence, or null.
pub open spec fn memsearch_call_post(
    pre: Machine,
    post: Machine,
    args: Seq<Scalar>,
    last: bool,
    rv: u64,
    r: Result<Outcome, EmulError>,
) -> bool {
    post == pre && if args.len() < 3 || !i32_arg_ok(args, 1) || !size_arg_ok(args, 2) {
        is_cv(r)
    } else if !ptr_arg_ok(args, 0) {
        is_cv(r)
    } else {
        let p = ptr_arg(args, 0);
        let val = (i32_arg(args, 1) & 0xff) as u8;
        let n = size_arg(args, 2);
        if pre.memory.in_bounds(p, n as int) {
            let w = pre.memory.bytes_of(p.alloc as int).subrange(p.offset as int, p.offset + n);
            r matches Ok(Outcome::Handled { result, resume }) && resume == rv && (result
                matches Some(sc) && {
                ||| (sc == Scalar::Int(0) && forall|j: int| 0 <= j < n ==> w[j] != val)
                ||| (sc matches Scalar::Ptr(q) && q.alloc == p.alloc && p.offset <= q.offset
                    && (if last {
                    crate::util::is_last_index_of(w, val, q.offset - p.offset)
                } else {
                    crate::util::is_first_index_of(w, val, q.offset - p.offset)
                }))
            })
        } else {
            r == Err::<Outcome, EmulError>(EmulError::MemoryAccessFault)
        }
    }
}

/// What the `getenv` handler leaves behind: the pointer to the current
/// buffer, or null when the variable is not set.
pub open spec fn getenv_call_post(
    pre: Machine,
    post: Machine,
    args: Seq<Scalar>,
    rv: u64,
    r: Result<Outcome, EmulError>,
) -> bool {
    post == pre && if !ptr_arg_ok(args, 0) {
        is_cv(r)
    } else {
        let np = ptr_arg(args, 0);
        if pre.memory.has_c_str(np) {
            let nm = pre.memory.c_str_at(np);
            r == Ok::<Outcome, EmulError>(
                Outcome::Handled {
                    result: Some(
                        if pre.env_vars.has(nm) {
                            Scalar::Ptr(pre.env_vars.value_of(nm))
                        } else {
                            Scalar::Int(0)
                        },
                    ),
                    resume: rv,
                },
            )
        } else {
            r == Err::<Outcome, EmulError>(EmulError::MemoryAccessFault)
        }
    }
}

/// What the `unsetenv` handler leaves behind: removal and buffer
/// destruction on success, a distinguishable -1 when the name was
/// null, unacceptable or never set.
pub open spec fn unsetenv_call_post(
    pre: Machine,
    post: Machine,
    args: Seq<Scalar>,
    rv: u64,
    r: Result<Outcome, EmulError>,
) -> bool {
    if args.len() < 1 {
        post == pre && is_cv(r)
    } else {
        let minus_one = Ok::<Outcome, EmulError>(
            Outcome::Handled { result: Some(Scalar::Int(-1i128)), resume: rv },
        );
        let zero = Ok::<Outcome, EmulError>(
            Outcome::Handled { result: Some(Scalar::Int(0)), resume: rv },
        );
        if args[0].spec_is_null() {
            post == pre && r == minus_one
        } else if args[0] is Int {
            post == pre && is_cv(r)
        } else {
            let np = args[0]->Ptr_0;
            if !pre.memory.has_c_str(np) {
                post == pre && r == Err::<Outcome, EmulError>(EmulError::MemoryAccessFault)
            } else {
                let nm = pre.memory.c_str_at(np);
                if !crate::env::valid_env_name(nm) {
                    post == pre && r == minus_one
                } else if !pre.env_vars.has(nm) {
                    post == pre && r == minus_one
                } else {
                    r == zero && crate::env::unsetenv_effect(pre, post, nm)
                }
            }
        }
    }
}

/// What the `setenv` handler leaves behind: a fresh null-terminated
/// buffer installed under the name on success, everything unchanged
/// and -1 on an unacceptable name.
pub open spec fn setenv_call_post(
    pre: Machine,
    post: Machine,
    args: Seq<Scalar>,
    rv: u64,
    r: Result<Outcome, EmulError>,
) -> bool {
    let minus_one = Ok::<Outcome, EmulError>(
        Outcome::Handled { result: Some(Scalar::Int(-1i128)), resume: rv },
    );
    let zero = Ok::<Outcome, EmulError>(
        Outcome::Handled { result: Some(Scalar::Int(0)), resume: rv },
    );
    if args.len() < 2 || !ptr_arg_ok(args, 1) {
        post == pre && is_cv(r)
    } else if !pre.memory.has_c_str(ptr_arg(args, 1)) {
        post == pre && r == Err::<Outcome, EmulError>(EmulError::MemoryAccessFault)
    } else {
        let vl = pre.memory.c_str_at(ptr_arg(args, 1));
        if args[0].spec_is_null() {
            post == pre && r == minus_one
        } else if args[0] is Int {
            post == pre && is_cv(r)
        } else {
            let np = args[0]->Ptr_0;
            if !pre.memory.has_c_str(np) {
                post == pre && r == Err::<Outcome, EmulError>(EmulError::MemoryAccessFault)
            } else {
                let nm = pre.memory.c_str_at(np);
                if !crate::env::valid_env_name(nm) {
                    post == pre && r == minus_one
                } else {
                    r == zero && crate::env::setenv_effect(pre, post, nm, vl)
                }
            }
        }
    }
}

/// What the `write` handler leaves behind: bytes for the standard
/// streams go to the real host streams (with whatever count the host
/// reports), anything else is accepted, discarded and reported as
/// fully written.
pub open spec fn write_call_post(
    pre: Machine,
    post: Machine,
    args: Seq<Scalar>,
    rv: u64,
    r: Result<Outcome, EmulError>,
) -> bool {
    post == pre && if !i32_arg_ok(args, 0) || args.len() < 3 || !size_arg_ok(args, 2) {
        is_cv(r)
    } else {
        let fd = i32_arg(args, 0);
        let n = size_arg(args, 2);
        if fd == 1 || fd == 2 {
            if n == 0 {
                r == Ok::<Outcome, EmulError>(
                    Outcome::Handled { result: Some(Scalar::Int(0)), resume: rv },
                )
            } else if !ptr_arg_ok(args, 1) {
                is_cv(r)
            } else if !pre.memory.in_bounds(ptr_arg(args, 1), n as int) {
                r == Err::<Outcome, EmulError>(EmulError::MemoryAccessFault)
            } else {
                r matches Ok(Outcome::Handled { result, resume }) && resume == rv && (result
                    matches Some(sc) && sc matches Scalar::Int(v) && (v == -1 || 0 <= v <= n))
            }
        } else {
            r == Ok::<Outcome, EmulError>(
                Outcome::Handled { result: Some(Scalar::Int(n as i128)), resume: rv },
            )
        }
    }
}

/// What the `strlen` handler leaves behind: the length of the
/// null-terminated run.
pub open spec fn strlen_call_post(
    pre: Machine,
    post: Machine,
    args: Seq<Scalar>,
    rv: u64,
    r: Result<Outcome, EmulError>,
) -> bool {
    post == pre && if !ptr_arg_ok(args, 0) {
        is_cv(r)
    } else {
        let p = ptr_arg(args, 0);
        if pre.memory.has_c_str(p) {
            r == Ok::<Outcome, EmulError>(
                Outcome::Handled {
                    result: Some(Scalar::Int(pre.memory.c_str_at(p).len() as i128)),
                    resume: rv,
                },
            )
        } else {
            r == Err::<Outcome, EmulError>(EmulError::MemoryAccessFault)
        }
    }
}

/// What `sysconf` leaves behind: the handful of names the emulation
/// understands give fixed values; anything else is refused.
pub open spec fn sysconf_call_post(
    pre: Machine,
    post: Machine,
    name: Seq<u8>,
    args: Seq<Scalar>,
    rv: u64,
    r: Result<Outcome, EmulError>,
) -> bool {
    post == pre && if !i32_arg_ok(args, 0) {
        is_cv(r)
    } else {
        let nm = i32_arg(args, 0);
        if pre.consts.sc_pagesize == Some(nm) {
            r == Ok::<Outcome, EmulError>(
                Outcome::Handled { result: Some(Scalar::Int(PAGE_SIZE)), resume: rv },
            )
        } else if pre.consts.sc_getpw_r_size_max == Some(nm) {
            r == Ok::<Outcome, EmulError>(
                Outcome::Handled { result: Some(Scalar::Int(-1i128)), resume: rv },
            )
        } else if pre.consts.sc_nprocessors_onln == Some(nm) {
            r == Ok::<Outcome, EmulError>(
                Outcome::Handled { result: Some(Scalar::Int(NUM_CPUS)), resume: rv },
            )
        } else {
            unsupported(r, name)
        }
    }
}

/// What creating a thread-local-storage key leaves behind: the lowest
/// free id, stored through the first argument at the platform's key
/// width; an id the destination type cannot hold is refused.
pub open spec fn key_create_call_post(
    pre: Machine,
    post: Machine,
    args: Seq<Scalar>,
    rv: u64,
    r: Result<Outcome, EmulError>,
) -> bool {
    if !ptr_arg_ok(args, 0) || args.len() < 2 {
        post == pre && is_cv(r)
    } else if args[1] is Int && args[1]->Int_0 != 0 {
        post == pre && is_cv(r)
    } else {
        let key_ptr = ptr_arg(args, 0);
        let dtor = if args[1] is Ptr {
            Some(args[1]->Ptr_0)
        } else {
            None::<Pointer>
        };
        let width = pre.consts.key_type_size;
        if pre.tls.slots@.len() >= usize::MAX {
            post == pre && r == Err::<Outcome, EmulError>(EmulError::KeySpaceExhausted)
        } else {
            &&& Machine::same_except_tls_memory(pre, post)
            &&& key_created_outcome(pre, post, key_ptr, dtor, width, rv, r)
        }
    }
}

/// The key id's fate after creation: refused when it does not fit the
/// destination width, else stored where the caller asked, as width
/// little-endian bytes.
pub open spec fn key_create_result(
    pre: Machine,
    post: Machine,
    key_ptr: Pointer,
    width: usize,
    k: int,
    rv: u64,
    r: Result<Outcome, EmulError>,
) -> bool {
    if k >= spec_pow256(width as nat) {
        r == Err::<Outcome, EmulError>(EmulError::KeySpaceExhausted) && post.memory == pre.memory
    } else if pre.memory.in_bounds(key_ptr, width as int) {
        r == Ok::<Outcome, EmulError>(
            Outcome::Handled { result: Some(Scalar::Int(0)), resume: rv },
        ) && Memory::bytes_written(
            pre.memory,
            post.memory,
            key_ptr,
            spec_le_bytes(k as nat, width as nat),
        )
    } else {
        r == Err::<Outcome, EmulError>(EmulError::MemoryAccessFault) && post.memory == pre.memory
    }
}

/// Some key was created, and it met the fate `key_create_result` says.
pub open spec fn key_created_outcome(
    pre: Machine,
    post: Machine,
    key_ptr: Pointer,
    dtor: Option<Pointer>,
    width: usize,
    rv: u64,
    r: Result<Outcome, EmulError>,
) -> bool {
    exists|k: int|
        #[trigger] TlsData::key_created(pre.tls, post.tls, k, dtor) && key_create_result(
            pre,
            post,
            key_ptr,
            width,
            k,
            rv,
            r,
        )
}

/// Exhibits the created key as the witness for `key_created_outcome`.
pub proof fn lemma_key_created_outcome(
    pre: Machine,
    post: Machine,
    key_ptr: Pointer,
    dtor: Option<Pointer>,
    width: usize,
    k: int,
    rv: u64,
    r: Result<Outcome, EmulError>,
)
    requires
        TlsData::key_created(pre.tls, post.tls, k, dtor),
        key_create_result(pre, post, key_ptr, width, k, rv, r),
    ensures
        key_created_outcome(pre, post, key_ptr, dtor, width, rv, r),
{
}

/// What `TlsAlloc` leaves behind: the lowest free id as the result; an
/// id the destination width cannot hold is refused.
pub open spec fn tls_alloc_call_post(
    pre: Machine,
    post: Machine,
    dsz: usize,
    rv: u64,
    r: Result<Outcome, EmulError>,
) -> bool {
    if pre.tls.slots@.len() >= usize::MAX {
        post == pre && r == Err::<Outcome, EmulError>(EmulError::KeySpaceExhausted)
    } else {
        &&& Machine::same_except_tls(pre, post)
        &&& tls_alloc_outcome(pre, post, dsz, rv, r)
    }
}

/// Some key was created without a destructor; one that does not fit the
/// destination width is refused, else its id is the result.
pub open spec fn tls_alloc_outcome(
    pre: Machine,
    post: Machine,
    dsz: usize,
    rv: u64,
    r: Result<Outcome, EmulError>,
) -> bool {
    exists|k: int|
        #[trigger] TlsData::key_created(pre.tls, post.tls, k, None) && (if k >= spec_pow256(
            dsz as nat,
        ) {
            r == Err::<Outcome, EmulError>(EmulError::KeySpaceExhausted)
        } else {
            r == Ok::<Outcome, EmulError>(
                Outcome::Handled { result: Some(Scalar::Int(k as i128)), resume: rv },
            )
        })
}

/// Exhibits the created key as the witness for `tls_alloc_outcome`.
pub proof fn lemma_tls_alloc_outcome(
    pre: Machine,
    post: Machine,
    dsz: usize,
    k: int,
    rv: u64,
    r: Result<Outcome, EmulError>,
)
    requires
        TlsData::key_created(pre.tls, post.tls, k, None),
        k >= spec_pow256(dsz as nat) ==> r == Err::<Outcome, EmulError>(
            EmulError::KeySpaceExhausted,
        ),
        k < spec_pow256(dsz as nat) ==> r == Ok::<Outcome, EmulError>(
            Outcome::Handled { result: Some(Scalar::Int(k as i128)), resume: rv },
        ),
    ensures
        tls_alloc_outcome(pre, post, dsz, rv, r),
{
}

/// What deleting a key leaves behind: the association removed and the
/// id free for reuse; an unknown key is a contract violation.
pub open spec fn key_delete_call_post(
    pre: Machine,
    post: Machine,
    args: Seq<Scalar>,
    rv: u64,
    r: Result<Outcome, EmulError>,
) -> bool {
    if !size_arg_ok(args, 0) {
        post == pre && is_cv(r)
    } else {
        let k = size_arg(args, 0) as int;
        &&& Machine::same_except_tls(pre, post)
        &&& (pre.tls.key_live(k) ==> r == Ok::<Outcome, EmulError>(
            Outcome::Handled { result: Some(Scalar::Int(0)), resume: rv },
        ) && post.tls.slots@ == pre.tls.slots@.update(k, None::<crate::tls::TlsEntry>))
        &&& (!pre.tls.key_live(k) ==> post == pre && is_cv(r))
    }
}

/// What loading a slot leaves behind: whatever the slot holds.
pub open spec fn key_load_call_post(
    pre: Machine,
    post: Machine,
    k_ok: bool,
    k: int,
    rv: u64,
    r: Result<Outcome, EmulError>,
) -> bool {
    post == pre && if !k_ok {
        is_cv(r)
    } else if pre.tls.key_live(k) {
        r == Ok::<Outcome, EmulError>(
            Outcome::Handled { result: Some(pre.tls.entry_of(k).value), resume: rv },
        )
    } else {
        is_cv(r)
    }
}

/// What storing a slot leaves behind: the slot replaced, its
/// destructor kept, and the given value reported.
pub open spec fn key_store_call_post(
    pre: Machine,
    post: Machine,
    k_ok: bool,
    k: int,
    value: Scalar,
    good: i128,
    rv: u64,
    r: Result<Outcome, EmulError>,
) -> bool {
    if !k_ok {
        post == pre && is_cv(r)
    } else {
        &&& Machine::same_except_tls(pre, post)
        &&& (pre.tls.key_live(k) ==> r == Ok::<Outcome, EmulError>(
            Outcome::Handled { result: Some(Scalar::Int(good)), resume: rv },
        ) && post.tls.slots@ == pre.tls.slots@.update(
            k,
            Some((crate::tls::TlsEntry { dtor: pre.tls.entry_of(k).dtor, value })),
        ))
        &&& (!pre.tls.key_live(k) ==> post == pre && is_cv(r))
    }
}

/// What the stack-attribute query leaves behind: the fixed stack base
/// stored through the second argument at pointer width.
pub open spec fn attr_getstack_call_post(
    pre: Machine,
    post: Machine,
    args: Seq<Scalar>,
    rv: u64,
    r: Result<Outcome, EmulError>,
) -> bool {
    if args.len() < 2 || !ptr_arg_ok(args, 1) {
        post == pre && is_cv(r)
    } else {
        let out = ptr_arg(args, 1);
        let w = pre.consts.ptr_size;
        &&& Machine::same_except_memory(pre, post)
        &&& (pre.memory.in_bounds(out, w as int) ==> r == Ok::<Outcome, EmulError>(
            Outcome::Handled { result: Some(Scalar::Int(0)), resume: rv },
        ) && Memory::bytes_written(
            pre.memory,
            post.memory,
            out,
            spec_le_bytes(STACK_ADDR as nat, w as nat),
        ))
        &&& (!pre.memory.in_bounds(out, w as int) ==> post == pre && r == Err::<
            Outcome,
            EmulError,
        >(EmulError::MemoryAccessFault))
    }
}

/// What the system-information query leaves behind: the record zeroed,
/// with the processor count as a four-byte field at its fixed offset.
pub open spec fn system_info_call_post(
    pre: Machine,
    post: Machine,
    args: Seq<Scalar>,
    rv: u64,
    r: Result<Outcome, EmulError>,
) -> bool {
    if !ptr_arg_ok(args, 0) {
        post == pre && is_cv(r)
    } else {
        let si = ptr_arg(args, 0);
        let size = pre.consts.system_info_size;
        let off = 8 + 3 * pre.consts.ptr_size as int;
        if !pre.memory.in_bounds(si, size as int) {
            post == pre && r == Err::<Outcome, EmulError>(EmulError::MemoryAccessFault)
        } else {
            let a = si.alloc as int;
            &&& Machine::same_except_memory(pre, post)
            &&& exists|mid: Memory|
                {
                    &&& #[trigger] Memory::bytes_written(pre.memory, mid, si, spec_zeros(size as nat))
                    &&& if si.offset + off + 4 <= pre.memory.bytes_of(a).len() {
                        r == Ok::<Outcome, EmulError>(
                            Outcome::Handled { result: None, resume: rv },
                        ) && Memory::bytes_written(
                            mid,
                            post.memory,
                            (Pointer { alloc: si.alloc, offset: (si.offset + off) as usize }),
                            spec_le_bytes(NUM_CPUS as nat, 4),
                        )
                    } else {
                        r == Err::<Outcome, EmulError>(EmulError::MemoryAccessFault)
                            && post.memory == mid
                    }
                }
        }
    }
}

/// The count the host reported was stored through the count pointer
/// (zero when the host write failed), and the result says which.
pub open spec fn count_stored(
    pre: Memory,
    post: Memory,
    wp: Pointer,
    n: int,
    rv: u64,
    r: Result<Outcome, EmulError>,
) -> bool {
    exists|w: int|
        #![trigger spec_le_bytes(w as nat, 4)]
        0 <= w <= n && {
            ||| (r == Ok::<Outcome, EmulError>(
                Outcome::Handled { result: Some(Scalar::Int(1)), resume: rv },
            ) && Memory::bytes_written(pre, post, wp, spec_le_bytes(w as nat, 4)))
            ||| (r == Ok::<Outcome, EmulError>(
                Outcome::Handled { result: Some(Scalar::Int(0)), resume: rv },
            ) && w == 0 && Memory::bytes_written(pre, post, wp, spec_le_bytes(0, 4)))
        }
}

/// Exhibits the stored count as the witness for `count_stored`.
pub proof fn lemma_count_stored(
    pre: Memory,
    post: Memory,
    wp: Pointer,
    n: int,
    w: int,
    success: bool,
    rv: u64,
    r: Result<Outcome, EmulError>,
)
    requires
        0 <= w <= n,
        success ==> r == Ok::<Outcome, EmulError>(
            Outcome::Handled { result: Some(Scalar::Int(1)), resume: rv },
        ) && Memory::bytes_written(pre, post, wp, spec_le_bytes(w as nat, 4)),
        !success ==> r == Ok::<Outcome, EmulError>(
            Outcome::Handled { result: Some(Scalar::Int(0)), resume: rv },
        ) && w == 0 && Memory::bytes_written(pre, post, wp, spec_le_bytes(0, 4)),
    ensures
        count_stored(pre, post, wp, n, rv, r),
{
    assert(spec_le_bytes(w as nat, 4) == spec_le_bytes(w as nat, 4));
}

/// What `WriteFile` leaves behind: the written count is stored through
/// the fourth argument (zero first, the real count on success), and
/// the result says whether the transfer succeeded.
pub open spec fn write_file_call_post(
    pre: Machine,
    post: Machine,
    args: Seq<Scalar>,
    rv: u64,
    r: Result<Outcome, EmulError>,
) -> bool {
    if args.len() < 4 || !int_arg_ok(args, 0) || !u32_arg_ok(args, 2) || !ptr_arg_ok(args, 3) {
        post == pre && is_cv(r)
    } else {
        let handle = int_arg(args, 0);
        let n = u32_arg(args, 2) as int;
        let wp = ptr_arg(args, 3);
        if !pre.memory.in_bounds(wp, 4) {
            post == pre && r == Err::<Outcome, EmulError>(EmulError::MemoryAccessFault)
        } else {
            &&& Machine::same_except_memory(pre, post)
            &&& if handle == -11 || handle == -12 {
                if n == 0 {
                    r == Ok::<Outcome, EmulError>(
                        Outcome::Handled { result: Some(Scalar::Int(1)), resume: rv },
                    ) && Memory::bytes_written(pre.memory, post.memory, wp, spec_le_bytes(0, 4))
                } else if !ptr_arg_ok(args, 1) {
                    is_cv(r) && Memory::bytes_written(
                        pre.memory,
                        post.memory,
                        wp,
                        spec_le_bytes(0, 4),
                    )
                } else if !pre.memory.in_bounds(ptr_arg(args, 1), n) {
                    r == Err::<Outcome, EmulError>(EmulError::MemoryAccessFault)
                        && Memory::bytes_written(
                        pre.memory,
                        post.memory,
                        wp,
                        spec_le_bytes(0, 4),
                    )
                } else {
                    count_stored(pre.memory, post.memory, wp, n, rv, r)
                }
            } else {
                r == Ok::<Outcome, EmulError>(
                    Outcome::Handled { result: Some(Scalar::Int(1)), resume: rv },
                ) && Memory::bytes_written(
                    pre.memory,
                    post.memory,
                    wp,
                    spec_le_bytes(n as nat, 4),
                )
            }
        }
    }
}

/// What the Windows heap allocation handler leaves behind: the flags'
/// zero-memory bit selects zero initialisation, then the C allocator
/// emulation runs.
pub open spec fn heap_alloc_call_post(
    pre: Machine,
    post: Machine,
    args: Seq<Scalar>,
    rv: u64,
    r: Result<Outcome, EmulError>,
) -> bool {
    if !int_arg_ok(args, 0) || !u32_arg_ok(args, 1) || !size_arg_ok(args, 2) {
        post == pre && is_cv(r)
    } else {
        let zero_init = u32_arg(args, 1) & 8 != 0;
        let size = size_arg(args, 2);
        &&& Machine::same_except_memory(pre, post)
        &&& (size == 0 ==> post == pre && r == Ok::<Outcome, EmulError>(
            Outcome::Handled { result: Some(Scalar::Int(0)), resume: rv },
        ))
        &&& (size > 0 ==> (r matches Ok(Outcome::Handled { result, resume }) && resume == rv
            && (result matches Some(sc) && sc matches Scalar::Ptr(p) && fresh_alloc(
            pre.memory,
            post.memory,
            p,
            size as int,
            pre.consts.ptr_size as int,
            AllocKind::CHeap,
        ) && (zero_init ==> post.memory.bytes_of(p.alloc as int) == Seq::new(
            size as nat,
            |j: int| 0u8,
        )))))
    }
}

/// The call was refused as an unknown foreign symbol, by name.
pub open spec fn unsupported(r: Result<Outcome, EmulError>, name: Seq<u8>) -> bool {
    r matches Err(EmulError::UnsupportedSymbol(v)) && v@ == name
}

/// What the dispatcher guarantees, branch for branch in the order the
/// symbols are tried: diverging calls first, then the demand for a
/// destination, then the stub catalog, then each named handler, and an
/// explicit refusal for everything else (a deliberately closed world).
pub open spec fn dispatch_post(
    pre: Machine,
    post: Machine,
    name: Seq<u8>,
    args: Seq<Scalar>,
    dest: Option<usize>,
    ret: Option<u64>,
    r: Result<Outcome, EmulError>,
) -> bool {
    if name == "__rust_start_panic".spec_bytes() || name == "panic_impl".spec_bytes() {
        post == pre && r == Err::<Outcome, EmulError>(EmulError::FatalAbort)
    } else if name == "exit".spec_bytes() || name == "ExitProcess".spec_bytes() {
        post == pre && (if i32_arg_ok(args, 0) {
            r == Err::<Outcome, EmulError>(EmulError::ProcessExit(i32_arg(args, 0)))
        } else {
            is_cv(r)
        })
    } else if dest is None {
        post == pre && is_cv(r)
    } else {
        let rv = ret.unwrap();
        if spec_stub_effect(name) is Some {
            post == pre && r == Ok::<Outcome, EmulError>(
                match spec_stub_effect(name).unwrap() {
                    StubEffect::RetNull => Outcome::Handled {
                        result: Some(Scalar::Int(0)),
                        resume: rv,
                    },
                    StubEffect::RetInt(v) => Outcome::Handled {
                        result: Some(Scalar::Int(v)),
                        resume: rv,
                    },
                    StubEffect::NoValue => Outcome::Handled { result: None, resume: rv },
                },
            )
        } else {
            heap_group_post(pre, post, name, args, rv, dest.unwrap(), r)
        }
    }
}

/// The heap allocation symbols, in dispatch order.
pub open spec fn heap_group_post(
    pre: Machine,
    post: Machine,
    name: Seq<u8>,
    args: Seq<Scalar>,
    rv: u64,
    dsz: usize,
    r: Result<Outcome, EmulError>,
) -> bool {
    if name == "malloc".spec_bytes() {
        malloc_call_post(pre, post, args, rv, r)
    } else if name == "calloc".spec_bytes() {
        calloc_call_post(pre, post, args, rv, r)
    } else if name == "posix_memalign".spec_bytes() {
        posix_memalign_call_post(pre, post, args, rv, r)
    } else if name == "free".spec_bytes() {
        free_call_post(pre, post, args, rv, r)
    } else if name == "realloc".spec_bytes() {
        realloc_call_post(pre, post, args, rv, r)
    } else if name == "__rust_alloc".spec_bytes() {
        rust_alloc_call_post(pre, post, args, rv, false, r)
    } else if name == "__rust_alloc_zeroed".spec_bytes() {
        rust_alloc_call_post(pre, post, args, rv, true, r)
    } else if name == "__rust_dealloc".spec_bytes() {
        rust_dealloc_call_post(pre, post, args, rv, r)
    } else if name == "__rust_realloc".spec_bytes() {
        rust_realloc_call_post(pre, post, args, rv, r)
    } else {
        prim_group_post(pre, post, name, args, rv, dsz, r)
    }
}

/// The syscall, loading, shim, byte-primitive, environment and output symbols, in dispatch order.
pub open spec fn prim_group_post(
    pre: Machine,
    post: Machine,
    name: Seq<u8>,
    args: Seq<Scalar>,
    rv: u64,
    dsz: usize,
    r: Result<Outcome, EmulError>,
) -> bool {
    if name == "syscall".spec_bytes() {
        syscall_call_post(pre, post, name, args, rv, r)
    } else if name == "dlsym".spec_bytes() {
        dlsym_call_post(pre, post, args, r)
    } else if name == "__rust_maybe_catch_panic".spec_bytes() {
        catch_panic_call_post(pre, post, args, rv, r)
    } else if name == "memcmp".spec_bytes() {
        memcmp_call_post(pre, post, args, rv, r)
    } else if name == "memrchr".spec_bytes() {
        memsearch_call_post(pre, post, args, true, rv, r)
    } else if name == "memchr".spec_bytes() {
        memsearch_call_post(pre, post, args, false, rv, r)
    } else if name == "strlen".spec_bytes() {
        strlen_call_post(pre, post, args, rv, r)
    } else if name == "getenv".spec_bytes() {
        getenv_call_post(pre, post, args, rv, r)
    } else if name == "unsetenv".spec_bytes() {
        unsetenv_call_post(pre, post, args, rv, r)
    } else if name == "setenv".spec_bytes() {
        setenv_call_post(pre, post, args, rv, r)
    } else if name == "write".spec_bytes() {
        write_call_post(pre, post, args, rv, r)
    } else {
        misc_group_post(pre, post, name, args, rv, dsz, r)
    }
}

/// The host-float, configuration, key-table and startup symbols, in dispatch order.
pub open spec fn misc_group_post(
    pre: Machine,
    post: Machine,
    name: Seq<u8>,
    args: Seq<Scalar>,
    rv: u64,
    dsz: usize,
    r: Result<Outcome, EmulError>,
) -> bool {
    if name == "cbrtf".spec_bytes() || name == "coshf".spec_bytes() || name
        == "sinhf".spec_bytes() || name == "tanf".spec_bytes() {
        post == pre && (if u32_arg_ok(args, 0) {
            r matches Ok(Outcome::HostFloat { op, resume }) && resume == rv && {
                let v = u32_arg(args, 0);
                if name == "cbrtf".spec_bytes() {
                    op == FloatOp::Cbrtf(v)
                } else if name == "coshf".spec_bytes() {
                    op == FloatOp::Coshf(v)
                } else if name == "sinhf".spec_bytes() {
                    op == FloatOp::Sinhf(v)
                } else {
                    op == FloatOp::Tanf(v)
                }
            }
        } else {
            is_cv(r)
        })
    } else if name == "_hypotf".spec_bytes() || name == "hypotf".spec_bytes() || name
        == "atan2f".spec_bytes() {
        post == pre && (if u32_arg_ok(args, 0) && u32_arg_ok(args, 1) {
            r matches Ok(Outcome::HostFloat { op, resume }) && resume == rv && {
                let v1 = u32_arg(args, 0);
                let v2 = u32_arg(args, 1);
                if name == "atan2f".spec_bytes() {
                    op == FloatOp::Atan2f(v1, v2)
                } else {
                    op == FloatOp::Hypotf(v1, v2)
                }
            }
        } else {
            is_cv(r)
        })
    } else if name == "cbrt".spec_bytes() || name == "cosh".spec_bytes() || name
        == "sinh".spec_bytes() || name == "tan".spec_bytes() {
        post == pre && (if u64_arg_ok(args, 0) {
            r matches Ok(Outcome::HostFloat { op, resume }) && resume == rv && {
                let v = u64_arg(args, 0);
                if name == "cbrt".spec_bytes() {
                    op == FloatOp::Cbrt(v)
                } else if name == "cosh".spec_bytes() {
                    op == FloatOp::Cosh(v)
                } else if name == "sinh".spec_bytes() {
                    op == FloatOp::Sinh(v)
                } else {
                    op == FloatOp::Tan(v)
                }
            }
        } else {
            is_cv(r)
        })
    } else if name == "_hypot".spec_bytes() || name == "hypot".spec_bytes() || name
        == "atan2".spec_bytes() {
        post == pre && (if u64_arg_ok(args, 0) && u64_arg_ok(args, 1) {
            r matches Ok(Outcome::HostFloat { op, resume }) && resume == rv && {
                let v1 = u64_arg(args, 0);
                let v2 = u64_arg(args, 1);
                if name == "atan2".spec_bytes() {
                    op == FloatOp::Atan2(v1, v2)
                } else {
                    op == FloatOp::Hypot(v1, v2)
                }
            }
        } else {
            is_cv(r)
        })
    } else if name == "sysconf".spec_bytes() {
        sysconf_call_post(pre, post, name, args, rv, r)
    } else if name == "pthread_key_create".spec_bytes() {
        key_create_call_post(pre, post, args, rv, r)
    } else if name == "pthread_key_delete".spec_bytes() {
        key_delete_call_post(pre, post, args, rv, r)
    } else if name == "pthread_getspecific".spec_bytes() {
        key_load_call_post(
            pre,
            post,
            size_arg_ok(args, 0),
            if size_arg_ok(args, 0) {
                size_arg(args, 0) as int
            } else {
                0
            },
            rv,
            r,
        )
    } else if name == "pthread_setspecific".spec_bytes() {
        key_store_call_post(
            pre,
            post,
            size_arg_ok(args, 0) && args.len() >= 2,
            if size_arg_ok(args, 0) {
                size_arg(args, 0) as int
            } else {
                0
            },
            if args.len() >= 2 {
                args[1]
            } else {
                Scalar::Int(0)
            },
            0,
            rv,
            r,
        )
    } else if name == "pthread_attr_getstack".spec_bytes() {
        attr_getstack_call_post(pre, post, args, rv, r)
    } else if name == "pthread_get_stackaddr_np".spec_bytes() {
        post == pre && r == Ok::<Outcome, EmulError>(
            Outcome::Handled { result: Some(Scalar::Int(STACK_ADDR)), resume: rv },
        )
    } else if name == "mmap".spec_bytes() {
        post == pre && (if args.len() >= 1 {
            r == Ok::<Outcome, EmulError>(
                Outcome::Handled { result: Some(args[0]), resume: rv },
            )
        } else {
            is_cv(r)
        })
    } else if name == "_NSGetArgc".spec_bytes() {
        post == pre && (match pre.argc {
            Some(p) => r == Ok::<Outcome, EmulError>(
                Outcome::Handled { result: Some(Scalar::Ptr(p)), resume: rv },
            ),
            None => is_cv(r),
        })
    } else if name == "_NSGetArgv".spec_bytes() {
        post == pre && (match pre.argv {
            Some(p) => r == Ok::<Outcome, EmulError>(
                Outcome::Handled { result: Some(Scalar::Ptr(p)), resume: rv },
            ),
            None => is_cv(r),
        })
    } else if name == "SecRandomCopyBytes".spec_bytes() {
        if args.len() < 3 || !size_arg_ok(args, 1) {
            post == pre && is_cv(r)
        } else {
            random_fill_post(
                pre,
                post,
                size_arg(args, 1),
                args[2],
                Some(Scalar::Int(0)),
                rv,
                r,
            )
        }
    } else {
        windows_group_post(pre, post, name, args, rv, dsz, r)
    }
}

/// The Windows-flavoured symbols, in dispatch order; everything else is refused by name.
pub open spec fn windows_group_post(
    pre: Machine,
    post: Machine,
    name: Seq<u8>,
    args: Seq<Scalar>,
    rv: u64,
    dsz: usize,
    r: Result<Outcome, EmulError>,
) -> bool {
    if name == "HeapAlloc".spec_bytes() {
        heap_alloc_call_post(pre, post, args, rv, r)
    } else if name == "HeapFree".spec_bytes() {
        if !int_arg_ok(args, 0) || !u32_arg_ok(args, 1) || args.len() < 3 {
            post == pre && is_cv(r)
        } else {
            let ptr = args[2];
            &&& Machine::same_except_memory(pre, post)
            &&& (ptr.spec_is_null() ==> post == pre && r == Ok::<Outcome, EmulError>(
                Outcome::Handled { result: Some(Scalar::Int(1)), resume: rv },
            ))
            &&& (ptr is Int && !ptr.spec_is_null() ==> post == pre && is_cv(r))
            &&& (ptr matches Scalar::Ptr(p) ==> {
                &&& (r is Ok <==> pre.memory.dealloc_ok(p, None, AllocKind::CHeap))
                &&& (r is Ok ==> r == Ok::<Outcome, EmulError>(
                    Outcome::Handled { result: Some(Scalar::Int(1)), resume: rv },
                ) && post.memory.allocs@ == pre.memory.allocs@.update(
                    p.alloc as int,
                    None::<crate::mem::Allocation>,
                ))
                &&& (r is Err ==> post == pre)
            })
        }
    } else if name == "HeapReAlloc".spec_bytes() {
        if !int_arg_ok(args, 0) || !u32_arg_ok(args, 1) || args.len() < 3 {
            post == pre && is_cv(r)
        } else {
            realloc_call_post(pre, post, args.subrange(2, args.len() as int), rv, r)
        }
    } else if name == "SetLastError".spec_bytes() {
        if !u32_arg_ok(args, 0) {
            post == pre && is_cv(r)
        } else {
            &&& Machine::same_except_last_error(pre, post)
            &&& post.last_error == u32_arg(args, 0)
            &&& r == Ok::<Outcome, EmulError>(Outcome::Handled { result: None, resume: rv })
        }
    } else if name == "GetLastError".spec_bytes() {
        post == pre && r == Ok::<Outcome, EmulError>(
            Outcome::Handled { result: Some(Scalar::Int(pre.last_error as i128)), resume: rv },
        )
    } else if name == "GetSystemInfo".spec_bytes() {
        system_info_call_post(pre, post, args, rv, r)
    } else if name == "TlsAlloc".spec_bytes() {
        tls_alloc_call_post(pre, post, dsz, rv, r)
    } else if name == "TlsGetValue".spec_bytes() {
        key_load_call_post(
            pre,
            post,
            u32_arg_ok(args, 0),
            if u32_arg_ok(args, 0) {
                u32_arg(args, 0) as int
            } else {
                0
            },
            rv,
            r,
        )
    } else if name == "TlsSetValue".spec_bytes() {
        key_store_call_post(
            pre,
            post,
            u32_arg_ok(args, 0) && args.len() >= 2,
            if u32_arg_ok(args, 0) {
                u32_arg(args, 0) as int
            } else {
                0
            },
            if args.len() >= 2 {
                args[1]
            } else {
                Scalar::Int(0)
            },
            1,
            rv,
            r,
        )
    } else if name == "GetStdHandle".spec_bytes() {
        post == pre && (if i32_arg_ok(args, 0) {
            r == Ok::<Outcome, EmulError>(
                Outcome::Handled {
                    result: Some(Scalar::Int(i32_arg(args, 0) as i128)),
                    resume: rv,
                },
            )
        } else {
            is_cv(r)
        })
    } else if name == "WriteFile".spec_bytes() {
        write_file_call_post(pre, post, args, rv, r)
    } else if name == "GetEnvironmentVariableW".spec_bytes() {
        &&& Machine::same_except_last_error(pre, post)
        &&& post.last_error == 203
        &&& r == Ok::<Outcome, EmulError>(
            Outcome::Handled { result: Some(Scalar::Int(0)), resume: rv },
        )
    } else if name == "GetCommandLineW".spec_bytes() {
        post == pre && (match pre.cmd_line {
            Some(p) => r == Ok::<Outcome, EmulError>(
                Outcome::Handled { result: Some(Scalar::Ptr(p)), resume: rv },
            ),
            None => is_cv(r),
        })
    } else if name == "SystemFunction036".spec_bytes() {
        if args.len() < 2 || !u32_arg_ok(args, 1) {
            post == pre && is_cv(r)
        } else {
            random_fill_post(
                pre,
                post,
                u32_arg(args, 1) as usize,
                args[0],
                Some(Scalar::Int(1)),
                rv,
                r,
            )
        }
    } else {
        post == pre && unsupported(r, name)
    }
}

#[verifier::rlimit(100)]
fn handle_write_file(this: &mut Machine, args: &Vec<Scalar>, rv: u64) -> (r: Result<Outcome, EmulError>)
    requires
        old(this).wf(),
    ensures
        final(this).wf(),
        write_file_call_post(*old(this), *final(this), args@, rv, r),
{
        let a0 = match get_arg(args, 0) {
            Ok(a) => a,
            Err(e) => {
                return Err(e);
            },
        };
        let handle: i128 = match a0 {
            Scalar::Int(v) => v,
            Scalar::Ptr(_) => {
                return Err(EmulError::ContractViolation(
                    "a file handle must be an integer".to_owned(),
                ));
            },
        };
        let a2 = match get_arg(args, 2) {
            Ok(a) => a,
            Err(e) => {
                return Err(e);
            },
        };
        let n = match a2.to_u32() {
            Ok(v) => v,
            Err(e) => {
                return Err(e);
            },
        };
        let a3 = match get_arg(args, 3) {
            Ok(a) => a,
            Err(e) => {
                return Err(e);
            },
        };
        let wp = match a3.to_ptr() {
            Ok(p) => p,
            Err(e) => {
                return Err(e);
            },
        };
        let a1 = match get_arg(args, 1) {
            Ok(a) => a,
            Err(e) => {
                return Err(e);
            },
        };
        // always report zero written first, as the interface demands
        match this.memory.write_uint_le(wp, 0, 4) {
            Ok(()) => {},
            Err(e) => {
                return Err(e);
            },
        }
        let ghost mid_mem = this.memory;
        if handle == -11 || handle == -12 {
            if n == 0 {
                proof {
                    Machine::lemma_wf_kind_preserving(*old(this), *this);
                }
                return Ok(Outcome::Handled { result: Some(Scalar::Int(1)), resume: rv });
            }
            let buf = match a1.to_ptr() {
                Ok(p) => p,
                Err(e) => {
                    proof {
                        Machine::lemma_wf_kind_preserving(*old(this), *this);
                    }
                    return Err(e);
                },
            };
            let data = match this.memory.read_bytes(buf, n as usize) {
                Ok(v) => v,
                Err(e) => {
                    proof {
                        Machine::lemma_wf_kind_preserving(*old(this), *this);
                    }
                    return Err(e);
                },
            };
            let h: i64 = if handle == -11 {
                crate::host::host_write_stdout(data.as_slice())
            } else {
                crate::host::host_write_stderr(data.as_slice())
            };
            if h >= 0 {
                let w32: u32 = h as u32;
                let wr = this.memory.write_uint_le(wp, w32 as u64, 4);
                assert(wr is Ok);
                proof {
                    crate::util::lemma_le_bytes_len(0, 4);
                    crate::util::lemma_le_bytes_len(w32 as nat, 4);
                    crate::mem::Memory::lemma_bytes_written_twice(
                        old(this).memory,
                        mid_mem,
                        this.memory,
                        wp,
                        crate::util::spec_le_bytes(0, 4),
                        crate::util::spec_le_bytes(w32 as nat, 4),
                    );
                    Machine::lemma_wf_kind_preserving(*old(this), *this);
                    lemma_count_stored(
                        old(this).memory,
                        this.memory,
                        wp,
                        n as int,
                        w32 as int,
                        true,
                        rv,
                        Ok(Outcome::Handled { result: Some(Scalar::Int(1)), resume: rv }),
                    );
                }
                return Ok(Outcome::Handled { result: Some(Scalar::Int(1)), resume: rv });
            }
            proof {
                Machine::lemma_wf_kind_preserving(*old(this), *this);
                lemma_count_stored(
                    old(this).memory,
                    this.memory,
                    wp,
                    n as int,
                    0,
                    false,
                    rv,
                    Ok(Outcome::Handled { result: Some(Scalar::Int(0)), resume: rv }),
                );
            }
            return Ok(Outcome::Handled { result: Some(Scalar::Int(0)), resume: rv });
        }
        crate::host::host_note_ignored_write(if handle > i64::MAX as i128 {
            i64::MAX
        } else if handle < i64::MIN as i128 {
            i64::MIN
        } else {
            handle as i64
        });
        let wr = this.memory.write_uint_le(wp, n as u64, 4);
        assert(wr is Ok);
        proof {
            crate::util::lemma_le_bytes_len(0, 4);
            crate::util::lemma_le_bytes_len(n as nat, 4);
            crate::mem::Memory::lemma_bytes_written_twice(
                old(this).memory,
                mid_mem,
                this.memory,
                wp,
                crate::util::spec_le_bytes(0, 4),
                crate::util::spec_le_bytes(n as nat, 4),
            );
            Machine::lemma_wf_kind_preserving(*old(this), *this);
        }
        return Ok(Outcome::Handled { result: Some(Scalar::Int(1)), resume: rv });
    }

#[verifier::rlimit(100)]
fn handle_system_info(this: &mut Machine, args: &Vec<Scalar>, rv: u64) -> (r: Result<Outcome, EmulError>)
    requires
        old(this).wf(),
    ensures
        final(this).wf(),
        system_info_call_post(*old(this), *final(this), args@, rv, r),
{
        let a0 = match get_arg(args, 0) {
            Ok(a) => a,
            Err(e) => {
                return Err(e);
            },
        };
        let si = match a0.to_ptr() {
            Ok(p) => p,
            Err(e) => {
                return Err(e);
            },
        };
        let size = this.consts.system_info_size;
        match this.memory.write_repeat(si, 0, size) {
            Ok(()) => {},
            Err(e) => {
                return Err(e);
            },
        }
        let ghost mid_mem = this.memory;
        proof {
            assert(Memory::bytes_written(
                old(this).memory,
                mid_mem,
                si,
                spec_zeros(size as nat),
            )) by {
                assert(spec_zeros(size as nat) =~= Seq::new(size as nat, |i: int| 0u8));
            }
        }
        let off: usize = 8 + 3 * this.consts.ptr_size;
        if si.offset > usize::MAX - off {
            proof {
                Machine::lemma_wf_kind_preserving(*old(this), *this);
            }
            return Err(EmulError::MemoryAccessFault);
        }
        let p2 = Pointer { alloc: si.alloc, offset: si.offset + off };
        match this.memory.write_uint_le(p2, NUM_CPUS as u64, 4) {
            Ok(()) => {
                proof {
                    Machine::lemma_wf_kind_preserving(*old(this), *this);
                    assert(Memory::bytes_written(
                        old(this).memory,
                        mid_mem,
                        si,
                        spec_zeros(size as nat),
                    ));
                }
                return Ok(Outcome::Handled { result: None, resume: rv });
            },
            Err(e) => {
                proof {
                    Machine::lemma_wf_kind_preserving(*old(this), *this);
                    assert(Memory::bytes_written(
                        old(this).memory,
                        mid_mem,
                        si,
                        spec_zeros(size as nat),
                    ));
                }
                return Err(e);
            },
        }
    }

#[verifier::rlimit(100)]
fn handle_key_create(this: &mut Machine, args: &Vec<Scalar>, rv: u64) -> (r: Result<Outcome, EmulError>)
    requires
        old(this).wf(),
    ensures
        final(this).wf(),
        key_create_call_post(*old(this), *final(this), args@, rv, r),
{
        let a0 = match get_arg(args, 0) {
            Ok(a) => a,
            Err(e) => {
                return Err(e);
            },
        };
        let key_ptr = match a0.to_ptr() {
            Ok(p) => p,
            Err(e) => {
                return Err(e);
            },
        };
        let a1 = match get_arg(args, 1) {
            Ok(a) => a,
            Err(e) => {
                return Err(e);
            },
        };
        let dtor: Option<Pointer> = match a1 {
            Scalar::Ptr(dp) => Some(dp),
            Scalar::Int(v) => {
                if v == 0 {
                    None
                } else {
                    return Err(EmulError::ContractViolation(
                        "a destructor argument must be a function pointer or null".to_owned(),
                    ));
                }
            },
        };
        let width = this.consts.key_type_size;
        if this.tls.slots.len() >= usize::MAX {
            return Err(EmulError::KeySpaceExhausted);
        }
        let k = this.tls.create_key(dtor);
        proof {
            assert(TlsData::key_created(old(this).tls, this.tls, k as int, dtor));
        }
        if !key_fits(k, width) {
            proof {
                Machine::lemma_wf_kind_preserving(*old(this), *this);
                lemma_key_created_outcome(
                    *old(this),
                    *this,
                    key_ptr,
                    dtor,
                    width,
                    k as int,
                    rv,
                    Err(EmulError::KeySpaceExhausted),
                );
            }
            return Err(EmulError::KeySpaceExhausted);
        }
        match this.memory.write_uint_le(key_ptr, k as u64, width) {
            Ok(()) => {
                proof {
                    assert(TlsData::key_created(old(this).tls, this.tls, k as int, dtor));
                    Machine::lemma_wf_kind_preserving(*old(this), *this);
                    lemma_key_created_outcome(
                        *old(this),
                        *this,
                        key_ptr,
                        dtor,
                        width,
                        k as int,
                        rv,
                        Ok(Outcome::Handled { result: Some(Scalar::Int(0)), resume: rv }),
                    );
                }
                return Ok(Outcome::Handled { result: Some(Scalar::Int(0)), resume: rv });
            },
            Err(e) => {
                proof {
                    assert(TlsData::key_created(old(this).tls, this.tls, k as int, dtor));
                    Machine::lemma_wf_kind_preserving(*old(this), *this);
                    lemma_key_created_outcome(
                        *old(this),
                        *this,
                        key_ptr,
                        dtor,
                        width,
                        k as int,
                        rv,
                        Err(e),
                    );
                }
                return Err(e);
            },
        }
    }

#[verifier::rlimit(100)]
fn handle_tls_alloc(this: &mut Machine, dsz: usize, rv: u64) -> (r: Result<Outcome, EmulError>)
    requires
        old(this).wf(),
    ensures
        final(this).wf(),
        tls_alloc_call_post(*old(this), *final(this), dsz, rv, r),
{
        if this.tls.slots.len() >= usize::MAX {
            return Err(EmulError::KeySpaceExhausted);
        }
        let k = this.tls.create_key(None);
        proof {
            assert(TlsData::key_created(old(this).tls, this.tls, k as int, None::<Pointer>));
            Machine::lemma_wf_kind_preserving(*old(this), *this);
        }
        if !key_fits(k, dsz) {
            proof {
                lemma_tls_alloc_outcome(
                    *old(this),
                    *this,
                    dsz,
                    k as int,
                    rv,
                    Err(EmulError::KeySpaceExhausted),
                );
            }
            return Err(EmulError::KeySpaceExhausted);
        }
        proof {
            lemma_tls_alloc_outcome(
                *old(this),
                *this,
                dsz,
                k as int,
                rv,
                Ok(Outcome::Handled { result: Some(Scalar::Int(k as i128)), resume: rv }),
            );
        }
        return Ok(Outcome::Handled { result: Some(Scalar::Int(k as i128)), resume: rv });
    }

#[verifier::rlimit(100)]
fn emulate_heap_group(this: &mut Machine, name: &[u8], args: &Vec<Scalar>, rv: u64, dsz: usize) -> (r: Result<
    Outcome,
    EmulError,
>)
    requires
        old(this).wf(),
    ensures
        final(this).wf(),
        heap_group_post(*old(this), *final(this), name@, args@, rv, dsz, r),
{
    // heap allocation emulation
    if bytes_eq(name, "malloc".as_bytes()) {
        let a0 = match get_arg(args, 0) {
            Ok(a) => a,
            Err(e) => {
                return Err(e);
            },
        };
        let size = match a0.to_size() {
            Ok(s) => s,
            Err(e) => {
                return Err(e);
            },
        };
        let res = this.malloc(size, false);
        return Ok(Outcome::Handled { result: Some(res), resume: rv });
    }
    if bytes_eq(name, "calloc".as_bytes()) {
        let a0 = match get_arg(args, 0) {
            Ok(a) => a,
            Err(e) => {
                return Err(e);
            },
        };
        let items = match a0.to_size() {
            Ok(s) => s,
            Err(e) => {
                return Err(e);
            },
        };
        let a1 = match get_arg(args, 1) {
            Ok(a) => a,
            Err(e) => {
                return Err(e);
            },
        };
        let len = match a1.to_size() {
            Ok(s) => s,
            Err(e) => {
                return Err(e);
            },
        };
        proof {
            assert((items as int) * (len as int) <= u128::MAX) by (nonlinear_arith)
                requires
                    0 <= items <= u64::MAX,
                    0 <= len <= u64::MAX,
            ;
        }
        let prod: u128 = (items as u128) * (len as u128);
        if prod > usize::MAX as u128 {
            return Err(EmulError::ContractViolation(
                "the requested element count and width overflow a size".to_owned(),
            ));
        }
        let res = this.malloc(prod as usize, true);
        return Ok(Outcome::Handled { result: Some(res), resume: rv });
    }
    if bytes_eq(name, "posix_memalign".as_bytes()) {
        let a0 = match get_arg(args, 0) {
            Ok(a) => a,
            Err(e) => {
                return Err(e);
            },
        };
        let out = match a0.to_ptr() {
            Ok(p) => p,
            Err(e) => {
                return Err(e);
            },
        };
        let a1 = match get_arg(args, 1) {
            Ok(a) => a,
            Err(e) => {
                return Err(e);
            },
        };
        let align = match a1.to_size() {
            Ok(s) => s,
            Err(e) => {
                return Err(e);
            },
        };
        let a2 = match get_arg(args, 2) {
            Ok(a) => a,
            Err(e) => {
                return Err(e);
            },
        };
        let size = match a2.to_size() {
            Ok(s) => s,
            Err(e) => {
                return Err(e);
            },
        };
        let ptr_size = this.consts.ptr_size;
        let res = match this.memalign(size, align) {
            Ok(v) => v,
            Err(e) => {
                return Err(e);
            },
        };
        return Ok(Outcome::HandledStore {
            at: out,
            value: res,
            size: ptr_size,
            result: Some(Scalar::Int(0)),
            resume: rv,
        });
    }
    if bytes_eq(name, "free".as_bytes()) {
        let a0 = match get_arg(args, 0) {
            Ok(a) => a,
            Err(e) => {
                return Err(e);
            },
        };
        match this.free(a0) {
            Ok(()) => {
                return Ok(Outcome::Handled { result: None, resume: rv });
            },
            Err(e) => {
                return Err(e);
            },
        }
    }
    if bytes_eq(name, "realloc".as_bytes()) {
        let a0 = match get_arg(args, 0) {
            Ok(a) => a,
            Err(e) => {
                return Err(e);
            },
        };
        let a1 = match get_arg(args, 1) {
            Ok(a) => a,
            Err(e) => {
                return Err(e);
            },
        };
        let new_size = match a1.to_size() {
            Ok(s) => s,
            Err(e) => {
                return Err(e);
            },
        };
        match this.realloc(a0, new_size) {
            Ok(res) => {
                return Ok(Outcome::Handled { result: Some(res), resume: rv });
            },
            Err(e) => {
                return Err(e);
            },
        }
    }

    // the tracked allocator ABI
    if bytes_eq(name, "__rust_alloc".as_bytes()) || bytes_eq(
        name,
        "__rust_alloc_zeroed".as_bytes(),
    ) {
        let zero_init = bytes_eq(name, "__rust_alloc_zeroed".as_bytes());
        let a0 = match get_arg(args, 0) {
            Ok(a) => a,
            Err(e) => {
                return Err(e);
            },
        };
        let size = match a0.to_size() {
            Ok(s) => s,
            Err(e) => {
                return Err(e);
            },
        };
        let a1 = match get_arg(args, 1) {
            Ok(a) => a,
            Err(e) => {
                return Err(e);
            },
        };
        let align = match a1.to_size() {
            Ok(s) => s,
            Err(e) => {
                return Err(e);
            },
        };
        match this.rust_alloc(size, align, zero_init) {
            Ok(res) => {
                return Ok(Outcome::Handled { result: Some(res), resume: rv });
            },
            Err(e) => {
                return Err(e);
            },
        }
    }
    if bytes_eq(name, "__rust_dealloc".as_bytes()) {
        let a0 = match get_arg(args, 0) {
            Ok(a) => a,
            Err(e) => {
                return Err(e);
            },
        };
        let a1 = match get_arg(args, 1) {
            Ok(a) => a,
            Err(e) => {
                return Err(e);
            },
        };
        let old_size = match a1.to_size() {
            Ok(s) => s,
            Err(e) => {
                return Err(e);
            },
        };
        let a2 = match get_arg(args, 2) {
            Ok(a) => a,
            Err(e) => {
                return Err(e);
            },
        };
        let align = match a2.to_size() {
            Ok(s) => s,
            Err(e) => {
                return Err(e);
            },
        };
        match this.rust_dealloc(a0, old_size, align) {
            Ok(()) => {
                return Ok(Outcome::Handled { result: None, resume: rv });
            },
            Err(e) => {
                return Err(e);
            },
        }
    }
    if bytes_eq(name, "__rust_realloc".as_bytes()) {
        let a0 = match get_arg(args, 0) {
            Ok(a) => a,
            Err(e) => {
                return Err(e);
            },
        };
        let a1 = match get_arg(args, 1) {
            Ok(a) => a,
            Err(e) => {
                return Err(e);
            },
        };
        let old_size = match a1.to_size() {
            Ok(s) => s,
            Err(e) => {
                return Err(e);
            },
        };
        let a2 = match get_arg(args, 2) {
            Ok(a) => a,
            Err(e) => {
                return Err(e);
            },
        };
        let align = match a2.to_size() {
            Ok(s) => s,
            Err(e) => {
                return Err(e);
            },
        };
        let a3 = match get_arg(args, 3) {
            Ok(a) => a,
            Err(e) => {
                return Err(e);
            },
        };
        let new_size = match a3.to_size() {
            Ok(s) => s,
            Err(e) => {
                return Err(e);
            },
        };
        match this.rust_realloc(a0, old_size, align, new_size) {
            Ok(res) => {
                return Ok(Outcome::Handled { result: Some(res), resume: rv });
            },
            Err(e) => {
                return Err(e);
            },
        }
    }

    emulate_prim_group(this, name, args, rv, dsz)
}

#[verifier::rlimit(100)]
fn emulate_prim_group(this: &mut Machine, name: &[u8], args: &Vec<Scalar>, rv: u64, dsz: usize) -> (r: Result<
    Outcome,
    EmulError,
>)
    requires
        old(this).wf(),
    ensures
        final(this).wf(),
        prim_group_post(*old(this), *final(this), name@, args@, rv, dsz, r),
{
    // the get-random syscall, the only one understood
    if bytes_eq(name, "syscall".as_bytes()) {
        let sysg = match this.eval_path_scalar(PlatformPath::SysGetrandom) {
            Some(v) => v,
            None => {
                return Err(EmulError::ContractViolation(
                    "the get-random syscall number could not be resolved".to_owned(),
                ));
            },
        };
        let a0 = match get_arg(args, 0) {
            Ok(a) => a,
            Err(e) => {
                return Err(e);
            },
        };
        let id = match a0.to_size() {
            Ok(v) => v,
            Err(e) => {
                return Err(e);
            },
        };
        if id as i128 == sysg {
            let a1 = match get_arg(args, 1) {
                Ok(a) => a,
                Err(e) => {
                    return Err(e);
                },
            };
            let a2 = match get_arg(args, 2) {
                Ok(a) => a,
                Err(e) => {
                    return Err(e);
                },
            };
            let len = match a2.to_size() {
                Ok(v) => v,
                Err(e) => {
                    return Err(e);
                },
            };
            let a3 = match get_arg(args, 3) {
                Ok(a) => a,
                Err(e) => {
                    return Err(e);
                },
            };
            // the only supported flags have no effect on the generator
            match a3.to_i32() {
                Ok(_) => {},
                Err(e) => {
                    return Err(e);
                },
            }
            match gen_random(this, len, a1) {
                Ok(()) => {
                    return Ok(Outcome::Handled {
                        result: Some(Scalar::Int(len as i128)),
                        resume: rv,
                    });
                },
                Err(e) => {
                    return Err(e);
                },
            }
        } else {
            return Err(EmulError::UnsupportedSymbol(slice_to_vec(name)));
        }
    }

    // dynamic library loading is refused, naming the requested symbol
    if bytes_eq(name, "dlsym".as_bytes()) {
        let a1 = match get_arg(args, 1) {
            Ok(a) => a,
            Err(e) => {
                return Err(e);
            },
        };
        let sp = match a1.to_ptr() {
            Ok(p) => p,
            Err(e) => {
                return Err(e);
            },
        };
        let sym = match this.memory.read_c_str(sp) {
            Ok(v) => v,
            Err(e) => {
                return Err(e);
            },
        };
        return Err(EmulError::UnsupportedSymbol(sym));
    }

    // the panic-catching shim calls its guest closure through a frame
    if bytes_eq(name, "__rust_maybe_catch_panic".as_bytes()) {
        let a0 = match get_arg(args, 0) {
            Ok(a) => a,
            Err(e) => {
                return Err(e);
            },
        };
        let f = match a0.to_ptr() {
            Ok(p) => p,
            Err(e) => {
                return Err(e);
            },
        };
        let data = match get_arg(args, 1) {
            Ok(a) => a,
            Err(e) => {
                return Err(e);
            },
        };
        return Ok(Outcome::PushFrame { f, data, resume: rv });
    }

    // byte and search primitives
    if bytes_eq(name, "memcmp".as_bytes()) {
        let a0 = match get_arg(args, 0) {
            Ok(a) => a,
            Err(e) => {
                return Err(e);
            },
        };
        let a1 = match get_arg(args, 1) {
            Ok(a) => a,
            Err(e) => {
                return Err(e);
            },
        };
        let a2 = match get_arg(args, 2) {
            Ok(a) => a,
            Err(e) => {
                return Err(e);
            },
        };
        let n = match a2.to_size() {
            Ok(v) => v,
            Err(e) => {
                return Err(e);
            },
        };
        if n == 0 {
            return Ok(Outcome::Handled { result: Some(Scalar::Int(0)), resume: rv });
        }
        let l = match a0.to_ptr() {
            Ok(p) => p,
            Err(e) => {
                return Err(e);
            },
        };
        let rp = match a1.to_ptr() {
            Ok(p) => p,
            Err(e) => {
                return Err(e);
            },
        };
        match crate::bytes::memcmp(&this.memory, l, rp, n) {
            Ok(c) => {
                return Ok(Outcome::Handled { result: Some(Scalar::Int(c as i128)), resume: rv });
            },
            Err(e) => {
                return Err(e);
            },
        }
    }
    if bytes_eq(name, "memrchr".as_bytes()) || bytes_eq(name, "memchr".as_bytes()) {
        let last = bytes_eq(name, "memrchr".as_bytes());
        let a0 = match get_arg(args, 0) {
            Ok(a) => a,
            Err(e) => {
                return Err(e);
            },
        };
        let a1 = match get_arg(args, 1) {
            Ok(a) => a,
            Err(e) => {
                return Err(e);
            },
        };
        let v32 = match a1.to_i32() {
            Ok(v) => v,
            Err(e) => {
                return Err(e);
            },
        };
        let a2 = match get_arg(args, 2) {
            Ok(a) => a,
            Err(e) => {
                return Err(e);
            },
        };
        let n = match a2.to_size() {
            Ok(v) => v,
            Err(e) => {
                return Err(e);
            },
        };
        let p = match a0.to_ptr() {
            Ok(p) => p,
            Err(e) => {
                return Err(e);
            },
        };
        proof {
            assert(0 <= (v32 & 0xff) < 256) by (bit_vector);
        }
        let val: u8 = (v32 & 0xff) as u8;
        let found = if last {
            match crate::bytes::memrchr(&this.memory, p, val, n) {
                Ok(o) => o,
                Err(e) => {
                    return Err(e);
                },
            }
        } else {
            match crate::bytes::memchr(&this.memory, p, val, n) {
                Ok(o) => o,
                Err(e) => {
                    return Err(e);
                },
            }
        };
        match found {
            Some(q) => {
                return Ok(Outcome::Handled { result: Some(Scalar::Ptr(q)), resume: rv });
            },
            None => {
                return Ok(Outcome::Handled { result: Some(Scalar::Int(0)), resume: rv });
            },
        }
    }
    if bytes_eq(name, "strlen".as_bytes()) {
        let a0 = match get_arg(args, 0) {
            Ok(a) => a,
            Err(e) => {
                return Err(e);
            },
        };
        let p = match a0.to_ptr() {
            Ok(p) => p,
            Err(e) => {
                return Err(e);
            },
        };
        match this.memory.read_c_str(p) {
            Ok(v) => {
                return Ok(Outcome::Handled {
                    result: Some(Scalar::Int(v.len() as i128)),
                    resume: rv,
                });
            },
            Err(e) => {
                return Err(e);
            },
        }
    }

    // the environment variable store
    if bytes_eq(name, "getenv".as_bytes()) {
        let a0 = match get_arg(args, 0) {
            Ok(a) => a,
            Err(e) => {
                return Err(e);
            },
        };
        let np = match a0.to_ptr() {
            Ok(p) => p,
            Err(e) => {
                return Err(e);
            },
        };
        let nm = match this.memory.read_c_str(np) {
            Ok(v) => v,
            Err(e) => {
                return Err(e);
            },
        };
        let result = match this.getenv(nm.as_slice()) {
            Some(p) => Scalar::Ptr(p),
            None => Scalar::Int(0),
        };
        return Ok(Outcome::Handled { result: Some(result), resume: rv });
    }
    if bytes_eq(name, "unsetenv".as_bytes()) {
        let a0 = match get_arg(args, 0) {
            Ok(a) => a,
            Err(e) => {
                return Err(e);
            },
        };
        if a0.is_null() {
            return Ok(Outcome::Handled { result: Some(Scalar::Int(-1i128)), resume: rv });
        }
        let np = match a0.to_ptr() {
            Ok(p) => p,
            Err(e) => {
                return Err(e);
            },
        };
        let nm = match this.memory.read_c_str(np) {
            Ok(v) => v,
            Err(e) => {
                return Err(e);
            },
        };
        let rc = this.unsetenv(nm.as_slice());
        return Ok(Outcome::Handled { result: Some(Scalar::Int(rc as i128)), resume: rv });
    }
    if bytes_eq(name, "setenv".as_bytes()) {
        let a1 = match get_arg(args, 1) {
            Ok(a) => a,
            Err(e) => {
                return Err(e);
            },
        };
        let vp = match a1.to_ptr() {
            Ok(p) => p,
            Err(e) => {
                return Err(e);
            },
        };
        let value = match this.memory.read_c_str(vp) {
            Ok(v) => v,
            Err(e) => {
                return Err(e);
            },
        };
        let a0 = match get_arg(args, 0) {
            Ok(a) => a,
            Err(e) => {
                return Err(e);
            },
        };
        if a0.is_null() {
            return Ok(Outcome::Handled { result: Some(Scalar::Int(-1i128)), resume: rv });
        }
        let np = match a0.to_ptr() {
            Ok(p) => p,
            Err(e) => {
                return Err(e);
            },
        };
        let nm = match this.memory.read_c_str(np) {
            Ok(v) => v,
            Err(e) => {
                return Err(e);
            },
        };
        let rc = this.setenv(nm.as_slice(), value.as_slice());
        return Ok(Outcome::Handled { result: Some(Scalar::Int(rc as i128)), resume: rv });
    }

    // guest output to the host's streams
    if bytes_eq(name, "write".as_bytes()) {
        let a0 = match get_arg(args, 0) {
            Ok(a) => a,
            Err(e) => {
                return Err(e);
            },
        };
        let fd = match a0.to_i32() {
            Ok(v) => v,
            Err(e) => {
                return Err(e);
            },
        };
        let a1 = match get_arg(args, 1) {
            Ok(a) => a,
            Err(e) => {
                return Err(e);
            },
        };
        let a2 = match get_arg(args, 2) {
            Ok(a) => a,
            Err(e) => {
                return Err(e);
            },
        };
        let n = match a2.to_size() {
            Ok(v) => v,
            Err(e) => {
                return Err(e);
            },
        };
        if fd == 1 || fd == 2 {
            if n == 0 {
                return Ok(Outcome::Handled { result: Some(Scalar::Int(0)), resume: rv });
            }
            let buf = match a1.to_ptr() {
                Ok(p) => p,
                Err(e) => {
                    return Err(e);
                },
            };
            let data = match this.memory.read_bytes(buf, n) {
                Ok(v) => v,
                Err(e) => {
                    return Err(e);
                },
            };
            let w: i64 = if fd == 1 {
                crate::host::host_write_stdout(data.as_slice())
            } else {
                crate::host::host_write_stderr(data.as_slice())
            };
            return Ok(Outcome::Handled { result: Some(Scalar::Int(w as i128)), resume: rv });
        }
        crate::host::host_note_ignored_write(fd as i64);
        return Ok(Outcome::Handled { result: Some(Scalar::Int(n as i128)), resume: rv });
    }

    emulate_misc_group(this, name, args, rv, dsz)
}

#[verifier::rlimit(100)]
fn emulate_misc_group(this: &mut Machine, name: &[u8], args: &Vec<Scalar>, rv: u64, dsz: usize) -> (r: Result<
    Outcome,
    EmulError,
>)
    requires
        old(this).wf(),
    ensures
        final(this).wf(),
        misc_group_post(*old(this), *final(this), name@, args@, rv, dsz, r),
{
    // float computations are deferred to the host, by bit pattern
    if bytes_eq(name, "cbrtf".as_bytes()) || bytes_eq(name, "coshf".as_bytes()) || bytes_eq(
        name,
        "sinhf".as_bytes(),
    ) || bytes_eq(name, "tanf".as_bytes()) {
        let a0 = match get_arg(args, 0) {
            Ok(a) => a,
            Err(e) => {
                return Err(e);
            },
        };
        let v = match a0.to_u32() {
            Ok(v) => v,
            Err(e) => {
                return Err(e);
            },
        };
        let op = if bytes_eq(name, "cbrtf".as_bytes()) {
            FloatOp::Cbrtf(v)
        } else if bytes_eq(name, "coshf".as_bytes()) {
            FloatOp::Coshf(v)
        } else if bytes_eq(name, "sinhf".as_bytes()) {
            FloatOp::Sinhf(v)
        } else {
            FloatOp::Tanf(v)
        };
        return Ok(Outcome::HostFloat { op, resume: rv });
    }
    if bytes_eq(name, "_hypotf".as_bytes()) || bytes_eq(name, "hypotf".as_bytes()) || bytes_eq(
        name,
        "atan2f".as_bytes(),
    ) {
        let a0 = match get_arg(args, 0) {
            Ok(a) => a,
            Err(e) => {
                return Err(e);
            },
        };
        let v1 = match a0.to_u32() {
            Ok(v) => v,
            Err(e) => {
                return Err(e);
            },
        };
        let a1 = match get_arg(args, 1) {
            Ok(a) => a,
            Err(e) => {
                return Err(e);
            },
        };
        let v2 = match a1.to_u32() {
            Ok(v) => v,
            Err(e) => {
                return Err(e);
            },
        };
        let op = if bytes_eq(name, "atan2f".as_bytes()) {
            FloatOp::Atan2f(v1, v2)
        } else {
            FloatOp::Hypotf(v1, v2)
        };
        return Ok(Outcome::HostFloat { op, resume: rv });
    }
    if bytes_eq(name, "cbrt".as_bytes()) || bytes_eq(name, "cosh".as_bytes()) || bytes_eq(
        name,
        "sinh".as_bytes(),
    ) || bytes_eq(name, "tan".as_bytes()) {
        let a0 = match get_arg(args, 0) {
            Ok(a) => a,
            Err(e) => {
                return Err(e);
            },
        };
        let v = match a0.to_u64() {
            Ok(v) => v,
            Err(e) => {
                return Err(e);
            },
        };
        let op = if bytes_eq(name, "cbrt".as_bytes()) {
            FloatOp::Cbrt(v)
        } else if bytes_eq(name, "cosh".as_bytes()) {
            FloatOp::Cosh(v)
        } else if bytes_eq(name, "sinh".as_bytes()) {
            FloatOp::Sinh(v)
        } else {
            FloatOp::Tan(v)
        };
        return Ok(Outcome::HostFloat { op, resume: rv });
    }
    if bytes_eq(name, "_hypot".as_bytes()) || bytes_eq(name, "hypot".as_bytes()) || bytes_eq(
        name,
        "atan2".as_bytes(),
    ) {
        let a0 = match get_arg(args, 0) {
            Ok(a) => a,
            Err(e) => {
                return Err(e);
            },
        };
        let v1 = match a0.to_u64() {
            Ok(v) => v,
            Err(e) => {
                return Err(e);
            },
        };
        let a1 = match get_arg(args, 1) {
            Ok(a) => a,
            Err(e) => {
                return Err(e);
            },
        };
        let v2 = match a1.to_u64() {
            Ok(v) => v,
            Err(e) => {
                return Err(e);
            },
        };
        let op = if bytes_eq(name, "atan2".as_bytes()) {
            FloatOp::Atan2(v1, v2)
        } else {
            FloatOp::Hypot(v1, v2)
        };
        return Ok(Outcome::HostFloat { op, resume: rv });
    }

    // the handful of system configuration names with fixed answers
    if bytes_eq(name, "sysconf".as_bytes()) {
        let a0 = match get_arg(args, 0) {
            Ok(a) => a,
            Err(e) => {
                return Err(e);
            },
        };
        let nm = match a0.to_i32() {
            Ok(v) => v,
            Err(e) => {
                return Err(e);
            },
        };
        let hit_pg = match this.eval_path_scalar(PlatformPath::ScPagesize) {
            Some(v) => v == nm as i128,
            None => false,
        };
        if hit_pg {
            return Ok(Outcome::Handled { result: Some(Scalar::Int(PAGE_SIZE)), resume: rv });
        }
        let hit_pw = match this.eval_path_scalar(PlatformPath::ScGetpwRSizeMax) {
            Some(v) => v == nm as i128,
            None => false,
        };
        if hit_pw {
            return Ok(Outcome::Handled { result: Some(Scalar::Int(-1i128)), resume: rv });
        }
        let hit_np = match this.eval_path_scalar(PlatformPath::ScNprocessorsOnln) {
            Some(v) => v == nm as i128,
            None => false,
        };
        if hit_np {
            return Ok(Outcome::Handled { result: Some(Scalar::Int(NUM_CPUS)), resume: rv });
        }
        return Err(EmulError::UnsupportedSymbol(slice_to_vec(name)));
    }

    // the thread-local-storage key table
    if bytes_eq(name, "pthread_key_create".as_bytes()) {
        return handle_key_create(this, args, rv);
    }
    if bytes_eq(name, "pthread_key_delete".as_bytes()) {
        let a0 = match get_arg(args, 0) {
            Ok(a) => a,
            Err(e) => {
                return Err(e);
            },
        };
        let k = match a0.to_size() {
            Ok(v) => v,
            Err(e) => {
                return Err(e);
            },
        };
        match this.tls.delete_key(k) {
            Ok(()) => {
                proof {
                    Machine::lemma_wf_kind_preserving(*old(this), *this);
                }
                return Ok(Outcome::Handled { result: Some(Scalar::Int(0)), resume: rv });
            },
            Err(e) => {
                return Err(e);
            },
        }
    }
    if bytes_eq(name, "pthread_getspecific".as_bytes()) {
        let a0 = match get_arg(args, 0) {
            Ok(a) => a,
            Err(e) => {
                return Err(e);
            },
        };
        let k = match a0.to_size() {
            Ok(v) => v,
            Err(e) => {
                return Err(e);
            },
        };
        match this.tls.load(k) {
            Ok(v) => {
                return Ok(Outcome::Handled { result: Some(v), resume: rv });
            },
            Err(e) => {
                return Err(e);
            },
        }
    }
    if bytes_eq(name, "pthread_setspecific".as_bytes()) {
        let a0 = match get_arg(args, 0) {
            Ok(a) => a,
            Err(e) => {
                return Err(e);
            },
        };
        let k = match a0.to_size() {
            Ok(v) => v,
            Err(e) => {
                return Err(e);
            },
        };
        let a1 = match get_arg(args, 1) {
            Ok(a) => a,
            Err(e) => {
                return Err(e);
            },
        };
        match this.tls.store(k, a1) {
            Ok(()) => {
                proof {
                    Machine::lemma_wf_kind_preserving(*old(this), *this);
                }
                return Ok(Outcome::Handled { result: Some(Scalar::Int(0)), resume: rv });
            },
            Err(e) => {
                return Err(e);
            },
        }
    }

    // stack attribute queries answered with a fixed address
    if bytes_eq(name, "pthread_attr_getstack".as_bytes()) {
        let a1 = match get_arg(args, 1) {
            Ok(a) => a,
            Err(e) => {
                return Err(e);
            },
        };
        let out = match a1.to_ptr() {
            Ok(p) => p,
            Err(e) => {
                return Err(e);
            },
        };
        let w = this.consts.ptr_size;
        match this.memory.write_uint_le(out, STACK_ADDR as u64, w) {
            Ok(()) => {
                proof {
                    Machine::lemma_wf_kind_preserving(*old(this), *this);
                }
                return Ok(Outcome::Handled { result: Some(Scalar::Int(0)), resume: rv });
            },
            Err(e) => {
                return Err(e);
            },
        }
    }
    if bytes_eq(name, "pthread_get_stackaddr_np".as_bytes()) {
        return Ok(Outcome::Handled { result: Some(Scalar::Int(STACK_ADDR)), resume: rv });
    }

    // the guard page mechanism expects its hint address back
    if bytes_eq(name, "mmap".as_bytes()) {
        let a0 = match get_arg(args, 0) {
            Ok(a) => a,
            Err(e) => {
                return Err(e);
            },
        };
        return Ok(Outcome::Handled { result: Some(a0), resume: rv });
    }

    // startup data the embedding set up in emulated memory
    if bytes_eq(name, "_NSGetArgc".as_bytes()) {
        match this.argc {
            Some(p) => {
                return Ok(Outcome::Handled { result: Some(Scalar::Ptr(p)), resume: rv });
            },
            None => {
                return Err(EmulError::ContractViolation(
                    "no argument count was set up for this guest".to_owned(),
                ));
            },
        }
    }
    if bytes_eq(name, "_NSGetArgv".as_bytes()) {
        match this.argv {
            Some(p) => {
                return Ok(Outcome::Handled { result: Some(Scalar::Ptr(p)), resume: rv });
            },
            None => {
                return Err(EmulError::ContractViolation(
                    "no argument vector was set up for this guest".to_owned(),
                ));
            },
        }
    }
    if bytes_eq(name, "SecRandomCopyBytes".as_bytes()) {
        let a1 = match get_arg(args, 1) {
            Ok(a) => a,
            Err(e) => {
                return Err(e);
            },
        };
        let len = match a1.to_size() {
            Ok(v) => v,
            Err(e) => {
                return Err(e);
            },
        };
        let a2 = match get_arg(args, 2) {
            Ok(a) => a,
            Err(e) => {
                return Err(e);
            },
        };
        match gen_random(this, len, a2) {
            Ok(()) => {
                return Ok(Outcome::Handled { result: Some(Scalar::Int(0)), resume: rv });
            },
            Err(e) => {
                return Err(e);
            },
        }
    }

    emulate_windows_group(this, name, args, rv, dsz)
}

#[verifier::rlimit(100)]
fn emulate_windows_group(this: &mut Machine, name: &[u8], args: &Vec<Scalar>, rv: u64, dsz: usize) -> (r: Result<
    Outcome,
    EmulError,
>)
    requires
        old(this).wf(),
    ensures
        final(this).wf(),
        windows_group_post(*old(this), *final(this), name@, args@, rv, dsz, r),
{
    // the Windows heap is the C heap emulation under other names
    if bytes_eq(name, "HeapAlloc".as_bytes()) {
        let a0 = match get_arg(args, 0) {
            Ok(a) => a,
            Err(e) => {
                return Err(e);
            },
        };
        match a0 {
            Scalar::Int(_) => {},
            Scalar::Ptr(_) => {
                return Err(EmulError::ContractViolation(
                    "a heap handle must be an integer".to_owned(),
                ));
            },
        }
        let a1 = match get_arg(args, 1) {
            Ok(a) => a,
            Err(e) => {
                return Err(e);
            },
        };
        let flags = match a1.to_u32() {
            Ok(v) => v,
            Err(e) => {
                return Err(e);
            },
        };
        let a2 = match get_arg(args, 2) {
            Ok(a) => a,
            Err(e) => {
                return Err(e);
            },
        };
        let size = match a2.to_size() {
            Ok(v) => v,
            Err(e) => {
                return Err(e);
            },
        };
        let zero_init = flags & 8 != 0;
        let res = this.malloc(size, zero_init);
        return Ok(Outcome::Handled { result: Some(res), resume: rv });
    }
    if bytes_eq(name, "HeapFree".as_bytes()) {
        let a0 = match get_arg(args, 0) {
            Ok(a) => a,
            Err(e) => {
                return Err(e);
            },
        };
        match a0 {
            Scalar::Int(_) => {},
            Scalar::Ptr(_) => {
                return Err(EmulError::ContractViolation(
                    "a heap handle must be an integer".to_owned(),
                ));
            },
        }
        let a1 = match get_arg(args, 1) {
            Ok(a) => a,
            Err(e) => {
                return Err(e);
            },
        };
        match a1.to_u32() {
            Ok(_) => {},
            Err(e) => {
                return Err(e);
            },
        }
        let a2 = match get_arg(args, 2) {
            Ok(a) => a,
            Err(e) => {
                return Err(e);
            },
        };
        match this.free(a2) {
            Ok(()) => {
                return Ok(Outcome::Handled { result: Some(Scalar::Int(1)), resume: rv });
            },
            Err(e) => {
                return Err(e);
            },
        }
    }
    if bytes_eq(name, "HeapReAlloc".as_bytes()) {
        let a0 = match get_arg(args, 0) {
            Ok(a) => a,
            Err(e) => {
                return Err(e);
            },
        };
        match a0 {
            Scalar::Int(_) => {},
            Scalar::Ptr(_) => {
                return Err(EmulError::ContractViolation(
                    "a heap handle must be an integer".to_owned(),
                ));
            },
        }
        let a1 = match get_arg(args, 1) {
            Ok(a) => a,
            Err(e) => {
                return Err(e);
            },
        };
        match a1.to_u32() {
            Ok(_) => {},
            Err(e) => {
                return Err(e);
            },
        }
        let a2 = match get_arg(args, 2) {
            Ok(a) => a,
            Err(e) => {
                return Err(e);
            },
        };
        let a3 = match get_arg(args, 3) {
            Ok(a) => a,
            Err(e) => {
                return Err(e);
            },
        };
        let new_size = match a3.to_size() {
            Ok(v) => v,
            Err(e) => {
                return Err(e);
            },
        };
        match this.realloc(a2, new_size) {
            Ok(res) => {
                return Ok(Outcome::Handled { result: Some(res), resume: rv });
            },
            Err(e) => {
                return Err(e);
            },
        }
    }

    // the per-process last-error cell
    if bytes_eq(name, "SetLastError".as_bytes()) {
        let a0 = match get_arg(args, 0) {
            Ok(a) => a,
            Err(e) => {
                return Err(e);
            },
        };
        let v = match a0.to_u32() {
            Ok(v) => v,
            Err(e) => {
                return Err(e);
            },
        };
        this.last_error = v;
        proof {
            Machine::lemma_wf_kind_preserving(*old(this), *this);
        }
        return Ok(Outcome::Handled { result: None, resume: rv });
    }
    if bytes_eq(name, "GetLastError".as_bytes()) {
        return Ok(Outcome::Handled {
            result: Some(Scalar::Int(this.last_error as i128)),
            resume: rv,
        });
    }

    // the system information record, zeroed but for the processor count
    if bytes_eq(name, "GetSystemInfo".as_bytes()) {
        return handle_system_info(this, args, rv);
    }

    // thread-local storage under the Windows names
    if bytes_eq(name, "TlsAlloc".as_bytes()) {
        return handle_tls_alloc(this, dsz, rv);
    }
    if bytes_eq(name, "TlsGetValue".as_bytes()) {
        let a0 = match get_arg(args, 0) {
            Ok(a) => a,
            Err(e) => {
                return Err(e);
            },
        };
        let k32 = match a0.to_u32() {
            Ok(v) => v,
            Err(e) => {
                return Err(e);
            },
        };
        match this.tls.load(k32 as usize) {
            Ok(v) => {
                return Ok(Outcome::Handled { result: Some(v), resume: rv });
            },
            Err(e) => {
                return Err(e);
            },
        }
    }
    if bytes_eq(name, "TlsSetValue".as_bytes()) {
        let a0 = match get_arg(args, 0) {
            Ok(a) => a,
            Err(e) => {
                return Err(e);
            },
        };
        let k32 = match a0.to_u32() {
            Ok(v) => v,
            Err(e) => {
                return Err(e);
            },
        };
        let a1 = match get_arg(args, 1) {
            Ok(a) => a,
            Err(e) => {
                return Err(e);
            },
        };
        match this.tls.store(k32 as usize, a1) {
            Ok(()) => {
                proof {
                    Machine::lemma_wf_kind_preserving(*old(this), *this);
                }
                return Ok(Outcome::Handled { result: Some(Scalar::Int(1)), resume: rv });
            },
            Err(e) => {
                return Err(e);
            },
        }
    }

    // standard handles are the identity, so later writes can tell them
    if bytes_eq(name, "GetStdHandle".as_bytes()) {
        let a0 = match get_arg(args, 0) {
            Ok(a) => a,
            Err(e) => {
                return Err(e);
            },
        };
        let v = match a0.to_i32() {
            Ok(v) => v,
            Err(e) => {
                return Err(e);
            },
        };
        return Ok(Outcome::Handled { result: Some(Scalar::Int(v as i128)), resume: rv });
    }
    if bytes_eq(name, "WriteFile".as_bytes()) {
        return handle_write_file(this, args, rv);
    }

    // this is never the environment variable the guest looks for
    if bytes_eq(name, "GetEnvironmentVariableW".as_bytes()) {
        this.last_error = 203;
        proof {
            Machine::lemma_wf_kind_preserving(*old(this), *this);
        }
        return Ok(Outcome::Handled { result: Some(Scalar::Int(0)), resume: rv });
    }
    if bytes_eq(name, "GetCommandLineW".as_bytes()) {
        match this.cmd_line {
            Some(p) => {
                return Ok(Outcome::Handled { result: Some(Scalar::Ptr(p)), resume: rv });
            },
            None => {
                return Err(EmulError::ContractViolation(
                    "no command line was set up for this guest".to_owned(),
                ));
            },
        }
    }
    if bytes_eq(name, "SystemFunction036".as_bytes()) {
        let a0 = match get_arg(args, 0) {
            Ok(a) => a,
            Err(e) => {
                return Err(e);
            },
        };
        let a1 = match get_arg(args, 1) {
            Ok(a) => a,
            Err(e) => {
                return Err(e);
            },
        };
        let len32 = match a1.to_u32() {
            Ok(v) => v,
            Err(e) => {
                return Err(e);
            },
        };
        match gen_random(this, len32 as usize, a0) {
            Ok(()) => {
                return Ok(Outcome::Handled { result: Some(Scalar::Int(1)), resume: rv });
            },
            Err(e) => {
                return Err(e);
            },
        }
    }

    // a deliberately closed world: anything else is refused by name
    Err(EmulError::UnsupportedSymbol(slice_to_vec(name)))
}

/// Emulates one foreign call, failing if the symbol is not supported:
/// this is the single entry point the stepper calls when it meets a
/// call with no available body.
#[verifier::rlimit(100)]
pub fn emulate_foreign_item(this: &mut Machine, req: &ForeignCallRequest) -> (r: Result<
    Outcome,
    EmulError,
>)
    requires
        old(this).wf(),
        req.dest is Some ==> req.ret is Some,
    ensures
        final(this).wf(),
        dispatch_post(
            *old(this),
            *final(this),
            spec_strip(req.link_name@),
            req.args@,
            req.dest,
            req.ret,
            r,
        ),
{
    let name = strip_linker_suffix(req.link_name.as_slice());
    let args = &req.args;

    // calls that never return to their caller
    if bytes_eq(name, "__rust_start_panic".as_bytes()) || bytes_eq(
        name,
        "panic_impl".as_bytes(),
    ) {
        return Err(EmulError::FatalAbort);
    }
    if bytes_eq(name, "exit".as_bytes()) || bytes_eq(name, "ExitProcess".as_bytes()) {
        let a0 = match get_arg(args, 0) {
            Ok(a) => a,
            Err(e) => {
                return Err(e);
            },
        };
        let code = match a0.to_i32() {
            Ok(c) => c,
            Err(e) => {
                return Err(e);
            },
        };
        return Err(EmulError::ProcessExit(code));
    }

    // every other symbol must have a destination and a resumption point
    let rv: u64 = match req.ret {
        Some(v) => v,
        None => {
            return Err(EmulError::ContractViolation(
                "cannot call a value-producing foreign function without a destination".to_owned(),
            ));
        },
    };
    if req.dest.is_none() {
        return Err(EmulError::ContractViolation(
            "cannot call a value-producing foreign function without a destination".to_owned(),
        ));
    }

    // the data-driven catalog of stub-only platform calls
    match stub_lookup(name) {
        Some(StubEffect::RetNull) => {
            return Ok(Outcome::Handled { result: Some(Scalar::Int(0)), resume: rv });
        },
        Some(StubEffect::RetInt(v)) => {
            return Ok(Outcome::Handled { result: Some(Scalar::Int(v)), resume: rv });
        },
        Some(StubEffect::NoValue) => {
            return Ok(Outcome::Handled { result: None, resume: rv });
        },
        None => {},
    }

    let dsz: usize = match req.dest {
        Some(v) => v,
        None => {
            proof {
                assert(false);
            }
            0
        },
    };
    emulate_heap_group(this, name, args, rv, dsz)
}

/// How the embedding's hooks and item tables classified a callee.
#[derive(Clone, Copy, Debug, PartialEq, Eq, Structural)]
pub struct InstanceInfo {
    /// A common constant-evaluation hook already handled the call.
    pub hooked: bool,
    /// The callee is the alignment-offset language item.
    pub align_offset_fn: bool,
    /// The callee is a foreign item with no available body.
    pub foreign: bool,
}

/// What the stepper is to do with a resolved callee.
#[derive(Clone, Copy, Debug, PartialEq, Eq, Structural)]
pub enum FnAction {
    /// A hook already handled the call; resume as directed.
    AlreadyHandled,
    /// The call was emulated as a foreign item.
    Emulated(Outcome),
    /// No special handling applies: load and run the callee's body.
    RunBody,
}

/// The foreign-call result carried inside a callee classification.
pub open spec fn emulated_of(r: Result<FnAction, EmulError>) -> Result<Outcome, EmulError> {
    match r {
        Ok(a) => match a {
            FnAction::Emulated(o) => Ok(o),
            _ => Err(EmulError::FatalAbort),
        },
        Err(e) => Err(e),
    }
}

/// Classifies a resolved callee: hooked calls are already done, the
/// alignment-offset item conservatively answers with the all-ones value
/// of its destination width, foreign items are emulated, and anything
/// else runs its own body.
pub fn find_fn(this: &mut Machine, info: InstanceInfo, req: &ForeignCallRequest) -> (r: Result<
    FnAction,
    EmulError,
>)
    requires
        old(this).wf(),
        req.dest is Some ==> req.ret is Some,
    ensures
        final(this).wf(),
        info.hooked ==> r == Ok::<FnAction, EmulError>(FnAction::AlreadyHandled) && *final(this)
            == *old(this),
        !info.hooked && info.align_offset_fn ==> *final(this) == *old(this) && (match req.dest {
            None => is_fn_cv(r),
            Some(d) => if d > 8 {
                is_fn_cv(r)
            } else {
                r == Ok::<FnAction, EmulError>(
                    FnAction::Emulated(
                        Outcome::Handled {
                            result: Some(
                                Scalar::Int((spec_pow256(d as nat) - 1) as i128),
                            ),
                            resume: req.ret.unwrap(),
                        },
                    ),
                )
            },
        }),
        !info.hooked && !info.align_offset_fn && info.foreign ==> (r matches Ok(a) ==> a
            is Emulated) && dispatch_post(
            *old(this),
            *final(this),
            spec_strip(req.link_name@),
            req.args@,
            req.dest,
            req.ret,
            emulated_of(r),
        ),
        !info.hooked && !info.align_offset_fn && !info.foreign ==> r == Ok::<
            FnAction,
            EmulError,
        >(FnAction::RunBody) && *final(this) == *old(this),
{
    if info.hooked {
        return Ok(FnAction::AlreadyHandled);
    }
    if info.align_offset_fn {
        let d: usize = match req.dest {
            Some(d) => d,
            None => {
                return Err(EmulError::ContractViolation(
                    "the alignment-offset item needs a destination".to_owned(),
                ));
            },
        };
        if d > 8 {
            return Err(EmulError::ContractViolation(
                "the alignment-offset destination is wider than a machine word".to_owned(),
            ));
        }
        let rv: u64 = match req.ret {
            Some(v) => v,
            None => {
                proof {
                    assert(false);
                }
                0
            },
        };
        // the conservative answer: the largest value of the destination width
        let mut t: u128 = 1;
        let mut i: usize = 0;
        while i < d
            invariant
                0 <= i <= d <= 8,
                t == spec_pow256(i as nat),
                t <= 0x1_0000_0000_0000_0000,
            decreases d - i,
        {
            proof {
                crate::util::lemma_pow256_increases(i as nat, 7);
                assert(spec_pow256(7) == 0x100_0000_0000_0000) by {
                    assert(spec_pow256(0) == 1);
                    assert(spec_pow256(1) == 0x100);
                    assert(spec_pow256(2) == 0x1_0000);
                    assert(spec_pow256(3) == 0x100_0000);
                    assert(spec_pow256(4) == 0x1_0000_0000);
                    assert(spec_pow256(5) == 0x100_0000_0000);
                    assert(spec_pow256(6) == 0x1_0000_0000_0000);
                }
            }
            t = t * 256;
            i = i + 1;
        }
        proof {
            crate::util::lemma_pow256_at_least_one(d as nat);
        }
        let ones: i128 = (t - 1) as i128;
        return Ok(FnAction::Emulated(Outcome::Handled { result: Some(Scalar::Int(ones)), resume: rv }));
    }
    if info.foreign {
        match emulate_foreign_item(this, req) {
            Ok(o) => {
                return Ok(FnAction::Emulated(o));
            },
            Err(e) => {
                return Err(e);
            },
        }
    }
    Ok(FnAction::RunBody)
}

/// The classification was refused as a contract violation.
pub open spec fn is_fn_cv(r: Result<FnAction, EmulError>) -> bool {
    r is Err && r->Err_0 is ContractViolation
}

} // verus!
