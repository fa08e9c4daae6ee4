use vstd::prelude::*;
use crate::errors::EmulError;
use crate::machine::Machine;
use crate::mem::Memory;
use crate::value::{Pointer, Scalar};

verus! {

#[verifier::external_type_specification]
#[verifier::external_body]
pub struct ExStdRng(rand::rngs::StdRng);

/// Relies on `rand::SeedableRng::seed_from_u64`: it builds a generator
/// deterministically from the given seed.
#[verifier::external_body]
fn rng_from_seed(seed: u64) -> rand::rngs::StdRng {
    <rand::rngs::StdRng as rand::SeedableRng>::seed_from_u64(seed)
}

/// Relies on `rand::Rng::fill_bytes` for `rand::rngs::StdRng`: the call
/// is infallible and fills the whole buffer, so exactly `len` bytes come
/// back; which values depends on the generator's state.
#[verifier::external_body]
fn rng_fill(rng: &mut rand::rngs::StdRng, len: usize) -> (r: Vec<u8>)
    ensures
        r@.len() == len,
{
    let mut buf: Vec<u8> = vec![0u8; len];
    rand::Rng::fill_bytes(rng, buf.as_mut_slice());
    buf
}

/// Exactly the window of `len` bytes at `p` changed between `pre` and
/// `post`, to values this specification leaves open.
pub open spec fn window_refilled(pre: Memory, post: Memory, p: Pointer, len: int) -> bool {
    let a = p.alloc as int;
    &&& pre.in_bounds(p, len)
    &&& Memory::frame_except(pre, post, a)
    &&& post.live(a)
    &&& post.alloc_of(a).kind == pre.alloc_of(a).kind
    &&& post.alloc_of(a).align == pre.alloc_of(a).align
    &&& post.bytes_of(a).len() == pre.bytes_of(a).len()
    &&& forall|j: int|
        0 <= j < pre.bytes_of(a).len() && !(p.offset <= j < p.offset + len)
            ==> post.bytes_of(a)[j] == pre.bytes_of(a)[j]
}

impl Machine {
    /// Enables nondeterministic execution by seeding the process-wide
    /// generator; nothing else changes.
    pub fn enable_rng(&mut self, seed: u64)
        ensures
            final(self).rng is Some,
            final(self).memory == old(self).memory,
            final(self).env_vars == old(self).env_vars,
            final(self).tls == old(self).tls,
            final(self).last_error == old(self).last_error,
            final(self).consts == old(self).consts,
            final(self).argc == old(self).argc,
            final(self).argv == old(self).argv,
            final(self).cmd_line == old(self).cmd_line,
    {
        self.rng = Some(rng_from_seed(seed));
    }
}

/// Fills `len` bytes at `dest` from the process-wide generator. With no
/// generator enabled the call fails outright rather than substituting
/// host entropy, and either the whole window is refilled or nothing is
/// written at all.
pub fn gen_random(this: &mut Machine, len: usize, dest: Scalar) -> (r: Result<(), EmulError>)
    ensures
        len == 0 ==> r is Ok && *final(this) == *old(this),
        len > 0 && !(dest is Ptr) ==> r is Err && r->Err_0 is ContractViolation && *final(this)
            == *old(this),
        len > 0 && dest is Ptr && old(this).rng is None ==> r == Err::<(),
            EmulError,
        >(EmulError::EntropyUnavailable) && *final(this) == *old(this),
        dest matches Scalar::Ptr(p) ==> ((len > 0 && old(this).rng is Some) ==> {
            &&& (r is Ok <==> old(this).memory.in_bounds(p, len as int))
            &&& (r is Ok ==> window_refilled(old(this).memory, final(this).memory, p, len as int))
            &&& (r is Err ==> r == Err::<(), EmulError>(EmulError::MemoryAccessFault)
                && final(this).memory == old(this).memory)
            &&& final(this).rng is Some
            &&& final(this).env_vars == old(this).env_vars
            &&& final(this).tls == old(this).tls
            &&& final(this).last_error == old(this).last_error
            &&& final(this).consts == old(this).consts
            &&& final(this).argc == old(this).argc
            &&& final(this).argv == old(this).argv
            &&& final(this).cmd_line == old(this).cmd_line
        }),
        old(this).wf() ==> final(this).wf(),
{
    if len == 0 {
        return Ok(());
    }
    let ptr = match dest.to_ptr() {
        Ok(p) => p,
        Err(e) => {
            return Err(e);
        },
    };
    let data = match &mut this.rng {
        Some(rng) => rng_fill(rng, len),
        None => {
            return Err(EmulError::EntropyUnavailable);
        },
    };
    let r = this.memory.write_bytes_at(ptr, data.as_slice());
    proof {
        if old(this).wf() {
            assert forall|i: int|
                0 <= i < this.env_vars.entries@.len() implies #[trigger] this.env_entry_ok(
                i,
            ) by {
                assert(old(this).env_entry_ok(i));
            }
        }
    }
    r
}

} // verus!
