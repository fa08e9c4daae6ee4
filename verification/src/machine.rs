use vstd::prelude::*;
use crate::env::{EnvVars, valid_env_name};
use crate::mem::{AllocKind, Memory};
use crate::tls::TlsData;
use crate::value::Pointer;

verus! {

/// Platform facts the embedding resolves for the emulation layer: type
/// widths from the layout resolver and named libc constants from the
/// symbol resolver. A `None` means the constant could not be resolved
/// in the guest program's namespace.
#[derive(Clone, Copy)]
pub struct PlatformConsts {
    /// Width of a guest pointer, in bytes.
    pub ptr_size: usize,
    /// Width of a guest thread-local-storage key, in bytes.
    pub key_type_size: usize,
    /// Size of the guest's system-information record, in bytes.
    pub system_info_size: usize,
    /// The guest's `SYS_getrandom` syscall number.
    pub sys_getrandom: Option<i128>,
    /// The guest's `_SC_PAGESIZE` name value.
    pub sc_pagesize: Option<i32>,
    /// The guest's `_SC_GETPW_R_SIZE_MAX` name value.
    pub sc_getpw_r_size_max: Option<i32>,
    /// The guest's `_SC_NPROCESSORS_ONLN` name value.
    pub sc_nprocessors_onln: Option<i32>,
}

/// The emulated process: every piece of process-wide state the foreign
/// call handlers read or change. There is no ambient mutable state;
/// each handler receives this context by reference.
pub struct Machine {
    /// The emulated memory, owner of every allocation.
    pub memory: Memory,
    /// The environment variable store.
    pub env_vars: EnvVars,
    /// The thread-local-storage key table.
    pub tls: TlsData,
    /// The per-process last-error cell.
    pub last_error: u32,
    /// The process-wide pseudo-random generator; present only when the
    /// embedding explicitly enabled nondeterministic execution.
    pub rng: Option<rand::rngs::StdRng>,
    /// Resolved platform constants.
    pub consts: PlatformConsts,
    /// Where the guest's argument count lives, when the embedding set one up.
    pub argc: Option<Pointer>,
    /// Where the guest's argument vector lives.
    pub argv: Option<Pointer>,
    /// Where the guest's command line lives.
    pub cmd_line: Option<Pointer>,
}

impl Machine {
    /// The environment entry at position `i` is backed by a live buffer
    /// of the environment kind at offset zero, under an acceptable name.
    pub open spec fn env_entry_ok(self, i: int) -> bool {
        let e = self.env_vars.entries@[i];
        &&& valid_env_name(e.name@)
        &&& e.buf.offset == 0
        &&& self.memory.live(e.buf.alloc as int)
        &&& self.memory.alloc_of(e.buf.alloc as int).kind == AllocKind::Env
    }

    /// The machine invariant: environment names are unique and
    /// acceptable, and each is backed by its own live buffer.
    pub open spec fn wf(self) -> bool {
        &&& Machine::consts_ok(self.consts)
        &&& self.env_vars.names_unique()
        &&& forall|i: int| 0 <= i < self.env_vars.entries@.len() ==> #[trigger] self.env_entry_ok(i)
        &&& forall|i: int, j: int|
            0 <= i < j < self.env_vars.entries@.len()
                ==> self.env_vars.entries@[i].buf.alloc != self.env_vars.entries@[j].buf.alloc
    }

    /// The resolved platform constants are within the widths any real
    /// platform uses; the emulation relies on this to rule out overflow
    /// in offset computations.
    pub open spec fn consts_ok(c: PlatformConsts) -> bool {
        &&& 1 <= c.ptr_size <= 64
        &&& 1 <= c.key_type_size <= 64
        &&& c.system_info_size <= 65536
    }

    /// Everything but the memory and the environment store is the same.
    pub open spec fn same_except_memory_env(pre: Machine, post: Machine) -> bool {
        &&& post.tls == pre.tls
        &&& post.last_error == pre.last_error
        &&& post.rng == pre.rng
        &&& post.consts == pre.consts
        &&& post.argc == pre.argc
        &&& post.argv == pre.argv
        &&& post.cmd_line == pre.cmd_line
    }

    /// Everything but the memory is the same.
    pub open spec fn same_except_memory(pre: Machine, post: Machine) -> bool {
        &&& Machine::same_except_memory_env(pre, post)
        &&& post.env_vars == pre.env_vars
    }

    /// Everything but the key table is the same.
    pub open spec fn same_except_tls(pre: Machine, post: Machine) -> bool {
        &&& post.memory == pre.memory
        &&& post.env_vars == pre.env_vars
        &&& post.last_error == pre.last_error
        &&& post.rng == pre.rng
        &&& post.consts == pre.consts
        &&& post.argc == pre.argc
        &&& post.argv == pre.argv
        &&& post.cmd_line == pre.cmd_line
    }

    /// Everything but the key table and the memory is the same.
    pub open spec fn same_except_tls_memory(pre: Machine, post: Machine) -> bool {
        &&& post.env_vars == pre.env_vars
        &&& post.last_error == pre.last_error
        &&& post.rng == pre.rng
        &&& post.consts == pre.consts
        &&& post.argc == pre.argc
        &&& post.argv == pre.argv
        &&& post.cmd_line == pre.cmd_line
    }

    /// Everything but the last-error cell is the same.
    pub open spec fn same_except_last_error(pre: Machine, post: Machine) -> bool {
        &&& post.memory == pre.memory
        &&& post.env_vars == pre.env_vars
        &&& post.tls == pre.tls
        &&& post.rng == pre.rng
        &&& post.consts == pre.consts
        &&& post.argc == pre.argc
        &&& post.argv == pre.argv
        &&& post.cmd_line == pre.cmd_line
    }

    /// Everything but the memory and the generator is the same.
    pub open spec fn same_except_memory_rng(pre: Machine, post: Machine) -> bool {
        &&& post.env_vars == pre.env_vars
        &&& post.tls == pre.tls
        &&& post.last_error == pre.last_error
        &&& post.consts == pre.consts
        &&& post.argc == pre.argc
        &&& post.argv == pre.argv
        &&& post.cmd_line == pre.cmd_line
    }

    /// A memory change that keeps every live allocation live, with its
    /// kind, preserves the machine invariant.
    pub proof fn lemma_wf_kind_preserving(pre: Machine, post: Machine)
        requires
            pre.wf(),
            post.env_vars == pre.env_vars,
            post.consts == pre.consts,
            forall|a: int|
                pre.memory.live(a) ==> post.memory.live(a) && post.memory.alloc_of(a).kind
                    == pre.memory.alloc_of(a).kind,
        ensures
            post.wf(),
    {
        assert forall|i: int|
            0 <= i < post.env_vars.entries@.len() implies #[trigger] post.env_entry_ok(i) by {
            assert(pre.env_entry_ok(i));
        }
    }

    /// A fresh machine with no allocations, no environment, no keys, and
    /// no entropy source.
    pub fn new(consts: PlatformConsts) -> (r: Machine)
        requires
            Machine::consts_ok(consts),
        ensures
            r.memory.allocs@.len() == 0,
            r.env_vars.entries@.len() == 0,
            r.tls.slots@.len() == 0,
            r.last_error == 0,
            r.rng is None,
            r.consts == consts,
            r.argc is None,
            r.argv is None,
            r.cmd_line is None,
            r.wf(),
    {
        Machine {
            memory: Memory::new(),
            env_vars: EnvVars::new(),
            tls: TlsData::new(),
            last_error: 0,
            rng: None,
            consts,
            argc: None,
            argv: None,
            cmd_line: None,
        }
    }
}

} // verus!
