//! Emulation of foreign (native) calls for an abstract-machine
//! interpreter: when the interpreter meets a call to a function with no
//! available body, this crate decides what observable effect that call
//! must have on the emulated process state, and produces that effect
//! without issuing the real operation to the host.
//!
//! The emulated process lives in [`machine`]; its memory, with
//! per-allocation bounds and provenance, in [`mem`]. The heap entry
//! points (both the C-style and the tracked allocator interface) are in
//! [`heap`], the byte and search primitives in [`bytes`], the
//! environment variable store in [`env`], the thread-local-storage key
//! table in [`tls`], and the deterministic-or-refuse randomness in
//! [`random`]. The closed-world symbol dispatcher, with its table of
//! stub-only platform calls ([`stubs`]), is in [`dispatch`]; the only
//! unverified pieces are the narrow host-stream wrappers in [`host`].

pub mod errors;
pub mod value;
pub mod util;
pub mod mem;
pub mod env;
pub mod tls;
pub mod machine;
pub mod heap;
pub mod bytes;
pub mod stubs;
pub mod dispatch;
pub mod host;
pub mod random;
