use vstd::prelude::*;
use vstd::string::StringSliceAdditionalSpecFns;
use crate::util::bytes_eq;

verus! {

/// What a stubbed platform call does: these symbols only need to
/// complete under emulation, not to have a real effect.
#[derive(Clone, Copy, Debug, PartialEq, Eq, Structural)]
pub enum StubEffect {
    /// Write the zero/null value to the destination.
    RetNull,
    /// Write a fixed non-zero sentinel to the destination.
    RetInt(i128),
    /// Succeed without producing a value or touching memory.
    NoValue,
}

/// The stub catalog, as one mapping from symbol name to effect rather
/// than scattered near-identical branches: synchronization primitive
/// setup and teardown, signal registration, stack-attribute queries and
/// assorted platform introspection calls.
pub open spec fn spec_stub_effect(name: Seq<u8>) -> Option<StubEffect> {
    if name == "signal".spec_bytes() || name == "sigaction".spec_bytes() || name
        == "sigaltstack".spec_bytes() {
        Some(StubEffect::RetNull)
    } else if name == "sched_getaffinity".spec_bytes() {
        Some(StubEffect::RetInt(-1i128))
    } else if name == "isatty".spec_bytes() {
        Some(StubEffect::RetNull)
    } else if name == "pthread_attr_init".spec_bytes() || name
        == "pthread_attr_destroy".spec_bytes() || name == "pthread_attr_get_np".spec_bytes()
        || name == "pthread_getattr_np".spec_bytes() || name == "pthread_self".spec_bytes()
        || name == "pthread_get_stacksize_np".spec_bytes() {
        Some(StubEffect::RetNull)
    } else if name == "pthread_mutexattr_init".spec_bytes() || name
        == "pthread_mutexattr_settype".spec_bytes() || name == "pthread_mutex_init".spec_bytes()
        || name == "pthread_mutexattr_destroy".spec_bytes() || name
        == "pthread_mutex_lock".spec_bytes() || name == "pthread_mutex_unlock".spec_bytes()
        || name == "pthread_mutex_destroy".spec_bytes() || name
        == "pthread_rwlock_rdlock".spec_bytes() || name == "pthread_rwlock_unlock".spec_bytes()
        || name == "pthread_rwlock_wrlock".spec_bytes() || name
        == "pthread_rwlock_destroy".spec_bytes() || name == "pthread_condattr_init".spec_bytes()
        || name == "pthread_condattr_setclock".spec_bytes() || name
        == "pthread_cond_init".spec_bytes() || name == "pthread_condattr_destroy".spec_bytes()
        || name == "pthread_cond_destroy".spec_bytes() {
        Some(StubEffect::RetNull)
    } else if name == "pthread_atfork".spec_bytes() {
        Some(StubEffect::RetNull)
    } else if name == "mprotect".spec_bytes() {
        Some(StubEffect::RetNull)
    } else if name == "_tlv_atexit".spec_bytes() {
        Some(StubEffect::NoValue)
    } else if name == "GetProcessHeap".spec_bytes() {
        Some(StubEffect::RetInt(1i128))
    } else if name == "AddVectoredExceptionHandler".spec_bytes() {
        Some(StubEffect::RetInt(1i128))
    } else if name == "InitializeCriticalSection".spec_bytes() || name
        == "EnterCriticalSection".spec_bytes() || name == "LeaveCriticalSection".spec_bytes()
        || name == "DeleteCriticalSection".spec_bytes() {
        Some(StubEffect::NoValue)
    } else if name == "GetModuleHandleW".spec_bytes() || name == "GetProcAddress".spec_bytes()
        || name == "TryEnterCriticalSection".spec_bytes() || name
        == "GetConsoleScreenBufferInfo".spec_bytes() || name
        == "SetConsoleTextAttribute".spec_bytes() {
        Some(StubEffect::RetNull)
    } else if name == "GetConsoleMode".spec_bytes() {
        Some(StubEffect::RetNull)
    } else {
        None
    }
}

/// Looks a symbol up in the stub catalog.
pub fn stub_lookup(name: &[u8]) -> (r: Option<StubEffect>)
    ensures
        r == spec_stub_effect(name@),
{
    if bytes_eq(name, "signal".as_bytes()) || bytes_eq(name, "sigaction".as_bytes()) || bytes_eq(
        name,
        "sigaltstack".as_bytes(),
    ) {
        Some(StubEffect::RetNull)
    } else if bytes_eq(name, "sched_getaffinity".as_bytes()) {
        Some(StubEffect::RetInt(-1i128))
    } else if bytes_eq(name, "isatty".as_bytes()) {
        Some(StubEffect::RetNull)
    } else if bytes_eq(name, "pthread_attr_init".as_bytes()) || bytes_eq(
        name,
        "pthread_attr_destroy".as_bytes(),
    ) || bytes_eq(name, "pthread_attr_get_np".as_bytes()) || bytes_eq(
        name,
        "pthread_getattr_np".as_bytes(),
    ) || bytes_eq(name, "pthread_self".as_bytes()) || bytes_eq(
        name,
        "pthread_get_stacksize_np".as_bytes(),
    ) {
        Some(StubEffect::RetNull)
    } else if bytes_eq(name, "pthread_mutexattr_init".as_bytes()) || bytes_eq(
        name,
        "pthread_mutexattr_settype".as_bytes(),
    ) || bytes_eq(name, "pthread_mutex_init".as_bytes()) || bytes_eq(
        name,
        "pthread_mutexattr_destroy".as_bytes(),
    ) || bytes_eq(name, "pthread_mutex_lock".as_bytes()) || bytes_eq(
        name,
        "pthread_mutex_unlock".as_bytes(),
    ) || bytes_eq(name, "pthread_mutex_destroy".as_bytes()) || bytes_eq(
        name,
        "pthread_rwlock_rdlock".as_bytes(),
    ) || bytes_eq(name, "pthread_rwlock_unlock".as_bytes()) || bytes_eq(
        name,
        "pthread_rwlock_wrlock".as_bytes(),
    ) || bytes_eq(name, "pthread_rwlock_destroy".as_bytes()) || bytes_eq(
        name,
        "pthread_condattr_init".as_bytes(),
    ) || bytes_eq(name, "pthread_condattr_setclock".as_bytes()) || bytes_eq(
        name,
        "pthread_cond_init".as_bytes(),
    ) || bytes_eq(name, "pthread_condattr_destroy".as_bytes()) || bytes_eq(
        name,
        "pthread_cond_destroy".as_bytes(),
    ) {
        Some(StubEffect::RetNull)
    } else if bytes_eq(name, "pthread_atfork".as_bytes()) {
        Some(StubEffect::RetNull)
    } else if bytes_eq(name, "mprotect".as_bytes()) {
        Some(StubEffect::RetNull)
    } else if bytes_eq(name, "_tlv_atexit".as_bytes()) {
        Some(StubEffect::NoValue)
    } else if bytes_eq(name, "GetProcessHeap".as_bytes()) {
        Some(StubEffect::RetInt(1i128))
    } else if bytes_eq(name, "AddVectoredExceptionHandler".as_bytes()) {
        Some(StubEffect::RetInt(1i128))
    } else if bytes_eq(name, "InitializeCriticalSection".as_bytes()) || bytes_eq(
        name,
        "EnterCriticalSection".as_bytes(),
    ) || bytes_eq(name, "LeaveCriticalSection".as_bytes()) || bytes_eq(
        name,
        "DeleteCriticalSection".as_bytes(),
    ) {
        Some(StubEffect::NoValue)
    } else if bytes_eq(name, "GetModuleHandleW".as_bytes()) || bytes_eq(
        name,
        "GetProcAddress".as_bytes(),
    ) || bytes_eq(name, "TryEnterCriticalSection".as_bytes()) || bytes_eq(
        name,
        "GetConsoleScreenBufferInfo".as_bytes(),
    ) || bytes_eq(name, "SetConsoleTextAttribute".as_bytes()) {
        Some(StubEffect::RetNull)
    } else if bytes_eq(name, "GetConsoleMode".as_bytes()) {
        Some(StubEffect::RetNull)
    } else {
        None
    }
}

} // verus!
