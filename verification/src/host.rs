use std::io::Write;
use vstd::prelude::*;

verus! {

/// Relies on `std::io::Write` for the host's standard output: a write
/// reports at most the buffer's length as written, and the stream is
/// flushed right away so guest output appears immediately. A host
/// failure is reported as -1.
#[verifier::external_body]
pub fn host_write_stdout(bytes: &[u8]) -> (r: i64)
    ensures
        r == -1 || 0 <= r <= bytes@.len(),
{
    match std::io::stdout().write(bytes) {
        Ok(n) => {
            let _ = std::io::stdout().flush();
            n as i64
        },
        Err(_) => -1,
    }
}

/// Relies on `std::io::Write` for the host's standard error, which is
/// unbuffered, so no flush follows. A host failure is reported as -1.
#[verifier::external_body]
pub fn host_write_stderr(bytes: &[u8]) -> (r: i64)
    ensures
        r == -1 || 0 <= r <= bytes@.len(),
{
    match std::io::stderr().write(bytes) {
        Ok(n) => n as i64,
        Err(_) => -1,
    }
}

/// Relies on `std::io::Write` for the host's standard error: prints the
/// diagnostic notice that output to an unrecognised destination was
/// accepted and discarded.
#[verifier::external_body]
pub fn host_note_ignored_write(dest: i64) {
    let _ = writeln!(std::io::stderr(), "emulation: ignored output to destination {}", dest);
}

} // verus!
