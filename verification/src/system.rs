//! What the browser asks of the system clock and of the window manager.
use vstd::prelude::*;

verus! {

/// Milliseconds since the Unix epoch per `std::time::SystemTime::now`
/// (`duration_since(UNIX_EPOCH)`, `as_millis`); `None` when the clock reads
/// before the epoch. Nothing is stated of the value: it is the time.
#[verifier::external_body]
fn epoch_millis() -> (r: Option<u128>) {
    match std::time::SystemTime::now().duration_since(std::time::UNIX_EPOCH) {
        Ok(d) => Some(d.as_millis()),
        Err(_) => None,
    }
}

/// A reading of the clock in Unix milliseconds (`None` before the epoch)
/// as stored: truncated to `i64` as an `as` cast does, 0 before the epoch.
pub fn epoch_ms_as_i64(ms: Option<u128>) -> (r: i64)
    ensures
        r == match ms {
            Some(m) => m as i64,
            None => 0,
        },
{
    match ms {
        Some(m) => #[verifier::truncate] (m as i64),
        None => 0,
    }
}

/// The current time in Unix milliseconds, as `epoch_ms_as_i64` stores a
/// reading of the system clock.
pub fn now_ms() -> i64 {
    epoch_ms_as_i64(epoch_millis())
}

/// Whether the browser is the foreground application: the foreground
/// window exists (`foreground_window_pid`, the process owning it) and
/// belongs to this process (`own_pid`).
pub fn app_is_foreground(foreground_window_pid: Option<u32>, own_pid: u32) -> (r: bool)
    ensures
        r == (foreground_window_pid == Some(own_pid)),
{
    match foreground_window_pid {
        Some(pid) => pid == own_pid,
        None => false,
    }
}

} // verus!
