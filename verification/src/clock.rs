use vstd::prelude::*;
use crate::error::IoKind;

verus! {

/// Milliseconds from the Unix epoch to now by the system clock, or `None` when the clock
/// stands before the epoch.
///
/// Calls `std::time::SystemTime::now()`, then `duration_since(UNIX_EPOCH)` and
/// `as_millis()`. The reading depends on the clock, so nothing is stated of it.
#[verifier::external_body]
fn system_millis() -> Option<u128> {
    match std::time::SystemTime::now().duration_since(std::time::UNIX_EPOCH) {
        Ok(d) => Some(d.as_millis()),
        Err(_) => None,
    }
}

/// The 64-bit millisecond timestamp for a clock reading: the reading cut to 64 bits, or 0
/// for a clock before the epoch.
pub fn millis_from_reading(reading: Option<u128>) -> (r: u64)
    ensures
        r == match reading {
            Some(m) => m as u64,
            None => 0u64,
        },
{
    match reading {
        Some(m) => m as u64,
        None => 0,
    }
}

/// The 32-bit millisecond timestamp for a clock reading: the reading cut to 32 bits; a clock
/// before the epoch is an error.
pub fn millis32_from_reading(reading: Option<u128>) -> (r: Result<u32, IoKind>)
    ensures
        r == match reading {
            Some(m) => Ok::<u32, IoKind>(m as u32),
            None => Err::<u32, IoKind>(IoKind::Other),
        },
{
    match reading {
        Some(m) => Ok(m as u32),
        None => Err(IoKind::Other),
    }
}

/// Milliseconds since the Unix epoch, 0 if the clock stands before it.
pub fn now_millis() -> u64 {
    millis_from_reading(system_millis())
}

/// Milliseconds since the Unix epoch cut to 32 bits, as the tunnel's timers count them; an
/// error if the clock stands before the epoch.
pub fn now() -> (r: Result<u32, IoKind>)
    ensures
        r is Ok || r == Err::<u32, IoKind>(IoKind::Other),
{
    millis32_from_reading(system_millis())
}

} // verus!
