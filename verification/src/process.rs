use vstd::prelude::*;

verus! {

/// The signed process id under which the operating system knows the process
/// with id `process_id`: the same 32 bits read as a two's-complement number.
pub open spec fn signed_pid(process_id: u32) -> int {
    if process_id <= i32::MAX {
        process_id as int
    } else {
        process_id as int - 0x1_0000_0000
    }
}

/// The `pid_t` to signal for the process with id `process_id`.
pub fn signal_pid(process_id: u32) -> (pid: i32)
    ensures
        pid as int == signed_pid(process_id),
{
    if process_id <= 0x7fff_ffff {
        process_id as i32
    } else {
        let high: i32 = (process_id - 0x8000_0000) as i32;
        high - 0x7fff_ffff - 1
    }
}

} // verus!
