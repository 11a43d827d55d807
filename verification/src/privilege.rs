//! Dropping privileges once the configuration is read.

use vstd::prelude::*;

verus! {

/// Asks the system, through `pledge::pledge`, to confine the process to
/// what the promises name. Tells whether the system agreed; nothing is
/// claimed of the answer, which is the system's. The promises are handed on
/// as a C string, so they may not hold a zero character.
#[verifier::external_body]
fn pledge(promises: &str) -> (agreed: bool)
    requires
        !promises@.contains('\0'),
{
    pledge::pledge(promises).is_ok()
}

/// Call pledge(2) to drop privileges: the process keeps standard I/O,
/// reading files, and starting processes, which may use local sockets.
/// Tells whether the call succeeded; on systems without pledge(2) it does
/// not.
pub fn pledge_promise() -> (agreed: bool) {
    proof {
        reveal_strlit("stdio rpath proc exec unix");
    }
    pledge("stdio rpath proc exec unix")
}

} // verus!
