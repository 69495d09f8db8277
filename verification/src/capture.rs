//! Frames of the desktop on Windows: what an attempt to get one comes to.

use vstd::prelude::*;

verus! {

/// What an attempt to get a frame came to.
#[derive(Clone, Copy, Debug, PartialEq, Eq, Structural)]
pub enum Grab {
    /// There is a new picture, and it has been copied.
    New,
    /// The picture has not changed, or was not wanted.
    NoChange,
    /// There was no frame in time.
    Timeout,
    /// The desktop is out of reach until the capture is set up again.
    Lost,
}

/// The system's code for: no frame in time.
pub const WAIT_TIMEOUT: u32 = 0x887a0027;

/// The system's code for: the desktop is out of reach.
pub const ACCESS_LOST: u32 = 0x887a0026;

/// Whether the picture of a frame is copied: not where only the cursor has moved,
/// which leaves no time of presentation, and not where the frame is not due.
pub fn copies(last_present: i64, due: bool) -> (r: bool)
    ensures
        r == (last_present != 0 && due),
{
    last_present != 0 && due
}

/// What a frame that was got comes to.
pub fn grabbed(last_present: i64, due: bool) -> (r: Grab)
    ensures
        r == (if last_present != 0 && due {
            Grab::New
        } else {
            Grab::NoChange
        }),
{
    if copies(last_present, due) {
        Grab::New
    } else {
        Grab::NoChange
    }
}

/// What a failure to get a frame comes to: two codes of the system are no errors.
pub fn not_grabbed(code: u32) -> (r: Result<Grab, u32>)
    ensures
        r == (if code == WAIT_TIMEOUT {
            Ok::<Grab, u32>(Grab::Timeout)
        } else if code == ACCESS_LOST {
            Ok(Grab::Lost)
        } else {
            Err(code)
        }),
        r == Ok::<Grab, u32>(Grab::Timeout) <==> code == 0x887a_0027,
        r == Ok::<Grab, u32>(Grab::Lost) <==> code == 0x887a_0026,
        code != 0x887a_0027 && code != 0x887a_0026 ==> r == Err::<Grab, u32>(code),
{
    if code == WAIT_TIMEOUT {
        Ok(Grab::Timeout)
    } else if code == ACCESS_LOST {
        Ok(Grab::Lost)
    } else {
        Err(code)
    }
}

} // verus!
