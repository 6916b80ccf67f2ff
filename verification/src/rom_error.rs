//! The device-side status word. Its error catalog lives on the device and
//! is consumed here as an opaque 32-bit value: only the success code is
//! interpreted, everything else is surfaced for diagnostics.

use vstd::prelude::*;

verus! {

/// The status word's success code (the device's hardened true value).
pub const ROM_ERROR_OK: u32 = 0x739;

/// A raw device-side status word.
#[derive(Clone, Copy, Debug, PartialEq, Eq, Structural)]
pub struct RomError(pub u32);

impl RomError {
    /// Whether this word is the success code.
    pub fn is_ok(&self) -> (r: bool)
        ensures
            r == (self.0 == ROM_ERROR_OK),
    {
        self.0 == ROM_ERROR_OK
    }

    /// Success for the success code; the word itself otherwise.
    pub fn into_result(self) -> (r: Result<(), RomError>)
        ensures
            self.0 == ROM_ERROR_OK ==> r == Result::<(), RomError>::Ok(()),
            self.0 != ROM_ERROR_OK ==> r == Result::<(), RomError>::Err(self),
    {
        if self.0 == ROM_ERROR_OK {
            Ok(())
        } else {
            Err(self)
        }
    }
}

} // verus!
