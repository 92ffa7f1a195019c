//! The window's name and logo, read from the local client pack.

use vstd::prelude::*;

verus! {

/// Beyond this, a file is not a logo: it is not loaded.
pub const MAX_ICON_BYTES: u64 = 8388608;

/// Whether a logo file of this size is worth reading.
pub fn plausible_icon(length: u64) -> (r: bool)
    ensures
        r == (0 < length && length <= MAX_ICON_BYTES),
{
    length != 0 && length <= MAX_ICON_BYTES
}

} // verus!
