//! The emulated I/O port surface. The interpreter core itself performs no
//! host I/O; a front end implements this trait with the host's console.

use vstd::prelude::*;

verus! {

/// Port-mapped byte I/O. Port 0x03F8 is the conventional serial console:
/// `io_in8` reads one byte from it, `io_out8` writes one byte to it, and any
/// other port has no observable effect.
pub trait Io {
    fn io_in8(address: u16) -> u8;

    fn io_out8(address: u16, value: u8);
}

} // verus!
