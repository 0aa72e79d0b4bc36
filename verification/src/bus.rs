//! The injected port-access capability the driver is written against.

use vstd::prelude::*;

use crate::model::{
    dev_read_u16_state, dev_read_u16_val, dev_read_u8_val, dev_write_u16, dev_write_u8,
    initial_dev, DevState,
};

verus! {

/// Byte- and word-granular port I/O on one controller channel.
///
/// `dev` is the channel's modeled state, and each operation is pinned to the
/// corresponding transition of [`crate::model`]: whatever is proved of the
/// driver holds of every implementation, and so of every backend that
/// behaves like the modeled controller. [`crate::sim::SimDevice`] is a
/// verified implementation backed by plain memory.
pub trait PortIo: Sized {
    /// The modeled state of the channel behind this backend. The default
    /// is an arbitrary fresh channel; a verified backend gives its own
    /// definition, an unverified one (real hardware) need not.
    open spec fn dev(&self) -> DevState {
        initial_dev(Seq::empty())
    }

    /// Write one byte to `port`.
    fn write_u8(&mut self, port: u16, value: u8)
        ensures
            final(self).dev() == dev_write_u8(old(self).dev(), port, value),
    ;

    /// Write one 16-bit word to `port`.
    fn write_u16(&mut self, port: u16, value: u16)
        ensures
            final(self).dev() == dev_write_u16(old(self).dev(), port, value),
    ;

    /// Read one byte from `port`.
    fn read_u8(&mut self, port: u16) -> (value: u8)
        ensures
            final(self).dev() == old(self).dev(),
            value == dev_read_u8_val(old(self).dev(), port),
    ;

    /// Read one 16-bit word from `port`.
    fn read_u16(&mut self, port: u16) -> (value: u16)
        ensures
            final(self).dev() == dev_read_u16_state(old(self).dev(), port),
            value == dev_read_u16_val(old(self).dev(), port),
    ;
}

} // verus!
