//! A verified PIO block-device driver for a legacy ATA disk controller.
//!
//! The driver translates `(drive, lba, count)` read and write requests into
//! the exact register-write sequence the controller requires, polls the
//! status register for readiness, and streams 16-bit data words across the
//! data port. Port access is injected through the [`bus::PortIo`] trait,
//! whose contract is the controller model in [`model`]; [`sim::SimDevice`]
//! is a verified in-memory implementation of that model, so the driver can
//! be exercised without real hardware.

pub mod bus;
pub mod driver;
pub mod model;
pub mod sim;
