//! Device-driver core for a desktop spool-management appliance.
//!
//! The crate covers the stateful heart of the firmware: a load-cell scale
//! acquisition and calibration state machine, an NFC reader command/response
//! driver with retry policy, the shared-bus access layer that serializes the
//! two devices, and the fixed-layout calibration record that is persisted
//! across restarts.  All bus traffic is modelled over an explicit transport
//! ([`bus::SimBus`]) that records every select/write/read/deselect step, so
//! the protocol behaviour of each driver operation is part of its contract.

pub mod backend;
pub mod bus;
pub mod calib;
pub mod manager;
pub mod nfc;
pub mod ota;
pub mod scale;
