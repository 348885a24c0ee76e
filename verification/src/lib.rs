//! Inventory of PCI devices from the platform's device-information tree.
//!
//! The library builds device records out of the plain-text attribute files
//! that the platform exposes for each device, and resolves the numeric
//! class, vendor, device and subsystem identifiers to human-readable names
//! through the static PCI identifier database.  All reading of directories
//! and files happens outside the library: callers hand in the raw file
//! contents as [`record::DeviceFiles`] values, and the library does the
//! decoding, name resolution and filtering.

pub mod codec;
pub mod device_class;
pub mod fetch;
pub mod ids;
pub mod paths;
pub mod record;
