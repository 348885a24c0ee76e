//! The top-level classes of the PCI device taxonomy.

use vstd::prelude::*;

use crate::ids;

verus! {

/// The classes defined by the PCI identifier database, one variant per
/// top-level class code.
#[derive(Debug, Clone, Copy, PartialEq, Eq, Structural)]
pub enum DeviceClass {
    Unclassified,
    MassStorageController,
    NetworkController,
    DisplayController,
    MultimediaController,
    MemoryController,
    Bridge,
    CommunicationController,
    GenericSystemPeripheral,
    InputDeviceController,
    DockingStation,
    Processor,
    SerialBusController,
    WirelessController,
    IntelligentController,
    SatelliteCommunicationsController,
    EncryptionController,
    SignalProcessingController,
    ProcessingAccelerator,
    NonEssentialInstrumentation,
    Coprocessor,
    Unassigned,
}

impl DeviceClass {
    /// The numeric class code of this class in the identifier database.
    pub open spec fn spec_id(self) -> u8 {
        match self {
            DeviceClass::Unclassified => 0x00,
            DeviceClass::MassStorageController => 0x01,
            DeviceClass::NetworkController => 0x02,
            DeviceClass::DisplayController => 0x03,
            DeviceClass::MultimediaController => 0x04,
            DeviceClass::MemoryController => 0x05,
            DeviceClass::Bridge => 0x06,
            DeviceClass::CommunicationController => 0x07,
            DeviceClass::GenericSystemPeripheral => 0x08,
            DeviceClass::InputDeviceController => 0x09,
            DeviceClass::DockingStation => 0x0a,
            DeviceClass::Processor => 0x0b,
            DeviceClass::SerialBusController => 0x0c,
            DeviceClass::WirelessController => 0x0d,
            DeviceClass::IntelligentController => 0x0e,
            DeviceClass::SatelliteCommunicationsController => 0x0f,
            DeviceClass::EncryptionController => 0x10,
            DeviceClass::SignalProcessingController => 0x11,
            DeviceClass::ProcessingAccelerator => 0x12,
            DeviceClass::NonEssentialInstrumentation => 0x13,
            DeviceClass::Coprocessor => 0x40,
            DeviceClass::Unassigned => 0xff,
        }
    }

    /// The numeric class code of this class in the identifier database.
    #[verifier::when_used_as_spec(spec_id)]
    pub fn id(self) -> (r: u8)
        ensures
            r == self.spec_id(),
    {
        match self {
            DeviceClass::Unclassified => 0x00,
            DeviceClass::MassStorageController => 0x01,
            DeviceClass::NetworkController => 0x02,
            DeviceClass::DisplayController => 0x03,
            DeviceClass::MultimediaController => 0x04,
            DeviceClass::MemoryController => 0x05,
            DeviceClass::Bridge => 0x06,
            DeviceClass::CommunicationController => 0x07,
            DeviceClass::GenericSystemPeripheral => 0x08,
            DeviceClass::InputDeviceController => 0x09,
            DeviceClass::DockingStation => 0x0a,
            DeviceClass::Processor => 0x0b,
            DeviceClass::SerialBusController => 0x0c,
            DeviceClass::WirelessController => 0x0d,
            DeviceClass::IntelligentController => 0x0e,
            DeviceClass::SatelliteCommunicationsController => 0x0f,
            DeviceClass::EncryptionController => 0x10,
            DeviceClass::SignalProcessingController => 0x11,
            DeviceClass::ProcessingAccelerator => 0x12,
            DeviceClass::NonEssentialInstrumentation => 0x13,
            DeviceClass::Coprocessor => 0x40,
            DeviceClass::Unassigned => 0xff,
        }
    }

    /// The display name of this class: the name the identifier database
    /// gives its class code, or the empty string if the database has no
    /// entry for it.
    pub open spec fn spec_display_name(self) -> Seq<char> {
        match ids::class_entry(self.spec_id()) {
            Some(name) => name,
            None => Seq::<char>::empty(),
        }
    }

    /// The display name of this class, resolved through the identifier
    /// database.
    pub fn display_name(self) -> (r: String)
        ensures
            r@ == self.spec_display_name(),
    {
        match ids::class_name_of(self.id()) {
            Some(name) => name,
            None => String::new(),
        }
    }
}

} // verus!
