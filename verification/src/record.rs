//! The device record: one PCI device, its raw identifiers and its
//! resolved names.
//!
//! A record is built in one of two modes.  Full construction decodes every
//! attribute and resolves every name.  Reserved construction populates
//! only the path, the class identifier and the class name — enough to test
//! a class filter cheaply — and can later be upgraded in place to a full
//! record through the remaining setters.

use vstd::prelude::*;

use crate::codec;
use crate::ids;
use crate::paths;

verus! {

/// The raw contents of one device directory's attribute files, together
/// with what the path resolver needs to know of the platform: whether the
/// identifier itself, and the identifier under the devices root, name
/// existing directories.  `None` stands for an attribute file that is
/// absent or could not be read.
#[derive(Debug, Clone)]
pub struct DeviceFiles {
    /// Whether the identifier itself names an existing directory.
    pub literal_is_dir: bool,
    /// Whether the identifier under the devices root names an existing
    /// directory.
    pub rooted_is_dir: bool,
    /// Content of the `class` attribute file.
    pub class: Option<Vec<u8>>,
    /// Content of the `vendor` attribute file.
    pub vendor: Option<Vec<u8>>,
    /// Content of the `device` attribute file.
    pub device: Option<Vec<u8>>,
    /// Content of the `revision` attribute file.
    pub revision: Option<Vec<u8>>,
    /// Content of the `numa_node` attribute file.
    pub numa_node: Option<Vec<u8>>,
    /// Content of the `enable` attribute file.
    pub enable: Option<Vec<u8>>,
    /// Content of the `d3cold_allowed` attribute file.
    pub d3cold_allowed: Option<Vec<u8>>,
    /// Content of the `subsystem_vendor` attribute file.
    pub subsystem_vendor: Option<Vec<u8>>,
    /// Content of the `subsystem_device` attribute file.
    pub subsystem_device: Option<Vec<u8>>,
}

/// The mathematical value of a device record.
#[verifier::ext_equal]
pub struct DeviceRecordView {
    /// The absolute location of the device's information directory.
    pub path: Seq<char>,
    /// The short bus/device/function identifier derived from the path.
    pub address: Seq<char>,
    /// Raw class bytes: class byte, then subclass byte.
    pub class_id: Seq<u8>,
    /// The resolved class name; empty while unresolved.
    pub class_name: Seq<char>,
    /// The resolved subclass name; empty while unresolved.
    pub subclass_name: Seq<char>,
    /// Raw vendor code bytes, big-endian.
    pub vendor_id: Seq<u8>,
    /// The resolved vendor name; empty while unresolved.
    pub vendor_name: Seq<char>,
    /// Raw device code bytes, big-endian.
    pub device_id: Seq<u8>,
    /// The resolved device name; empty while unresolved.
    pub device_name: Seq<char>,
    /// Raw revision bytes.
    pub revision: Seq<u8>,
    /// The NUMA node; -1 while no affinity data was read.
    pub numa_node: int,
    /// Whether the device is enabled.
    pub enabled: bool,
    /// Whether the device may enter the coldest power state.
    pub d3cold_allowed: bool,
    /// Raw subsystem vendor code bytes, big-endian.
    pub subsystem_vendor_id: Seq<u8>,
    /// Raw subsystem device code bytes, big-endian.
    pub subsystem_device_id: Seq<u8>,
    /// The resolved subsystem name; empty while unresolved.
    pub subsystem_name: Seq<char>,
}

/// One PCI device as read from the platform's device-information tree.
#[derive(Debug, Clone, PartialEq)]
pub struct LinuxPCIDevice {
    path: String,
    address: String,
    class_id: Vec<u8>,
    class_name: String,
    subclass_name: String,
    vendor_id: Vec<u8>,
    vendor_name: String,
    device_id: Vec<u8>,
    device_name: String,
    revision: Vec<u8>,
    numa_node: isize,
    enabled: bool,
    d3cold_allowed: bool,
    subsystem_vendor_id: Vec<u8>,
    subsystem_device_id: Vec<u8>,
    subsystem_name: String,
}

impl View for LinuxPCIDevice {
    type V = DeviceRecordView;

    closed spec fn view(&self) -> DeviceRecordView {
        DeviceRecordView {
            path: self.path@,
            address: self.address@,
            class_id: self.class_id@,
            class_name: self.class_name@,
            subclass_name: self.subclass_name@,
            vendor_id: self.vendor_id@,
            vendor_name: self.vendor_name@,
            device_id: self.device_id@,
            device_name: self.device_name@,
            revision: self.revision@,
            numa_node: self.numa_node as int,
            enabled: self.enabled,
            d3cold_allowed: self.d3cold_allowed,
            subsystem_vendor_id: self.subsystem_vendor_id@,
            subsystem_device_id: self.subsystem_device_id@,
            subsystem_name: self.subsystem_name@,
        }
    }
}

/// The all-default record: empty path, address, identifiers and names, no
/// NUMA affinity, flags off.
pub open spec fn spec_default_record() -> DeviceRecordView {
    DeviceRecordView {
        path: Seq::<char>::empty(),
        address: Seq::<char>::empty(),
        class_id: Seq::<u8>::empty(),
        class_name: Seq::<char>::empty(),
        subclass_name: Seq::<char>::empty(),
        vendor_id: Seq::<u8>::empty(),
        vendor_name: Seq::<char>::empty(),
        device_id: Seq::<u8>::empty(),
        device_name: Seq::<char>::empty(),
        revision: Seq::<u8>::empty(),
        numa_node: -1,
        enabled: false,
        d3cold_allowed: false,
        subsystem_vendor_id: Seq::<u8>::empty(),
        subsystem_device_id: Seq::<u8>::empty(),
        subsystem_name: Seq::<char>::empty(),
    }
}

impl Default for LinuxPCIDevice {
    /// The all-default record.
    fn default() -> (r: Self)
        ensures
            r@ == spec_default_record(),
    {
        let r = LinuxPCIDevice {
            path: String::new(),
            address: String::new(),
            class_id: Vec::new(),
            class_name: String::new(),
            subclass_name: String::new(),
            vendor_id: Vec::new(),
            vendor_name: String::new(),
            device_id: Vec::new(),
            device_name: String::new(),
            revision: Vec::new(),
            numa_node: -1,
            enabled: false,
            d3cold_allowed: false,
            subsystem_vendor_id: Vec::new(),
            subsystem_device_id: Vec::new(),
            subsystem_name: String::new(),
        };
        proof {
            assert(r@ =~= spec_default_record());
        }
        r
    }
}

/// The code a two-byte big-endian identifier carries.
pub open spec fn spec_be16(b: Seq<u8>) -> u16 {
    (b[0] * 256 + b[1]) as u16
}

/// The code a two-byte big-endian identifier carries.
pub fn bytes_to_u16(b: &Vec<u8>) -> (r: u16)
    requires
        b@.len() == 2,
    ensures
        r == spec_be16(b@),
{
    (b[0] as u16) * 256 + (b[1] as u16)
}

/// The class name a class identifier resolves to: the database's name of
/// its class byte, or the previous value where the identifier is empty or
/// the database has no entry.
pub open spec fn spec_class_name(class_id: Seq<u8>, prev: Seq<char>) -> Seq<char> {
    if class_id.len() == 0 {
        prev
    } else {
        match ids::class_entry(class_id[0]) {
            Some(name) => name,
            None => prev,
        }
    }
}

/// The subclass name a class identifier resolves to: the name of the
/// first declared subclass whose code equals the subclass byte, or the
/// previous value where the identifier is shorter than two bytes or no
/// subclass matches.
pub open spec fn spec_subclass_name(class_id: Seq<u8>, prev: Seq<char>) -> Seq<char> {
    if class_id.len() < 2 {
        prev
    } else {
        match ids::spec_first_subclass(ids::subclass_entries(class_id[0]), class_id[1]) {
            Some(name) => name,
            None => prev,
        }
    }
}

/// The vendor name a vendor identifier resolves to: the database's name
/// of its code, or the previous value where the identifier is not the
/// two big-endian bytes of a code or the database has no entry.
pub open spec fn spec_vendor_name(vendor_id: Seq<u8>, prev: Seq<char>) -> Seq<char> {
    if vendor_id.len() != 2 {
        prev
    } else {
        match ids::vendor_entry(spec_be16(vendor_id)) {
            Some(name) => name,
            None => prev,
        }
    }
}

/// The device name a (vendor, device) identifier pair resolves to, or the
/// previous value where either identifier is not two bytes or the
/// database has no entry.
pub open spec fn spec_device_name(vendor_id: Seq<u8>, device_id: Seq<u8>, prev: Seq<char>) -> Seq<
    char,
> {
    if vendor_id.len() != 2 || device_id.len() != 2 {
        prev
    } else {
        match ids::device_entry(spec_be16(vendor_id), spec_be16(device_id)) {
            Some(name) => name,
            None => prev,
        }
    }
}

/// The subsystem name the identifiers resolve to: the name of the first
/// subsystem of device (vendor, device) whose codes equal the subsystem
/// pair, or the previous value where any identifier is not two bytes or
/// no subsystem matches.
pub open spec fn spec_subsystem_name(
    vendor_id: Seq<u8>,
    device_id: Seq<u8>,
    subsystem_vendor_id: Seq<u8>,
    subsystem_device_id: Seq<u8>,
    prev: Seq<char>,
) -> Seq<char> {
    if vendor_id.len() != 2 || device_id.len() != 2 || subsystem_vendor_id.len() != 2
        || subsystem_device_id.len() != 2 {
        prev
    } else {
        match ids::spec_first_subsystem(
            ids::subsystem_entries(spec_be16(vendor_id), spec_be16(device_id)),
            spec_be16(subsystem_vendor_id),
            spec_be16(subsystem_device_id),
        ) {
            Some(name) => name,
            None => prev,
        }
    }
}

/// The class identifier the files yield: the first two bytes of the
/// `class` attribute.
pub open spec fn spec_class_id(f: DeviceFiles) -> Seq<u8> {
    codec::spec_class_attribute(f.class, Seq::<u8>::empty())
}

/// The record reserved construction yields: path, class identifier and
/// class name populated, every other field at its default.
pub open spec fn spec_reserved_record(id: Seq<char>, f: DeviceFiles) -> DeviceRecordView {
    let class_id = spec_class_id(f);
    DeviceRecordView {
        path: paths::spec_resolve(id, f.literal_is_dir, f.rooted_is_dir),
        class_id: class_id,
        class_name: spec_class_name(class_id, Seq::<char>::empty()),
        ..spec_default_record()
    }
}

/// The record an upgrade through the remaining setters yields: every
/// deferred attribute decoded against the record's current fields, and
/// every deferred name resolved from the freshly decoded identifiers.
pub open spec fn spec_upgraded(r: DeviceRecordView, f: DeviceFiles) -> DeviceRecordView {
    let vendor_id = codec::spec_hex_attribute(f.vendor, r.vendor_id);
    let device_id = codec::spec_hex_attribute(f.device, r.device_id);
    let subsystem_vendor_id = codec::spec_hex_attribute(f.subsystem_vendor, r.subsystem_vendor_id);
    let subsystem_device_id = codec::spec_hex_attribute(f.subsystem_device, r.subsystem_device_id);
    DeviceRecordView {
        address: paths::spec_address(r.path),
        vendor_id: vendor_id,
        device_id: device_id,
        numa_node: codec::spec_numa_attribute(f.numa_node, r.numa_node),
        enabled: codec::spec_flag_attribute(f.enable, r.enabled),
        d3cold_allowed: codec::spec_flag_attribute(f.d3cold_allowed, r.d3cold_allowed),
        revision: codec::spec_hex_attribute(f.revision, r.revision),
        subsystem_vendor_id: subsystem_vendor_id,
        subsystem_device_id: subsystem_device_id,
        device_name: spec_device_name(vendor_id, device_id, r.device_name),
        vendor_name: spec_vendor_name(vendor_id, r.vendor_name),
        subsystem_name: spec_subsystem_name(
            vendor_id,
            device_id,
            subsystem_vendor_id,
            subsystem_device_id,
            r.subsystem_name,
        ),
        subclass_name: spec_subclass_name(r.class_id, r.subclass_name),
        ..r
    }
}

/// The record full construction yields.
pub open spec fn spec_full_record(id: Seq<char>, f: DeviceFiles) -> DeviceRecordView {
    spec_upgraded(spec_reserved_record(id, f), f)
}

/// A record built reserved leaves every deferred field at its default:
/// empty vendor, device and subsystem names and identifiers, no NUMA
/// affinity, flags off.
pub proof fn lemma_reserved_defaults(id: Seq<char>, f: DeviceFiles)
    ensures
        spec_reserved_record(id, f).vendor_name == Seq::<char>::empty(),
        spec_reserved_record(id, f).device_name == Seq::<char>::empty(),
        spec_reserved_record(id, f).subsystem_name == Seq::<char>::empty(),
        spec_reserved_record(id, f).vendor_id == Seq::<u8>::empty(),
        spec_reserved_record(id, f).device_id == Seq::<u8>::empty(),
        spec_reserved_record(id, f).numa_node == -1,
        spec_reserved_record(id, f).enabled == false,
{
}

/// Upgrading a reserved record through the remaining setters yields a
/// record field-equal to one built full from the same identifier and
/// files.  (That `new` applies the setters in its own order and still
/// meets this composition is proved at `new` itself.)
pub proof fn lemma_upgrade_reserved_is_full(id: Seq<char>, f: DeviceFiles)
    ensures
        spec_upgraded(spec_reserved_record(id, f), f) == spec_full_record(id, f),
{
}

impl LinuxPCIDevice {
    /// Builds the full record of the device `id` names: resolves the
    /// path, decodes every attribute, and resolves every name.
    pub fn new(id: &str, files: &DeviceFiles) -> (r: LinuxPCIDevice)
        ensures
            r@ == spec_full_record(id@, *files),
    {
        let mut device = LinuxPCIDevice::default();
        let path = paths::resolve_identifier(id, files.literal_is_dir, files.rooted_is_dir);
        device.set_path(path);
        device.set_address();
        device.set_class_id(files);
        device.set_vendor_id(files);
        device.set_device_id(files);
        device.set_numa_node(files);
        device.set_enabled(files);
        device.set_d3cold_allowed(files);
        device.set_revision(files);
        device.set_subsystem_device_id(files);
        device.set_subsystem_vendor_id(files);
        device.set_class_name();
        device.set_device_name();
        device.set_vendor_name();
        device.set_subsystem_name();
        device.set_subclass_name();
        proof {
            assert(device@ =~= spec_full_record(id@, *files));
        }
        device
    }

    /// Builds the reserved record of the device `id` names: only the
    /// path, the class identifier and the class name, for cheap class
    /// filtering before committing to the full read cost.
    pub fn reserved_new(id: &str, files: &DeviceFiles) -> (r: LinuxPCIDevice)
        ensures
            r@ == spec_reserved_record(id@, *files),
    {
        let mut device = LinuxPCIDevice::default();
        let path = paths::resolve_identifier(id, files.literal_is_dir, files.rooted_is_dir);
        device.set_path(path);
        device.set_class_id(files);
        device.set_class_name();
        proof {
            assert(device@ =~= spec_reserved_record(id@, *files));
        }
        device
    }

    /// Upgrades a record in place through the remaining setters, in the
    /// same dependency order as full construction minus the fields a
    /// reserved record already holds.
    pub fn upgrade_to_full(&mut self, files: &DeviceFiles)
        ensures
            final(self)@ == spec_upgraded(old(self)@, *files),
    {
        self.set_address();
        self.set_vendor_id(files);
        self.set_device_id(files);
        self.set_numa_node(files);
        self.set_enabled(files);
        self.set_d3cold_allowed(files);
        self.set_revision(files);
        self.set_subsystem_device_id(files);
        self.set_subsystem_vendor_id(files);
        self.set_device_name();
        self.set_vendor_name();
        self.set_subsystem_name();
        self.set_subclass_name();
        proof {
            assert(self@ =~= spec_upgraded(old(self)@, *files));
        }
    }

    /// Sets the path.
    pub fn set_path(&mut self, p: String)
        ensures
            final(self)@ == (DeviceRecordView { path: p@, ..old(self)@ }),
    {
        self.path = p;
    }

    /// Derives the short address from the path.
    pub fn set_address(&mut self)
        ensures
            final(self)@ == (DeviceRecordView {
                address: paths::spec_address(old(self)@.path),
                ..old(self)@
            }),
    {
        let a = paths::derive_address(self.path.as_str());
        self.address = a;
    }

    /// Decodes the class identifier from the `class` attribute content.
    pub fn set_class_id(&mut self, files: &DeviceFiles)
        ensures
            final(self)@ == (DeviceRecordView {
                class_id: codec::spec_class_attribute(files.class, old(self)@.class_id),
                ..old(self)@
            }),
    {
        match codec::class_value(&files.class) {
            Some(v) => {
                self.class_id = v;
            },
            None => {},
        }
    }

    /// Decodes the vendor identifier from the `vendor` attribute content.
    pub fn set_vendor_id(&mut self, files: &DeviceFiles)
        ensures
            final(self)@ == (DeviceRecordView {
                vendor_id: codec::spec_hex_attribute(files.vendor, old(self)@.vendor_id),
                ..old(self)@
            }),
    {
        match codec::hex_value(&files.vendor) {
            Some(v) => {
                self.vendor_id = v;
            },
            None => {},
        }
    }

    /// Decodes the device identifier from the `device` attribute content.
    pub fn set_device_id(&mut self, files: &DeviceFiles)
        ensures
            final(self)@ == (DeviceRecordView {
                device_id: codec::spec_hex_attribute(files.device, old(self)@.device_id),
                ..old(self)@
            }),
    {
        match codec::hex_value(&files.device) {
            Some(v) => {
                self.device_id = v;
            },
            None => {},
        }
    }

    /// Decodes the revision from the `revision` attribute content.
    pub fn set_revision(&mut self, files: &DeviceFiles)
        ensures
            final(self)@ == (DeviceRecordView {
                revision: codec::spec_hex_attribute(files.revision, old(self)@.revision),
                ..old(self)@
            }),
    {
        match codec::hex_value(&files.revision) {
            Some(v) => {
                self.revision = v;
            },
            None => {},
        }
    }

    /// Parses the NUMA node from the `numa_node` attribute content.
    pub fn set_numa_node(&mut self, files: &DeviceFiles)
        ensures
            final(self)@ == (DeviceRecordView {
                numa_node: codec::spec_numa_attribute(files.numa_node, old(self)@.numa_node),
                ..old(self)@
            }),
    {
        match codec::numa_value(&files.numa_node) {
            Some(v) => {
                self.numa_node = v;
            },
            None => {},
        }
    }

    /// Decodes the subsystem vendor identifier from the
    /// `subsystem_vendor` attribute content.
    pub fn set_subsystem_vendor_id(&mut self, files: &DeviceFiles)
        ensures
            final(self)@ == (DeviceRecordView {
                subsystem_vendor_id: codec::spec_hex_attribute(
                    files.subsystem_vendor,
                    old(self)@.subsystem_vendor_id,
                ),
                ..old(self)@
            }),
    {
        match codec::hex_value(&files.subsystem_vendor) {
            Some(v) => {
                self.subsystem_vendor_id = v;
            },
            None => {},
        }
    }

    /// Decodes the subsystem device identifier from the
    /// `subsystem_device` attribute content.
    pub fn set_subsystem_device_id(&mut self, files: &DeviceFiles)
        ensures
            final(self)@ == (DeviceRecordView {
                subsystem_device_id: codec::spec_hex_attribute(
                    files.subsystem_device,
                    old(self)@.subsystem_device_id,
                ),
                ..old(self)@
            }),
    {
        match codec::hex_value(&files.subsystem_device) {
            Some(v) => {
                self.subsystem_device_id = v;
            },
            None => {},
        }
    }

    /// Decodes the enabled flag from the `enable` attribute content.
    pub fn set_enabled(&mut self, files: &DeviceFiles)
        ensures
            final(self)@ == (DeviceRecordView {
                enabled: codec::spec_flag_attribute(files.enable, old(self)@.enabled),
                ..old(self)@
            }),
    {
        match codec::flag_value(&files.enable) {
            Some(v) => {
                self.enabled = v;
            },
            None => {},
        }
    }

    /// Decodes the coldest-power-state flag from the `d3cold_allowed`
    /// attribute content.
    pub fn set_d3cold_allowed(&mut self, files: &DeviceFiles)
        ensures
            final(self)@ == (DeviceRecordView {
                d3cold_allowed: codec::spec_flag_attribute(
                    files.d3cold_allowed,
                    old(self)@.d3cold_allowed,
                ),
                ..old(self)@
            }),
    {
        match codec::flag_value(&files.d3cold_allowed) {
            Some(v) => {
                self.d3cold_allowed = v;
            },
            None => {},
        }
    }

    /// Resolves the class name from the class identifier.
    pub fn set_class_name(&mut self)
        ensures
            final(self)@ == (DeviceRecordView {
                class_name: spec_class_name(old(self)@.class_id, old(self)@.class_name),
                ..old(self)@
            }),
    {
        if self.class_id.len() == 0 {
            return ;
        }
        match ids::class_name_of(self.class_id[0]) {
            Some(name) => {
                self.class_name = name;
            },
            None => {},
        }
    }

    /// Resolves the subclass name from the class identifier: the first
    /// declared subclass whose code equals the subclass byte.
    pub fn set_subclass_name(&mut self)
        ensures
            final(self)@ == (DeviceRecordView {
                subclass_name: spec_subclass_name(old(self)@.class_id, old(self)@.subclass_name),
                ..old(self)@
            }),
    {
        if self.class_id.len() < 2 {
            return ;
        }
        match ids::subclass_name_of(self.class_id[0], self.class_id[1]) {
            Some(name) => {
                self.subclass_name = name;
            },
            None => {},
        }
    }

    /// Resolves the vendor name from the vendor identifier.
    pub fn set_vendor_name(&mut self)
        ensures
            final(self)@ == (DeviceRecordView {
                vendor_name: spec_vendor_name(old(self)@.vendor_id, old(self)@.vendor_name),
                ..old(self)@
            }),
    {
        if self.vendor_id.len() != 2 {
            return ;
        }
        let vid = bytes_to_u16(&self.vendor_id);
        match ids::vendor_name_of(vid) {
            Some(name) => {
                self.vendor_name = name;
            },
            None => {},
        }
    }

    /// Resolves the device name from the (vendor, device) identifier
    /// pair.
    pub fn set_device_name(&mut self)
        ensures
            final(self)@ == (DeviceRecordView {
                device_name: spec_device_name(
                    old(self)@.vendor_id,
                    old(self)@.device_id,
                    old(self)@.device_name,
                ),
                ..old(self)@
            }),
    {
        if self.vendor_id.len() != 2 || self.device_id.len() != 2 {
            return ;
        }
        let vid = bytes_to_u16(&self.vendor_id);
        let did = bytes_to_u16(&self.device_id);
        match ids::device_name_of(vid, did) {
            Some(name) => {
                self.device_name = name;
            },
            None => {},
        }
    }

    /// Resolves the subsystem name: the first subsystem the database
    /// declares for the (vendor, device) pair whose codes equal the
    /// subsystem identifier pair.  The scan is bounded by the declared
    /// list, so it terminates on match or exhaustion.
    pub fn set_subsystem_name(&mut self)
        ensures
            final(self)@ == (DeviceRecordView {
                subsystem_name: spec_subsystem_name(
                    old(self)@.vendor_id,
                    old(self)@.device_id,
                    old(self)@.subsystem_vendor_id,
                    old(self)@.subsystem_device_id,
                    old(self)@.subsystem_name,
                ),
                ..old(self)@
            }),
    {
        if self.vendor_id.len() != 2 || self.device_id.len() != 2
            || self.subsystem_vendor_id.len() != 2 || self.subsystem_device_id.len() != 2 {
            return ;
        }
        let vid = bytes_to_u16(&self.vendor_id);
        let did = bytes_to_u16(&self.device_id);
        let sv = bytes_to_u16(&self.subsystem_vendor_id);
        let sd = bytes_to_u16(&self.subsystem_device_id);
        match ids::subsystem_name_of(vid, did, sv, sd) {
            Some(name) => {
                self.subsystem_name = name;
            },
            None => {},
        }
    }

    /// The absolute location of the device's information directory.
    pub fn path(&self) -> (r: String)
        ensures
            r@ == self@.path,
    {
        self.path.clone()
    }

    /// The short bus/device/function identifier derived from the path.
    pub fn address(&self) -> (r: String)
        ensures
            r@ == self@.address,
    {
        self.address.clone()
    }

    /// The raw class identifier bytes.
    pub fn class_id(&self) -> (r: Vec<u8>)
        ensures
            r@ == self@.class_id,
    {
        self.class_id.clone()
    }

    /// The raw vendor identifier bytes.
    pub fn vendor_id(&self) -> (r: Vec<u8>)
        ensures
            r@ == self@.vendor_id,
    {
        self.vendor_id.clone()
    }

    /// The raw device identifier bytes.
    pub fn device_id(&self) -> (r: Vec<u8>)
        ensures
            r@ == self@.device_id,
    {
        self.device_id.clone()
    }

    /// The NUMA node, or -1 where no affinity data was read.
    pub fn numa_node(&self) -> (r: isize)
        ensures
            r as int == self@.numa_node,
    {
        self.numa_node
    }

    /// The resolved class name; empty while unresolved.
    pub fn class_name(&self) -> (r: String)
        ensures
            r@ == self@.class_name,
    {
        self.class_name.clone()
    }

    /// The resolved subclass name; empty while unresolved.
    pub fn subclass_name(&self) -> (r: String)
        ensures
            r@ == self@.subclass_name,
    {
        self.subclass_name.clone()
    }

    /// The resolved vendor name; empty while unresolved.
    pub fn vendor_name(&self) -> (r: String)
        ensures
            r@ == self@.vendor_name,
    {
        self.vendor_name.clone()
    }

    /// The resolved device name; empty while unresolved.
    pub fn device_name(&self) -> (r: String)
        ensures
            r@ == self@.device_name,
    {
        self.device_name.clone()
    }

    /// Whether the device is enabled.
    pub fn enabled(&self) -> (r: bool)
        ensures
            r == self@.enabled,
    {
        self.enabled
    }

    /// Whether the device may enter the coldest power state.
    pub fn d3cold_allowed(&self) -> (r: bool)
        ensures
            r == self@.d3cold_allowed,
    {
        self.d3cold_allowed
    }

    /// The raw revision bytes.
    pub fn revision(&self) -> (r: Vec<u8>)
        ensures
            r@ == self@.revision,
    {
        self.revision.clone()
    }

    /// The resolved subsystem name; empty while unresolved.
    pub fn subsystem_name(&self) -> (r: String)
        ensures
            r@ == self@.subsystem_name,
    {
        self.subsystem_name.clone()
    }

    /// The raw subsystem vendor identifier bytes.
    pub fn subsystem_vendor_id(&self) -> (r: Vec<u8>)
        ensures
            r@ == self@.subsystem_vendor_id,
    {
        self.subsystem_vendor_id.clone()
    }

    /// The raw subsystem device identifier bytes.
    pub fn subsystem_device_id(&self) -> (r: Vec<u8>)
        ensures
            r@ == self@.subsystem_device_id,
    {
        self.subsystem_device_id.clone()
    }
}

} // verus!
