//! Behavioural properties: path resolution, decoding, filtering and the
//! display strings.

use pci_fetch::codec;
use pci_fetch::device_class::DeviceClass;
use pci_fetch::fetch::EnumeratedDevice;
use pci_fetch::fetch::marketing_name;
use pci_fetch::fetch::strip_corporation;
use pci_fetch::paths::derive_address;
use pci_fetch::paths::resolve_identifier;
use pci_fetch::record::DeviceFiles;
use pci_fetch::record::LinuxPCIDevice;

fn files_for(class: &[u8], vendor: &[u8], device: &[u8], enable: &[u8]) -> DeviceFiles {
    DeviceFiles {
        literal_is_dir: true,
        rooted_is_dir: false,
        class: Some(class.to_vec()),
        vendor: Some(vendor.to_vec()),
        device: Some(device.to_vec()),
        revision: Some(b"0x01\n".to_vec()),
        numa_node: Some(b"-1\n".to_vec()),
        enable: Some(enable.to_vec()),
        d3cold_allowed: Some(b"0\n".to_vec()),
        subsystem_vendor: None,
        subsystem_device: None,
    }
}

fn bridge_entry(path: &str) -> EnumeratedDevice {
    EnumeratedDevice {
        identifier: path.to_string(),
        files: files_for(b"0x060000\n", b"0x8086\n", b"0x29c0\n", b"1\n"),
    }
}

fn gpu_entry(path: &str, enable: &[u8]) -> EnumeratedDevice {
    EnumeratedDevice {
        identifier: path.to_string(),
        files: files_for(b"0x030000\n", b"0x10de\n", b"0x1b81\n", enable),
    }
}

#[test]
fn resolution_agrees_across_forms() {
    let full = resolve_identifier("/sys/bus/pci/devices/0000:00:00.0", true, false);
    let rooted = resolve_identifier("0000:00:00.0", false, true);
    let short = resolve_identifier("00:00.0", false, false);
    assert_eq!(full, "/sys/bus/pci/devices/0000:00:00.0");
    assert_eq!(full, rooted);
    assert_eq!(rooted, short);
}

#[test]
fn address_has_no_domain_prefix() {
    let address = derive_address("/sys/bus/pci/devices/0000:00:1f.6");
    assert_eq!(address, "00:1f.6");
    assert!(!address.contains("0000:"));
}

#[test]
fn reserved_record_has_defaults() {
    let files = files_for(b"0x060000\n", b"0x8086\n", b"0x29c0\n", b"1\n");
    let device = LinuxPCIDevice::reserved_new("00:00.0", &files);
    assert_eq!(device.class_name(), "Bridge");
    assert_ne!(device.class_id(), Vec::new());
    assert_eq!(device.vendor_name(), "");
    assert_eq!(device.device_name(), "");
    assert_eq!(device.subsystem_name(), "");
    assert_eq!(device.vendor_id(), Vec::new());
    assert_eq!(device.device_id(), Vec::new());
    assert_eq!(device.numa_node(), -1);
    assert!(!device.enabled());
}

#[test]
fn upgraded_reserved_equals_full() {
    let files = DeviceFiles {
        literal_is_dir: false,
        rooted_is_dir: false,
        class: Some(b"0x060000\n".to_vec()),
        vendor: Some(b"0x8086\n".to_vec()),
        device: Some(b"0x29c0\n".to_vec()),
        revision: Some(b"0x02\n".to_vec()),
        numa_node: Some(b"0\n".to_vec()),
        enable: Some(b"1\n".to_vec()),
        d3cold_allowed: Some(b"0\n".to_vec()),
        subsystem_vendor: Some(b"0x1028\n".to_vec()),
        subsystem_device: Some(b"0x020d\n".to_vec()),
    };
    let mut upgraded = LinuxPCIDevice::reserved_new("00:00.0", &files);
    upgraded.upgrade_to_full(&files);
    let full = LinuxPCIDevice::new("00:00.0", &files);
    assert_eq!(upgraded, full);
}

#[test]
fn fetch_by_class_matches_class_name_only() {
    let entries = vec![
        bridge_entry("/sys/bus/pci/devices/0000:00:00.0"),
        gpu_entry("/sys/bus/pci/devices/0000:01:00.0", b"1\n"),
        bridge_entry("/sys/bus/pci/devices/0000:00:1c.0"),
    ];
    let records = LinuxPCIDevice::fetch_by_class(DeviceClass::Bridge, &entries, None);
    assert_eq!(records.len(), 2);
    let target = DeviceClass::Bridge.display_name();
    for record in &records {
        assert_eq!(record.class_name(), target);
    }
    assert_eq!(records[0].address(), "00:00.0");
    assert_eq!(records[1].address(), "00:1c.0");
}

#[test]
fn fetch_gpus_skips_disabled_devices() {
    let entries = vec![
        gpu_entry("/sys/bus/pci/devices/0000:01:00.0", b"0\n"),
        bridge_entry("/sys/bus/pci/devices/0000:00:00.0"),
        gpu_entry("/sys/bus/pci/devices/0000:02:00.0", b"1\n"),
    ];
    let gpus = LinuxPCIDevice::fetch_gpus(&entries, None);
    assert_eq!(gpus, vec!["NVIDIA GeForce GTX 1070".to_string()]);
}

#[test]
fn fetch_visits_at_most_cap_entries() {
    let entries = vec![
        bridge_entry("/sys/bus/pci/devices/0000:00:00.0"),
        bridge_entry("/sys/bus/pci/devices/0000:00:01.0"),
        bridge_entry("/sys/bus/pci/devices/0000:00:02.0"),
    ];
    let records = LinuxPCIDevice::fetch(&entries, Some(2));
    assert_eq!(records.len(), 2);
    assert_eq!(records[0].address(), "00:00.0");
    assert_eq!(records[1].address(), "00:01.0");
    assert_eq!(LinuxPCIDevice::fetch(&entries, Some(0)).len(), 0);
    assert_eq!(LinuxPCIDevice::fetch(&entries, None).len(), 3);
}

#[test]
fn cap_counts_visits_not_matches() {
    let entries = vec![
        gpu_entry("/sys/bus/pci/devices/0000:01:00.0", b"1\n"),
        gpu_entry("/sys/bus/pci/devices/0000:02:00.0", b"1\n"),
        bridge_entry("/sys/bus/pci/devices/0000:00:00.0"),
    ];
    let records = LinuxPCIDevice::fetch_by_class(DeviceClass::Bridge, &entries, Some(2));
    assert_eq!(records.len(), 0);
}

#[test]
fn hex_decode_examples() {
    assert_eq!(codec::hex_value(&Some(b"0x06\n".to_vec())), Some(vec![0x06u8]));
    assert_eq!(codec::hex_value(&Some(b"0x8086\n".to_vec())), Some(vec![0x80u8, 0x86]));
    assert_eq!(codec::hex_value(&Some(b"8086".to_vec())), Some(vec![0x80u8, 0x86]));
    assert_eq!(codec::hex_value(&Some(b"0x806\n".to_vec())), None);
    assert_eq!(codec::hex_value(&Some(b"0xzz\n".to_vec())), None);
    assert_eq!(codec::hex_value(&None), None);
}

#[test]
fn flag_decode_examples() {
    assert_eq!(codec::flag_value(&Some(b"0\n".to_vec())), Some(false));
    assert_eq!(codec::flag_value(&Some(b"1\n".to_vec())), Some(true));
    assert_eq!(codec::flag_value(&Some(b"zzz".to_vec())), Some(true));
    assert_eq!(codec::flag_value(&None), None);
    let mut files = files_for(b"0x030000\n", b"0x10de\n", b"0x1b81\n", b"1\n");
    files.enable = None;
    let device = LinuxPCIDevice::new("01:00.0", &files);
    assert!(!device.enabled());
}

#[test]
fn numa_decode_examples() {
    assert_eq!(codec::numa_value(&Some(b"-1\n".to_vec())), Some(-1));
    assert_eq!(codec::numa_value(&Some(b"2\n".to_vec())), Some(2));
    assert_eq!(codec::numa_value(&Some(b"abc\n".to_vec())), None);
    assert_eq!(codec::numa_value(&Some(b"\n".to_vec())), None);
    let mut files = files_for(b"0x060000\n", b"0x8086\n", b"0x29c0\n", b"1\n");
    files.numa_node = Some(b"bogus\n".to_vec());
    let device = LinuxPCIDevice::new("00:00.0", &files);
    assert_eq!(device.numa_node(), -1);
}

#[test]
fn marketing_name_extraction() {
    assert_eq!(marketing_name("GP104 [GeForce GTX 1070]"), "GeForce GTX 1070");
    assert_eq!(marketing_name("Plain device name"), "Plain device name");
    assert_eq!(marketing_name("odd ] before ["), "odd ] before [");
}

#[test]
fn vendor_suffix_strip() {
    assert_eq!(strip_corporation("NVIDIA Corporation"), "NVIDIA");
    assert_eq!(strip_corporation("Intel"), "Intel");
    assert_eq!(strip_corporation("Corporation X"), "Corporation X");
}

#[test]
fn class_truncates_to_four_digits() {
    let mut files = files_for(b"0x06040012345\n", b"0x8086\n", b"0x29c0\n", b"1\n");
    files.subsystem_vendor = None;
    let device = LinuxPCIDevice::new("00:1c.0", &files);
    assert_eq!(device.class_id(), vec![0x06u8, 0x04]);
    assert_eq!(device.class_name(), "Bridge");
    assert_eq!(device.subclass_name(), "PCI bridge");
}

#[test]
fn display_names_resolve_through_database() {
    assert_eq!(DeviceClass::Bridge.display_name(), "Bridge");
    assert_eq!(DeviceClass::DisplayController.display_name(), "Display controller");
    assert_eq!(DeviceClass::Bridge.id(), 0x06);
    assert_eq!(DeviceClass::Unassigned.id(), 0xff);
}

#[test]
fn short_class_content_is_rejected() {
    let mut files = files_for(b"0x060000\n", b"0x8086\n", b"0x29c0\n", b"1\n");
    files.class = Some(b"0x06\n".to_vec());
    let device = LinuxPCIDevice::new("00:00.0", &files);
    assert_eq!(device.class_id(), Vec::new());
    assert_eq!(device.class_name(), "");
}
