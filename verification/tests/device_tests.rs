//! The device record built from a placeholder device's attribute files.

use pci_fetch::record::DeviceFiles;
use pci_fetch::record::LinuxPCIDevice;

const PLACEHOLDER_PCI_DEVICE: &str = "00:00.0";

fn placeholder_files() -> DeviceFiles {
    DeviceFiles {
        literal_is_dir: false,
        rooted_is_dir: false,
        class: Some(b"0x060000\n".to_vec()),
        vendor: Some(b"0x8086\n".to_vec()),
        device: Some(b"0x29c0\n".to_vec()),
        revision: Some(b"0x02\n".to_vec()),
        numa_node: Some(b"0\n".to_vec()),
        enable: Some(b"0\n".to_vec()),
        d3cold_allowed: Some(b"1\n".to_vec()),
        subsystem_vendor: Some(b"0x1028\n".to_vec()),
        subsystem_device: Some(b"0x020d\n".to_vec()),
    }
}

#[test]
fn test_path() {
    let device = LinuxPCIDevice::new(PLACEHOLDER_PCI_DEVICE, &placeholder_files());
    assert_ne!(device.path(), String::new());
}

#[test]
fn test_address() {
    let device = LinuxPCIDevice::new(PLACEHOLDER_PCI_DEVICE, &placeholder_files());
    assert_ne!(device.address(), "");
}

#[test]
fn test_class_id() {
    let device = LinuxPCIDevice::new(PLACEHOLDER_PCI_DEVICE, &placeholder_files());
    assert_ne!(device.device_id(), Vec::new());
}

#[test]
fn test_vendor_id() {
    let device = LinuxPCIDevice::new(PLACEHOLDER_PCI_DEVICE, &placeholder_files());
    assert_ne!(device.vendor_id(), Vec::new());
}

#[test]
fn test_device_id() {
    let device = LinuxPCIDevice::new(PLACEHOLDER_PCI_DEVICE, &placeholder_files());
    assert_ne!(device.device_id(), Vec::new());
}

#[test]
fn test_numa_node() {
    let device = LinuxPCIDevice::new(PLACEHOLDER_PCI_DEVICE, &placeholder_files());
    assert_ne!(device.numa_node().to_string(), "");
}

#[test]
fn test_revision() {
    let device = LinuxPCIDevice::new(PLACEHOLDER_PCI_DEVICE, &placeholder_files());
    assert_ne!(device.revision(), Vec::new());
}

#[test]
fn test_subsystem_vendor_id() {
    let device = LinuxPCIDevice::new(PLACEHOLDER_PCI_DEVICE, &placeholder_files());
    assert_ne!(device.subsystem_vendor_id(), Vec::new());
}

#[test]
fn test_subsystem_device_id() {
    let device = LinuxPCIDevice::new(PLACEHOLDER_PCI_DEVICE, &placeholder_files());
    assert_ne!(device.subsystem_device_id(), Vec::new());
}

#[test]
fn test_class_name() {
    let device = LinuxPCIDevice::new(PLACEHOLDER_PCI_DEVICE, &placeholder_files());
    assert_ne!(device.class_name(), "");
}

#[test]
fn test_resolved_fields_exact() {
    let device = LinuxPCIDevice::new(PLACEHOLDER_PCI_DEVICE, &placeholder_files());
    assert_eq!(device.path(), "/sys/bus/pci/devices/0000:00:00.0");
    assert_eq!(device.address(), "00:00.0");
    assert_eq!(device.class_id(), vec![0x06u8, 0x00]);
    assert_eq!(device.vendor_id(), vec![0x80u8, 0x86]);
    assert_eq!(device.device_id(), vec![0x29u8, 0xc0]);
    assert_eq!(device.revision(), vec![0x02u8]);
    assert_eq!(device.numa_node(), 0);
    assert!(!device.enabled());
    assert!(device.d3cold_allowed());
    assert_eq!(device.class_name(), "Bridge");
    assert_eq!(device.subclass_name(), "Host bridge");
    assert_eq!(device.vendor_name(), "Intel Corporation");
    assert_eq!(device.device_name(), "82G33/G31/P35/P31 Express DRAM Controller");
    assert_eq!(device.subsystem_vendor_id(), vec![0x10u8, 0x28]);
    assert_eq!(device.subsystem_device_id(), vec![0x02u8, 0x0d]);
    assert_eq!(device.subsystem_name(), "Inspiron 530");
}

#[test]
fn test_missing_files_leave_defaults() {
    let files = DeviceFiles {
        literal_is_dir: false,
        rooted_is_dir: false,
        class: None,
        vendor: None,
        device: None,
        revision: None,
        numa_node: None,
        enable: None,
        d3cold_allowed: None,
        subsystem_vendor: None,
        subsystem_device: None,
    };
    let device = LinuxPCIDevice::new("ghost", &files);
    assert_eq!(device.path(), "/sys/bus/pci/devices/0000:ghost");
    assert_eq!(device.class_id(), Vec::new());
    assert_eq!(device.vendor_id(), Vec::new());
    assert_eq!(device.numa_node(), -1);
    assert!(!device.enabled());
    assert!(!device.d3cold_allowed());
    assert_eq!(device.class_name(), "");
    assert_eq!(device.vendor_name(), "");
    assert_eq!(device.device_name(), "");
    assert_eq!(device.subsystem_name(), "");
}
