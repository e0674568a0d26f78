use hddllfrt::device::{format_bytes, DeviceType, StorageDevice};

#[test]
fn test_format_bytes_zero() {
    assert_eq!(format_bytes(0), "0 B");
}

#[test]
fn test_format_bytes_one_kib() {
    assert_eq!(format_bytes(1024), "1.00 KiB");
}

#[test]
fn test_format_bytes_one_mib() {
    assert_eq!(format_bytes(1024 * 1024), "1.00 MiB");
}

#[test]
fn test_format_bytes_one_gib() {
    assert_eq!(format_bytes(1024 * 1024 * 1024), "1.00 GiB");
}

#[test]
fn test_format_bytes_one_tib() {
    assert_eq!(format_bytes(1024_u64.pow(4)), "1.00 TiB");
}

#[test]
fn test_format_bytes_500_gib() {
    assert_eq!(format_bytes(500 * 1024_u64.pow(3)), "500.00 GiB");
}

#[test]
fn test_format_bytes_small() {
    assert_eq!(format_bytes(512), "512.00 B");
}

#[test]
fn test_storage_device_display_name() {
    let device = StorageDevice {
        path: "/dev/sda".to_string(),
        model: "TestDrive".to_string(),
        serial: "ABC123".to_string(),
        capacity: 1024 * 1024 * 1024,
        device_type: DeviceType::HDD,
        is_removable: false,
        interface: "SATA".to_string(),
    };
    assert_eq!(device.display_name(), "TestDrive (1.00 GiB, HDD)");
}

#[test]
fn test_device_type_display() {
    assert_eq!(DeviceType::HDD.to_string(), "HDD");
    assert_eq!(DeviceType::SSD.to_string(), "SSD");
    assert_eq!(DeviceType::NVMe.to_string(), "NVMe");
    assert_eq!(DeviceType::USB.to_string(), "USB");
    assert_eq!(DeviceType::Unknown.to_string(), "Unknown");
}

#[test]
fn test_device_type_equality() {
    assert_eq!(DeviceType::HDD, DeviceType::HDD);
    assert_ne!(DeviceType::HDD, DeviceType::SSD);
}

#[test]
fn format_bytes_rounds_ties_to_even() {
    // 1152 bytes are exactly 1.125 KiB: the tie goes to the even hundredth.
    assert_eq!(format_bytes(1152), "1.12 KiB");
    assert_eq!(format_bytes(1536), "1.50 KiB");
}

#[test]
fn format_bytes_unit_boundaries() {
    assert_eq!(format_bytes(1), "1.00 B");
    assert_eq!(format_bytes(1023), "1023.00 B");
    assert_eq!(format_bytes(1048575), "1024.00 KiB");
    assert_eq!(format_bytes(1024_u64.pow(5)), "1.00 PiB");
}

#[test]
fn format_bytes_caps_at_pib() {
    assert_eq!(format_bytes(1024_u64.pow(6)), "1024.00 PiB");
    // u64::MAX becomes 2^64 as a double.
    assert_eq!(format_bytes(u64::MAX), "16384.00 PiB");
    // Above 2^53 the value is first rounded to a double.
    assert_eq!(format_bytes((1u64 << 53) + 1), "8.00 PiB");
}

#[test]
fn format_capacity_matches_format_bytes() {
    let device = StorageDevice {
        path: "/dev/sdb".to_string(),
        model: "Disk".to_string(),
        serial: "S".to_string(),
        capacity: 500 * 1024 * 1024,
        device_type: DeviceType::USB,
        is_removable: true,
        interface: "USB".to_string(),
    };
    assert_eq!(device.format_capacity(), format_bytes(device.capacity));
    assert_eq!(device.format_capacity(), "500.00 MiB");
    assert_eq!(device.display_name(), "Disk (500.00 MiB, USB)");
}
