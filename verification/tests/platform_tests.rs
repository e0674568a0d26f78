use hddllfrt::device::{DeviceType, HealthStatus, StorageDevice};
use hddllfrt::platform::has_admin_privileges;
use hddllfrt::platform::linux::{self, SysBlockEntry};
use hddllfrt::platform::macos::{self, DiskProbe};
use hddllfrt::platform::windows::{self, DriveProbe};
use hddllfrt::platform::PlatformError;

fn entry(name: &str, size: Option<&str>) -> SysBlockEntry {
    SysBlockEntry {
        name: name.to_string(),
        device_node_exists: true,
        model: Some("  Samsung SSD 850 \n".to_string()),
        serial: Some("S123\n".to_string()),
        size: size.map(|s| s.to_string()),
        removable: Some("0\n".to_string()),
        rotational: Some("0\n".to_string()),
        has_usb_vendor_id: false,
        has_vendor: true,
    }
}

fn dev(path: &str) -> StorageDevice {
    StorageDevice {
        path: path.to_string(),
        model: "M".to_string(),
        serial: "S".to_string(),
        capacity: 1,
        device_type: DeviceType::Unknown,
        is_removable: false,
        interface: "Unknown".to_string(),
    }
}

#[test]
fn admin_is_root() {
    assert!(has_admin_privileges(0));
    assert!(!has_admin_privileges(1000));
}

#[test]
fn linux_detect_devices_reads_sysfs() {
    let mut usb = entry("sdb", Some("2048"));
    usb.rotational = None;
    usb.has_usb_vendor_id = true;
    usb.removable = Some("1".to_string());
    usb.model = None;
    let entries = vec![
        entry("loop0", Some("100")),
        entry("sda", Some("976773168\n")),
        entry("ram0", Some("100")),
        entry("dm-0", Some("100")),
        entry("sdz", Some("0")),
        entry("sdy", Some("garbage")),
        entry("nvme0n1", Some("1000")),
        usb,
    ];
    let devices = linux::detect_devices(&entries).unwrap();
    assert_eq!(devices.len(), 3);
    let sda = &devices[0];
    assert_eq!(sda.path, "/dev/sda");
    assert_eq!(sda.model, "Samsung SSD 850");
    assert_eq!(sda.serial, "S123");
    assert_eq!(sda.capacity, 976773168 * 512);
    assert_eq!(sda.device_type, DeviceType::SSD);
    assert_eq!(sda.interface, "SATA");
    assert!(!sda.is_removable);
    assert_eq!(devices[1].device_type, DeviceType::NVMe);
    assert_eq!(devices[1].interface, "NVMe");
    assert_eq!(devices[2].model, "Unknown");
    assert_eq!(devices[2].device_type, DeviceType::USB);
    assert_eq!(devices[2].interface, "USB");
    assert!(devices[2].is_removable);
}

#[test]
fn linux_detect_devices_skips_missing_nodes() {
    let mut e = entry("sdc", Some("10"));
    e.device_node_exists = false;
    assert_eq!(linux::detect_devices(&vec![e]).unwrap().len(), 0);
}

#[test]
fn linux_detect_devices_size_unreadable() {
    let entries = vec![entry("sda", Some("8")), entry("sdb", None)];
    match linux::detect_devices(&entries) {
        Err(PlatformError::ReadFailed { path }) => assert_eq!(path, "/sys/block/sdb/size"),
        other => panic!("unexpected {:?}", other),
    }
}

#[test]
fn linux_detect_devices_capacity_overflow() {
    let entries = vec![entry("sda", Some("18446744073709551615"))];
    match linux::detect_devices(&entries) {
        Err(PlatformError::CapacityOverflow { path }) => assert_eq!(path, "/dev/sda"),
        other => panic!("unexpected {:?}", other),
    }
}

#[test]
fn linux_device_type_and_interface() {
    assert_eq!(linux::determine_device_type("/sys/block/sda", &Some("1\n".to_string()), false), DeviceType::HDD);
    assert_eq!(linux::determine_device_type("/sys/block/sda", &Some(" 0 ".to_string()), true), DeviceType::SSD);
    assert_eq!(linux::determine_device_type("/sys/block/sda", &None, true), DeviceType::USB);
    assert_eq!(linux::determine_device_type("/sys/block/sda", &None, false), DeviceType::Unknown);
    assert_eq!(linux::determine_device_type("/sys/block/nvme1n1", &Some("1".to_string()), true), DeviceType::NVMe);
    assert_eq!(linux::determine_interface("/sys/block/sda", true, true), "USB");
    assert_eq!(linux::determine_interface("/sys/block/sda", false, true), "SATA");
    assert_eq!(linux::determine_interface("/sys/block/sda", false, false), "Unknown");
    assert_eq!(linux::determine_interface("/sys/block/nvme0n1", true, true), "NVMe");
    assert!(linux::is_virtual_block_device("loop3"));
    assert!(!linux::is_virtual_block_device("sda"));
}

#[test]
fn linux_mount_detection() {
    let mounts = "/dev/sda1 / ext4 rw 0 0\nproc /proc proc rw 0 0\n/dev/md0 /srv xfs rw 0 0\n";
    assert!(linux::is_device_mounted(&dev("/dev/sda"), mounts));
    assert!(!linux::is_device_mounted(&dev("/dev/sdb"), mounts));
    assert!(linux::is_device_mounted(&dev("/dev/md0"), mounts));
    // Another disk's partitions do not count.
    assert!(!linux::is_device_mounted(&dev("/dev/md127"), mounts));
    assert!(!linux::is_device_mounted(&dev("/dev/nvme0n1"), "/dev/nvme0n2 /data ext4 rw 0 0\n"));
    assert!(!linux::is_device_mounted(&dev("/dev/mmcblk0"), "/dev/mmcblk1p1 / ext4 rw 0 0\n"));
    assert!(linux::is_device_mounted(&dev("/dev/mmcblk0"), "/dev/mmcblk0p1 / ext4 rw 0 0\n"));
    assert!(linux::is_device_mounted(&dev("/dev/nvme0n1"), "  /dev/nvme0n1p12 /boot vfat rw 0 0\n"));
    // A name that merely begins with the path is another disk.
    assert!(!linux::is_device_mounted(&dev("/dev/sda"), "/dev/sdaa1 /x ext4 rw 0 0\n"));
    assert!(!linux::is_device_mounted(&dev("/dev/sda"), "/dev/sdap1 /x ext4 rw 0 0\n"));
    // Only the first field of a line names the mounted device.
    assert!(!linux::is_device_mounted(&dev("/dev/sda"), "tmpfs /mnt/dev/sda tmpfs rw 0 0\n"));
    assert!(!linux::is_device_mounted(&dev("/dev/nvme0n1"), ""));
}

#[test]
fn linux_read_smart_data_is_empty() {
    let s = linux::read_smart_data(&dev("/dev/sda")).unwrap();
    assert!(s.attributes.is_empty());
    assert_eq!(s.health_status, HealthStatus::Unknown);
    assert_eq!(s.temperature, None);
    assert_eq!(s.power_on_hours, None);
}

const DISKUTIL_PLIST: &str = r#"<?xml version="1.0" encoding="UTF-8"?>
<!DOCTYPE plist PUBLIC "-//Apple//DTD PLIST 1.0//EN" "http://www.apple.com/DTDs/PropertyList-1.0.dtd">
<plist version="1.0">
<dict>
    <key>DeviceIdentifier</key>
    <string>disk0</string>
    <key>MediaName</key>
    <string>APPLE SSD AP0512Q</string>
    <key>Protocol</key>
    <string>Apple Fabric</string>
    <key>Removable</key>
    <false/>
    <key>SerialNumber</key>
    <string>ABC</string>
    <key>SolidState</key>
    <true/>
    <key>TotalSize</key>
    <integer>500277790720</integer>
</dict>
</plist>
"#;

#[test]
fn macos_diskutil_info_from_plist() {
    let d = macos::get_diskutil_info("/dev/disk0", &Some(DISKUTIL_PLIST.as_bytes().to_vec())).unwrap();
    assert_eq!(d.path, "/dev/disk0");
    assert_eq!(d.model, "APPLE SSD AP0512Q");
    assert_eq!(d.serial, "ABC");
    assert_eq!(d.capacity, 500277790720);
    assert_eq!(d.device_type, DeviceType::SSD);
    assert!(!d.is_removable);
    assert_eq!(d.interface, "Apple Fabric");
}

#[test]
fn macos_diskutil_info_usb_and_defaults() {
    let xml = r#"<?xml version="1.0" encoding="UTF-8"?>
<plist version="1.0"><dict>
<key>DeviceIdentifier</key><string>disk4</string>
<key>Protocol</key><string>USB</string>
<key>Removable</key><true/>
</dict></plist>"#;
    let d = macos::get_diskutil_info("/dev/disk4", &Some(xml.as_bytes().to_vec())).unwrap();
    assert_eq!(d.model, "disk4");
    assert_eq!(d.serial, "Unknown");
    assert_eq!(d.capacity, 0);
    assert_eq!(d.device_type, DeviceType::USB);
    assert!(d.is_removable);
    assert_eq!(d.interface, "USB");
}

#[test]
fn macos_diskutil_errors() {
    assert!(matches!(macos::get_diskutil_info("/dev/disk1", &None), Err(PlatformError::DiskutilFailed)));
    assert!(matches!(
        macos::get_diskutil_info("/dev/disk1", &Some(b"not a plist at all".to_vec())),
        Err(PlatformError::PlistParseFailed)
    ));
    let array = r#"<?xml version="1.0" encoding="UTF-8"?><plist version="1.0"><array><string>x</string></array></plist>"#;
    assert!(matches!(
        macos::get_diskutil_info("/dev/disk1", &Some(array.as_bytes().to_vec())),
        Err(PlatformError::PlistNotDictionary)
    ));
}

#[test]
fn macos_detect_devices_keeps_positive_capacity() {
    let empty = r#"<?xml version="1.0" encoding="UTF-8"?><plist version="1.0"><dict></dict></plist>"#;
    let probes = vec![
        DiskProbe { path: "/dev/disk0".to_string(), plist_output: Some(DISKUTIL_PLIST.as_bytes().to_vec()) },
        DiskProbe { path: "/dev/disk1".to_string(), plist_output: None },
        DiskProbe { path: "/dev/disk2".to_string(), plist_output: Some(empty.as_bytes().to_vec()) },
    ];
    let ds = macos::detect_devices(&probes);
    assert_eq!(ds.len(), 1);
    assert_eq!(ds[0].path, "/dev/disk0");
    assert_eq!(macos::disk_path(7), "/dev/disk7");
    assert_eq!(macos::MAX_DISKS, 20);
    assert_eq!(windows::MAX_PHYSICAL_DRIVES, 16);
}

#[test]
fn macos_mount_detection() {
    assert!(macos::is_device_mounted("   Mounted:                   Yes\n   Mounted: Yes\n"));
    assert!(macos::is_device_mounted("   Volume Name:              Macintosh HD\n"));
    assert!(!macos::is_device_mounted("   Mounted:                   No\n"));
}

#[test]
fn windows_paths_and_numbers() {
    assert_eq!(windows::physical_drive_path(3), r"\\.\PhysicalDrive3");
    assert_eq!(windows::physical_drive_number(r"\\.\PhysicalDrive12"), Some(12));
    assert_eq!(windows::physical_drive_number(r"\\.\PhysicalDrive\\.\PhysicalDrive5"), Some(5));
    assert_eq!(windows::physical_drive_number(r"\\.\PhysicalDrive"), None);
    assert_eq!(windows::physical_drive_number(r"\\.\PhysicalDrive99999999999"), None);
    assert_eq!(windows::physical_drive_number("/dev/sda"), None);
    assert_eq!(windows::logical_drive_letters(0b101), vec!['A', 'C']);
    assert_eq!(windows::logical_drive_letters(1 << 25 | 1 << 26), vec!['Z']);
    assert_eq!(windows::volume_path('C'), r"\\.\C:");
}

#[test]
fn windows_ioctl_buffers() {
    let mut sdn = vec![0u8; 12];
    sdn[4] = 2;
    assert_eq!(windows::volume_disk_number(&Some(sdn)), Some(2));
    assert_eq!(windows::volume_disk_number(&None), None);
    let mut geo = vec![0u8; 40];
    geo[24..32].copy_from_slice(&500107862016u64.to_le_bytes());
    assert_eq!(windows::disk_capacity(&Some(geo)), 500107862016);
    assert_eq!(windows::disk_capacity(&None), 0);
}

fn descriptor(bus: i32) -> Vec<u8> {
    let mut b = vec![0u8; 1024];
    b[10] = 1;
    b[16..20].copy_from_slice(&100u32.to_le_bytes());
    b[24..28].copy_from_slice(&200u32.to_le_bytes());
    b[28..32].copy_from_slice(&bus.to_le_bytes());
    b[100..112].copy_from_slice(b"  Samsung 9 ");
    b[200..204].copy_from_slice(b"S123");
    b
}

#[test]
fn windows_device_details_from_descriptor() {
    let d = windows::device_details(&Some(descriptor(0x11)));
    assert_eq!(d.model.as_deref(), Some("Samsung 9"));
    assert_eq!(d.serial.as_deref(), Some("S123"));
    assert_eq!(d.interface, "NVMe");
    assert_eq!(d.device_type, DeviceType::NVMe);
    assert!(d.is_removable);
    let mut bad = descriptor(0xB);
    bad[100] = 0xFF;
    let d = windows::device_details(&Some(bad));
    assert_eq!(d.model, None);
    assert_eq!(d.interface, "SATA");
    assert_eq!(d.device_type, DeviceType::Unknown);
    let d = windows::device_details(&None);
    assert_eq!(d.model, None);
    assert_eq!(d.interface, "Unknown");
}

#[test]
fn windows_bus_types_and_seek_penalty() {
    assert_eq!(windows::bus_type_interface(0x7), "USB");
    assert_eq!(windows::bus_type_interface(0xA), "SAS");
    assert_eq!(windows::bus_type_interface(0x99), "Unknown (153)");
    assert_eq!(windows::bus_type_interface(-1), "Unknown (-1)");
    let unknown = windows::device_details(&Some(descriptor(0xB)));
    assert!(windows::needs_seek_penalty_query(unknown.device_type));
    let mut seek = vec![0u8; 12];
    let ssd = windows::apply_seek_penalty(unknown.clone(), &Some(seek.clone()));
    assert_eq!(ssd.device_type, DeviceType::SSD);
    seek[8] = 1;
    let hdd = windows::apply_seek_penalty(unknown.clone(), &Some(seek.clone()));
    assert_eq!(hdd.device_type, DeviceType::HDD);
    let usb = windows::device_details(&Some(descriptor(0x7)));
    assert_eq!(windows::apply_seek_penalty(usb, &Some(seek)).device_type, DeviceType::USB);
    assert!(!windows::needs_seek_penalty_query(DeviceType::NVMe));
}

#[test]
fn windows_detect_and_mounts() {
    let details = windows::device_details(&None);
    let probes = vec![
        DriveProbe { index: 0, capacity: 1000, details: details.clone() },
        DriveProbe { index: 1, capacity: 0, details: details.clone() },
        DriveProbe { index: 2, capacity: 5, details: windows::device_details(&Some(descriptor(0x11))) },
    ];
    let ds = windows::detect_devices(&probes);
    assert_eq!(ds.len(), 2);
    assert_eq!(ds[0].path, r"\\.\PhysicalDrive0");
    assert_eq!(ds[0].model, "Physical Drive 0");
    assert_eq!(ds[0].serial, "Unknown");
    assert_eq!(ds[1].model, "Samsung 9");
    assert!(windows::is_device_mounted(&dev(r"\\.\PhysicalDrive2"), &vec![0, 2]));
    assert!(!windows::is_device_mounted(&dev(r"\\.\PhysicalDrive1"), &vec![0, 2]));
    assert!(!windows::is_device_mounted(&dev("/dev/sda"), &vec![0]));
    assert!(windows::should_lock_volume(r"\\.\PhysicalDrive2", 2));
    assert!(!windows::should_lock_volume(r"\\.\PhysicalDrive2", 3));
}

#[test]
fn windows_drive_path_roundtrip() {
    for i in [0u32, 7, 15, 4_000_000_000] {
        assert_eq!(windows::physical_drive_number(&windows::physical_drive_path(i)), Some(i));
    }
}
