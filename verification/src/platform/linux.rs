//! Linux: block devices from sysfs, mount detection from `/proc/mounts`.

use crate::device::{
    DeviceType, HealthStatus, SmartData, SmartDataView, StorageDevice, StorageDeviceView,
};
use crate::platform::{PlatformError, PlatformErrorView};
use crate::text::{
    chars_eq, decimal, lemma_decimal_digits, chars_of, contains, contains_chars, first_token, first_token_chars, is_digit,
    line_end, line_end_exec, parse_unsigned, parse_unsigned_chars, starts_with, starts_with_chars,
    string_of, sub_chars, trim, trim_chars,
};
use vstd::prelude::*;

verus! {

/// Directory that lists the block devices.
pub open spec fn sys_block_dir() -> Seq<char> {
    "/sys/block/"@
}

/// What was read from sysfs about one entry of `/sys/block`.
#[derive(Debug, Clone)]
pub struct SysBlockEntry {
    /// Name of the entry (e.g. "sda").
    pub name: String,
    /// Whether `/dev/<name>` exists.
    pub device_node_exists: bool,
    /// Contents of `device/model`, if readable.
    pub model: Option<String>,
    /// Contents of `device/serial`, if readable.
    pub serial: Option<String>,
    /// Contents of `size` (in 512-byte sectors), if readable.
    pub size: Option<String>,
    /// Contents of `removable`, if readable.
    pub removable: Option<String>,
    /// Contents of `queue/rotational`, if readable.
    pub rotational: Option<String>,
    /// Whether `device/../../idVendor` is readable (a USB device).
    pub has_usb_vendor_id: bool,
    /// Whether `device/vendor` is readable (an ATA/SATA device).
    pub has_vendor: bool,
}

/// View of an optional string.
pub open spec fn opt_chars(o: Option<String>) -> Option<Seq<char>> {
    match o {
        Some(s) => Some(s@),
        None => None,
    }
}

/// The text read, or a default when the file was unreadable.
pub open spec fn text_or(o: Option<Seq<char>>, default: Seq<char>) -> Seq<char> {
    match o {
        Some(s) => s,
        None => default,
    }
}

/// Entries that are not disks: loop, ram and device-mapper devices.
pub open spec fn is_virtual_block_name(name: Seq<char>) -> bool {
    starts_with(name, "loop"@) || starts_with(name, "ram"@) || starts_with(name, "dm-"@)
}

/// Device type from the sysfs path, the rotational flag and the USB vendor
/// id: NVMe by path, else SSD/HDD by rotation, else USB, else unknown.
pub open spec fn linux_device_type(sys_path: Seq<char>, rotational: Option<Seq<char>>, usb: bool) -> DeviceType {
    if contains(sys_path, "nvme"@) {
        DeviceType::NVMe
    } else if rotational is Some {
        if trim(rotational->0) == "0"@ {
            DeviceType::SSD
        } else {
            DeviceType::HDD
        }
    } else if usb {
        DeviceType::USB
    } else {
        DeviceType::Unknown
    }
}

/// Interface from the sysfs path and the vendor files: NVMe, USB, SATA or
/// Unknown.
pub open spec fn linux_interface(sys_path: Seq<char>, usb: bool, vendor: bool) -> Seq<char> {
    if contains(sys_path, "nvme"@) {
        "NVMe"@
    } else if usb {
        "USB"@
    } else if vendor {
        "SATA"@
    } else {
        "Unknown"@
    }
}

/// What becomes of one sysfs entry.
pub enum EntryOutcome {
    /// Not a disk, no device node, or no capacity.
    Skip,
    /// Detection fails with this error.
    Fail(PlatformErrorView),
    /// A storage device.
    Device(StorageDeviceView),
}

/// Number of sectors the size file gives (0 when it does not parse).
pub open spec fn sector_count(size: Seq<char>) -> nat {
    match parse_unsigned(trim(size), 0xFFFF_FFFF_FFFF_FFFF) {
        Some(n) => n,
        None => 0,
    }
}

/// The device an entry describes, if any.
pub open spec fn entry_outcome(e: SysBlockEntry) -> EntryOutcome {
    let sys_path = sys_block_dir() + e.name@;
    if is_virtual_block_name(e.name@) || !e.device_node_exists {
        EntryOutcome::Skip
    } else if e.size is None {
        EntryOutcome::Fail(PlatformErrorView::ReadFailed { path: sys_path + "/size"@ })
    } else if sector_count(e.size->0@) * 512 > 0xFFFF_FFFF_FFFF_FFFF {
        EntryOutcome::Fail(PlatformErrorView::CapacityOverflow { path: "/dev/"@ + e.name@ })
    } else if sector_count(e.size->0@) == 0 {
        EntryOutcome::Skip
    } else {
        EntryOutcome::Device(
            StorageDeviceView {
                path: "/dev/"@ + e.name@,
                model: trim(text_or(opt_chars(e.model), "Unknown"@)),
                serial: trim(text_or(opt_chars(e.serial), "Unknown"@)),
                capacity: (sector_count(e.size->0@) * 512) as u64,
                device_type: linux_device_type(sys_path, opt_chars(e.rotational), e.has_usb_vendor_id),
                is_removable: trim(text_or(opt_chars(e.removable), "0"@)) == "1"@,
                interface: linux_interface(sys_path, e.has_usb_vendor_id, e.has_vendor),
            },
        )
    }
}

/// The devices found in a list of entries, in order, or the error of the
/// first entry that fails.
pub open spec fn scan_entries(es: Seq<SysBlockEntry>) -> Result<Seq<StorageDeviceView>, PlatformErrorView>
    decreases es.len(),
{
    if es.len() == 0 {
        Ok(Seq::empty())
    } else {
        match scan_entries(es.drop_last()) {
            Err(e) => Err(e),
            Ok(ds) => match entry_outcome(es.last()) {
                EntryOutcome::Skip => Ok(ds),
                EntryOutcome::Fail(e) => Err(e),
                EntryOutcome::Device(d) => Ok(ds.push(d)),
            },
        }
    }
}

/// Only loop, ram and device-mapper entries are skipped by name: an entry
/// whose name starts with none of "loop", "ram", "dm-", whose `/dev` node
/// exists and whose size file gives a positive number of sectors that fits
/// in bytes adds the device `/dev/<name>`, with that many bytes, to the end
/// of what the entries before it gave.
pub proof fn lemma_disk_entry_is_listed(es: Seq<SysBlockEntry>, ds: Seq<StorageDeviceView>, e: SysBlockEntry)
    requires
        scan_entries(es) == Ok::<Seq<StorageDeviceView>, PlatformErrorView>(ds),
        !starts_with(e.name@, "loop"@),
        !starts_with(e.name@, "ram"@),
        !starts_with(e.name@, "dm-"@),
        e.device_node_exists,
        e.size is Some,
        0 < sector_count(e.size->0@),
        sector_count(e.size->0@) * 512 <= 0xFFFF_FFFF_FFFF_FFFF,
    ensures
        scan_entries(es.push(e)) matches Ok(ds2) && ds2.len() == ds.len() + 1
            && ds2.drop_last() == ds
            && ds2.last().path == "/dev/"@ + e.name@
            && ds2.last().capacity == sector_count(e.size->0@) * 512,
{
    assert(es.push(e).drop_last() =~= es);
    assert(es.push(e).last() == e);
    assert(entry_outcome(e) is Device);
    let d = entry_outcome(e)->Device_0;
    assert(scan_entries(es.push(e)) == Ok::<Seq<StorageDeviceView>, PlatformErrorView>(ds.push(d)));
    assert(ds.push(d).drop_last() =~= ds);
}

/// Views of a sequence of devices.
pub open spec fn devices_view(ds: Seq<StorageDevice>) -> Seq<StorageDeviceView> {
    ds.map_values(|d: StorageDevice| d@)
}

fn trimmed_or(o: &Option<String>, default: &str) -> (r: String)
    ensures
        r@ == trim(text_or(opt_chars(*o), default@)),
{
    string_of(&trim_chars(&option_or_chars(o, default)))
}

/// Determines the device type of a sysfs block device.
pub fn determine_device_type(sys_path: &str, rotational: &Option<String>, has_usb_vendor_id: bool) -> (t: DeviceType)
    ensures
        t == linux_device_type(sys_path@, opt_chars(*rotational), has_usb_vendor_id),
{
    let path = chars_of(sys_path);
    if contains_chars(&path, &chars_of("nvme")) {
        return DeviceType::NVMe;
    }
    match rotational {
        Some(r) => {
            if chars_eq(&trim_chars(&chars_of(r.as_str())), &chars_of("0")) {
                DeviceType::SSD
            } else {
                DeviceType::HDD
            }
        },
        None => {
            if has_usb_vendor_id {
                DeviceType::USB
            } else {
                DeviceType::Unknown
            }
        },
    }
}

/// Determines the interface of a sysfs block device.
pub fn determine_interface(sys_path: &str, has_usb_vendor_id: bool, has_vendor: bool) -> (s: String)
    ensures
        s@ == linux_interface(sys_path@, has_usb_vendor_id, has_vendor),
{
    let path = chars_of(sys_path);
    if contains_chars(&path, &chars_of("nvme")) {
        String::from_str("NVMe")
    } else if has_usb_vendor_id {
        String::from_str("USB")
    } else if has_vendor {
        String::from_str("SATA")
    } else {
        String::from_str("Unknown")
    }
}

/// Whether an entry is a loop, ram or device-mapper device.
pub fn is_virtual_block_device(name: &str) -> (b: bool)
    ensures
        b == is_virtual_block_name(name@),
{
    let n = chars_of(name);
    starts_with_chars(&n, &chars_of("loop")) || starts_with_chars(&n, &chars_of("ram"))
        || starts_with_chars(&n, &chars_of("dm-"))
}

fn concat_str(a: &str, b: &str) -> (s: String)
    ensures
        s@ == a@ + b@,
{
    let mut s = String::from_str(a);
    s.append(b);
    s
}

/// The device an entry describes: `Ok(None)` when it is skipped.
pub fn device_from_entry(e: &SysBlockEntry) -> (r: Result<Option<StorageDevice>, PlatformError>)
    ensures
        entry_outcome(*e) == EntryOutcome::Skip ==> r == Ok::<Option<StorageDevice>, PlatformError>(None),
        entry_outcome(*e) matches EntryOutcome::Fail(err) ==> r matches Err(x) && x@ == err,
        entry_outcome(*e) matches EntryOutcome::Device(d) ==> r matches Ok(Some(x)) && x@ == d,
{
    if is_virtual_block_device(e.name.as_str()) || !e.device_node_exists {
        return Ok(None);
    }
    let sys_path = concat_str("/sys/block/", e.name.as_str());
    let size = match &e.size {
        Some(s) => s,
        None => {
            let p = concat_str(sys_path.as_str(), "/size");
            return Err(PlatformError::ReadFailed { path: p });
        },
    };
    let sectors = match parse_unsigned_chars(&trim_chars(&chars_of(size.as_str())), 0xFFFF_FFFF_FFFF_FFFF) {
        Some(n) => n,
        None => 0,
    };
    let dev_path = concat_str("/dev/", e.name.as_str());
    if sectors > 0xFFFF_FFFF_FFFF_FFFF / 512 {
        return Err(PlatformError::CapacityOverflow { path: dev_path });
    }
    let capacity = sectors * 512;
    if capacity == 0 {
        return Ok(None);
    }
    let device = StorageDevice {
        path: dev_path,
        model: trimmed_or(&e.model, "Unknown"),
        serial: trimmed_or(&e.serial, "Unknown"),
        capacity,
        device_type: determine_device_type(sys_path.as_str(), &e.rotational, e.has_usb_vendor_id),
        is_removable: chars_eq(&trim_chars(&option_or_chars(&e.removable, "0")), &chars_of("1")),
        interface: determine_interface(sys_path.as_str(), e.has_usb_vendor_id, e.has_vendor),
    };
    Ok(Some(device))
}

fn option_or_chars(o: &Option<String>, default: &str) -> (v: Vec<char>)
    ensures
        v@ == text_or(opt_chars(*o), default@),
{
    match o {
        Some(s) => chars_of(s.as_str()),
        None => chars_of(default),
    }
}

/// The storage devices among the entries of `/sys/block`, in order; fails
/// with the error of the first entry whose size cannot be read (or whose
/// capacity overflows).
pub fn detect_devices(entries: &Vec<SysBlockEntry>) -> (r: Result<Vec<StorageDevice>, PlatformError>)
    ensures
        r matches Ok(ds) ==> scan_entries(entries@) == Ok::<Seq<StorageDeviceView>, PlatformErrorView>(devices_view(ds@)),
        r matches Err(e) ==> scan_entries(entries@) == Err::<Seq<StorageDeviceView>, PlatformErrorView>(e@),
{
    let mut devices: Vec<StorageDevice> = Vec::new();
    let mut i: usize = 0;
    assert(entries@.take(0) =~= Seq::<SysBlockEntry>::empty());
    assert(devices_view(devices@) =~= Seq::<StorageDeviceView>::empty());
    while i < entries.len()
        invariant
            i <= entries@.len(),
            scan_entries(entries@.take(i as int)) == Ok::<Seq<StorageDeviceView>, PlatformErrorView>(devices_view(devices@)),
        decreases entries@.len() - i,
    {
        assert(entries@.take(i + 1).drop_last() =~= entries@.take(i as int));
        assert(entries@.take(i + 1).last() == entries@[i as int]);
        let ghost prev = devices@;
        match device_from_entry(&entries[i]) {
            Err(e) => {
                proof {
                    lemma_scan_error_persists(entries@, i as int + 1);
                }
                return Err(e);
            },
            Ok(None) => {
                assert(entry_outcome(entries@[i as int]) == EntryOutcome::Skip);
            },
            Ok(Some(d)) => {
                assert(entry_outcome(entries@[i as int]) == EntryOutcome::Device(d@));
                devices.push(d);
                assert(devices_view(devices@) =~= devices_view(prev).push(d@));
            },
        }
        i = i + 1;
    }
    assert(entries@.take(entries@.len() as int) =~= entries@);
    Ok(devices)
}

/// Every device found in sysfs has a positive capacity, a `/dev` path, and
/// is not a loop, ram or device-mapper device.
pub proof fn lemma_scanned_devices_are_disks(es: Seq<SysBlockEntry>, i: int)
    requires
        scan_entries(es) is Ok,
        0 <= i < scan_entries(es)->Ok_0.len(),
    ensures
        scan_entries(es)->Ok_0[i].capacity > 0,
        starts_with(scan_entries(es)->Ok_0[i].path, "/dev/"@),
    decreases es.len(),
{
    let prev = scan_entries(es.drop_last());
    if i < prev->Ok_0.len() {
        lemma_scanned_devices_are_disks(es.drop_last(), i);
    } else {
        let e = es.last();
        reveal_strlit("/dev/");
        assert(("/dev/"@ + e.name@).take(5) =~= "/dev/"@);
    }
}

/// Once a prefix of the entries fails, the whole scan fails the same way.
pub proof fn lemma_scan_error_persists(es: Seq<SysBlockEntry>, k: int)
    requires
        0 <= k <= es.len(),
        scan_entries(es.take(k)) is Err,
    ensures
        scan_entries(es) == scan_entries(es.take(k)),
    decreases es.len() - k,
{
    if k < es.len() {
        assert(es.take(k + 1).drop_last() =~= es.take(k));
        lemma_scan_error_persists(es, k + 1);
    } else {
        assert(es.take(k) =~= es);
    }
}

/// S.M.A.R.T. data on Linux: no attributes are read (that would need ATA
/// pass-through); the health is unknown.
pub fn read_smart_data(device: &StorageDevice) -> (r: Result<SmartData, PlatformError>)
    ensures
        r matches Ok(d) && d@ == (SmartDataView {
            attributes: Seq::empty(),
            health_status: HealthStatus::Unknown,
            temperature: None,
            power_on_hours: None,
        }),
{
    let d = SmartData {
        attributes: Vec::new(),
        health_status: HealthStatus::Unknown,
        temperature: None,
        power_on_hours: None,
    };
    assert(d@.attributes =~= Seq::<crate::device::SmartAttributeView>::empty());
    Ok(d)
}

/// Whether `s` is a non-empty run of ASCII decimal digits.
pub open spec fn is_number(s: Seq<char>) -> bool {
    s.len() > 0 && forall|i: int| 0 <= i < s.len() ==> is_digit(#[trigger] s[i])
}

/// Whether `name` is a partition of the disk `disk`: the disk's name
/// followed by a number, or, when the disk's name ends in a digit, by `p`
/// and a number (`/dev/sda1`, `/dev/nvme0n1p2`, `/dev/mmcblk0p1`).
pub open spec fn is_partition_name(name: Seq<char>, disk: Seq<char>) -> bool {
    &&& starts_with(name, disk)
    &&& {
        let rest = name.skip(disk.len() as int);
        if disk.len() > 0 && is_digit(disk.last()) {
            rest.len() > 0 && rest[0] == 'p' && is_number(rest.skip(1))
        } else {
            is_number(rest)
        }
    }
}

/// Whether a mounted device name is the disk itself or one of its partitions.
pub open spec fn names_device(name: Seq<char>, disk: Seq<char>) -> bool {
    name == disk || is_partition_name(name, disk)
}

/// Whether a line of `mounts`, from the line that starts at `i` on, has a
/// first field (the mounted device) that is `disk` or a partition of it.
/// Lines are separated by line feeds.
pub open spec fn mounted_from(mounts: Seq<char>, i: int, disk: Seq<char>) -> bool
    decreases mounts.len() - i,
{
    if i < 0 || i > mounts.len() {
        false
    } else {
        let e = line_end(mounts, i);
        let here = match first_token(mounts.subrange(i, e)) {
            Some(t) => names_device(t, disk),
            None => false,
        };
        if here {
            true
        } else if i <= e < mounts.len() {
            mounted_from(mounts, e + 1, disk)
        } else {
            false
        }
    }
}

/// Whether `mounts` (the text of `/proc/mounts`) shows the device at `path`
/// or one of its partitions mounted.
pub open spec fn mounted_in(path: Seq<char>, mounts: Seq<char>) -> bool {
    mounted_from(mounts, 0, path)
}

/// Whether `v` from index `from` on is a non-empty run of ASCII digits.
fn is_number_from(v: &Vec<char>, from: usize) -> (b: bool)
    requires
        from <= v@.len(),
    ensures
        b == is_number(v@.skip(from as int)),
{
    if from == v.len() {
        return false;
    }
    let mut i = from;
    while i < v.len()
        invariant
            from <= i <= v@.len(),
            forall|j: int| from <= j < i ==> is_digit(v@[j]),
        decreases v@.len() - i,
    {
        if !('0' <= v[i] && v[i] <= '9') {
            assert(!is_digit(v@.skip(from as int)[i - from]));
            return false;
        }
        i = i + 1;
    }
    assert forall|k: int| 0 <= k < v@.skip(from as int).len() implies is_digit(
        #[trigger] v@.skip(from as int)[k],
    ) by {
        assert(v@.skip(from as int)[k] == v@[from + k]);
    }
    true
}

/// Whether a mounted device name is the disk itself or one of its partitions.
pub fn names_device_chars(name: &Vec<char>, disk: &Vec<char>) -> (b: bool)
    ensures
        b == names_device(name@, disk@),
{
    if chars_eq(name, disk) {
        return true;
    }
    if !starts_with_chars(name, disk) {
        return false;
    }
    let n = disk.len();
    if n > 0 && '0' <= disk[n - 1] && disk[n - 1] <= '9' {
        if name.len() > n && name[n] == 'p' {
            let b = is_number_from(name, n + 1);
            assert(name@.skip(n as int).skip(1) =~= name@.skip(n + 1));
            b
        } else {
            false
        }
    } else {
        is_number_from(name, n)
    }
}

/// Whether the device or one of its partitions is mounted, given the text
/// of `/proc/mounts`: some line's first field is the device's path or the
/// name of one of its partitions.
pub fn is_device_mounted(device: &StorageDevice, mounts: &str) -> (b: bool)
    ensures
        b == mounted_in(device.path@, mounts@),
{
    let v = chars_of(mounts);
    let disk = chars_of(device.path.as_str());
    let mut i: usize = 0;
    loop
        invariant
            i <= v@.len(),
            v@ == mounts@,
            disk@ == device.path@,
            mounted_in(device.path@, mounts@) == mounted_from(v@, i as int, disk@),
        decreases v@.len() - i,
    {
        let e = line_end_exec(&v, i);
        let line = sub_chars(&v, i, e);
        let here = match first_token_chars(&line) {
            Some(t) => names_device_chars(&t, &disk),
            None => false,
        };
        if here {
            return true;
        }
        if e == v.len() {
            return false;
        }
        i = e + 1;
    }
}

/// Only names that begin with the disk's path count, and the partitions of
/// a disk are its path followed by a number, or by `p` and a number when
/// the path ends in a digit.
pub proof fn lemma_partition_names(disk: Seq<char>, name: Seq<char>, n: nat)
    ensures
        names_device(name, disk) ==> starts_with(name, disk),
        names_device(disk, disk),
        !(disk.len() > 0 && is_digit(disk.last())) ==> names_device(disk + decimal(n), disk),
        disk.len() > 0 && is_digit(disk.last()) ==> names_device(disk + seq!['p'] + decimal(n), disk),
{
    lemma_decimal_digits(n);
    let d = decimal(n);
    if names_device(name, disk) && name == disk {
        assert(disk.take(disk.len() as int) =~= disk);
    }
    assert(disk.take(disk.len() as int) =~= disk);
    assert((disk + d).take(disk.len() as int) =~= disk);
    assert((disk + d).skip(disk.len() as int) =~= d);
    let pd = disk + seq!['p'] + d;
    assert(pd.take(disk.len() as int) =~= disk);
    assert(pd.skip(disk.len() as int) =~= seq!['p'] + d);
    assert((seq!['p'] + d).skip(1) =~= d);
}

} // verus!
