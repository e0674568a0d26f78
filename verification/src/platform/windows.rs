//! Windows: physical drives from the storage IOCTLs, volumes and their
//! disks, and the structures those IOCTLs return, decoded from bytes.

use crate::bytes::{le_nat, read_le, read_u32_le};
use crate::device::{DeviceType, StorageDevice, StorageDeviceView};
use crate::text::{
    chars_of, decimal, is_digit, lemma_decimal_digits, lemma_parse_decimal, parse_unsigned, parse_unsigned_chars, push_decimal, push_signed_decimal,
    signed_decimal, starts_with, starts_with_chars, string_of, sub_chars, trim, trim_chars,
};
use vstd::prelude::*;
use vstd::utf8::{decode_utf8, valid_utf8};

verus! {

/// Number of `\\.\PhysicalDriveN` devices probed (drives 0 to 15).
pub const MAX_PHYSICAL_DRIVES: u32 = 16;

/// Size of the buffer the storage property IOCTLs fill.
pub const PROPERTY_BUFFER_SIZE: usize = 1024;

/// Prefix of the physical drive paths.
pub open spec fn physical_drive_prefix() -> Seq<char> {
    "\\\\.\\PhysicalDrive"@
}

/// The path of physical drive `i`: `\\.\PhysicalDrive{i}`.
pub fn physical_drive_path(i: u32) -> (s: String)
    ensures
        s@ == physical_drive_prefix() + decimal(i as nat),
{
    let mut s = String::from_str("\\\\.\\PhysicalDrive");
    push_decimal(&mut s, i as u128);
    s
}

/// `s` with every leading copy of `p` removed, as `str::trim_start_matches`
/// with a string pattern gives it.
pub open spec fn strip_prefix_repeatedly(s: Seq<char>, p: Seq<char>) -> Seq<char>
    decreases s.len(),
{
    if p.len() > 0 && starts_with(s, p) {
        strip_prefix_repeatedly(s.skip(p.len() as int), p)
    } else {
        s
    }
}

/// Drive number of a physical drive path: the path must start with
/// `\\.\PhysicalDrive`, and what follows the prefix (every repetition of it
/// removed) must parse as a `u32`.
pub open spec fn drive_number(path: Seq<char>) -> Option<u32> {
    if !starts_with(path, physical_drive_prefix()) {
        None
    } else {
        match parse_unsigned(strip_prefix_repeatedly(path, physical_drive_prefix()), 0xFFFF_FFFF) {
            Some(n) => Some(n as u32),
            None => None,
        }
    }
}

fn strip_prefix_from(v: &Vec<char>, p: &Vec<char>, i: usize) -> (j: usize)
    requires
        i <= v@.len(),
        p@.len() > 0,
    ensures
        i <= j <= v@.len(),
        strip_prefix_repeatedly(v@.skip(i as int), p@) == v@.skip(j as int),
    decreases v@.len() - i,
{
    let rest = sub_chars(v, i, v.len());
    assert(rest@ =~= v@.skip(i as int));
    if starts_with_chars(&rest, p) {
        assert(v@.skip(i as int).skip(p@.len() as int) =~= v@.skip(i + p@.len()));
        strip_prefix_from(v, p, i + p.len())
    } else {
        i
    }
}

/// The drive number of a physical drive path, if it is one.
pub fn physical_drive_number(path: &str) -> (r: Option<u32>)
    ensures
        r == drive_number(path@),
{
    let v = chars_of(path);
    let p = chars_of("\\\\.\\PhysicalDrive");
    proof {
        reveal_strlit("\\\\.\\PhysicalDrive");
    }
    if !starts_with_chars(&v, &p) {
        return None;
    }
    let j = strip_prefix_from(&v, &p, 0);
    assert(v@.skip(0) =~= v@);
    let rest = sub_chars(&v, j, v.len());
    assert(rest@ =~= v@.skip(j as int));
    match parse_unsigned_chars(&rest, 0xFFFF_FFFF) {
        Some(n) => Some(n as u32),
        None => None,
    }
}

/// The path of a physical drive parses back to its number.
pub proof fn lemma_drive_path_roundtrip(i: u32)
    ensures
        drive_number(physical_drive_prefix() + decimal(i as nat)) == Some(i),
{
    reveal_strlit("\\\\.\\PhysicalDrive");
    let p = physical_drive_prefix();
    let d = decimal(i as nat);
    let s = p + d;
    lemma_decimal_digits(i as nat);
    lemma_parse_decimal(i as nat, 0xFFFF_FFFF);
    assert(s.take(p.len() as int) =~= p);
    assert(s.skip(p.len() as int) =~= d);
    assert(!starts_with(d, p)) by {
        if starts_with(d, p) {
            assert(d.take(p.len() as int)[0] == d[0]);
            assert(is_digit(d[0]));
        }
    }
    assert(strip_prefix_repeatedly(d, p) == d);
    assert(strip_prefix_repeatedly(s, p) == d);
}

/// The letters of the logical drives set in a `GetLogicalDrives` bit mask,
/// among the first `n` letters, in order.
pub open spec fn drive_letters_below(mask: u32, n: nat) -> Seq<char>
    decreases n,
{
    if n == 0 {
        Seq::empty()
    } else {
        let i = (n - 1) as nat;
        let rest = drive_letters_below(mask, i);
        if mask & (1u32 << (i as u32)) != 0 {
            rest.push((65 + i) as char)
        } else {
            rest
        }
    }
}

/// The drive letters (A to Z) set in a `GetLogicalDrives` bit mask.
pub fn logical_drive_letters(mask: u32) -> (v: Vec<char>)
    ensures
        v@ == drive_letters_below(mask, 26),
{
    let mut v: Vec<char> = Vec::new();
    let mut i: u32 = 0;
    while i < 26
        invariant
            i <= 26,
            v@ == drive_letters_below(mask, i as nat),
        decreases 26 - i,
    {
        if mask & (1u32 << i) != 0 {
            let c = (65u8 + i as u8) as char;
            v.push(c);
        }
        i = i + 1;
    }
    v
}

/// The volume device of a drive letter: `\\.\{letter}:`.
pub fn volume_path(letter: char) -> (s: String)
    ensures
        s@ == "\\\\.\\"@ + seq![letter, ':'],
{
    let mut s = String::from_str("\\\\.\\");
    s.push(letter);
    s.push(':');
    assert(s@ =~= "\\\\.\\"@ + seq![letter, ':']);
    s
}

/// The disk number in a `STORAGE_DEVICE_NUMBER` (its `DeviceNumber`, a
/// little-endian `u32` at offset 4); `None` when the IOCTL failed.
pub open spec fn storage_device_number(buf: Option<Seq<u8>>) -> Option<u32> {
    match buf {
        Some(b) => if b.len() >= 8 {
            Some(le_nat(b.subrange(4, 8)) as u32)
        } else {
            None
        },
        None => None,
    }
}

/// Disk number of a volume from its `IOCTL_STORAGE_GET_DEVICE_NUMBER`
/// output (`None` when the IOCTL failed).
pub fn volume_disk_number(buf: &Option<Vec<u8>>) -> (r: Option<u32>)
    ensures
        r == storage_device_number(match buf { Some(b) => Some(b@), None => None }),
{
    match buf {
        Some(b) => if b.len() >= 8 {
            Some(read_u32_le(b.as_slice(), 4))
        } else {
            None
        },
        None => None,
    }
}

/// Whether a volume on disk `disk` must be locked and dismounted before the
/// physical drive at `path` is written: the volume lies on that drive.
pub fn should_lock_volume(path: &str, disk: u32) -> (b: bool)
    ensures
        b == (drive_number(path@) == Some(disk)),
{
    match physical_drive_number(path) {
        Some(n) => n == disk,
        None => false,
    }
}

/// Whether one of the volumes (given by their disk numbers) lies on the
/// physical drive at `path`.
pub open spec fn has_volume_on(path: Seq<char>, volume_disks: Seq<u32>) -> bool {
    match drive_number(path) {
        Some(n) => volume_disks.contains(n),
        None => false,
    }
}

/// Whether the physical drive at `device.path` holds a mounted volume,
/// given the disk numbers of the mounted volumes.
pub fn is_device_mounted(device: &StorageDevice, volume_disks: &Vec<u32>) -> (b: bool)
    ensures
        b == has_volume_on(device.path@, volume_disks@),
{
    let dn = physical_drive_number(device.path.as_str());
    let target = match dn {
        Some(n) => n,
        None => return false,
    };
    assert(drive_number(device.path@) == Some(target));
    let mut i: usize = 0;
    while i < volume_disks.len()
        invariant
            i <= volume_disks@.len(),
            forall|j: int| 0 <= j < i ==> volume_disks@[j] != target,
            drive_number(device.path@) == Some(target),
        decreases volume_disks@.len() - i,
    {
        if volume_disks[i] == target {
            assert(volume_disks@[i as int] == target);
            assert(volume_disks@.contains(target));
            return true;
        }
        i = i + 1;
    }
    false
}

/// The capacity in a `DISK_GEOMETRY_EX` (`DiskSize`, a 64-bit little-endian
/// value at offset 24, read as unsigned); 0 when the IOCTL failed.
pub open spec fn geometry_capacity(buf: Option<Seq<u8>>) -> u64 {
    match buf {
        Some(b) => if b.len() >= 32 {
            le_nat(b.subrange(24, 32)) as u64
        } else {
            0
        },
        None => 0,
    }
}

/// Capacity of a physical drive from its `IOCTL_DISK_GET_DRIVE_GEOMETRY_EX`
/// output (`None` when the IOCTL failed).
pub fn disk_capacity(buf: &Option<Vec<u8>>) -> (c: u64)
    ensures
        c == geometry_capacity(match buf { Some(b) => Some(b@), None => None }),
{
    match buf {
        Some(b) => if b.len() >= 32 {
            read_le(b.as_slice(), 24, 8)
        } else {
            0
        },
        None => 0,
    }
}

/// What the storage property queries tell about a drive.
#[derive(Debug, Clone)]
pub struct DeviceDetails {
    pub model: Option<String>,
    pub serial: Option<String>,
    pub interface: String,
    pub device_type: DeviceType,
    pub is_removable: bool,
}

/// Mathematical value of drive details.
pub struct DeviceDetailsView {
    pub model: Option<Seq<char>>,
    pub serial: Option<Seq<char>>,
    pub interface: Seq<char>,
    pub device_type: DeviceType,
    pub is_removable: bool,
}

impl View for DeviceDetails {
    type V = DeviceDetailsView;

    open spec fn view(&self) -> DeviceDetailsView {
        DeviceDetailsView {
            model: match self.model {
                Some(s) => Some(s@),
                None => None,
            },
            serial: match self.serial {
                Some(s) => Some(s@),
                None => None,
            },
            interface: self.interface@,
            device_type: self.device_type,
            is_removable: self.is_removable,
        }
    }
}

/// Interface name of a `STORAGE_BUS_TYPE`.
pub open spec fn bus_interface(bus: i32) -> Seq<char> {
    if bus == 0x7 {
        "USB"@
    } else if bus == 0xB {
        "SATA"@
    } else if bus == 0x11 {
        "NVMe"@
    } else if bus == 0x2 {
        "IDE"@
    } else if bus == 0x3 {
        "ATA"@
    } else if bus == 0x1 {
        "SCSI"@
    } else if bus == 0x8 {
        "RAID"@
    } else if bus == 0x4 {
        "FireWire"@
    } else if bus == 0x5 {
        "SSA"@
    } else if bus == 0x6 {
        "Fibre"@
    } else if bus == 0xA {
        "SAS"@
    } else {
        "Unknown ("@ + signed_decimal(bus as int) + ")"@
    }
}

/// Interface name of a `STORAGE_BUS_TYPE`.
pub fn bus_type_interface(bus: i32) -> (s: String)
    ensures
        s@ == bus_interface(bus),
{
    if bus == 0x7 {
        String::from_str("USB")
    } else if bus == 0xB {
        String::from_str("SATA")
    } else if bus == 0x11 {
        String::from_str("NVMe")
    } else if bus == 0x2 {
        String::from_str("IDE")
    } else if bus == 0x3 {
        String::from_str("ATA")
    } else if bus == 0x1 {
        String::from_str("SCSI")
    } else if bus == 0x8 {
        String::from_str("RAID")
    } else if bus == 0x4 {
        String::from_str("FireWire")
    } else if bus == 0x5 {
        String::from_str("SSA")
    } else if bus == 0x6 {
        String::from_str("Fibre")
    } else if bus == 0xA {
        String::from_str("SAS")
    } else {
        let mut s = String::from_str("Unknown (");
        push_signed_decimal(&mut s, bus);
        s.append(")");
        assert(s@ =~= bus_interface(bus));
        s
    }
}

/// Index of the first NUL byte at or after `i`, or the length.
pub open spec fn nul_index(b: Seq<u8>, i: int) -> int
    decreases b.len() - i,
{
    if i < 0 || i >= b.len() || b[i] == 0 {
        i
    } else {
        nul_index(b, i + 1)
    }
}

/// The NUL-terminated byte string at `off`, if it starts and ends inside
/// the buffer.
pub open spec fn c_string_at(b: Seq<u8>, off: int) -> Option<Seq<u8>> {
    if 0 <= off < b.len() && nul_index(b, off) < b.len() {
        Some(b.subrange(off, nul_index(b, off)))
    } else {
        None
    }
}

/// A descriptor string at offset `off`: absent when the offset is 0, when
/// the string does not end inside the buffer, or when it is not UTF-8;
/// otherwise its text, trimmed.
pub open spec fn descriptor_text(b: Seq<u8>, off: nat) -> Option<Seq<char>> {
    if off == 0 {
        None
    } else {
        match c_string_at(b, off as int) {
            Some(bytes) => if valid_utf8(bytes) {
                Some(trim(decode_utf8(bytes)))
            } else {
                None
            },
            None => None,
        }
    }
}

/// Whether a buffer holds a whole `STORAGE_DEVICE_DESCRIPTOR` header.
pub open spec fn has_descriptor(buf: Option<Seq<u8>>) -> bool {
    buf matches Some(b) && b.len() >= 36
}

/// The details a `STORAGE_DEVICE_DESCRIPTOR` gives: model at
/// `ProductIdOffset` (offset 16), serial at `SerialNumberOffset` (offset
/// 24), removable flag at offset 10, bus type at offset 28. Without a
/// descriptor: no model or serial, "Unknown" interface and type, not
/// removable.
pub open spec fn descriptor_details(buf: Option<Seq<u8>>) -> DeviceDetailsView {
    if has_descriptor(buf) {
        let b = buf->0;
        let bus = le_nat(b.subrange(28, 32)) as i32;
        DeviceDetailsView {
            model: descriptor_text(b, le_nat(b.subrange(16, 20))),
            serial: descriptor_text(b, le_nat(b.subrange(24, 28))),
            interface: bus_interface(bus),
            device_type: if bus == 0x11 {
                DeviceType::NVMe
            } else if bus == 0x7 {
                DeviceType::USB
            } else {
                DeviceType::Unknown
            },
            is_removable: b[10] != 0,
        }
    } else {
        DeviceDetailsView {
            model: None,
            serial: None,
            interface: "Unknown"@,
            device_type: DeviceType::Unknown,
            is_removable: false,
        }
    }
}

/// `std::str::from_utf8`: `Some` with the decoded text exactly when the
/// bytes are valid UTF-8.
#[verifier::external_body]
fn utf8_to_string(bytes: &[u8]) -> (r: Option<String>)
    ensures
        r is Some <==> valid_utf8(bytes@),
        r matches Some(s) ==> s@ == decode_utf8(bytes@),
{
    match std::str::from_utf8(bytes) {
        Ok(s) => Some(s.to_string()),
        Err(_) => None,
    }
}

fn nul_index_exec(b: &Vec<u8>, i: usize) -> (j: usize)
    requires
        i <= b@.len(),
    ensures
        j == nul_index(b@, i as int),
        i <= j <= b@.len(),
    decreases b@.len() - i,
{
    if i < b.len() && b[i] != 0 {
        nul_index_exec(b, i + 1)
    } else {
        i
    }
}

fn sub_bytes(b: &Vec<u8>, i: usize, j: usize) -> (r: Vec<u8>)
    requires
        i <= j <= b@.len(),
    ensures
        r@ == b@.subrange(i as int, j as int),
{
    let mut r: Vec<u8> = Vec::new();
    let mut k = i;
    while k < j
        invariant
            i <= k <= j <= b@.len(),
            r@ == b@.subrange(i as int, k as int),
        decreases j - k,
    {
        r.push(b[k]);
        k = k + 1;
        assert(r@ =~= b@.subrange(i as int, k as int));
    }
    r
}

fn descriptor_string(b: &Vec<u8>, off: u32) -> (r: Option<String>)
    ensures
        r is None ==> descriptor_text(b@, off as nat) is None,
        r matches Some(s) ==> descriptor_text(b@, off as nat) == Some(s@),
{
    if off == 0 || off as usize >= b.len() {
        return None;
    }
    let end = nul_index_exec(b, off as usize);
    if end == b.len() {
        return None;
    }
    let bytes = sub_bytes(b, off as usize, end);
    match utf8_to_string(bytes.as_slice()) {
        Some(s) => Some(string_of(&trim_chars(&chars_of(s.as_str())))),
        None => None,
    }
}

/// Decodes the output of the `StorageDeviceProperty` query (`None` when the
/// IOCTL failed).
pub fn device_details(descriptor: &Option<Vec<u8>>) -> (d: DeviceDetails)
    ensures
        d@ == descriptor_details(match descriptor { Some(b) => Some(b@), None => None }),
{
    match descriptor {
        Some(b) => if b.len() >= 36 {
            let bus = read_u32_le(b.as_slice(), 28) as i32;
            let product = read_u32_le(b.as_slice(), 16);
            let serial_off = read_u32_le(b.as_slice(), 24);
            let device_type = if bus == 0x11 {
                DeviceType::NVMe
            } else if bus == 0x7 {
                DeviceType::USB
            } else {
                DeviceType::Unknown
            };
            DeviceDetails {
                model: descriptor_string(b, product),
                serial: descriptor_string(b, serial_off),
                interface: bus_type_interface(bus),
                device_type,
                is_removable: b[10] != 0,
            }
        } else {
            unknown_details()
        },
        None => unknown_details(),
    }
}

fn unknown_details() -> (d: DeviceDetails)
    ensures
        d@ == descriptor_details(None),
{
    DeviceDetails {
        model: None,
        serial: None,
        interface: String::from_str("Unknown"),
        device_type: DeviceType::Unknown,
        is_removable: false,
    }
}

/// Whether the seek-penalty query decides the type: only for drives whose
/// bus left it unknown, or USB drives.
pub fn needs_seek_penalty_query(t: DeviceType) -> (b: bool)
    ensures
        b == (t == DeviceType::Unknown || t == DeviceType::USB),
{
    t == DeviceType::Unknown || t == DeviceType::USB
}

/// The device type once a `DEVICE_SEEK_PENALTY_DESCRIPTOR` is known
/// (`IncursSeekPenalty` at offset 8): an unknown drive without seek penalty
/// is an SSD, with seek penalty an HDD; other types stay.
pub open spec fn type_after_seek_penalty(t: DeviceType, buf: Option<Seq<u8>>) -> DeviceType {
    match buf {
        Some(b) => if b.len() >= 9 && t == DeviceType::Unknown {
            if b[8] == 0 {
                DeviceType::SSD
            } else {
                DeviceType::HDD
            }
        } else {
            t
        },
        None => t,
    }
}

/// Applies the output of the seek-penalty query (`None` when the IOCTL
/// failed) to the device type.
pub fn apply_seek_penalty(details: DeviceDetails, seek_penalty: &Option<Vec<u8>>) -> (d: DeviceDetails)
    ensures
        d@ == (DeviceDetailsView {
            device_type: type_after_seek_penalty(
                details.device_type,
                match seek_penalty { Some(b) => Some(b@), None => None },
            ),
            ..details@
        }),
{
    let mut d = details;
    match seek_penalty {
        Some(b) => if b.len() >= 9 && d.device_type == DeviceType::Unknown {
            if b[8] == 0 {
                d.device_type = DeviceType::SSD;
            } else {
                d.device_type = DeviceType::HDD;
            }
        },
        None => {},
    }
    d
}

/// A physical drive that opened: its number, capacity and details.
#[derive(Debug, Clone)]
pub struct DriveProbe {
    pub index: u32,
    pub capacity: u64,
    pub details: DeviceDetails,
}

/// The device a probed drive is, unless its capacity is zero.
pub open spec fn probe_device(p: DriveProbe) -> StorageDeviceView {
    StorageDeviceView {
        path: physical_drive_prefix() + decimal(p.index as nat),
        model: match p.details.model {
            Some(m) => m@,
            None => "Physical Drive "@ + decimal(p.index as nat),
        },
        serial: match p.details.serial {
            Some(s) => s@,
            None => "Unknown"@,
        },
        capacity: p.capacity,
        device_type: p.details.device_type,
        is_removable: p.details.is_removable,
        interface: p.details.interface@,
    }
}

/// The devices among the probed drives: those with a positive capacity,
/// in order.
pub open spec fn probed_drives(ps: Seq<DriveProbe>) -> Seq<StorageDeviceView>
    decreases ps.len(),
{
    if ps.len() == 0 {
        Seq::empty()
    } else {
        let rest = probed_drives(ps.drop_last());
        if ps.last().capacity > 0 {
            rest.push(probe_device(ps.last()))
        } else {
            rest
        }
    }
}

fn device_from_probe(p: &DriveProbe) -> (d: StorageDevice)
    ensures
        d@ == probe_device(*p),
{
    let model = match &p.details.model {
        Some(m) => String::from_str(m.as_str()),
        None => {
            let mut s = String::from_str("Physical Drive ");
            push_decimal(&mut s, p.index as u128);
            s
        },
    };
    let serial = match &p.details.serial {
        Some(s) => String::from_str(s.as_str()),
        None => String::from_str("Unknown"),
    };
    StorageDevice {
        path: physical_drive_path(p.index),
        model,
        serial,
        capacity: p.capacity,
        device_type: p.details.device_type,
        is_removable: p.details.is_removable,
        interface: String::from_str(p.details.interface.as_str()),
    }
}

/// Every physical drive found has a positive capacity and the path of its
/// number.
pub proof fn lemma_probed_drives_have_capacity(ps: Seq<DriveProbe>, i: int)
    requires
        0 <= i < probed_drives(ps).len(),
    ensures
        probed_drives(ps)[i].capacity > 0,
        drive_number(probed_drives(ps)[i].path) is Some,
    decreases ps.len(),
{
    if i < probed_drives(ps.drop_last()).len() {
        lemma_probed_drives_have_capacity(ps.drop_last(), i);
    } else {
        lemma_drive_path_roundtrip(ps.last().index);
    }
}

/// The storage devices among the physical drives that opened.
pub fn detect_devices(probes: &Vec<DriveProbe>) -> (ds: Vec<StorageDevice>)
    ensures
        ds@.map_values(|d: StorageDevice| d@) == probed_drives(probes@),
{
    let mut ds: Vec<StorageDevice> = Vec::new();
    let mut i: usize = 0;
    while i < probes.len()
        invariant
            i <= probes@.len(),
            ds@.map_values(|d: StorageDevice| d@) == probed_drives(probes@.take(i as int)),
        decreases probes@.len() - i,
    {
        assert(probes@.take(i + 1).drop_last() =~= probes@.take(i as int));
        let ghost prev = ds@;
        if probes[i].capacity > 0 {
            let d = device_from_probe(&probes[i]);
            ds.push(d);
            assert(ds@.map_values(|d: StorageDevice| d@) =~= prev.map_values(|d: StorageDevice| d@).push(d@));
        }
        i = i + 1;
    }
    assert(probes@.take(probes@.len() as int) =~= probes@);
    ds
}

} // verus!
