//! macOS: disks from `diskutil info -plist`, mount detection from
//! `diskutil info`.

use crate::device::{DeviceType, StorageDevice, StorageDeviceView};
use crate::platform::{PlatformError, PlatformErrorView};
use crate::text::{chars_eq, chars_of, contains, contains_chars, decimal, push_decimal};
use vstd::prelude::*;

verus! {

/// Number of `/dev/diskN` nodes probed (`/dev/disk0` to `/dev/disk19`).
pub const MAX_DISKS: u32 = 20;

/// A scalar of a property list, as far as the disk rules read it.
#[derive(Debug, Clone)]
pub enum PlistScalar {
    /// A string.
    Text(String),
    /// An integer, as a signed 64-bit value when it fits.
    Integer(Option<i64>),
    /// A boolean.
    Boolean(bool),
    /// Any other value (array, dictionary, data, date, real, uid).
    Other,
}

/// Mathematical value of a property-list scalar.
pub enum PlistScalarView {
    Text(Seq<char>),
    Integer(Option<i64>),
    Boolean(bool),
    Other,
}

impl View for PlistScalar {
    type V = PlistScalarView;

    open spec fn view(&self) -> PlistScalarView {
        match self {
            PlistScalar::Text(s) => PlistScalarView::Text(s@),
            PlistScalar::Integer(i) => PlistScalarView::Integer(*i),
            PlistScalar::Boolean(b) => PlistScalarView::Boolean(*b),
            PlistScalar::Other => PlistScalarView::Other,
        }
    }
}

/// A parsed property-list document: its top-level dictionary entries, in
/// order.
#[derive(Debug, Clone)]
pub enum PlistDocument {
    /// The bytes are not a property list.
    Invalid,
    /// The top-level value is not a dictionary.
    NotDictionary,
    /// The entries of the top-level dictionary.
    Dictionary(Vec<(String, PlistScalar)>),
}

/// Mathematical value of a dictionary's entries.
pub open spec fn entries_view(es: Seq<(String, PlistScalar)>) -> Seq<(Seq<char>, PlistScalarView)> {
    es.map_values(|e: (String, PlistScalar)| (e.0@, e.1@))
}

/// Mathematical value of a property-list document.
pub enum PlistDocumentView {
    Invalid,
    NotDictionary,
    Dictionary(Seq<(Seq<char>, PlistScalarView)>),
}

impl View for PlistDocument {
    type V = PlistDocumentView;

    open spec fn view(&self) -> PlistDocumentView {
        match self {
            PlistDocument::Invalid => PlistDocumentView::Invalid,
            PlistDocument::NotDictionary => PlistDocumentView::NotDictionary,
            PlistDocument::Dictionary(es) => PlistDocumentView::Dictionary(entries_view(es@)),
        }
    }
}

/// The document that `plist::from_bytes::<plist::Value>` reads from `bytes`,
/// with the top-level dictionary's scalars kept.
pub uninterp spec fn plist_document(bytes: Seq<u8>) -> PlistDocumentView;

/// `plist::from_bytes::<plist::Value>`: parses a property list (XML, binary
/// or ASCII). An error becomes `Invalid`; a top-level value that is not a
/// dictionary becomes `NotDictionary`; a dictionary keeps its entries in
/// order, strings and booleans as they are, integers through
/// `Integer::as_signed`, other values as `Other`. The parse itself is the
/// crate's; the result is named, not spelled out.
#[verifier::external_body]
fn parse_plist(bytes: &[u8]) -> (d: PlistDocument)
    ensures
        d@ == plist_document(bytes@),
{
    match plist::from_bytes::<plist::Value>(bytes) {
        Err(_) => PlistDocument::Invalid,
        Ok(plist::Value::Dictionary(dict)) => PlistDocument::Dictionary(
            dict.into_iter().map(|(key, value)| (key, match value {
                plist::Value::String(s) => PlistScalar::Text(s),
                plist::Value::Integer(i) => PlistScalar::Integer(i.as_signed()),
                plist::Value::Boolean(b) => PlistScalar::Boolean(b),
                _ => PlistScalar::Other,
            })).collect(),
        ),
        Ok(_) => PlistDocument::NotDictionary,
    }
}

/// The value of the first entry with key `key`.
pub open spec fn plist_lookup(es: Seq<(Seq<char>, PlistScalarView)>, key: Seq<char>) -> Option<PlistScalarView>
    decreases es.len(),
{
    if es.len() == 0 {
        None
    } else if es[0].0 == key {
        Some(es[0].1)
    } else {
        plist_lookup(es.drop_first(), key)
    }
}

/// The string under `key`, if there is one.
pub open spec fn plist_string(es: Seq<(Seq<char>, PlistScalarView)>, key: Seq<char>) -> Option<Seq<char>> {
    match plist_lookup(es, key) {
        Some(PlistScalarView::Text(s)) => Some(s),
        _ => None,
    }
}

/// The boolean under `key`, if there is one.
pub open spec fn plist_bool(es: Seq<(Seq<char>, PlistScalarView)>, key: Seq<char>) -> Option<bool> {
    match plist_lookup(es, key) {
        Some(PlistScalarView::Boolean(b)) => Some(b),
        _ => None,
    }
}

/// The signed integer under `key`, if there is one that fits in 64 bits.
pub open spec fn plist_signed(es: Seq<(Seq<char>, PlistScalarView)>, key: Seq<char>) -> Option<i64> {
    match plist_lookup(es, key) {
        Some(PlistScalarView::Integer(i)) => i,
        _ => None,
    }
}

/// The storage device that the diskutil dictionary of `path` describes.
pub open spec fn diskutil_device(path: Seq<char>, es: Seq<(Seq<char>, PlistScalarView)>) -> StorageDeviceView {
    StorageDeviceView {
        path,
        model: match plist_string(es, "MediaName"@) {
            Some(s) => s,
            None => match plist_string(es, "DeviceIdentifier"@) {
                Some(s) => s,
                None => "Unknown"@,
            },
        },
        serial: match plist_string(es, "SerialNumber"@) {
            Some(s) => s,
            None => "Unknown"@,
        },
        capacity: match plist_signed(es, "TotalSize"@) {
            Some(v) => v as u64,
            None => 0,
        },
        device_type: if plist_bool(es, "SolidState"@) == Some(true) {
            DeviceType::SSD
        } else if plist_string(es, "Protocol"@) matches Some(p) && contains(p, "USB"@) {
            DeviceType::USB
        } else {
            DeviceType::HDD
        },
        is_removable: plist_bool(es, "Removable"@) == Some(true),
        interface: match plist_string(es, "Protocol"@) {
            Some(s) => s,
            None => "Unknown"@,
        },
    }
}

/// An entry at index `i` that is the first one with key `key` is what the
/// lookup finds.
pub proof fn lemma_lookup_first_match(es: Seq<(Seq<char>, PlistScalarView)>, key: Seq<char>, i: int)
    requires
        0 <= i < es.len(),
        es[i].0 == key,
        forall|j: int| 0 <= j < i ==> es[j].0 != key,
    ensures
        plist_lookup(es, key) == Some(es[i].1),
    decreases i,
{
    if i > 0 {
        assert forall|j: int| 0 <= j < i - 1 implies es.drop_first()[j].0 != key by {
            assert(es.drop_first()[j] == es[j + 1]);
        }
        lemma_lookup_first_match(es.drop_first(), key, i - 1);
    }
}

/// A lookup that finds a value found it in the first entry with that key;
/// the result is that entry's index.
pub proof fn lemma_lookup_found(es: Seq<(Seq<char>, PlistScalarView)>, key: Seq<char>) -> (i: int)
    requires
        plist_lookup(es, key) is Some,
    ensures
        0 <= i < es.len(),
        es[i].0 == key,
        forall|j: int| 0 <= j < i ==> es[j].0 != key,
        plist_lookup(es, key) == Some(es[i].1),
    decreases es.len(),
{
    if es[0].0 == key {
        0
    } else {
        let i = lemma_lookup_found(es.drop_first(), key);
        assert forall|j: int| 0 <= j < i + 1 implies es[j].0 != key by {
            if j > 0 {
                assert(es[j] == es.drop_first()[j - 1]);
            }
        }
        i + 1
    }
}

/// A disk is reported as an SSD exactly when the first `SolidState` entry of
/// its diskutil dictionary is the boolean `true`; one whose `SolidState` is
/// `false`, or that has none, never is.
pub proof fn lemma_ssd_iff_solid_state(path: Seq<char>, es: Seq<(Seq<char>, PlistScalarView)>)
    ensures
        (diskutil_device(path, es).device_type == DeviceType::SSD) <==> exists|i: int|
            0 <= i < es.len() && #[trigger] es[i].0 == "SolidState"@
                && (forall|j: int| 0 <= j < i ==> es[j].0 != "SolidState"@)
                && es[i].1 == PlistScalarView::Boolean(true),
{
    let key = "SolidState"@;
    if diskutil_device(path, es).device_type == DeviceType::SSD {
        assert(plist_bool(es, key) == Some(true));
        let i = lemma_lookup_found(es, key);
        assert(es[i].1 == PlistScalarView::Boolean(true));
    }
    if exists|i: int|
        0 <= i < es.len() && #[trigger] es[i].0 == key
            && (forall|j: int| 0 <= j < i ==> es[j].0 != key)
            && es[i].1 == PlistScalarView::Boolean(true)
    {
        let i = choose|i: int|
            0 <= i < es.len() && #[trigger] es[i].0 == key
                && (forall|j: int| 0 <= j < i ==> es[j].0 != key)
                && es[i].1 == PlistScalarView::Boolean(true);
        lemma_lookup_first_match(es, key, i);
        assert(plist_bool(es, key) == Some(true));
    }
}

/// What `diskutil info -plist <path>` output (`None` when the command
/// failed) gives.
pub open spec fn diskutil_info_result(path: Seq<char>, output: Option<Seq<u8>>) -> Result<StorageDeviceView, PlatformErrorView> {
    match output {
        None => Err(PlatformErrorView::DiskutilFailed),
        Some(bytes) => match plist_document(bytes) {
            PlistDocumentView::Invalid => Err(PlatformErrorView::PlistParseFailed),
            PlistDocumentView::NotDictionary => Err(PlatformErrorView::PlistNotDictionary),
            PlistDocumentView::Dictionary(es) => Ok(diskutil_device(path, es)),
        },
    }
}

/// Looks up the first entry with key `key`.
fn lookup(es: &Vec<(String, PlistScalar)>, key: &str) -> (r: Option<PlistScalar>)
    ensures
        r is None ==> plist_lookup(entries_view(es@), key@) is None,
        r matches Some(v) ==> plist_lookup(entries_view(es@), key@) == Some(v@),
{
    let k = chars_of(key);
    let mut i: usize = 0;
    assert(entries_view(es@).skip(0) =~= entries_view(es@));
    while i < es.len()
        invariant
            i <= es@.len(),
            k@ == key@,
            plist_lookup(entries_view(es@), key@) == plist_lookup(entries_view(es@).skip(i as int), key@),
        decreases es@.len() - i,
    {
        let ghost rest = entries_view(es@).skip(i as int);
        assert(rest[0] == (es@[i as int].0@, es@[i as int].1@));
        assert(rest.drop_first() =~= entries_view(es@).skip(i + 1));
        if chars_eq(&chars_of(es[i].0.as_str()), &k) {
            let v = es[i].1.clone_scalar();
            return Some(v);
        }
        i = i + 1;
    }
    assert(entries_view(es@).skip(i as int) =~= Seq::<(Seq<char>, PlistScalarView)>::empty());
    None
}

impl PlistScalar {
    /// A copy of the scalar.
    pub fn clone_scalar(&self) -> (r: PlistScalar)
        ensures
            r@ == self@,
    {
        match self {
            PlistScalar::Text(s) => PlistScalar::Text(String::from_str(s.as_str())),
            PlistScalar::Integer(i) => PlistScalar::Integer(*i),
            PlistScalar::Boolean(b) => PlistScalar::Boolean(*b),
            PlistScalar::Other => PlistScalar::Other,
        }
    }
}

fn string_entry(es: &Vec<(String, PlistScalar)>, key: &str) -> (r: Option<String>)
    ensures
        r is None ==> plist_string(entries_view(es@), key@) is None,
        r matches Some(s) ==> plist_string(entries_view(es@), key@) == Some(s@),
{
    match lookup(es, key) {
        Some(PlistScalar::Text(s)) => Some(s),
        _ => None,
    }
}

fn bool_entry(es: &Vec<(String, PlistScalar)>, key: &str) -> (r: Option<bool>)
    ensures
        r == plist_bool(entries_view(es@), key@),
{
    match lookup(es, key) {
        Some(PlistScalar::Boolean(b)) => Some(b),
        _ => None,
    }
}

fn signed_entry(es: &Vec<(String, PlistScalar)>, key: &str) -> (r: Option<i64>)
    ensures
        r == plist_signed(entries_view(es@), key@),
{
    match lookup(es, key) {
        Some(PlistScalar::Integer(i)) => i,
        _ => None,
    }
}

/// The device that `diskutil info -plist <device_path>` reports; the
/// output is `None` when the command could not run or failed.
pub fn get_diskutil_info(device_path: &str, plist_output: &Option<Vec<u8>>) -> (r: Result<StorageDevice, PlatformError>)
    ensures
        match diskutil_info_result(device_path@, match plist_output { Some(b) => Some(b@), None => None }) {
            Ok(d) => r matches Ok(x) && x@ == d,
            Err(e) => r matches Err(x) && x@ == e,
        },
{
    let bytes = match plist_output {
        Some(b) => b,
        None => return Err(PlatformError::DiskutilFailed),
    };
    let es = match parse_plist(bytes.as_slice()) {
        PlistDocument::Invalid => return Err(PlatformError::PlistParseFailed),
        PlistDocument::NotDictionary => return Err(PlatformError::PlistNotDictionary),
        PlistDocument::Dictionary(es) => es,
    };
    let model = match string_entry(&es, "MediaName") {
        Some(s) => s,
        None => match string_entry(&es, "DeviceIdentifier") {
            Some(s) => s,
            None => String::from_str("Unknown"),
        },
    };
    let serial = match string_entry(&es, "SerialNumber") {
        Some(s) => s,
        None => String::from_str("Unknown"),
    };
    let capacity: u64 = match signed_entry(&es, "TotalSize") {
        Some(v) => v as u64,
        None => 0,
    };
    let is_removable = bool_entry(&es, "Removable") == Some(true);
    let protocol = string_entry(&es, "Protocol");
    let device_type = if bool_entry(&es, "SolidState") == Some(true) {
        DeviceType::SSD
    } else if match &protocol {
        Some(p) => contains_chars(&chars_of(p.as_str()), &chars_of("USB")),
        None => false,
    } {
        DeviceType::USB
    } else {
        DeviceType::HDD
    };
    let interface = match protocol {
        Some(s) => s,
        None => String::from_str("Unknown"),
    };
    Ok(StorageDevice {
        path: String::from_str(device_path),
        model,
        serial,
        capacity,
        device_type,
        is_removable,
        interface,
    })
}

/// The node of disk number `i`: "/dev/disk{i}".
pub fn disk_path(i: u32) -> (s: String)
    ensures
        s@ == "/dev/disk"@ + decimal(i as nat),
{
    let mut s = String::from_str("/dev/disk");
    push_decimal(&mut s, i as u128);
    s
}

/// A disk node that exists, and what `diskutil info -plist` printed for it
/// (`None` when the command could not run or failed).
#[derive(Debug, Clone)]
pub struct DiskProbe {
    pub path: String,
    pub plist_output: Option<Vec<u8>>,
}

/// The devices among the probes: those whose diskutil information parses
/// and reports a positive capacity, in order.
pub open spec fn probed_devices(ps: Seq<DiskProbe>) -> Seq<StorageDeviceView>
    decreases ps.len(),
{
    if ps.len() == 0 {
        Seq::empty()
    } else {
        let p = ps.last();
        let rest = probed_devices(ps.drop_last());
        match diskutil_info_result(p.path@, match p.plist_output { Some(b) => Some(b@), None => None }) {
            Ok(d) => if d.capacity > 0 {
                rest.push(d)
            } else {
                rest
            },
            Err(_) => rest,
        }
    }
}

/// Every disk found through diskutil has a positive capacity.
pub proof fn lemma_probed_devices_have_capacity(ps: Seq<DiskProbe>, i: int)
    requires
        0 <= i < probed_devices(ps).len(),
    ensures
        probed_devices(ps)[i].capacity > 0,
    decreases ps.len(),
{
    if i < probed_devices(ps.drop_last()).len() {
        lemma_probed_devices_have_capacity(ps.drop_last(), i);
    }
}

/// The storage devices among the probed disk nodes.
pub fn detect_devices(probes: &Vec<DiskProbe>) -> (ds: Vec<StorageDevice>)
    ensures
        ds@.map_values(|d: StorageDevice| d@) == probed_devices(probes@),
{
    let mut ds: Vec<StorageDevice> = Vec::new();
    let mut i: usize = 0;
    while i < probes.len()
        invariant
            i <= probes@.len(),
            ds@.map_values(|d: StorageDevice| d@) == probed_devices(probes@.take(i as int)),
        decreases probes@.len() - i,
    {
        assert(probes@.take(i + 1).drop_last() =~= probes@.take(i as int));
        let ghost prev = ds@;
        match get_diskutil_info(probes[i].path.as_str(), &probes[i].plist_output) {
            Ok(d) => {
                if d.capacity > 0 {
                    ds.push(d);
                    assert(ds@.map_values(|d: StorageDevice| d@) =~= prev.map_values(|d: StorageDevice| d@).push(d@));
                }
            },
            Err(_) => {},
        }
        i = i + 1;
    }
    assert(probes@.take(probes@.len() as int) =~= probes@);
    ds
}

/// Whether `diskutil info` output shows a mounted volume.
pub open spec fn diskutil_shows_mounted(output: Seq<char>) -> bool {
    contains(output, "Mounted: Yes"@) || contains(output, "Volume Name:"@)
}

/// Whether the device is mounted, given the text `diskutil info <path>`
/// printed.
pub fn is_device_mounted(diskutil_output: &str) -> (b: bool)
    ensures
        b == diskutil_shows_mounted(diskutil_output@),
{
    let out = chars_of(diskutil_output);
    contains_chars(&out, &chars_of("Mounted: Yes")) || contains_chars(&out, &chars_of("Volume Name:"))
}

} // verus!
