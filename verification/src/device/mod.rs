//! Storage devices, their human-readable capacities, and S.M.A.R.T. data.

use crate::text::{
    decimal, digit_char, digit_to_char, digits_value, is_digit, lemma_decimal_digits, push_decimal,
};
use vstd::arithmetic::div_mod::*;
use vstd::prelude::*;

pub mod nvme;
pub mod operations;

verus! {

/// Kind of storage medium.
#[derive(Debug, Clone, Copy, PartialEq, Eq, Structural)]
pub enum DeviceType {
    HDD,
    SSD,
    NVMe,
    USB,
    Unknown,
}

/// Display name of a device type.
pub open spec fn device_type_name(t: DeviceType) -> Seq<char> {
    match t {
        DeviceType::HDD => "HDD"@,
        DeviceType::SSD => "SSD"@,
        DeviceType::NVMe => "NVMe"@,
        DeviceType::USB => "USB"@,
        DeviceType::Unknown => "Unknown"@,
    }
}

impl DeviceType {
    /// The display name of the device type ("HDD", "SSD", "NVMe", "USB", "Unknown").
    pub fn to_string(&self) -> (s: String)
        ensures
            s@ == device_type_name(*self),
    {
        match self {
            DeviceType::HDD => String::from_str("HDD"),
            DeviceType::SSD => String::from_str("SSD"),
            DeviceType::NVMe => String::from_str("NVMe"),
            DeviceType::USB => String::from_str("USB"),
            DeviceType::Unknown => String::from_str("Unknown"),
        }
    }
}

/// A physical storage device as the platform reports it.
#[derive(Debug, Clone)]
pub struct StorageDevice {
    /// Device path (e.g., /dev/sda, \\.\PhysicalDrive0)
    pub path: String,
    /// Device model name
    pub model: String,
    /// Serial number
    pub serial: String,
    /// Total capacity in bytes
    pub capacity: u64,
    /// Device type (HDD, SSD, NVMe, USB, etc.)
    pub device_type: DeviceType,
    /// Whether the device is removable
    pub is_removable: bool,
    /// Interface type (SATA, NVMe, USB, etc.)
    pub interface: String,
}

/// Mathematical value of a storage device.
pub struct StorageDeviceView {
    pub path: Seq<char>,
    pub model: Seq<char>,
    pub serial: Seq<char>,
    pub capacity: u64,
    pub device_type: DeviceType,
    pub is_removable: bool,
    pub interface: Seq<char>,
}

impl View for StorageDevice {
    type V = StorageDeviceView;

    open spec fn view(&self) -> StorageDeviceView {
        StorageDeviceView {
            path: self.path@,
            model: self.model@,
            serial: self.serial@,
            capacity: self.capacity,
            device_type: self.device_type,
            is_removable: self.is_removable,
            interface: self.interface@,
        }
    }
}

/// The user-facing name of a device: "model (capacity, type)".
pub open spec fn display_name_text(d: StorageDevice) -> Seq<char> {
    d.model@ + " ("@ + format_bytes_text(d.capacity) + ", "@ + device_type_name(d.device_type)
        + ")"@
}

impl StorageDevice {
    /// Human-readable capacity of the device.
    pub fn format_capacity(&self) -> (s: String)
        ensures
            s@ == format_bytes_text(self.capacity),
    {
        format_bytes(self.capacity)
    }

    /// A display name for the device, e.g. "TestDrive (1.00 GiB, HDD)".
    pub fn display_name(&self) -> (s: String)
        ensures
            s@ == display_name_text(*self),
    {
        let mut s = self.model.clone();
        s.append(" (");
        let cap = self.format_capacity();
        s.append(cap.as_str());
        s.append(", ");
        let t = self.device_type.to_string();
        s.append(t.as_str());
        s.append(")");
        proof {
            assert(s@ =~= display_name_text(*self));
        }
        s
    }
}

/// Overall health verdict drawn from S.M.A.R.T. data.
#[derive(Debug, Clone, Copy, PartialEq, Eq, Structural)]
pub enum HealthStatus {
    Good,
    Warning,
    Critical,
    Unknown,
}

/// One S.M.A.R.T. attribute.
#[derive(Debug, Clone)]
pub struct SmartAttribute {
    pub id: u8,
    pub name: String,
    pub value: u8,
    pub worst: u8,
    pub threshold: u8,
    pub raw_value: u64,
}

/// Mathematical value of a S.M.A.R.T. attribute.
pub struct SmartAttributeView {
    pub id: u8,
    pub name: Seq<char>,
    pub value: u8,
    pub worst: u8,
    pub threshold: u8,
    pub raw_value: u64,
}

impl View for SmartAttribute {
    type V = SmartAttributeView;

    open spec fn view(&self) -> SmartAttributeView {
        SmartAttributeView {
            id: self.id,
            name: self.name@,
            value: self.value,
            worst: self.worst,
            threshold: self.threshold,
            raw_value: self.raw_value,
        }
    }
}

/// Mathematical value of S.M.A.R.T. data.
pub struct SmartDataView {
    pub attributes: Seq<SmartAttributeView>,
    pub health_status: HealthStatus,
    pub temperature: Option<i32>,
    pub power_on_hours: Option<u64>,
}

/// S.M.A.R.T. health information of a device.
#[derive(Debug, Clone)]
pub struct SmartData {
    pub attributes: Vec<SmartAttribute>,
    pub health_status: HealthStatus,
    pub temperature: Option<i32>,
    pub power_on_hours: Option<u64>,
}

impl View for SmartData {
    type V = SmartDataView;

    open spec fn view(&self) -> SmartDataView {
        SmartDataView {
            attributes: self.attributes@.map_values(|a: SmartAttribute| a@),
            health_status: self.health_status,
            temperature: self.temperature,
            power_on_hours: self.power_on_hours,
        }
    }
}

/// 2^53: below it every integer is exactly a double.
pub open spec fn two_pow_53() -> nat {
    0x20_0000_0000_0000
}

/// Spacing of the doubles around `b` (1 below 2^53, doubling with each binade).
pub open spec fn f64_grain(b: nat) -> nat
    decreases b,
{
    if b < two_pow_53() {
        1
    } else {
        2 * f64_grain(b / 2)
    }
}

/// `n / d` rounded to the nearest integer, ties to the even neighbour.
pub open spec fn round_half_even_div(n: nat, d: nat) -> nat {
    let q = n / d;
    let r = n % d;
    if 2 * r > d || (2 * r == d && q % 2 == 1) {
        q + 1
    } else {
        q
    }
}

/// The exact value of the double nearest to `b` (ties to even), as Rust's
/// `b as f64` computes it.
pub open spec fn f64_value(b: nat) -> nat {
    round_half_even_div(b, f64_grain(b)) * f64_grain(b)
}

/// 1024 to the power `k`.
pub open spec fn pow1024(k: nat) -> nat
    decreases k,
{
    if k == 0 {
        1
    } else {
        1024 * pow1024((k - 1) as nat)
    }
}

/// Index of the binary unit for a positive value: the largest `k <= 5`
/// with `1024^k <= v`.
pub open spec fn unit_index(v: nat) -> nat {
    if v >= pow1024(5) {
        5
    } else if v >= pow1024(4) {
        4
    } else if v >= pow1024(3) {
        3
    } else if v >= pow1024(2) {
        2
    } else if v >= pow1024(1) {
        1
    } else {
        0
    }
}

/// The unit chosen for a positive value is the largest power of 1024, up
/// to 1024^5, that does not exceed it.
pub proof fn lemma_unit_index_bounds(v: nat)
    requires
        v >= 1,
    ensures
        unit_index(v) <= 5,
        pow1024(unit_index(v)) <= v,
        unit_index(v) < 5 ==> v < pow1024(unit_index(v) + 1),
{
    reveal_with_fuel(pow1024, 6);
}

/// Name of the binary unit of index `k`.
pub open spec fn unit_name(k: nat) -> Seq<char> {
    if k == 0 {
        "B"@
    } else if k == 1 {
        "KiB"@
    } else if k == 2 {
        "MiB"@
    } else if k == 3 {
        "GiB"@
    } else if k == 4 {
        "TiB"@
    } else {
        "PiB"@
    }
}

/// Two-digit rendering of a number below 100, with a leading zero.
pub open spec fn two_digits(n: nat) -> Seq<char> {
    seq![digit_char(n / 10), digit_char(n % 10)]
}

/// Human-readable rendering of a byte count: "0 B" for zero; otherwise the
/// value (as a double) divided by the largest fitting power of 1024 (at most
/// 1024^5), rounded to two decimals (ties to even), then a space and the unit.
/// The unit is chosen by exact comparison with the powers of 1024, so a
/// count just below a power keeps the smaller unit (2^50 - 1 bytes is
/// "1024.00 TiB").
pub open spec fn format_bytes_text(bytes: u64) -> Seq<char> {
    if bytes == 0 {
        "0 B"@
    } else {
        let v = f64_value(bytes as nat);
        let k = unit_index(v);
        let h = round_half_even_div(100 * v, pow1024(k));
        decimal(h / 100) + seq!['.'] + two_digits(h % 100) + seq![' '] + unit_name(k)
    }
}

/// A non-zero byte count is written as a whole part of decimal digits, a
/// '.', exactly two decimal digits (zero-padded) and a space followed by the
/// unit name. Read back as hundredths, the number written is the value of
/// the count in that unit rounded to the nearest hundredth: it differs from
/// `100 * v / 1024^k` by at most one half. The result is the position of
/// the '.'.
pub proof fn lemma_format_bytes_two_decimals(bytes: u64) -> (p: int)
    requires
        bytes != 0,
    ensures
        1 <= p,
        format_bytes_text(bytes).len() == p + 4 + unit_name(unit_index(f64_value(bytes as nat))).len(),
        forall|i: int| 0 <= i < p ==> is_digit(#[trigger] format_bytes_text(bytes)[i]),
        format_bytes_text(bytes)[p] == '.',
        is_digit(format_bytes_text(bytes)[p + 1]),
        is_digit(format_bytes_text(bytes)[p + 2]),
        format_bytes_text(bytes)[p + 3] == ' ',
        format_bytes_text(bytes).subrange(p + 4, format_bytes_text(bytes).len() as int)
            == unit_name(unit_index(f64_value(bytes as nat))),
        2 * (digits_value(format_bytes_text(bytes).subrange(0, p)) * 100
            + digits_value(format_bytes_text(bytes).subrange(p + 1, p + 3)))
            * pow1024(unit_index(f64_value(bytes as nat)))
            <= 200 * f64_value(bytes as nat) + pow1024(unit_index(f64_value(bytes as nat))),
        200 * f64_value(bytes as nat) <= 2 * (digits_value(format_bytes_text(bytes).subrange(0, p)) * 100
            + digits_value(format_bytes_text(bytes).subrange(p + 1, p + 3)))
            * pow1024(unit_index(f64_value(bytes as nat)))
            + pow1024(unit_index(f64_value(bytes as nat))),
{
    let t = format_bytes_text(bytes);
    let v = f64_value(bytes as nat);
    let k = unit_index(v);
    let d = pow1024(k);
    assert(d >= 1) by {
        reveal_with_fuel(pow1024, 6);
    }
    let h = round_half_even_div(100 * v, d);
    let w = decimal(h / 100);
    let f = two_digits(h % 100);
    let u = unit_name(k);
    lemma_decimal_digits(h / 100);
    assert(t == w + seq!['.'] + f + seq![' '] + u);
    let p = w.len() as int;
    assert(t.subrange(0, p) =~= w);
    assert(t.subrange(p + 1, p + 3) =~= f);
    assert(t.subrange(p + 4, t.len() as int) =~= u);
    assert forall|i: int| 0 <= i < p implies is_digit(#[trigger] t[i]) by {
        assert(t[i] == w[i]);
    }
    let lo = h % 100;
    assert(lo < 100);
    assert(digit_char(lo / 10) as nat == 48 + lo / 10);
    assert(digit_char(lo % 10) as nat == 48 + lo % 10);
    assert(digits_value(f) == lo) by {
        reveal_with_fuel(digits_value, 3);
        assert(f.drop_last().drop_last() =~= Seq::<char>::empty());
        assert(f.drop_last().last() == digit_char(lo / 10));
    }
    assert(h / 100 * 100 + lo == h);
    let n = 100 * v;
    let q = n / d;
    let r = n % d;
    lemma_fundamental_div_mod(n as int, d as int);
    assert(h == q || h == q + 1);
    assert(h == q ==> 2 * r <= d);
    assert(h == q + 1 ==> 2 * r >= d);
    assert(2 * h * d <= 2 * n + d && 2 * n <= 2 * h * d + d) by (nonlinear_arith)
        requires
            n == d * q + r,
            0 <= r < d,
            h == q || h == q + 1,
            h == q ==> 2 * r <= d,
            h == q + 1 ==> 2 * r >= d,
    ;
    p
}

fn round_half_even_div_u128(n: u128, d: u128) -> (r: u128)
    requires
        d > 0,
        n < 0x1_0000_0000_0000_0000_0000_0000_0000_0000 - 1,
    ensures
        r == round_half_even_div(n as nat, d as nat),
{
    let q = n / d;
    let r = n % d;
    assert(q <= n) by {
        lemma_fundamental_div_mod(n as int, d as int);
        assert(d * q >= q) by (nonlinear_arith)
            requires
                d >= 1,
        ;
    }
    if (r > d - r) || (r == d - r && q % 2 == 1) {
        q + 1
    } else {
        q
    }
}

/// The value of the double nearest to `bytes`.
fn f64_value_u64(bytes: u64) -> (v: u128)
    ensures
        v == f64_value(bytes as nat),
        v <= 2 * bytes,
{
    let mut t: u64 = bytes;
    let mut d: u128 = 1;
    while t >= 0x20_0000_0000_0000
        invariant
            d >= 1,
            t == bytes as nat / d as nat,
            f64_grain(bytes as nat) == d * f64_grain(t as nat),
            d <= bytes || d == 1,
            d <= 0x1_0000_0000_0000_0000,
        decreases t,
    {
        proof {
            lemma_div_denominator(bytes as int, d as int, 2);
            lemma_fundamental_div_mod(bytes as int, d as int);
            assert(d * t <= bytes);
            assert(2 * d <= bytes) by (nonlinear_arith)
                requires
                    d * t <= bytes,
                    t >= 2,
                    d >= 1,
            ;
            let g = f64_grain((t / 2) as nat);
            assert(f64_grain(t as nat) == 2 * g);
            assert(d * (2 * g) == (2 * d) * g) by (nonlinear_arith);
        }
        t = t / 2;
        d = d * 2;
    }
    let q = (bytes as u128) / d;
    let rounded = round_half_even_div_u128(bytes as u128, d);
    proof {
        lemma_fundamental_div_mod(bytes as int, d as int);
        assert(q == t);
        assert(f64_grain(t as nat) == 1);
        assert(f64_grain(bytes as nat) == d) by (nonlinear_arith)
            requires
                f64_grain(t as nat) == 1,
                f64_grain(bytes as nat) == d * f64_grain(t as nat),
        ;
        assert(rounded <= q + 1);
        assert(rounded * d <= 2 * bytes) by (nonlinear_arith)
            requires
                rounded <= q + 1,
                d * q <= bytes,
                d <= bytes || d == 1,
                d >= 1,
                rounded <= bytes || d > 1,
        ;
    }
    rounded * d
}

/// Formats a byte count in binary units with two decimals ("1.00 KiB",
/// "512.00 B", "0 B").
pub fn format_bytes(bytes: u64) -> (s: String)
    ensures
        s@ == format_bytes_text(bytes),
{
    if bytes == 0 {
        return String::from_str("0 B");
    }
    let v = f64_value_u64(bytes);
    let (k, unit, d): (u64, &str, u128) = if v >= 0x4_0000_0000_0000 {
        (5, "PiB", 0x4_0000_0000_0000)
    } else if v >= 0x100_0000_0000 {
        (4, "TiB", 0x100_0000_0000)
    } else if v >= 0x4000_0000 {
        (3, "GiB", 0x4000_0000)
    } else if v >= 0x10_0000 {
        (2, "MiB", 0x10_0000)
    } else if v >= 0x400 {
        (1, "KiB", 0x400)
    } else {
        (0, "B", 1)
    };
    proof {
        reveal_with_fuel(pow1024, 6);
        assert(k == unit_index(v as nat));
        assert(d == pow1024(k as nat));
    }
    let h = round_half_even_div_u128(100 * v, d);
    let frac = h % 100;
    let mut s = String::new();
    push_decimal(&mut s, h / 100);
    s.push('.');
    s.push(digit_to_char(frac / 10));
    s.push(digit_to_char(frac % 10));
    s.push(' ');
    s.append(unit);
    proof {
        assert(unit@ == unit_name(k as nat));
        assert(s@ =~= format_bytes_text(bytes));
    }
    s
}

} // verus!
