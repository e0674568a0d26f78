//! The NVMe S.M.A.R.T. / Health Information log page (512 bytes) and its
//! reading as S.M.A.R.T. attributes.

use crate::bytes::{
    copy_bytes, le_nat, lemma_le_nat_bound, lemma_le_nat_split, pow256, read_le, read_u16_le,
    read_u32_le,
};
use crate::device::{
    HealthStatus, SmartAttribute, SmartAttributeView, SmartData, SmartDataView,
};
use vstd::arithmetic::div_mod::lemma_fundamental_div_mod_converse;
use vstd::prelude::*;

verus! {

/// NVMe Admin Command Opcodes
pub const NVME_ADMIN_GET_LOG_PAGE: u8 = 0x02;

pub const NVME_ADMIN_IDENTIFY: u8 = 0x06;

/// NVMe Log Identifiers
pub const NVME_LOG_ERROR_INFO: u8 = 0x01;

pub const NVME_LOG_SMART_HEALTH: u8 = 0x02;

pub const NVME_LOG_FW_SLOT: u8 = 0x03;

/// Size in bytes of the S.M.A.R.T. / Health Information log page.
pub const NVME_SMART_LOG_SIZE: usize = 512;

/// NVMe Smart Log Page (512 bytes), NVM Express Base Specification,
/// Section 5.14.1.2. Multi-byte counters are little endian.
#[derive(Debug, Clone, Copy)]
pub struct NvmeSmartLog {
    pub critical_warning: u8,
    pub composite_temp: [u8; 2],
    pub available_spare: u8,
    pub available_spare_threshold: u8,
    pub percent_used: u8,
    pub endurance_group_critical_warning_summary: u8,
    pub reserved1: [u8; 25],
    pub data_units_read: [u8; 16],
    pub data_units_written: [u8; 16],
    pub host_read_commands: [u8; 16],
    pub host_write_commands: [u8; 16],
    pub controller_busy_time: [u8; 16],
    pub power_cycles: [u8; 16],
    pub power_on_hours: [u8; 16],
    pub unsafe_shutdowns: [u8; 16],
    pub media_errors: [u8; 16],
    pub num_error_info_log_entries: [u8; 16],
    pub warning_composite_temp_time: u32,
    pub critical_composite_temp_time: u32,
    pub temp_sensor_1: u16,
    pub temp_sensor_2: u16,
    pub temp_sensor_3: u16,
    pub temp_sensor_4: u16,
    pub temp_sensor_5: u16,
    pub temp_sensor_6: u16,
    pub temp_sensor_7: u16,
    pub temp_sensor_8: u16,
    pub thermal_management_temp1_transition_count: u32,
    pub thermal_management_temp2_transition_count: u32,
    pub thermal_management_temp1_total_time: u32,
    pub thermal_management_temp2_total_time: u32,
    pub reserved2: [u8; 280],
}

/// `log` holds, field by field, the log page laid out in `d` (the packed
/// layout of the NVMe specification, little-endian numbers).
pub open spec fn decodes_from(log: NvmeSmartLog, d: Seq<u8>) -> bool {
    &&& log.critical_warning == d[0]
    &&& log.composite_temp@ == d.subrange(1, 3)
    &&& log.available_spare == d[3]
    &&& log.available_spare_threshold == d[4]
    &&& log.percent_used == d[5]
    &&& log.endurance_group_critical_warning_summary == d[6]
    &&& log.reserved1@ == d.subrange(7, 32)
    &&& log.data_units_read@ == d.subrange(32, 48)
    &&& log.data_units_written@ == d.subrange(48, 64)
    &&& log.host_read_commands@ == d.subrange(64, 80)
    &&& log.host_write_commands@ == d.subrange(80, 96)
    &&& log.controller_busy_time@ == d.subrange(96, 112)
    &&& log.power_cycles@ == d.subrange(112, 128)
    &&& log.power_on_hours@ == d.subrange(128, 144)
    &&& log.unsafe_shutdowns@ == d.subrange(144, 160)
    &&& log.media_errors@ == d.subrange(160, 176)
    &&& log.num_error_info_log_entries@ == d.subrange(176, 192)
    &&& log.warning_composite_temp_time as nat == le_nat(d.subrange(192, 196))
    &&& log.critical_composite_temp_time as nat == le_nat(d.subrange(196, 200))
    &&& log.temp_sensor_1 as nat == le_nat(d.subrange(200, 202))
    &&& log.temp_sensor_2 as nat == le_nat(d.subrange(202, 204))
    &&& log.temp_sensor_3 as nat == le_nat(d.subrange(204, 206))
    &&& log.temp_sensor_4 as nat == le_nat(d.subrange(206, 208))
    &&& log.temp_sensor_5 as nat == le_nat(d.subrange(208, 210))
    &&& log.temp_sensor_6 as nat == le_nat(d.subrange(210, 212))
    &&& log.temp_sensor_7 as nat == le_nat(d.subrange(212, 214))
    &&& log.temp_sensor_8 as nat == le_nat(d.subrange(214, 216))
    &&& log.thermal_management_temp1_transition_count as nat == le_nat(d.subrange(216, 220))
    &&& log.thermal_management_temp2_transition_count as nat == le_nat(d.subrange(220, 224))
    &&& log.thermal_management_temp1_total_time as nat == le_nat(d.subrange(224, 228))
    &&& log.thermal_management_temp2_total_time as nat == le_nat(d.subrange(228, 232))
    &&& log.reserved2@ == d.subrange(232, 512)
}

/// The low 64 bits of a little-endian counter.
pub open spec fn low_u64(bytes: Seq<u8>) -> u64 {
    (le_nat(bytes) % 0x1_0000_0000_0000_0000) as u64
}

/// Composite temperature in Kelvin.
pub open spec fn kelvin(log: NvmeSmartLog) -> nat {
    le_nat(log.composite_temp@)
}

/// Composite temperature in degrees Celsius (0 below 273 K).
pub open spec fn celsius(log: NvmeSmartLog) -> i32 {
    if kelvin(log) >= 273 {
        (kelvin(log) - 273) as i32
    } else {
        0
    }
}

/// An attribute with a zero `worst`.
pub open spec fn attr(id: u8, name: Seq<char>, value: u8, threshold: u8, raw: u64) -> SmartAttributeView {
    SmartAttributeView { id, name, value, worst: 0, threshold, raw_value: raw }
}

/// The ten attributes reported for an NVMe log page.
pub open spec fn nvme_attributes(log: NvmeSmartLog) -> Seq<SmartAttributeView> {
    seq![
        attr(1, "Critical Warning"@, 0, 0, log.critical_warning as u64),
        attr(2, "Temperature (C)"@, 0, 0, celsius(log) as u64),
        attr(3, "Available Spare (%)"@, log.available_spare, log.available_spare_threshold, log.available_spare as u64),
        attr(4, "Percentage Used (%)"@, (if log.percent_used <= 100 { 100 - log.percent_used } else { 0 }) as u8, 0, log.percent_used as u64),
        attr(5, "Data Units Read"@, 0, 0, low_u64(log.data_units_read@)),
        attr(6, "Data Units Written"@, 0, 0, low_u64(log.data_units_written@)),
        attr(7, "Power Cycles"@, 0, 0, low_u64(log.power_cycles@)),
        attr(8, "Power On Hours"@, 0, 0, low_u64(log.power_on_hours@)),
        attr(9, "Unsafe Shutdowns"@, 0, 0, low_u64(log.unsafe_shutdowns@)),
        attr(10, "Media and Data Integrity Errors"@, 0, 0, low_u64(log.media_errors@)),
    ]
}

/// Health status of a log page: `Warning` when any critical-warning bit is
/// set or the available spare is below its threshold, `Good` otherwise.
pub open spec fn nvme_health(log: NvmeSmartLog) -> HealthStatus {
    if log.critical_warning != 0 {
        HealthStatus::Warning
    } else if log.available_spare < log.available_spare_threshold {
        HealthStatus::Warning
    } else {
        HealthStatus::Good
    }
}

/// The S.M.A.R.T. data an NVMe log page yields.
pub open spec fn nvme_smart_view(log: NvmeSmartLog) -> SmartDataView {
    SmartDataView {
        attributes: nvme_attributes(log),
        health_status: nvme_health(log),
        temperature: Some(celsius(log)),
        power_on_hours: Some(low_u64(log.power_on_hours@)),
    }
}

/// The low 64 bits of a counter of at least 8 bytes are its first 8 bytes.
pub proof fn lemma_low_u64(s: Seq<u8>)
    requires
        s.len() >= 8,
    ensures
        low_u64(s) as nat == le_nat(s.subrange(0, 8)),
{
    lemma_le_nat_split(s, 8);
    lemma_le_nat_bound(s.subrange(0, 8));
    reveal_with_fuel(pow256, 9);
    let lo = le_nat(s.subrange(0, 8));
    let hi = le_nat(s.subrange(8, s.len() as int));
    assert(pow256(8) == 0x1_0000_0000_0000_0000);
    assert(le_nat(s) == hi * 0x1_0000_0000_0000_0000 + lo) by (nonlinear_arith)
        requires
            le_nat(s) == lo + pow256(8) * hi,
            pow256(8) == 0x1_0000_0000_0000_0000,
    ;
    lemma_fundamental_div_mod_converse(le_nat(s) as int, 0x1_0000_0000_0000_0000, hi as int, lo as int);
}

/// The S.M.A.R.T. data of a decoded log page reads each attribute from its
/// place in the page: attribute ids run from 1 to 10; the critical warning
/// is byte 0, the spare and its threshold bytes 3 and 4, the percentage used
/// byte 5; each counter attribute carries the first 8 bytes (little endian)
/// of its 16-byte field: data units read at 32, written at 48, power cycles
/// at 112, power-on hours at 128, unsafe shutdowns at 144 and media errors
/// at 160. The temperature is the Kelvin value of bytes 1..3 less 273
/// (0 below 273 K), and the health is `Good` exactly when byte 0 is zero and
/// the spare is not below its threshold, `Warning` otherwise.
pub proof fn lemma_smart_data_reads_page(d: Seq<u8>, log: NvmeSmartLog)
    requires
        d.len() >= 512,
        decodes_from(log, d),
    ensures
        nvme_smart_view(log).attributes.len() == 10,
        forall|i: int| 0 <= i < 10 ==> (#[trigger] nvme_smart_view(log).attributes[i]).id == i + 1,
        nvme_smart_view(log).attributes[0].raw_value == d[0],
        nvme_smart_view(log).attributes[2].value == d[3],
        nvme_smart_view(log).attributes[2].threshold == d[4],
        nvme_smart_view(log).attributes[2].raw_value == d[3],
        nvme_smart_view(log).attributes[3].raw_value == d[5],
        nvme_smart_view(log).attributes[4].raw_value as nat == le_nat(d.subrange(32, 40)),
        nvme_smart_view(log).attributes[5].raw_value as nat == le_nat(d.subrange(48, 56)),
        nvme_smart_view(log).attributes[6].raw_value as nat == le_nat(d.subrange(112, 120)),
        nvme_smart_view(log).attributes[7].raw_value as nat == le_nat(d.subrange(128, 136)),
        nvme_smart_view(log).attributes[8].raw_value as nat == le_nat(d.subrange(144, 152)),
        nvme_smart_view(log).attributes[9].raw_value as nat == le_nat(d.subrange(160, 168)),
        nvme_smart_view(log).attributes[9].name == "Media and Data Integrity Errors"@,
        nvme_smart_view(log).power_on_hours matches Some(h) && h as nat == le_nat(d.subrange(128, 136)),
        d[1] + 256 * d[2] >= 273 ==> nvme_smart_view(log).temperature == Some((d[1] + 256 * d[2] - 273) as i32),
        d[1] + 256 * d[2] < 273 ==> nvme_smart_view(log).temperature == Some(0i32),
        (nvme_smart_view(log).health_status == HealthStatus::Good) <==> (d[0] == 0 && d[3] >= d[4]),
        (nvme_smart_view(log).health_status == HealthStatus::Warning) <==> !(d[0] == 0 && d[3] >= d[4]),
{
    let a = nvme_smart_view(log).attributes;
    assert forall|i: int| 0 <= i < 10 implies (#[trigger] a[i]).id == i + 1 by {
        if i == 0 {} else if i == 1 {} else if i == 2 {} else if i == 3 {} else if i == 4 {}
        else if i == 5 {} else if i == 6 {} else if i == 7 {} else if i == 8 {} else {}
    }
    lemma_low_u64(log.data_units_read@);
    lemma_low_u64(log.data_units_written@);
    lemma_low_u64(log.power_cycles@);
    lemma_low_u64(log.power_on_hours@);
    lemma_low_u64(log.unsafe_shutdowns@);
    lemma_low_u64(log.media_errors@);
    assert(log.data_units_read@.subrange(0, 8) =~= d.subrange(32, 40));
    assert(log.data_units_written@.subrange(0, 8) =~= d.subrange(48, 56));
    assert(log.power_cycles@.subrange(0, 8) =~= d.subrange(112, 120));
    assert(log.power_on_hours@.subrange(0, 8) =~= d.subrange(128, 136));
    assert(log.unsafe_shutdowns@.subrange(0, 8) =~= d.subrange(144, 152));
    assert(log.media_errors@.subrange(0, 8) =~= d.subrange(160, 168));
    assert(kelvin(log) == d[1] + 256 * d[2]) by {
        reveal_with_fuel(le_nat, 3);
        assert(log.composite_temp@[0] == d[1]);
        assert(log.composite_temp@[1] == d[2]);
    }
}

fn counter_low_u64(counter: &[u8; 16]) -> (v: u64)
    ensures
        v == low_u64(counter@),
{
    let v = read_le(counter.as_slice(), 0, 8);
    proof {
        lemma_low_u64(counter@);
    }
    v
}

fn make_attribute(id: u8, name: &str, value: u8, threshold: u8, raw: u64) -> (a: SmartAttribute)
    ensures
        a@ == attr(id, name@, value, threshold, raw),
{
    SmartAttribute { id, name: String::from_str(name), value, worst: 0, threshold, raw_value: raw }
}

impl NvmeSmartLog {
    /// Decodes a log page; `None` when fewer than 512 bytes are given.
    pub fn parse(data: &[u8]) -> (r: Option<Self>)
        ensures
            r is Some <==> data@.len() >= 512,
            r matches Some(log) ==> decodes_from(log, data@),
    {
        if data.len() < 512 {
            return None;
        }
        let log = NvmeSmartLog {
            critical_warning: data[0],
            composite_temp: copy_bytes::<2>(data, 1),
            available_spare: data[3],
            available_spare_threshold: data[4],
            percent_used: data[5],
            endurance_group_critical_warning_summary: data[6],
            reserved1: copy_bytes::<25>(data, 7),
            data_units_read: copy_bytes::<16>(data, 32),
            data_units_written: copy_bytes::<16>(data, 48),
            host_read_commands: copy_bytes::<16>(data, 64),
            host_write_commands: copy_bytes::<16>(data, 80),
            controller_busy_time: copy_bytes::<16>(data, 96),
            power_cycles: copy_bytes::<16>(data, 112),
            power_on_hours: copy_bytes::<16>(data, 128),
            unsafe_shutdowns: copy_bytes::<16>(data, 144),
            media_errors: copy_bytes::<16>(data, 160),
            num_error_info_log_entries: copy_bytes::<16>(data, 176),
            warning_composite_temp_time: read_u32_le(data, 192),
            critical_composite_temp_time: read_u32_le(data, 196),
            temp_sensor_1: read_u16_le(data, 200),
            temp_sensor_2: read_u16_le(data, 202),
            temp_sensor_3: read_u16_le(data, 204),
            temp_sensor_4: read_u16_le(data, 206),
            temp_sensor_5: read_u16_le(data, 208),
            temp_sensor_6: read_u16_le(data, 210),
            temp_sensor_7: read_u16_le(data, 212),
            temp_sensor_8: read_u16_le(data, 214),
            thermal_management_temp1_transition_count: read_u32_le(data, 216),
            thermal_management_temp2_transition_count: read_u32_le(data, 220),
            thermal_management_temp1_total_time: read_u32_le(data, 224),
            thermal_management_temp2_total_time: read_u32_le(data, 228),
            reserved2: copy_bytes::<280>(data, 232),
        };
        Some(log)
    }

    /// The S.M.A.R.T. data of the log page: ten attributes, the
    /// health verdict, the temperature in Celsius and the power-on hours.
    pub fn to_smart_data(&self) -> (r: SmartData)
        ensures
            r@ == nvme_smart_view(*self),
    {
        let mut attributes: Vec<SmartAttribute> = Vec::new();
        attributes.push(make_attribute(1, "Critical Warning", 0, 0, self.critical_warning as u64));

        let temp_k: u16 = self.composite_temp[0] as u16 + 256 * (self.composite_temp[1] as u16);
        proof {
            reveal_with_fuel(le_nat, 3);
            assert(temp_k as nat == kelvin(*self));
        }
        let temp_c: i32 = if temp_k >= 273 { temp_k as i32 - 273 } else { 0 };
        attributes.push(make_attribute(2, "Temperature (C)", 0, 0, temp_c as u64));

        attributes.push(make_attribute(3, "Available Spare (%)", self.available_spare,
            self.available_spare_threshold, self.available_spare as u64));
        attributes.push(make_attribute(4, "Percentage Used (%)", 100u8.saturating_sub(self.percent_used),
            0, self.percent_used as u64));
        attributes.push(make_attribute(5, "Data Units Read", 0, 0, counter_low_u64(&self.data_units_read)));
        attributes.push(make_attribute(6, "Data Units Written", 0, 0, counter_low_u64(&self.data_units_written)));
        attributes.push(make_attribute(7, "Power Cycles", 0, 0, counter_low_u64(&self.power_cycles)));
        let power_hours = counter_low_u64(&self.power_on_hours);
        attributes.push(make_attribute(8, "Power On Hours", 0, 0, power_hours));
        attributes.push(make_attribute(9, "Unsafe Shutdowns", 0, 0, counter_low_u64(&self.unsafe_shutdowns)));
        attributes.push(make_attribute(10, "Media and Data Integrity Errors", 0, 0,
            counter_low_u64(&self.media_errors)));

        let health_status = if self.critical_warning != 0 {
            HealthStatus::Warning
        } else if self.available_spare < self.available_spare_threshold {
            HealthStatus::Warning
        } else {
            HealthStatus::Good
        };
        let r = SmartData {
            attributes,
            health_status,
            temperature: Some(temp_c),
            power_on_hours: Some(power_hours),
        };
        proof {
            assert(r@.attributes =~= nvme_attributes(*self));
        }
        r
    }
}

} // verus!
