use hddllfrt::device::nvme::NvmeSmartLog;
use hddllfrt::device::HealthStatus;

fn page() -> Vec<u8> {
    let mut d = vec![0u8; 512];
    d[0] = 0; // critical warning
    d[1] = 0x2C; // 300 K = 0x012C
    d[2] = 0x01;
    d[3] = 50; // available spare
    d[4] = 10; // threshold
    d[5] = 3; // percent used
    d[32] = 0x10; // data units read = 16
    d[48] = 0x20; // data units written = 32
    d[112] = 7; // power cycles
    d[128] = 0x39; // power on hours = 1337 + 2^64
    d[129] = 0x05;
    d[136] = 1;
    d[144] = 2; // unsafe shutdowns
    d[160] = 0; // media errors
    d[192] = 0x78; // warning temp time = 0x12345678
    d[193] = 0x56;
    d[194] = 0x34;
    d[195] = 0x12;
    d[200] = 0x2C; // temp sensor 1 = 300
    d[201] = 0x01;
    d[511] = 0xEE;
    d
}

#[test]
fn nvme_parse_requires_512_bytes() {
    assert!(NvmeSmartLog::parse(&[0u8; 511]).is_none());
    assert!(NvmeSmartLog::parse(&[0u8; 512]).is_some());
}

#[test]
fn nvme_parse_reads_fields_little_endian() {
    let log = NvmeSmartLog::parse(&page()).unwrap();
    assert_eq!(log.composite_temp, [0x2C, 0x01]);
    assert_eq!(log.available_spare, 50);
    assert_eq!(log.available_spare_threshold, 10);
    let w = log.warning_composite_temp_time;
    assert_eq!(w, 0x12345678);
    let t = log.temp_sensor_1;
    assert_eq!(t, 300);
    assert_eq!(log.reserved2[279], 0xEE);
}

#[test]
fn nvme_to_smart_data_attributes() {
    let log = NvmeSmartLog::parse(&page()).unwrap();
    let s = log.to_smart_data();
    assert_eq!(s.attributes.len(), 10);
    let ids: Vec<u8> = s.attributes.iter().map(|a| a.id).collect();
    assert_eq!(ids, vec![1, 2, 3, 4, 5, 6, 7, 8, 9, 10]);
    assert_eq!(s.attributes[0].name, "Critical Warning");
    assert_eq!(s.attributes[1].name, "Temperature (C)");
    assert_eq!(s.attributes[1].raw_value, 27);
    assert_eq!(s.attributes[2].value, 50);
    assert_eq!(s.attributes[2].threshold, 10);
    assert_eq!(s.attributes[3].value, 97);
    assert_eq!(s.attributes[3].raw_value, 3);
    assert_eq!(s.attributes[4].raw_value, 16);
    assert_eq!(s.attributes[5].raw_value, 32);
    assert_eq!(s.attributes[6].raw_value, 7);
    // Only the low 64 bits of the 128-bit counter are kept.
    assert_eq!(s.attributes[7].raw_value, 1337);
    assert_eq!(s.attributes[8].raw_value, 2);
    assert_eq!(s.attributes[9].name, "Media and Data Integrity Errors");
    assert_eq!(s.health_status, HealthStatus::Good);
    assert_eq!(s.temperature, Some(27));
    assert_eq!(s.power_on_hours, Some(1337));
}

#[test]
fn nvme_health_warnings() {
    let mut d = page();
    d[0] = 0x04;
    assert_eq!(NvmeSmartLog::parse(&d).unwrap().to_smart_data().health_status, HealthStatus::Warning);
    let mut d = page();
    d[3] = 5;
    assert_eq!(NvmeSmartLog::parse(&d).unwrap().to_smart_data().health_status, HealthStatus::Warning);
    let mut d = page();
    d[3] = 10;
    assert_eq!(NvmeSmartLog::parse(&d).unwrap().to_smart_data().health_status, HealthStatus::Good);
}

#[test]
fn nvme_temperature_below_freezing_point_clamps() {
    let mut d = page();
    d[1] = 200;
    d[2] = 0;
    let s = NvmeSmartLog::parse(&d).unwrap().to_smart_data();
    assert_eq!(s.temperature, Some(0));
    assert_eq!(s.attributes[1].raw_value, 0);
}

#[test]
fn nvme_percentage_used_over_100() {
    let mut d = page();
    d[5] = 150;
    let s = NvmeSmartLog::parse(&d).unwrap().to_smart_data();
    assert_eq!(s.attributes[3].value, 0);
    assert_eq!(s.attributes[3].raw_value, 150);
}
