use hddllfrt::device::operations::{
    erase_with_pattern, low_level_format, quick_format, secure_erase, secure_erase_pattern,
    verify_device, ReadOutcome, VerifyStep, ERASE_BUFFER_SIZE, QUICK_FORMAT_BUFFER_SIZE,
};
use hddllfrt::device::{DeviceType, StorageDevice};

fn device(capacity: u64) -> StorageDevice {
    StorageDevice {
        path: "/dev/sdz".to_string(),
        model: "M".to_string(),
        serial: "S".to_string(),
        capacity,
        device_type: DeviceType::HDD,
        is_removable: false,
        interface: "SATA".to_string(),
    }
}

#[test]
fn low_level_format_zero_fills_whole_device() {
    let p = low_level_format(&device(12345));
    assert_eq!(p.pattern, 0);
    assert_eq!(p.total_bytes, 12345);
}

#[test]
fn erase_chunks_cover_device_exactly() {
    let total = 2 * 1024 * 1024u64 + 4096;
    let p = erase_with_pattern(&device(total), 0xAB);
    let mut current = 0u64;
    let mut chunks = Vec::new();
    while current < p.total_bytes {
        let n = p.next_chunk(current);
        chunks.push(n);
        current += n as u64;
    }
    assert_eq!(current, total);
    assert_eq!(ERASE_BUFFER_SIZE, 1024 * 1024);
    assert_eq!(chunks, vec![ERASE_BUFFER_SIZE, ERASE_BUFFER_SIZE, 4096]);
    let b = p.buffer();
    assert_eq!(b.len(), ERASE_BUFFER_SIZE);
    assert!(b.iter().all(|&x| x == 0xAB));
}

#[test]
fn quick_format_regions() {
    let cap = 3 * QUICK_FORMAT_BUFFER_SIZE as u64;
    assert_eq!(quick_format(&device(cap)), vec![0, 2 * QUICK_FORMAT_BUFFER_SIZE as u64]);
    assert_eq!(quick_format(&device(QUICK_FORMAT_BUFFER_SIZE as u64)), vec![0]);
    assert_eq!(quick_format(&device(1000)), vec![0]);
}

#[test]
fn secure_erase_pattern_cycle() {
    let pats: Vec<u8> = (0..6).map(secure_erase_pattern).collect();
    assert_eq!(pats, vec![0x00, 0xFF, 0xAA, 0x55, 0x00, 0xFF]);
    let plan = secure_erase(&device(4096), 3);
    assert_eq!(plan.passes, 3);
    assert_eq!(plan.pass_plan(1).pattern, 0xFF);
    assert_eq!(plan.pass_plan(1).total_bytes, 4096);
    assert_eq!(plan.pass_banner(0), "Pass 1/3: Writing pattern 0x00...");
    assert_eq!(plan.pass_banner(2), "Pass 3/3: Writing pattern 0xAA...");
    assert_eq!(plan.pass_completed(1), "Pass 2 completed");
}

#[test]
fn verify_steps() {
    let v = verify_device(&device(5 * 1024 * 1024 + 512));
    assert_eq!(v.next_read(0), Some(1024 * 1024));
    assert_eq!(v.next_read(5 * 1024 * 1024), Some(512));
    assert_eq!(v.next_read(5 * 1024 * 1024 + 512), None);
    assert_eq!(v.after_read(0, ReadOutcome::Read(4096)), VerifyStep::Continue(4096));
    // The device ending before all its bytes are read fails the verification.
    assert_eq!(v.after_read(0, ReadOutcome::Read(0)), VerifyStep::Failed);
    assert_eq!(v.after_read(5 * 1024 * 1024, ReadOutcome::Read(0)), VerifyStep::Failed);
    assert_eq!(v.after_read(0, ReadOutcome::Failed), VerifyStep::Failed);
    // Success comes with the read that reaches the last byte.
    assert_eq!(v.after_read(5 * 1024 * 1024, ReadOutcome::Read(512)), VerifyStep::Passed);
    assert_eq!(v.after_read(5 * 1024 * 1024, ReadOutcome::Read(511)), VerifyStep::Continue(5 * 1024 * 1024 + 511));
}
