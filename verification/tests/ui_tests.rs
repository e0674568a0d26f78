use hddllfrt::ui::flow::{flow_step, DestructiveOperation, FlowAction, FlowEvent, FlowStage};
use hddllfrt::device::{DeviceType, HealthStatus, SmartAttribute, StorageDevice};
use hddllfrt::ui::{
    after_final_confirmation, after_first_confirmation, attribute_line, check_prerequisites,
    device_detail_lines, device_index_label, final_confirmation_prompt, health_label,
    is_valid_pass_count, main_menu_labels, power_on_line, secure_erase_operation_name,
    temperature_line, ConfirmStep, MainMenuChoice, PrerequisiteError,
};

fn device() -> StorageDevice {
    StorageDevice {
        path: "/dev/sda".to_string(),
        model: "TestDrive".to_string(),
        serial: "ABC123".to_string(),
        capacity: 1024 * 1024 * 1024,
        device_type: DeviceType::HDD,
        is_removable: false,
        interface: "SATA".to_string(),
    }
}

#[test]
fn main_menu_selection() {
    assert_eq!(MainMenuChoice::from_selection(0), MainMenuChoice::ListDevices);
    assert_eq!(MainMenuChoice::from_selection(3), MainMenuChoice::SecureErase);
    assert_eq!(MainMenuChoice::from_selection(5), MainMenuChoice::ViewSmart);
    assert_eq!(MainMenuChoice::from_selection(6), MainMenuChoice::Exit);
    assert_eq!(MainMenuChoice::from_selection(42), MainMenuChoice::Exit);
    let labels = main_menu_labels();
    assert_eq!(labels.len(), 7);
    assert_eq!(labels[3], "Secure Erase (Multiple Passes)");
    assert_eq!(labels[6], "Exit");
}

#[test]
fn prerequisites() {
    let d = device();
    assert!(matches!(check_prerequisites(&d, false, Ok(false)), Err(PrerequisiteError::NotAdmin)));
    assert!(check_prerequisites(&d, true, Ok(false)).is_ok());
    match check_prerequisites(&d, true, Ok(true)) {
        Err(e @ PrerequisiteError::Mounted { .. }) => assert_eq!(
            e.message(),
            "Device /dev/sda is currently mounted!\nPlease unmount all partitions before proceeding."
        ),
        _ => panic!("expected a mounted error"),
    }
    match check_prerequisites(&d, true, Err("cannot read /proc/mounts".to_string())) {
        Err(PrerequisiteError::MountCheckFailed { reason }) => assert_eq!(reason, "cannot read /proc/mounts"),
        _ => panic!("expected a mount check failure"),
    }
    assert!(PrerequisiteError::NotAdmin.message().starts_with("This operation requires administrator/root privileges.\n"));
}

#[test]
fn two_step_confirmation() {
    assert_eq!(after_first_confirmation(false), ConfirmStep::Cancelled);
    assert_eq!(after_first_confirmation(true), ConfirmStep::AskFinal);
    assert_eq!(after_final_confirmation(true), ConfirmStep::Confirmed);
    assert_eq!(after_final_confirmation(false), ConfirmStep::Cancelled);
    assert_eq!(
        final_confirmation_prompt("LOW LEVEL FORMAT", "/dev/sda"),
        "Are you ABSOLUTELY SURE you want to LOW LEVEL FORMAT /dev/sda?"
    );
}

#[test]
fn secure_erase_pass_counts() {
    assert!(!is_valid_pass_count(0));
    assert!(is_valid_pass_count(1));
    assert!(is_valid_pass_count(10));
    assert!(!is_valid_pass_count(11));
    assert_eq!(secure_erase_operation_name(3), "SECURE ERASE (3 passes)");
}

#[test]
fn smart_lines() {
    assert_eq!(health_label(HealthStatus::Good), "Good");
    assert_eq!(health_label(HealthStatus::Critical), "Critical");
    let a = SmartAttribute {
        id: 3,
        name: "Available Spare (%)".to_string(),
        value: 100,
        worst: 0,
        threshold: 10,
        raw_value: 100,
    };
    assert_eq!(attribute_line(&a), "  Available Spare (%): 100 (Value: 100, Worst: 0, Threshold: 10)");
    assert_eq!(temperature_line(35), "Temperature:   35°C");
    assert_eq!(temperature_line(-5), "Temperature:   -5°C");
    assert_eq!(power_on_line(1337), "Power On Time: 1337 hours");
}

#[test]
fn device_listing_lines() {
    let lines = device_detail_lines(&device());
    assert_eq!(
        lines,
        vec![
            "    Path:      /dev/sda",
            "    Serial:    ABC123",
            "    Capacity:  1.00 GiB",
            "    Type:      HDD",
            "    Interface: SATA",
            "    Removable: No",
        ]
    );
    assert_eq!(device_index_label(0), "[1]");
}

#[test]
fn destructive_flow_reaches_perform_only_after_checks() {
    let op = DestructiveOperation::SecureErase;
    let (s, a) = flow_step(op, FlowStage::Detecting, FlowEvent::DevicesDetected(2));
    assert_eq!((s, a), (FlowStage::Selecting, FlowAction::SelectDevice));
    let (s, a) = flow_step(op, s, FlowEvent::DeviceSelected);
    assert_eq!(a, FlowAction::CheckPrerequisites);
    let (s, a) = flow_step(op, s, FlowEvent::PrerequisitesChecked(true));
    assert_eq!(a, FlowAction::ChoosePasses);
    let (s, a) = flow_step(op, s, FlowEvent::PassesChosen);
    assert_eq!(a, FlowAction::Confirm);
    let (s, a) = flow_step(op, s, FlowEvent::ConfirmationAnswered(true));
    assert_eq!(a, FlowAction::Perform);
    let (s, a) = flow_step(op, s, FlowEvent::OperationCompleted);
    assert_eq!((s, a), (FlowStage::Finished, FlowAction::Finish));
}

#[test]
fn destructive_flow_stops_early() {
    let op = DestructiveOperation::LowLevelFormat;
    assert_eq!(
        flow_step(op, FlowStage::Detecting, FlowEvent::DevicesDetected(0)),
        (FlowStage::Finished, FlowAction::ReportNoDevices)
    );
    assert_eq!(
        flow_step(op, FlowStage::CheckingPrerequisites, FlowEvent::PrerequisitesChecked(false)),
        (FlowStage::Finished, FlowAction::ReportPrerequisiteError)
    );
    assert_eq!(
        flow_step(op, FlowStage::CheckingPrerequisites, FlowEvent::PrerequisitesChecked(true)),
        (FlowStage::Confirming, FlowAction::Confirm)
    );
    assert_eq!(
        flow_step(op, FlowStage::Confirming, FlowEvent::ConfirmationAnswered(false)),
        (FlowStage::Finished, FlowAction::ReportCancelled)
    );
    // An event out of place ends the operation without performing it.
    assert_eq!(
        flow_step(op, FlowStage::Selecting, FlowEvent::ConfirmationAnswered(true)),
        (FlowStage::Finished, FlowAction::Finish)
    );
}
