//! The decisions and texts of the interactive menu: menu choices, the
//! prerequisites of destructive operations, the two-step confirmation, and
//! the lines that describe devices and S.M.A.R.T. data.

use crate::device::{
    device_type_name, format_bytes_text, HealthStatus, SmartAttribute, StorageDevice,
};
use crate::text::{decimal, push_decimal, push_signed_decimal, signed_decimal};
use vstd::prelude::*;

pub mod flow;

verus! {

/// An entry of the main menu.
#[derive(Debug, Clone, Copy, PartialEq, Eq, Structural)]
pub enum MainMenuChoice {
    ListDevices,
    LowLevelFormat,
    QuickFormat,
    SecureErase,
    VerifyDevice,
    ViewSmart,
    Exit,
}

/// The choice at a position of the main menu (positions past the end exit).
pub open spec fn choice_at(selection: nat) -> MainMenuChoice {
    if selection == 0 {
        MainMenuChoice::ListDevices
    } else if selection == 1 {
        MainMenuChoice::LowLevelFormat
    } else if selection == 2 {
        MainMenuChoice::QuickFormat
    } else if selection == 3 {
        MainMenuChoice::SecureErase
    } else if selection == 4 {
        MainMenuChoice::VerifyDevice
    } else if selection == 5 {
        MainMenuChoice::ViewSmart
    } else {
        MainMenuChoice::Exit
    }
}

/// The labels of the main menu, in order.
pub open spec fn main_menu_label_seq() -> Seq<Seq<char>> {
    seq![
        "List Devices"@,
        "Low Level Format"@,
        "Quick Format"@,
        "Secure Erase (Multiple Passes)"@,
        "Verify Device"@,
        "View S.M.A.R.T. Data"@,
        "Exit"@,
    ]
}

impl MainMenuChoice {
    /// The choice selected at position `selection` of the main menu.
    pub fn from_selection(selection: usize) -> (c: MainMenuChoice)
        ensures
            c == choice_at(selection as nat),
    {
        match selection {
            0 => MainMenuChoice::ListDevices,
            1 => MainMenuChoice::LowLevelFormat,
            2 => MainMenuChoice::QuickFormat,
            3 => MainMenuChoice::SecureErase,
            4 => MainMenuChoice::VerifyDevice,
            5 => MainMenuChoice::ViewSmart,
            _ => MainMenuChoice::Exit,
        }
    }
}

/// The labels of the main menu, in the order of `from_selection`.
pub fn main_menu_labels() -> (v: Vec<String>)
    ensures
        v@.map_values(|s: String| s@) == main_menu_label_seq(),
{
    let mut v: Vec<String> = Vec::new();
    v.push(String::from_str("List Devices"));
    v.push(String::from_str("Low Level Format"));
    v.push(String::from_str("Quick Format"));
    v.push(String::from_str("Secure Erase (Multiple Passes)"));
    v.push(String::from_str("Verify Device"));
    v.push(String::from_str("View S.M.A.R.T. Data"));
    v.push(String::from_str("Exit"));
    assert(v@.map_values(|s: String| s@) =~= main_menu_label_seq());
    v
}

/// The text that names each operation of the main menu.
pub open spec fn choice_label(c: MainMenuChoice) -> Seq<char> {
    match c {
        MainMenuChoice::ListDevices => "List Devices"@,
        MainMenuChoice::LowLevelFormat => "Low Level Format"@,
        MainMenuChoice::QuickFormat => "Quick Format"@,
        MainMenuChoice::SecureErase => "Secure Erase (Multiple Passes)"@,
        MainMenuChoice::VerifyDevice => "Verify Device"@,
        MainMenuChoice::ViewSmart => "View S.M.A.R.T. Data"@,
        MainMenuChoice::Exit => "Exit"@,
    }
}

/// The menu shows seven entries, and selecting the entry at position `i`
/// runs the operation that its label names; a selection past the end exits.
pub proof fn lemma_menu_selection_matches_label(i: nat)
    ensures
        main_menu_label_seq().len() == 7,
        i < 7 ==> choice_label(choice_at(i)) == main_menu_label_seq()[i as int],
        i >= 7 ==> choice_at(i) == MainMenuChoice::Exit,
{
}

/// Why a destructive operation may not start.
#[derive(Debug, Clone)]
pub enum PrerequisiteError {
    /// The process lacks administrator/root privileges.
    NotAdmin,
    /// The device (or a partition of it) is mounted.
    Mounted { path: String },
    /// Whether the device is mounted could not be found out.
    MountCheckFailed { reason: String },
}

/// Text of the missing-privileges error.
pub open spec fn not_admin_text() -> Seq<char> {
    "This operation requires administrator/root privileges.\nPlease run this program with elevated permissions:\n- Linux/macOS: sudo ./hddllfrt\n- Windows: Run as Administrator"@
}

/// Text of the mounted-device error.
pub open spec fn mounted_text(path: Seq<char>) -> Seq<char> {
    "Device "@ + path + " is currently mounted!\nPlease unmount all partitions before proceeding."@
}

impl PrerequisiteError {
    /// The message shown to the user.
    pub fn message(&self) -> (s: String)
        ensures
            *self == PrerequisiteError::NotAdmin ==> s@ == not_admin_text(),
            self matches PrerequisiteError::Mounted { path } ==> s@ == mounted_text(path@),
            self matches PrerequisiteError::MountCheckFailed { reason } ==> s@ == reason@,
    {
        match self {
            PrerequisiteError::NotAdmin => String::from_str(
                "This operation requires administrator/root privileges.\nPlease run this program with elevated permissions:\n- Linux/macOS: sudo ./hddllfrt\n- Windows: Run as Administrator",
            ),
            PrerequisiteError::Mounted { path } => {
                let mut s = String::from_str("Device ");
                s.append(path.as_str());
                s.append(" is currently mounted!\nPlease unmount all partitions before proceeding.");
                s
            },
            PrerequisiteError::MountCheckFailed { reason } => String::from_str(reason.as_str()),
        }
    }
}

/// Checks the prerequisites of a destructive operation on `device`: the
/// process must be privileged (checked first), then the device must not be
/// mounted. `mounted` is the outcome of the mount check.
pub fn check_prerequisites(device: &StorageDevice, is_admin: bool, mounted: Result<bool, String>) -> (r: Result<(), PrerequisiteError>)
    ensures
        r is Ok <==> (is_admin && mounted == Ok::<bool, String>(false)),
        !is_admin ==> r matches Err(PrerequisiteError::NotAdmin),
        is_admin && mounted == Ok::<bool, String>(false) ==> r is Ok,
        is_admin ==> (mounted == Ok::<bool, String>(true) ==> (r matches Err(
            PrerequisiteError::Mounted { path },
        ) && path@ == device.path@)),
        is_admin ==> (mounted matches Err(e) ==> (r matches Err(
            PrerequisiteError::MountCheckFailed { reason },
        ) && reason@ == e@)),
{
    if !is_admin {
        return Err(PrerequisiteError::NotAdmin);
    }
    match mounted {
        Ok(true) => Err(PrerequisiteError::Mounted { path: String::from_str(device.path.as_str()) }),
        Ok(false) => Ok(()),
        Err(e) => Err(PrerequisiteError::MountCheckFailed { reason: e }),
    }
}

/// Where the two-step confirmation of a destructive operation stands.
#[derive(Debug, Clone, Copy, PartialEq, Eq, Structural)]
pub enum ConfirmStep {
    /// Ask the final confirmation.
    AskFinal,
    /// The user declined: do nothing.
    Cancelled,
    /// Both confirmations given: proceed.
    Confirmed,
}

/// The step after the answer to the first confirmation: ask again, or stop.
pub open spec fn first_confirmation_step(answer: bool) -> ConfirmStep {
    if answer {
        ConfirmStep::AskFinal
    } else {
        ConfirmStep::Cancelled
    }
}

/// The step after the answer to the final confirmation: proceed, or stop.
pub open spec fn final_confirmation_step(answer: bool) -> ConfirmStep {
    if answer {
        ConfirmStep::Confirmed
    } else {
        ConfirmStep::Cancelled
    }
}

/// The step after the answer to the first confirmation.
pub fn after_first_confirmation(answer: bool) -> (s: ConfirmStep)
    ensures
        s == first_confirmation_step(answer),
{
    if answer {
        ConfirmStep::AskFinal
    } else {
        ConfirmStep::Cancelled
    }
}

/// The step after the answer to the final confirmation.
pub fn after_final_confirmation(answer: bool) -> (s: ConfirmStep)
    ensures
        s == final_confirmation_step(answer),
{
    if answer {
        ConfirmStep::Confirmed
    } else {
        ConfirmStep::Cancelled
    }
}

/// A destructive operation runs only when both confirmations are given:
/// a declined first answer cancels without asking again, and after a
/// given first answer the final answer alone decides.
pub proof fn lemma_two_step_confirmation(first: bool, second: bool)
    ensures
        !first ==> first_confirmation_step(first) == ConfirmStep::Cancelled,
        (first_confirmation_step(first) == ConfirmStep::AskFinal && final_confirmation_step(second)
            == ConfirmStep::Confirmed) <==> (first && second),
        first_confirmation_step(first) != ConfirmStep::Confirmed,
{
}

/// Text of the final confirmation question.
pub open spec fn final_prompt_text(operation: Seq<char>, path: Seq<char>) -> Seq<char> {
    "Are you ABSOLUTELY SURE you want to "@ + operation + " "@ + path + "?"@
}

/// The final confirmation question for `operation` on the device at `path`.
pub fn final_confirmation_prompt(operation: &str, path: &str) -> (s: String)
    ensures
        s@ == final_prompt_text(operation@, path@),
{
    let mut s = String::from_str("Are you ABSOLUTELY SURE you want to ");
    s.append(operation);
    s.append(" ");
    s.append(path);
    s.append("?");
    s
}

/// Number of secure-erase passes proposed by default.
pub const DEFAULT_SECURE_ERASE_PASSES: u32 = 3;

/// Whether a number of secure-erase passes is accepted (1 to 10).
pub fn is_valid_pass_count(passes: u32) -> (b: bool)
    ensures
        b == (1 <= passes <= 10),
{
    1 <= passes && passes <= 10
}

/// Name of a secure erase in the confirmation: "SECURE ERASE ({n} passes)".
pub fn secure_erase_operation_name(passes: u32) -> (s: String)
    ensures
        s@ == "SECURE ERASE ("@ + decimal(passes as nat) + " passes)"@,
{
    let mut s = String::from_str("SECURE ERASE (");
    push_decimal(&mut s, passes as u128);
    s.append(" passes)");
    s
}

/// Label of a health status.
pub open spec fn health_label_text(h: HealthStatus) -> Seq<char> {
    match h {
        HealthStatus::Good => "Good"@,
        HealthStatus::Warning => "Warning"@,
        HealthStatus::Critical => "Critical"@,
        HealthStatus::Unknown => "Unknown"@,
    }
}

/// Label of a health status.
pub fn health_label(h: HealthStatus) -> (s: String)
    ensures
        s@ == health_label_text(h),
{
    match h {
        HealthStatus::Good => String::from_str("Good"),
        HealthStatus::Warning => String::from_str("Warning"),
        HealthStatus::Critical => String::from_str("Critical"),
        HealthStatus::Unknown => String::from_str("Unknown"),
    }
}

/// Line of one S.M.A.R.T. attribute:
/// "  {name}: {raw} (Value: {v}, Worst: {w}, Threshold: {t})".
pub open spec fn attribute_line_text(a: SmartAttribute) -> Seq<char> {
    "  "@ + a.name@ + ": "@ + decimal(a.raw_value as nat) + " (Value: "@ + decimal(a.value as nat)
        + ", Worst: "@ + decimal(a.worst as nat) + ", Threshold: "@ + decimal(a.threshold as nat)
        + ")"@
}

/// Line of one S.M.A.R.T. attribute.
pub fn attribute_line(a: &SmartAttribute) -> (s: String)
    ensures
        s@ == attribute_line_text(*a),
{
    let mut s = String::from_str("  ");
    s.append(a.name.as_str());
    s.append(": ");
    push_decimal(&mut s, a.raw_value as u128);
    s.append(" (Value: ");
    push_decimal(&mut s, a.value as u128);
    s.append(", Worst: ");
    push_decimal(&mut s, a.worst as u128);
    s.append(", Threshold: ");
    push_decimal(&mut s, a.threshold as u128);
    s.append(")");
    assert(s@ =~= attribute_line_text(*a));
    s
}

/// Line of the temperature: "Temperature:   {t}°C".
pub fn temperature_line(t: i32) -> (s: String)
    ensures
        s@ == "Temperature:   "@ + signed_decimal(t as int) + "°C"@,
{
    let mut s = String::from_str("Temperature:   ");
    push_signed_decimal(&mut s, t);
    s.append("°C");
    s
}

/// Line of the power-on time: "Power On Time: {h} hours".
pub fn power_on_line(hours: u64) -> (s: String)
    ensures
        s@ == "Power On Time: "@ + decimal(hours as nat) + " hours"@,
{
    let mut s = String::from_str("Power On Time: ");
    push_decimal(&mut s, hours as u128);
    s.append(" hours");
    s
}

/// The detail lines listed under a device.
pub open spec fn device_detail_text(d: StorageDevice) -> Seq<Seq<char>> {
    seq![
        "    Path:      "@ + d.path@,
        "    Serial:    "@ + d.serial@,
        "    Capacity:  "@ + format_bytes_text(d.capacity),
        "    Type:      "@ + device_type_name(d.device_type),
        "    Interface: "@ + d.interface@,
        "    Removable: "@ + (if d.is_removable { "Yes"@ } else { "No"@ }),
    ]
}

fn labelled(label: &str, value: &str) -> (s: String)
    ensures
        s@ == label@ + value@,
{
    let mut s = String::from_str(label);
    s.append(value);
    s
}

/// The detail lines listed under a device: path, serial, capacity, type,
/// interface and whether it is removable.
pub fn device_detail_lines(d: &StorageDevice) -> (v: Vec<String>)
    ensures
        v@.map_values(|s: String| s@) == device_detail_text(*d),
{
    let mut v: Vec<String> = Vec::new();
    v.push(labelled("    Path:      ", d.path.as_str()));
    v.push(labelled("    Serial:    ", d.serial.as_str()));
    let cap = d.format_capacity();
    v.push(labelled("    Capacity:  ", cap.as_str()));
    let t = d.device_type.to_string();
    v.push(labelled("    Type:      ", t.as_str()));
    v.push(labelled("    Interface: ", d.interface.as_str()));
    v.push(labelled("    Removable: ", if d.is_removable { "Yes" } else { "No" }));
    assert(v@.map_values(|s: String| s@) =~= device_detail_text(*d));
    v
}

/// The heading of a device in the list: "[{index + 1}]".
pub fn device_index_label(index: usize) -> (s: String)
    ensures
        s@ == "["@ + decimal(index as nat + 1) + "]"@,
{
    let mut s = String::from_str("[");
    push_decimal(&mut s, index as u128 + 1);
    s.append("]");
    s
}

} // verus!
