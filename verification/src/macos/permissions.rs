//! What the settings window asks of macOS permissions.

use vstd::prelude::*;
use vstd::string::*;

verus! {

#[derive(Clone, Copy, Debug, PartialEq, Eq, Structural)]
pub struct PermissionStatus {
    pub accessibility: bool,
    pub screen_recording: bool,
}

/// Which permission rows the settings window shows: Accessibility while it is withheld, and
/// Screen Recording while it is withheld and previews are on.
pub fn needed_permission_rows(status: PermissionStatus, previews: bool) -> (rows: (bool, bool))
    ensures
        rows == (!status.accessibility, previews && !status.screen_recording),
{
    (!status.accessibility, previews && !status.screen_recording)
}


/// The System Settings pane of the Accessibility permission.
pub const ACCESSIBILITY_PANE: &'static str = "Privacy_Accessibility";

/// The System Settings pane of the Screen Recording permission.
pub const SCREEN_RECORDING_PANE: &'static str = "Privacy_ScreenCapture";

/// The link that opens the privacy pane `pane` of System Settings.
pub fn settings_pane_url(pane: &str) -> (url: String)
    ensures
        url@ == "x-apple.systempreferences:com.apple.preference.security?"@ + pane@,
{
    let mut url = String::from_str("x-apple.systempreferences:com.apple.preference.security?");
    url.append(pane);
    url
}

} // verus!
