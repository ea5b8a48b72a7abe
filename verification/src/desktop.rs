//! What the tray shows and what clicks on it do.

use vstd::prelude::*;
use crate::text::{join, same_text};

verus! {

/// The icon of the tray.
#[derive(Debug)]
pub enum TrayIcon {
    /// The icon of the application.
    Normal,
    /// A picture, four bytes for each pixel: red, green, blue and opacity.
    Picture { rgba: Vec<u8>, width: u32, height: u32 },
}

/// The bytes of a picture that is opaque red all over.
pub open spec fn all_red(rgba: Seq<u8>) -> bool {
    forall|i: int|
        0 <= i < rgba.len() ==> #[trigger] rgba[i] == if i % 4 == 0 || i % 4 == 3 {
            255u8
        } else {
            0u8
        }
}

/// Chooses the icon of the tray: a red square of 16 by 16 pixels where
/// something is wrong.
pub fn tray_icon(has_error: bool) -> (r: TrayIcon)
    ensures
        match r {
            TrayIcon::Normal => !has_error,
            TrayIcon::Picture { rgba, width, height } => has_error && width == 16 && height == 16
                && rgba@.len() == 1024 && all_red(rgba@),
        },
{
    if !has_error {
        return TrayIcon::Normal;
    }
    let mut rgba: Vec<u8> = Vec::new();
    for i in 0..256usize
        invariant
            rgba@.len() == 4 * i,
            all_red(rgba@),
    {
        rgba.push(255);
        rgba.push(0);
        rgba.push(0);
        rgba.push(255);
    }
    TrayIcon::Picture { rgba, width: 16, height: 16 }
}

/// What a click asks for.
#[derive(Debug)]
pub enum DesktopAction {
    /// Bring the window up on the named view.
    OpenView(String),
    Quit,
    Nothing,
}

/// What an entry of the tray's menu does.
pub fn menu_action(id: &str) -> (r: DesktopAction)
    ensures
        match r {
            DesktopAction::OpenView(view) => id@ == "show"@ && view@ == "settings-view"@,
            DesktopAction::Quit => id@ == "quit"@,
            DesktopAction::Nothing => id@ != "show"@ && id@ != "quit"@,
        },
{
    if same_text(id, "show") {
        DesktopAction::OpenView("settings-view".to_owned())
    } else if same_text(id, "quit") {
        DesktopAction::Quit
    } else {
        DesktopAction::Nothing
    }
}

/// What a click on the tray icon does: releasing the left button brings up the
/// alerts.
pub fn click_action(left_button: bool, released: bool) -> (r: DesktopAction)
    ensures
        match r {
            DesktopAction::OpenView(view) => left_button && released && view@ == "alerts-view"@,
            DesktopAction::Quit => false,
            DesktopAction::Nothing => !(left_button && released),
        },
{
    if left_button && released {
        DesktopAction::OpenView("alerts-view".to_owned())
    } else {
        DesktopAction::Nothing
    }
}

/// What the user is told where the configuration directory cannot be opened.
pub fn open_dir_error(reason: &str) -> (r: String)
    ensures
        r@ == "Failed to open config directory: "@ + reason@,
{
    join("Failed to open config directory: ", reason)
}

} // verus!
