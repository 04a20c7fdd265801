//! Decisions of the desktop shell: where the widget sits, and what the tray
//! menu and the show/hide toggle do.

use vstd::prelude::*;

use crate::text::str_equal;

verus! {

/// `a - b`, or 0 when `b` exceeds `a`.
pub open spec fn minus_or_zero(a: int, b: int) -> int {
    if a >= b {
        a - b
    } else {
        0
    }
}

/// `a + b`, or `u32::MAX` when the sum exceeds it.
pub open spec fn plus_capped(a: int, b: int) -> int {
    if a + b <= u32::MAX {
        a + b
    } else {
        u32::MAX as int
    }
}

/// Where the widget's top-left corner goes so that it sits 20 pixels from
/// the right edge and 40 from the bottom of the screen (clamped at 0), as
/// screen coordinates.
pub fn bottom_right_position(
    screen_width: u32,
    screen_height: u32,
    window_width: u32,
    window_height: u32,
) -> (r: (i32, i32))
    requires
        window_width + 20 <= u32::MAX,
    ensures
        r.0 == minus_or_zero(screen_width as int, window_width + 20) as i32,
        r.1 == minus_or_zero(screen_height as int, plus_capped(window_height as int, 40)) as i32,
{
    let x = screen_width.saturating_sub(window_width + 20);
    let y = screen_height.saturating_sub(window_height.saturating_add(40));
    (x as i32, y as i32)
}

/// What a tray menu item does.
#[derive(Debug, Clone, Copy, PartialEq, Eq)]
pub enum MenuCommand {
    Show,
    Quit,
    Ignore,
}

/// The command of the tray menu item with id `id`: the menu offers `show`
/// and `quit`, anything else is ignored.
pub fn menu_command(id: &str) -> (r: MenuCommand)
    ensures
        id@ == "show"@ ==> r == MenuCommand::Show,
        id@ == "quit"@ ==> r == MenuCommand::Quit,
        id@ != "show"@ && id@ != "quit"@ ==> r == MenuCommand::Ignore,
{
    proof {
        reveal_strlit("show");
        reveal_strlit("quit");
        assert("show"@[0] != "quit"@[0]);
    }
    if str_equal(id, "show") {
        MenuCommand::Show
    } else if str_equal(id, "quit") {
        MenuCommand::Quit
    } else {
        MenuCommand::Ignore
    }
}

/// How the widget's visibility changes.
#[derive(Debug, Clone, Copy, PartialEq, Eq)]
pub enum WindowChange {
    Hide,
    ShowAndFocus,
}

/// The show/hide toggle (window command, global shortcut): a visible widget
/// is hidden, a hidden one shown and focused.
pub fn toggle_change(visible: bool) -> (r: WindowChange)
    ensures
        visible ==> r == WindowChange::Hide,
        !visible ==> r == WindowChange::ShowAndFocus,
{
    if visible {
        WindowChange::Hide
    } else {
        WindowChange::ShowAndFocus
    }
}

/// What a click on the tray icon does: whether or not the widget is
/// visible, it is shown and focused.
pub fn tray_click_change(_visible: bool) -> (r: WindowChange)
    ensures
        r == WindowChange::ShowAndFocus,
{
    WindowChange::ShowAndFocus
}

/// What kind of failure a command met, as far as the user is told.
#[derive(Debug, Clone, Copy, PartialEq, Eq)]
pub enum FailureKind {
    Storage,
    Busy,
    Files,
    Keychain,
}

/// The message shown to the user for a failure of kind `k`. It never holds
/// the underlying error's text.
pub open spec fn failure_text(k: FailureKind) -> Seq<char> {
    match k {
        FailureKind::Storage => "Your activity data could not be read or saved. Please try again."@,
        FailureKind::Busy => "The app is busy with another request. Please try again."@,
        FailureKind::Files => "The app could not access its data folder."@,
        FailureKind::Keychain => "The app could not reach the system keychain to unlock your data."@,
    }
}

/// The message shown to the user for a failure of kind `k`.
pub fn failure_message(k: FailureKind) -> (r: String)
    ensures
        r@ == failure_text(k),
{
    match k {
        FailureKind::Storage => String::from_str(
            "Your activity data could not be read or saved. Please try again.",
        ),
        FailureKind::Busy => String::from_str(
            "The app is busy with another request. Please try again.",
        ),
        FailureKind::Files => String::from_str("The app could not access its data folder."),
        FailureKind::Keychain => String::from_str(
            "The app could not reach the system keychain to unlock your data.",
        ),
    }
}

} // verus!
