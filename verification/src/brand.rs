//! The application's identity as desktops see it.
use vstd::prelude::*;

verus! {

/// Reverse-DNS application id: the Wayland app id, the `.desktop` file name
/// and the X11 window class.
pub const APP_ID: &'static str = "io.github.nermalcat69.germal";

/// The product name shown in menus and the title bar.
pub const APP_NAME: &'static str = "Germal";

} // verus!
