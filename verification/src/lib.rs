use vstd::prelude::*;

pub mod app_state;
pub mod auth;
pub mod chat;
pub mod hotkeys;
pub mod layout;
pub mod mock;
pub mod models;
pub mod overlay;
pub mod parity;
pub mod platforms;
pub mod protocol;
pub mod text;
pub mod user_card;
pub mod watched_chat;

verus! {

/// Whether the desktop shell must refuse to start because no graphical session is available.
pub fn requires_graphical_session_for_target(
    is_linux: bool,
    has_wayland_display: bool,
    has_x11_display: bool,
) -> (r: bool)
    ensures
        r == (is_linux && !has_wayland_display && !has_x11_display),
{
    is_linux && !has_wayland_display && !has_x11_display
}

} // verus!
