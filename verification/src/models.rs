//! Plain view models of the desktop shell's demo screens.
use vstd::prelude::*;

verus! {

/// A streaming platform as the shell shows it.
#[derive(Debug, Clone, Copy, PartialEq, Eq, Structural)]
pub enum Platform {
    Twitch,
    YouTube,
    Kick,
}

impl Platform {
    /// The platform's display name.
    pub fn label(self) -> (r: &'static str)
        ensures
            r@ == match self {
                Platform::Twitch => "Twitch"@,
                Platform::YouTube => "YouTube"@,
                Platform::Kick => "Kick"@,
            },
    {
        match self {
            Platform::Twitch => "Twitch",
            Platform::YouTube => "YouTube",
            Platform::Kick => "Kick",
        }
    }

    /// The one-letter glyph of the platform.
    pub fn glyph(self) -> (r: &'static str)
        ensures
            r@ == match self {
                Platform::Twitch => "T"@,
                Platform::YouTube => "Y"@,
                Platform::Kick => "K"@,
            },
    {
        match self {
            Platform::Twitch => "T",
            Platform::YouTube => "Y",
            Platform::Kick => "K",
        }
    }
}

#[derive(Debug, Clone)]
pub struct Account {
    pub platform: Platform,
    pub display_name: String,
    pub username: String,
    pub connected: bool,
}

#[derive(Debug, Clone)]
pub struct ChannelTab {
    pub id: String,
    pub label: String,
    pub platform: Option<Platform>,
    pub live: bool,
    pub viewer_count: Option<usize>,
}

#[derive(Debug, Clone)]
pub struct ChatMessage {
    pub platform: Platform,
    pub timestamp: String,
    pub author: String,
    pub badges: Vec<String>,
    pub text: String,
    pub author_color_hex: u32,
    pub system: bool,
}

#[derive(Debug, Clone)]
pub struct StreamChip {
    pub platform: Platform,
    pub channel_name: String,
    pub live: bool,
    pub viewer_count: Option<usize>,
}

#[derive(Debug, Clone)]
pub struct UiEvent {
    pub platform: Platform,
    pub title: String,
    pub detail: String,
    pub accent_hex: u32,
    pub timestamp: String,
}

#[derive(Debug, Clone)]
pub struct PlatformCard {
    pub platform: Platform,
    pub display_name: String,
    pub username: String,
    pub status: String,
    pub joined_channel: String,
    pub action_label: String,
}

#[derive(Debug, Clone)]
pub struct SettingRow {
    pub label: String,
    pub value: String,
    pub hint: String,
}

} // verus!
