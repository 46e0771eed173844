//! Request parameters and payloads of the desktop RPC surface.
use crate::protocol::messages::{ChannelStatusRequest, LiveStatusPlatform};
use crate::protocol::types::{Platform, PlatformStatusInfo, SplitDirection};
use vstd::prelude::*;

verus! {

#[derive(Debug, Clone, PartialEq)]
pub struct UserAlias {
    pub platform: Platform,
    pub platform_user_id: String,
    pub alias: String,
    pub created_at: u64,
    pub updated_at: u64,
}

#[derive(Debug, Clone, PartialEq)]
pub struct UserChatHistoryCursor {
    pub created_at: u64,
    pub id: String,
}

#[derive(Debug, Clone, PartialEq)]
pub struct PlatformParams {
    pub platform: Platform,
}

#[derive(Debug, Clone, PartialEq)]
pub struct SetUserAliasParams {
    pub platform: Platform,
    pub platform_user_id: String,
    pub alias: String,
}

#[derive(Debug, Clone, PartialEq)]
pub struct UserIdentityParams {
    pub platform: Platform,
    pub platform_user_id: String,
}

#[derive(Debug, Clone, PartialEq)]
pub struct ChannelSlugParams {
    pub platform: Platform,
    pub channel_slug: String,
}

#[derive(Debug, Clone, PartialEq)]
pub struct SendMessageParams {
    pub platform: Platform,
    pub channel_id: String,
    pub text: String,
    pub reply_to_message_id: Option<String>,
}

#[derive(Debug, Clone, PartialEq)]
pub struct GetStreamStatusParams {
    pub platform: LiveStatusPlatform,
    pub channel_id: String,
}

#[derive(Debug, Clone, PartialEq)]
pub struct UpdateStreamParams {
    pub platform: LiveStatusPlatform,
    pub channel_id: String,
    pub title: Option<String>,
    pub category_id: Option<String>,
}

#[derive(Debug, Clone, PartialEq)]
pub struct SearchCategoriesParams {
    pub platform: LiveStatusPlatform,
    pub query: String,
}

#[derive(Debug, Clone, PartialEq)]
pub struct GetChannelsStatusParams {
    pub channels: Vec<ChannelStatusRequest>,
}

#[derive(Debug, Clone, PartialEq)]
pub struct GetRecentMessagesParams {
    pub limit: Option<u64>,
}

#[derive(Debug, Clone, PartialEq)]
pub struct GetUserChatHistoryParams {
    pub platform: Platform,
    pub platform_user_id: String,
    pub limit: Option<u64>,
    pub cursor: Option<UserChatHistoryCursor>,
}

#[derive(Debug, Clone, PartialEq)]
pub struct GetUsernameColorParams {
    pub platform: Platform,
    pub username: String,
}

#[derive(Debug, Clone, PartialEq)]
pub struct ChannelEmotesParams {
    pub platform: Platform,
    pub channel_id: String,
}

#[derive(Debug, Clone, PartialEq)]
pub struct CheckForUpdateResponse {
    pub update_available: bool,
    pub version: Option<String>,
    pub current_version: String,
}

#[derive(Debug, Clone, PartialEq)]
pub struct DownloadUpdateResponse {
    pub success: bool,
    pub error: Option<String>,
}

#[derive(Debug, Clone, PartialEq)]
pub struct SkipUpdateParams {
    pub hash: String,
}

#[derive(Debug, Clone, PartialEq)]
pub struct AddWatchedChannelParams {
    pub platform: Platform,
    pub channel_slug: String,
}

#[derive(Debug, Clone, PartialEq)]
pub struct IdParams {
    pub id: String,
}

#[derive(Debug, Clone, PartialEq)]
pub struct SendWatchedChannelMessageParams {
    pub id: String,
    pub text: String,
    pub reply_to_message_id: Option<String>,
}

#[derive(Debug, Clone, PartialEq)]
pub struct WatchedChannelStatusEntry {
    pub channel_id: String,
    pub status: PlatformStatusInfo,
}

#[derive(Debug, Clone, PartialEq)]
pub struct OpenExternalUrlParams {
    pub url: String,
}

#[derive(Debug, Clone, PartialEq)]
pub struct SetTabChannelIdsParams {
    pub ids: Vec<String>,
}

#[derive(Debug, Clone, PartialEq)]
pub struct TabIdParams {
    pub tab_id: String,
}

#[derive(Debug, Clone, PartialEq)]
pub struct RemovePanelParams {
    pub tab_id: String,
    pub panel_id: String,
}

#[derive(Debug, Clone, PartialEq)]
pub struct AssignChannelToPanelParams {
    pub tab_id: String,
    pub panel_id: String,
    pub channel_id: Option<String>,
}

#[derive(Debug, Clone, PartialEq)]
pub struct SplitPanelParams {
    pub tab_id: String,
    pub panel_id: String,
    pub direction: SplitDirection,
}

#[derive(Debug, Clone, PartialEq)]
pub struct WatchedChannelStatusPayload {
    pub channel_id: String,
    pub status: PlatformStatusInfo,
}

#[derive(Debug, Clone, PartialEq)]
pub struct AuthUrlPayload {
    pub platform: Platform,
    pub url: String,
}

#[derive(Debug, Clone, PartialEq)]
pub struct AuthSuccessPayload {
    pub platform: Platform,
    pub username: String,
    pub display_name: String,
}

#[derive(Debug, Clone, PartialEq)]
pub struct AuthErrorPayload {
    pub platform: Platform,
    pub error: String,
}

#[derive(Debug, Clone, PartialEq)]
pub struct ChannelEmoteRemovedPayload {
    pub platform: Platform,
    pub channel_id: String,
    pub emote_id: String,
}

#[derive(Debug, Clone, PartialEq)]
pub struct ChannelEmoteUpdatedPayload {
    pub platform: Platform,
    pub channel_id: String,
    pub emote_id: String,
    pub new_alias: String,
}

} // verus!
