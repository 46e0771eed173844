//! The desktop parity matrix: which parts of the desktop app the Rust shell covers, and the
//! checks that the matrix is complete.
use crate::text::{decimal, join_seqs, owned, push_decimal, push_str, str_eq, strings_view, trim, trimmed};
use vstd::prelude::*;

verus! {

/// The parity matrix.
#[derive(Debug)]
pub struct ParityMatrix {
    pub version: u32,
    pub source_root: String,
    pub source_reference_corrections: Vec<SourceReferenceCorrection>,
    pub rows: Vec<ParityRow>,
}

/// A broken source reference of the plan and its correction.
#[derive(Debug)]
pub struct SourceReferenceCorrection {
    pub incorrect: String,
    pub correct: String,
}

/// One tracked part of the desktop app.
#[derive(Debug)]
pub struct ParityRow {
    pub id: String,
    pub kind: String,
    pub name: String,
    pub status: String,
    pub source_path: String,
    pub owner_module: String,
    pub notes: Option<String>,
}

/// A group of row kinds counted in the summary.
#[derive(Debug, Clone, Copy, PartialEq, Eq, PartialOrd, Ord, Structural)]
pub enum SummaryBucket {
    Components,
    Stores,
    Rpc,
    Overlay,
    Settings,
    Hotkeys,
    PlatformCapabilities,
    ModalPopover,
    FailureStates,
}

/// The label of a bucket.
pub open spec fn bucket_label(b: SummaryBucket) -> Seq<char> {
    match b {
        SummaryBucket::Components => "components"@,
        SummaryBucket::Stores => "stores"@,
        SummaryBucket::Rpc => "rpc"@,
        SummaryBucket::Overlay => "overlay"@,
        SummaryBucket::Settings => "settings"@,
        SummaryBucket::Hotkeys => "hotkeys"@,
        SummaryBucket::PlatformCapabilities => "platform_capabilities"@,
        SummaryBucket::ModalPopover => "modals_popovers"@,
        SummaryBucket::FailureStates => "failure_states"@,
    }
}

impl SummaryBucket {
    /// The bucket's label.
    pub fn label(self) -> (r: &'static str)
        ensures
            r@ == bucket_label(self),
    {
        match self {
            SummaryBucket::Components => "components",
            SummaryBucket::Stores => "stores",
            SummaryBucket::Rpc => "rpc",
            SummaryBucket::Overlay => "overlay",
            SummaryBucket::Settings => "settings",
            SummaryBucket::Hotkeys => "hotkeys",
            SummaryBucket::PlatformCapabilities => "platform_capabilities",
            SummaryBucket::ModalPopover => "modals_popovers",
            SummaryBucket::FailureStates => "failure_states",
        }
    }
}

/// The buckets, in order.
pub open spec fn all_buckets() -> Seq<SummaryBucket> {
    seq![
        SummaryBucket::Components,
        SummaryBucket::Stores,
        SummaryBucket::Rpc,
        SummaryBucket::Overlay,
        SummaryBucket::Settings,
        SummaryBucket::Hotkeys,
        SummaryBucket::PlatformCapabilities,
        SummaryBucket::ModalPopover,
        SummaryBucket::FailureStates,
    ]
}

/// The bucket that rows of a kind are counted in.
pub open spec fn bucket_of(kind: Seq<char>) -> Option<SummaryBucket> {
    if kind == "component"@ || kind == "page"@ {
        Some(SummaryBucket::Components)
    } else if kind == "store"@ || kind == "composable"@ || kind == "helper"@ {
        Some(SummaryBucket::Stores)
    } else if kind == "rpc_request"@ || kind == "rpc_message"@ || kind == "backend_message"@ || kind
        == "desktop_message"@ {
        Some(SummaryBucket::Rpc)
    } else if kind == "overlay_query_param"@ || kind == "overlay_event"@ {
        Some(SummaryBucket::Overlay)
    } else if kind == "settings_key"@ {
        Some(SummaryBucket::Settings)
    } else if kind == "hotkey"@ {
        Some(SummaryBucket::Hotkeys)
    } else if kind == "platform_capability"@ {
        Some(SummaryBucket::PlatformCapabilities)
    } else if kind == "modal"@ || kind == "dialog"@ || kind == "popover"@ || kind == "tooltip"@ || kind
        == "context_menu"@ {
        Some(SummaryBucket::ModalPopover)
    } else if kind == "failure_state"@ {
        Some(SummaryBucket::FailureStates)
    } else {
        None
    }
}

/// The bucket that rows of a kind are counted in.
pub fn bucket_for_kind(kind: &str) -> (r: Option<SummaryBucket>)
    ensures
        r == bucket_of(kind@),
{
    if str_eq(kind, "component") || str_eq(kind, "page") {
        Some(SummaryBucket::Components)
    } else if str_eq(kind, "store") || str_eq(kind, "composable") || str_eq(kind, "helper") {
        Some(SummaryBucket::Stores)
    } else if str_eq(kind, "rpc_request") || str_eq(kind, "rpc_message") || str_eq(kind, "backend_message")
        || str_eq(kind, "desktop_message") {
        Some(SummaryBucket::Rpc)
    } else if str_eq(kind, "overlay_query_param") || str_eq(kind, "overlay_event") {
        Some(SummaryBucket::Overlay)
    } else if str_eq(kind, "settings_key") {
        Some(SummaryBucket::Settings)
    } else if str_eq(kind, "hotkey") {
        Some(SummaryBucket::Hotkeys)
    } else if str_eq(kind, "platform_capability") {
        Some(SummaryBucket::PlatformCapabilities)
    } else if str_eq(kind, "modal") || str_eq(kind, "dialog") || str_eq(kind, "popover") || str_eq(kind, "tooltip")
        || str_eq(kind, "context_menu") {
        Some(SummaryBucket::ModalPopover)
    } else if str_eq(kind, "failure_state") {
        Some(SummaryBucket::FailureStates)
    } else {
        None
    }
}

/// The number of rows per bucket, in bucket order.
#[derive(Debug)]
pub struct ValidationSummary {
    pub counts: Vec<(SummaryBucket, usize)>,
}

/// The problems found in a matrix, in the order they were found.
#[derive(Debug)]
pub struct ValidationError {
    issues: Vec<String>,
}

impl View for ValidationError {
    type V = Seq<Seq<char>>;

    closed spec fn view(&self) -> Seq<Seq<char>> {
        strings_view(self.issues@)
    }
}

/// The lines of a validation error's text.
pub open spec fn validation_text(issues: Seq<Seq<char>>) -> Seq<char>
    decreases issues.len(),
{
    if issues.len() == 0 {
        "parity matrix invalid\n"@
    } else {
        validation_text(issues.drop_last()) + "- "@ + issues.last() + "\n"@
    }
}

impl ValidationError {
    /// An error with these problems.
    pub fn new(issues: Vec<String>) -> (r: Self)
        ensures
            r@ == strings_view(issues@),
    {
        ValidationError { issues }
    }

    /// The problems found.
    pub fn issues(&self) -> (r: &Vec<String>)
        ensures
            strings_view(r@) == self@,
    {
        &self.issues
    }

    /// The error's text: a heading and one `- ` line per problem.
    pub fn message(&self) -> (r: String)
        ensures
            r@ == validation_text(self@),
    {
        let mut s = owned("parity matrix invalid\n");
        let mut i: usize = 0;
        while i < self.issues.len()
            invariant
                i <= self.issues@.len(),
                s@ == validation_text(strings_view(self.issues@).take(i as int)),
            decreases self.issues@.len() - i,
        {
            proof {
                assert(strings_view(self.issues@).take(i + 1).drop_last() =~= strings_view(self.issues@).take(i as int));
            }
            push_str(&mut s, "- ");
            push_str(&mut s, self.issues[i].as_str());
            push_str(&mut s, "\n");
            i = i + 1;
        }
        proof {
            assert(strings_view(self.issues@).take(i as int) =~= strings_view(self.issues@));
        }
        s
    }
}

/// The characters of each static string.
pub open spec fn strs_view(v: Seq<&str>) -> Seq<Seq<char>> {
    Seq::new(v.len(), |i: int| v[i]@)
}

/// The components and pages that the matrix must list.
#[verifier::opaque]
pub open spec fn required_components() -> Seq<Seq<char>> {
    seq![
        "App.vue"@,
        "ChatList.vue"@,
        "ChatInput.vue"@,
        "ChatMessage.vue"@,
        "UserCardDialog.vue"@,
        "EventsFeed.vue"@,
        "PlatformsPanel.vue"@,
        "SettingsPanel.vue"@,
        "WatchedChannelsView.vue"@,
        "SplitNode.vue"@,
        "PanelNode.vue"@,
        "ChannelTabBar.vue"@,
        "AddChannelModal.vue"@,
        "TabSelectorModal.vue"@,
        "AutocompletePopup.vue"@,
        "ChatAppearancePopover.vue"@,
        "Tooltip.vue"@,
        "EmotePicker.vue"@,
        "overlay/App.vue"@
    ]
}

/// The components and pages that the matrix must list.
pub fn required_components_list() -> (r: Vec<&'static str>)
    ensures
        strs_view(r@) == required_components(),
{
    let mut r: Vec<&'static str> = Vec::new();
    r.push("App.vue");
    r.push("ChatList.vue");
    r.push("ChatInput.vue");
    r.push("ChatMessage.vue");
    r.push("UserCardDialog.vue");
    r.push("EventsFeed.vue");
    r.push("PlatformsPanel.vue");
    r.push("SettingsPanel.vue");
    r.push("WatchedChannelsView.vue");
    r.push("SplitNode.vue");
    r.push("PanelNode.vue");
    r.push("ChannelTabBar.vue");
    r.push("AddChannelModal.vue");
    r.push("TabSelectorModal.vue");
    r.push("AutocompletePopup.vue");
    r.push("ChatAppearancePopover.vue");
    r.push("Tooltip.vue");
    r.push("EmotePicker.vue");
    r.push("overlay/App.vue");
    reveal(required_components);
    assert(strs_view(r@) =~= required_components());
    r
}

/// The RPC requests that the matrix must list.
#[verifier::opaque]
pub open spec fn required_rpc_requests() -> Seq<Seq<char>> {
    seq![
        "getAccounts"@,
        "getSettings"@,
        "saveSettings"@,
        "getUserAliases"@,
        "setUserAlias"@,
        "removeUserAlias"@,
        "getChannels"@,
        "authStart"@,
        "authLogout"@,
        "joinChannel"@,
        "leaveChannel"@,
        "sendMessage"@,
        "getStreamStatus"@,
        "updateStream"@,
        "searchCategories"@,
        "getChannelsStatus"@,
        "getRecentMessages"@,
        "getUserChatHistory"@,
        "getUserCardMetadata"@,
        "getStatuses"@,
        "getUsernameColor"@,
        "getChannelEmotes"@,
        "checkForUpdate"@,
        "downloadUpdate"@,
        "applyUpdate"@,
        "skipUpdate"@,
        "getWatchedChannels"@,
        "addWatchedChannel"@,
        "removeWatchedChannel"@,
        "getWatchedChannelMessages"@,
        "sendWatchedChannelMessage"@,
        "getWatchedChannelStatuses"@,
        "openExternalUrl"@,
        "getTabChannelIds"@,
        "setTabChannelIds"@,
        "getWatchedChannelsLayout"@,
        "setWatchedChannelsLayout"@,
        "removePanel"@,
        "assignChannelToPanel"@,
        "splitPanel"@
    ]
}

/// The RPC requests that the matrix must list.
pub fn required_rpc_requests_list() -> (r: Vec<&'static str>)
    ensures
        strs_view(r@) == required_rpc_requests(),
{
    let mut r: Vec<&'static str> = Vec::new();
    r.push("getAccounts");
    r.push("getSettings");
    r.push("saveSettings");
    r.push("getUserAliases");
    r.push("setUserAlias");
    r.push("removeUserAlias");
    r.push("getChannels");
    r.push("authStart");
    r.push("authLogout");
    r.push("joinChannel");
    r.push("leaveChannel");
    r.push("sendMessage");
    r.push("getStreamStatus");
    r.push("updateStream");
    r.push("searchCategories");
    r.push("getChannelsStatus");
    r.push("getRecentMessages");
    r.push("getUserChatHistory");
    r.push("getUserCardMetadata");
    r.push("getStatuses");
    r.push("getUsernameColor");
    r.push("getChannelEmotes");
    r.push("checkForUpdate");
    r.push("downloadUpdate");
    r.push("applyUpdate");
    r.push("skipUpdate");
    r.push("getWatchedChannels");
    r.push("addWatchedChannel");
    r.push("removeWatchedChannel");
    r.push("getWatchedChannelMessages");
    r.push("sendWatchedChannelMessage");
    r.push("getWatchedChannelStatuses");
    r.push("openExternalUrl");
    r.push("getTabChannelIds");
    r.push("setTabChannelIds");
    r.push("getWatchedChannelsLayout");
    r.push("setWatchedChannelsLayout");
    r.push("removePanel");
    r.push("assignChannelToPanel");
    r.push("splitPanel");
    reveal(required_rpc_requests);
    assert(strs_view(r@) =~= required_rpc_requests());
    r
}

/// The RPC messages that the matrix must list.
#[verifier::opaque]
pub open spec fn required_rpc_messages() -> Seq<Seq<char>> {
    seq![
        "chat_message"@,
        "chat_event"@,
        "platform_status"@,
        "auth_url"@,
        "auth_success"@,
        "auth_error"@,
        "update_status"@,
        "watched_channel_message"@,
        "watched_channel_status"@,
        "channel_emotes_set"@,
        "channel_emote_added"@,
        "channel_emote_removed"@,
        "channel_emote_updated"@
    ]
}

/// The RPC messages that the matrix must list.
pub fn required_rpc_messages_list() -> (r: Vec<&'static str>)
    ensures
        strs_view(r@) == required_rpc_messages(),
{
    let mut r: Vec<&'static str> = Vec::new();
    r.push("chat_message");
    r.push("chat_event");
    r.push("platform_status");
    r.push("auth_url");
    r.push("auth_success");
    r.push("auth_error");
    r.push("update_status");
    r.push("watched_channel_message");
    r.push("watched_channel_status");
    r.push("channel_emotes_set");
    r.push("channel_emote_added");
    r.push("channel_emote_removed");
    r.push("channel_emote_updated");
    reveal(required_rpc_messages);
    assert(strs_view(r@) =~= required_rpc_messages());
    r
}

/// The backend messages that the matrix must list.
#[verifier::opaque]
pub open spec fn required_backend_messages() -> Seq<Seq<char>> {
    seq![
        "auth_url"@,
        "auth_success"@,
        "auth_error"@,
        "error"@,
        "pong"@,
        "chat_message"@,
        "chat_event"@,
        "platform_status"@,
        "seventv_emote_set"@,
        "seventv_emote_added"@,
        "seventv_emote_removed"@,
        "seventv_emote_updated"@,
        "seventv_system_message"@
    ]
}

/// The backend messages that the matrix must list.
pub fn required_backend_messages_list() -> (r: Vec<&'static str>)
    ensures
        strs_view(r@) == required_backend_messages(),
{
    let mut r: Vec<&'static str> = Vec::new();
    r.push("auth_url");
    r.push("auth_success");
    r.push("auth_error");
    r.push("error");
    r.push("pong");
    r.push("chat_message");
    r.push("chat_event");
    r.push("platform_status");
    r.push("seventv_emote_set");
    r.push("seventv_emote_added");
    r.push("seventv_emote_removed");
    r.push("seventv_emote_updated");
    r.push("seventv_system_message");
    reveal(required_backend_messages);
    assert(strs_view(r@) =~= required_backend_messages());
    r
}

/// The desktop messages that the matrix must list.
#[verifier::opaque]
pub open spec fn required_desktop_messages() -> Seq<Seq<char>> {
    seq![
        "ping"@,
        "auth_start"@,
        "auth_start_twitch"@,
        "auth_logout"@,
        "send_message"@,
        "channel_join"@,
        "channel_leave"@,
        "seventv_subscribe"@,
        "seventv_unsubscribe"@,
        "seventv_resubscribe"@
    ]
}

/// The desktop messages that the matrix must list.
pub fn required_desktop_messages_list() -> (r: Vec<&'static str>)
    ensures
        strs_view(r@) == required_desktop_messages(),
{
    let mut r: Vec<&'static str> = Vec::new();
    r.push("ping");
    r.push("auth_start");
    r.push("auth_start_twitch");
    r.push("auth_logout");
    r.push("send_message");
    r.push("channel_join");
    r.push("channel_leave");
    r.push("seventv_subscribe");
    r.push("seventv_unsubscribe");
    r.push("seventv_resubscribe");
    reveal(required_desktop_messages);
    assert(strs_view(r@) =~= required_desktop_messages());
    r
}

/// The overlay query parameters that the matrix must list.
#[verifier::opaque]
pub open spec fn required_overlay_query_params() -> Seq<Seq<char>> {
    seq![
        "bg"@,
        "textColor"@,
        "color"@,
        "fontSize"@,
        "fontFamily"@,
        "maxMessages"@,
        "timeout"@,
        "showPlatform"@,
        "showAvatar"@,
        "showBadges"@,
        "animation"@,
        "position"@,
        "platforms"@,
        "port"@
    ]
}

/// The overlay query parameters that the matrix must list.
pub fn required_overlay_query_params_list() -> (r: Vec<&'static str>)
    ensures
        strs_view(r@) == required_overlay_query_params(),
{
    let mut r: Vec<&'static str> = Vec::new();
    r.push("bg");
    r.push("textColor");
    r.push("color");
    r.push("fontSize");
    r.push("fontFamily");
    r.push("maxMessages");
    r.push("timeout");
    r.push("showPlatform");
    r.push("showAvatar");
    r.push("showBadges");
    r.push("animation");
    r.push("position");
    r.push("platforms");
    r.push("port");
    reveal(required_overlay_query_params);
    assert(strs_view(r@) =~= required_overlay_query_params());
    r
}

/// The overlay events that the matrix must list.
#[verifier::opaque]
pub open spec fn required_overlay_events() -> Seq<Seq<char>> {
    seq![
        "chat_message"@,
        "chat_event"@,
        "clear"@
    ]
}

/// The overlay events that the matrix must list.
pub fn required_overlay_events_list() -> (r: Vec<&'static str>)
    ensures
        strs_view(r@) == required_overlay_events(),
{
    let mut r: Vec<&'static str> = Vec::new();
    r.push("chat_message");
    r.push("chat_event");
    r.push("clear");
    reveal(required_overlay_events);
    assert(strs_view(r@) =~= required_overlay_events());
    r
}

/// The hotkeys that the matrix must list.
#[verifier::opaque]
pub open spec fn required_hotkeys() -> Seq<Seq<char>> {
    seq![
        "hotkeys.newTab"@,
        "hotkeys.nextTab"@,
        "hotkeys.prevTab"@,
        "hotkeys.tabSelector"@,
        "ctrl+k.tabSelectorOverride"@
    ]
}

/// The hotkeys that the matrix must list.
pub fn required_hotkeys_list() -> (r: Vec<&'static str>)
    ensures
        strs_view(r@) == required_hotkeys(),
{
    let mut r: Vec<&'static str> = Vec::new();
    r.push("hotkeys.newTab");
    r.push("hotkeys.nextTab");
    r.push("hotkeys.prevTab");
    r.push("hotkeys.tabSelector");
    r.push("ctrl+k.tabSelectorOverride");
    reveal(required_hotkeys);
    assert(strs_view(r@) =~= required_hotkeys());
    r
}

/// The row kinds that count as components or pages.
#[verifier::opaque]
pub open spec fn component_kinds() -> Seq<Seq<char>> {
    seq![
        "component"@,
        "page"@,
        "dialog"@,
        "modal"@,
        "popover"@,
        "tooltip"@,
        "context_menu"@
    ]
}

/// The row kinds that count as components or pages.
pub fn component_kinds_list() -> (r: Vec<&'static str>)
    ensures
        strs_view(r@) == component_kinds(),
{
    let mut r: Vec<&'static str> = Vec::new();
    r.push("component");
    r.push("page");
    r.push("dialog");
    r.push("modal");
    r.push("popover");
    r.push("tooltip");
    r.push("context_menu");
    reveal(component_kinds);
    assert(strs_view(r@) =~= component_kinds());
    r
}

/// The text is empty once trimmed.
pub open spec fn blank(s: Seq<char>) -> bool {
    trim(s).len() == 0
}

/// The problems with the matrix's version, source root, and whether it has corrections.
pub open spec fn header_fixed_issues(version: u32, root: Seq<char>, no_corrections: bool) -> Seq<Seq<char>> {
    let a: Seq<Seq<char>> = if version != 1 {
        seq!["expected version 1, found "@ + decimal(version as nat)]
    } else {
        Seq::empty()
    };
    let b = if root != "packages/desktop"@ {
        a.push("expected source_root packages/desktop, found "@ + root)
    } else {
        a
    };
    if no_corrections {
        b.push("expected source_reference_corrections to document broken plan references"@)
    } else {
        b
    }
}

/// The problems with the matrix's header: version, source root and the corrections list.
pub open spec fn header_issues(version: u32, root: Seq<char>, corrections: Seq<SourceReferenceCorrection>) -> Seq<Seq<char>> {
    header_fixed_issues(version, root, corrections.len() == 0) + correction_issues(corrections)
}

/// One problem per correction with a blank side.
pub open spec fn correction_issues(cs: Seq<SourceReferenceCorrection>) -> Seq<Seq<char>>
    decreases cs.len(),
{
    if cs.len() == 0 {
        Seq::empty()
    } else if blank(cs.last().incorrect@) || blank(cs.last().correct@) {
        correction_issues(cs.drop_last()).push(
            "source_reference_corrections entries must include incorrect and correct values"@,
        )
    } else {
        correction_issues(cs.drop_last())
    }
}

/// The notes of a row, or nothing.
pub open spec fn notes_text(notes: Option<String>) -> Seq<char> {
    match notes {
        Some(n) => n@,
        None => Seq::empty(),
    }
}

/// The problems with a row's status.
pub open spec fn status_issues(row: ParityRow) -> Seq<Seq<char>> {
    let st = row.status@;
    if st == "in_scope"@ || st == "deferred_packaging_updater"@ {
        Seq::empty()
    } else if st == "removed_with_reason"@ {
        if blank(notes_text(row.notes)) {
            seq!["row "@ + row.id@ + " uses removed_with_reason but has no notes"@]
        } else {
            Seq::empty()
        }
    } else {
        seq!["row "@ + row.id@ + " has invalid status "@ + st]
    }
}

/// An earlier row has the same id as row `i`.
pub open spec fn id_seen_before(rows: Seq<ParityRow>, i: int) -> bool {
    exists|j: int| 0 <= j < i && (#[trigger] rows[j]).id@ == rows[i].id@
}

/// The problems with row `i`: a repeated id, its status, a blank source path or owner.
pub open spec fn row_issues(rows: Seq<ParityRow>, i: int) -> Seq<Seq<char>> {
    let r = rows[i];
    let a: Seq<Seq<char>> = if id_seen_before(rows, i) {
        seq!["duplicate row id: "@ + r.id@]
    } else {
        Seq::empty()
    };
    let b = a + status_issues(r);
    let c = if blank(r.source_path@) {
        b.push("row "@ + r.id@ + " is missing source_path"@)
    } else {
        b
    };
    if blank(r.owner_module@) {
        c.push("row "@ + r.id@ + " is missing owner_module"@)
    } else {
        c
    }
}

/// The problems with the first `k` rows, row by row.
pub open spec fn rows_issues(rows: Seq<ParityRow>, k: int) -> Seq<Seq<char>>
    decreases k,
{
    if k <= 0 {
        Seq::empty()
    } else {
        rows_issues(rows, k - 1) + row_issues(rows, k - 1)
    }
}

/// The number of rows with status `removed_with_reason`.
pub open spec fn removed_count(rows: Seq<ParityRow>) -> nat
    decreases rows.len(),
{
    if rows.len() == 0 {
        0
    } else {
        removed_count(rows.drop_last()) + if rows.last().status@ == "removed_with_reason"@ {
            1nat
        } else {
            0nat
        }
    }
}

/// Some row of one of `kinds` is named `name`.
pub open spec fn has_named_row(rows: Seq<ParityRow>, kinds: Seq<Seq<char>>, name: Seq<char>) -> bool {
    exists|i: int| 0 <= i < rows.len() && kinds.contains((#[trigger] rows[i]).kind@) && rows[i].name@ == name
}

/// The required names that no row of one of `kinds` has, in order.
pub open spec fn missing_names(rows: Seq<ParityRow>, kinds: Seq<Seq<char>>, required: Seq<Seq<char>>) -> Seq<Seq<char>>
    decreases required.len(),
{
    if required.len() == 0 {
        Seq::empty()
    } else if has_named_row(rows, kinds, required.last()) {
        missing_names(rows, kinds, required.drop_last())
    } else {
        missing_names(rows, kinds, required.drop_last()).push(required.last())
    }
}

/// The problem of a group of required names: those missing, listed after the group's label.
pub open spec fn group_issues(rows: Seq<ParityRow>, kinds: Seq<Seq<char>>, required: Seq<Seq<char>>, label: Seq<char>) -> Seq<Seq<char>> {
    if missing_names(rows, kinds, required).len() == 0 {
        Seq::empty()
    } else {
        seq!["missing "@ + label + ": "@ + join_seqs(missing_names(rows, kinds, required), ", "@)]
    }
}

/// The problems of every group of required names.
pub open spec fn named_row_issues(rows: Seq<ParityRow>) -> Seq<Seq<char>> {
    group_issues(rows, component_kinds(), required_components(), "components/pages"@) + group_issues(
        rows,
        seq!["rpc_request"@],
        required_rpc_requests(),
        "rpc requests"@,
    ) + group_issues(rows, seq!["rpc_message"@], required_rpc_messages(), "rpc messages"@) + group_issues(
        rows,
        seq!["backend_message"@],
        required_backend_messages(),
        "backend messages"@,
    ) + group_issues(rows, seq!["desktop_message"@], required_desktop_messages(), "desktop messages"@)
        + group_issues(
        rows,
        seq!["overlay_query_param"@],
        required_overlay_query_params(),
        "overlay query params"@,
    ) + group_issues(rows, seq!["overlay_event"@], required_overlay_events(), "overlay events"@) + group_issues(
        rows,
        seq!["hotkey"@],
        required_hotkeys(),
        "hotkeys"@,
    )
}

/// The number of rows counted in bucket `b`.
pub open spec fn bucket_count(rows: Seq<ParityRow>, b: SummaryBucket) -> nat
    decreases rows.len(),
{
    if rows.len() == 0 {
        0
    } else {
        bucket_count(rows.drop_last(), b) + if bucket_of(rows.last().kind@) == Some(b) {
            1nat
        } else {
            0nat
        }
    }
}

/// One problem per bucket of `bs` that no row is counted in.
pub open spec fn bucket_issues(rows: Seq<ParityRow>, bs: Seq<SummaryBucket>) -> Seq<Seq<char>>
    decreases bs.len(),
{
    if bs.len() == 0 {
        Seq::empty()
    } else if bucket_count(rows, bs.last()) == 0 {
        bucket_issues(rows, bs.drop_last()).push("expected nonzero "@ + bucket_label(bs.last()) + " count"@)
    } else {
        bucket_issues(rows, bs.drop_last())
    }
}

/// Every problem of the matrix, in the order the checks run.
pub open spec fn matrix_issues(m: ParityMatrix) -> Seq<Seq<char>> {
    let rows = m.rows@;
    header_issues(m.version, m.source_root@, m.source_reference_corrections@) + rows_issues(rows, rows.len() as int)
        + (if removed_count(rows) != 0 {
        seq!["expected removed_with_reason count to be 0, found "@ + decimal(removed_count(rows))]
    } else {
        Seq::<Seq<char>>::empty()
    }) + named_row_issues(rows) + bucket_issues(rows, all_buckets())
}

/// Appends one problem.
fn push_issue(issues: &mut Vec<String>, s: String)
    ensures
        strings_view(final(issues)@) == strings_view(old(issues)@).push(s@),
{
    issues.push(s);
    assert(strings_view(issues@) =~= strings_view(old(issues)@).push(s@));
}

/// Whether the text is empty once trimmed.
fn is_blank(s: &str) -> (r: bool)
    ensures
        r == blank(s@),
{
    let t = trimmed(s);
    t.as_str().is_empty()
}

/// Appends the problems of the matrix's header.
fn push_header_issues(m: &ParityMatrix, issues: &mut Vec<String>)
    ensures
        strings_view(final(issues)@) == strings_view(old(issues)@) + header_issues(
            m.version,
            m.source_root@,
            m.source_reference_corrections@,
        ),
{
    let ghost start = strings_view(issues@);
    let ghost a: Seq<Seq<char>> = if m.version != 1 {
        seq!["expected version 1, found "@ + decimal(m.version as nat)]
    } else {
        Seq::empty()
    };
    let ghost b = if m.source_root@ != "packages/desktop"@ {
        a.push("expected source_root packages/desktop, found "@ + m.source_root@)
    } else {
        a
    };
    if m.version != 1 {
        let mut s = owned("expected version 1, found ");
        push_decimal(&mut s, m.version as u64);
        push_issue(issues, s);
    }
    assert(strings_view(issues@) =~= start + a);
    if !str_eq(m.source_root.as_str(), "packages/desktop") {
        let mut s = owned("expected source_root packages/desktop, found ");
        push_str(&mut s, m.source_root.as_str());
        push_issue(issues, s);
    }
    assert(strings_view(issues@) =~= start + b);
    if m.source_reference_corrections.len() == 0 {
        push_issue(issues, owned("expected source_reference_corrections to document broken plan references"));
    }
    assert(strings_view(issues@) =~= start + header_fixed_issues(
        m.version,
        m.source_root@,
        m.source_reference_corrections@.len() == 0,
    ));
    let ghost mid = strings_view(issues@);
    let cs = &m.source_reference_corrections;
    let mut k: usize = 0;
    proof {
        assert(cs@.take(0) =~= Seq::<SourceReferenceCorrection>::empty());
        assert(mid + correction_issues(cs@.take(0)) =~= mid);
    }
    while k < cs.len()
        invariant
            k <= cs@.len(),
            cs@ == m.source_reference_corrections@,
            strings_view(issues@) == mid + correction_issues(cs@.take(k as int)),
        decreases cs@.len() - k,
    {
        proof {
            assert(cs@.take(k + 1).drop_last() =~= cs@.take(k as int));
            assert(cs@.take(k + 1).last() == cs@[k as int]);
        }
        if is_blank(cs[k].incorrect.as_str()) || is_blank(cs[k].correct.as_str()) {
            push_issue(issues, owned("source_reference_corrections entries must include incorrect and correct values"));
        }
        k = k + 1;
    }
    proof {
        assert(cs@.take(k as int) =~= cs@);
    }
}

/// Whether a row before `i` has the id of row `i`.
fn id_seen(rows: &Vec<ParityRow>, i: usize) -> (r: bool)
    requires
        i < rows@.len(),
    ensures
        r == id_seen_before(rows@, i as int),
{
    let mut j: usize = 0;
    while j < i
        invariant
            j <= i < rows@.len(),
            forall|x: int| 0 <= x < j ==> (#[trigger] rows@[x]).id@ != rows@[i as int].id@,
        decreases i - j,
    {
        if str_eq(rows[j].id.as_str(), rows[i].id.as_str()) {
            return true;
        }
        j = j + 1;
    }
    false
}

/// Appends the problems of row `i`.
fn push_row_issues(rows: &Vec<ParityRow>, i: usize, issues: &mut Vec<String>)
    requires
        i < rows@.len(),
    ensures
        strings_view(final(issues)@) == strings_view(old(issues)@) + row_issues(rows@, i as int),
{
    let ghost start = strings_view(issues@);
    let row = &rows[i];
    let ghost a: Seq<Seq<char>> = if id_seen_before(rows@, i as int) {
        seq!["duplicate row id: "@ + row.id@]
    } else {
        Seq::empty()
    };
    if id_seen(rows, i) {
        let mut s = owned("duplicate row id: ");
        push_str(&mut s, row.id.as_str());
        push_issue(issues, s);
    }
    assert(strings_view(issues@) =~= start + a);
    let st = row.status.as_str();
    if str_eq(st, "in_scope") || str_eq(st, "deferred_packaging_updater") {
    } else if str_eq(st, "removed_with_reason") {
        let blank_notes = match &row.notes {
            Some(n) => is_blank(n.as_str()),
            None => {
                proof {
                    assert(trim(Seq::<char>::empty()) =~= Seq::<char>::empty());
                }
                true
            },
        };
        if blank_notes {
            let mut s = owned("row ");
            push_str(&mut s, row.id.as_str());
            push_str(&mut s, " uses removed_with_reason but has no notes");
            push_issue(issues, s);
        }
    } else {
        let mut s = owned("row ");
        push_str(&mut s, row.id.as_str());
        push_str(&mut s, " has invalid status ");
        push_str(&mut s, st);
        push_issue(issues, s);
    }
    assert(strings_view(issues@) =~= start + (a + status_issues(*row)));
    if is_blank(row.source_path.as_str()) {
        let mut s = owned("row ");
        push_str(&mut s, row.id.as_str());
        push_str(&mut s, " is missing source_path");
        push_issue(issues, s);
    }
    if is_blank(row.owner_module.as_str()) {
        let mut s = owned("row ");
        push_str(&mut s, row.id.as_str());
        push_str(&mut s, " is missing owner_module");
        push_issue(issues, s);
    }
    assert(strings_view(issues@) =~= start + row_issues(rows@, i as int));
}

/// Whether `kinds` holds `kind`.
fn kind_in(kinds: &Vec<&'static str>, kind: &str) -> (r: bool)
    ensures
        r == strs_view(kinds@).contains(kind@),
{
    let mut i: usize = 0;
    while i < kinds.len()
        invariant
            i <= kinds@.len(),
            forall|j: int| 0 <= j < i ==> strs_view(kinds@)[j] != kind@,
        decreases kinds@.len() - i,
    {
        if str_eq(kinds[i], kind) {
            assert(strs_view(kinds@)[i as int] == kind@);
            return true;
        }
        i = i + 1;
    }
    false
}

/// Whether some row of one of `kinds` is named `name`.
fn named_row_exists(rows: &Vec<ParityRow>, kinds: &Vec<&'static str>, name: &str) -> (r: bool)
    ensures
        r == has_named_row(rows@, strs_view(kinds@), name@),
{
    let mut i: usize = 0;
    while i < rows.len()
        invariant
            i <= rows@.len(),
            forall|j: int|
                0 <= j < i ==> !(strs_view(kinds@).contains((#[trigger] rows@[j]).kind@) && rows@[j].name@ == name@),
        decreases rows@.len() - i,
    {
        if kind_in(kinds, rows[i].kind.as_str()) && str_eq(rows[i].name.as_str(), name) {
            return true;
        }
        i = i + 1;
    }
    false
}

/// Appends the problem of a group of required names, if some are missing.
fn require_named_rows(
    issues: &mut Vec<String>,
    rows: &Vec<ParityRow>,
    kinds: &Vec<&'static str>,
    required: &Vec<&'static str>,
    label: &str,
)
    ensures
        strings_view(final(issues)@) == strings_view(old(issues)@) + group_issues(
            rows@,
            strs_view(kinds@),
            strs_view(required@),
            label@,
        ),
{
    let ghost ks = strs_view(kinds@);
    let ghost req = strs_view(required@);
    let mut missing: Vec<String> = Vec::new();
    let mut i: usize = 0;
    while i < required.len()
        invariant
            i <= required@.len(),
            ks == strs_view(kinds@),
            req == strs_view(required@),
            strings_view(missing@) == missing_names(rows@, ks, req.take(i as int)),
        decreases required@.len() - i,
    {
        proof {
            assert(req.take(i + 1).drop_last() =~= req.take(i as int));
            assert(req.take(i + 1).last() == required@[i as int]@);
        }
        if !named_row_exists(rows, kinds, required[i]) {
            let ghost before = missing@;
            missing.push(owned(required[i]));
            assert(strings_view(missing@) =~= strings_view(before).push(required@[i as int]@));
        }
        i = i + 1;
    }
    proof {
        assert(req.take(i as int) =~= req);
    }
    if missing.len() > 0 {
        let mut s = owned("missing ");
        push_str(&mut s, label);
        push_str(&mut s, ": ");
        let joined = crate::text::join_strings(&missing, ", ");
        push_str(&mut s, joined.as_str());
        push_issue(issues, s);
    } else {
        assert(strings_view(issues@) =~= strings_view(old(issues)@) + Seq::<Seq<char>>::empty());
    }
}

/// A list of one kind.
fn one_kind(kind: &'static str) -> (r: Vec<&'static str>)
    ensures
        strs_view(r@) == seq![kind@],
{
    let mut r: Vec<&'static str> = Vec::new();
    r.push(kind);
    assert(strs_view(r@) =~= seq![kind@]);
    r
}

/// The number of rows counted in `bucket`.
fn count_bucket(rows: &Vec<ParityRow>, bucket: SummaryBucket) -> (r: usize)
    ensures
        r == bucket_count(rows@, bucket),
{
    let mut n: usize = 0;
    let mut i: usize = 0;
    while i < rows.len()
        invariant
            i <= rows@.len(),
            n <= i,
            n == bucket_count(rows@.take(i as int), bucket),
        decreases rows@.len() - i,
    {
        proof {
            assert(rows@.take(i + 1).drop_last() =~= rows@.take(i as int));
        }
        match bucket_for_kind(rows[i].kind.as_str()) {
            Some(b) => if b == bucket {
                n = n + 1;
            },
            None => {},
        }
        i = i + 1;
    }
    proof {
        assert(rows@.take(i as int) =~= rows@);
    }
    n
}

/// The buckets, in order.
fn bucket_list() -> (r: Vec<SummaryBucket>)
    ensures
        r@ == all_buckets(),
{
    let r = vec![
        SummaryBucket::Components,
        SummaryBucket::Stores,
        SummaryBucket::Rpc,
        SummaryBucket::Overlay,
        SummaryBucket::Settings,
        SummaryBucket::Hotkeys,
        SummaryBucket::PlatformCapabilities,
        SummaryBucket::ModalPopover,
        SummaryBucket::FailureStates,
    ];
    assert(r@ =~= all_buckets());
    r
}

/// Appends the problems of every row; gives the number of removed rows.
fn push_rows_issues(rows: &Vec<ParityRow>, issues: &mut Vec<String>) -> (removed: usize)
    ensures
        strings_view(final(issues)@) == strings_view(old(issues)@) + rows_issues(rows@, rows@.len() as int),
        removed == removed_count(rows@),
{
    let ghost start = strings_view(issues@);
    let mut i: usize = 0;
    let mut removed: usize = 0;
    proof {
        assert(rows@.take(0) =~= Seq::<ParityRow>::empty());
        assert(start + rows_issues(rows@, 0) =~= start);
    }
    while i < rows.len()
        invariant
            i <= rows@.len(),
            removed <= i,
            removed == removed_count(rows@.take(i as int)),
            strings_view(issues@) == start + rows_issues(rows@, i as int),
        decreases rows@.len() - i,
    {
        push_row_issues(rows, i, issues);
        proof {
            assert(rows@.take(i + 1).drop_last() =~= rows@.take(i as int));
            assert(strings_view(issues@) =~= start + rows_issues(rows@, i + 1));
        }
        if str_eq(rows[i].status.as_str(), "removed_with_reason") {
            removed = removed + 1;
        }
        i = i + 1;
    }
    proof {
        assert(rows@.take(i as int) =~= rows@);
    }
    removed
}

/// Appends the problems of every group of required names.
fn push_named_issues(rows: &Vec<ParityRow>, issues: &mut Vec<String>)
    ensures
        strings_view(final(issues)@) == strings_view(old(issues)@) + named_row_issues(rows@),
{
    let ghost start = strings_view(issues@);
    let ghost g1 = group_issues(rows@, component_kinds(), required_components(), "components/pages"@);
    let ghost g2 = group_issues(rows@, seq!["rpc_request"@], required_rpc_requests(), "rpc requests"@);
    let ghost g3 = group_issues(rows@, seq!["rpc_message"@], required_rpc_messages(), "rpc messages"@);
    let ghost g4 = group_issues(rows@, seq!["backend_message"@], required_backend_messages(), "backend messages"@);
    let ghost g5 = group_issues(rows@, seq!["desktop_message"@], required_desktop_messages(), "desktop messages"@);
    let ghost g6 = group_issues(
        rows@,
        seq!["overlay_query_param"@],
        required_overlay_query_params(),
        "overlay query params"@,
    );
    let ghost g7 = group_issues(rows@, seq!["overlay_event"@], required_overlay_events(), "overlay events"@);
    let ghost g8 = group_issues(rows@, seq!["hotkey"@], required_hotkeys(), "hotkeys"@);
    require_named_rows(issues, rows, &component_kinds_list(), &required_components_list(), "components/pages");
    require_named_rows(issues, rows, &one_kind("rpc_request"), &required_rpc_requests_list(), "rpc requests");
    require_named_rows(issues, rows, &one_kind("rpc_message"), &required_rpc_messages_list(), "rpc messages");
    require_named_rows(issues, rows, &one_kind("backend_message"), &required_backend_messages_list(), "backend messages");
    require_named_rows(issues, rows, &one_kind("desktop_message"), &required_desktop_messages_list(), "desktop messages");
    require_named_rows(
        issues,
        rows,
        &one_kind("overlay_query_param"),
        &required_overlay_query_params_list(),
        "overlay query params",
    );
    require_named_rows(issues, rows, &one_kind("overlay_event"), &required_overlay_events_list(), "overlay events");
    require_named_rows(issues, rows, &one_kind("hotkey"), &required_hotkeys_list(), "hotkeys");
    assert(strings_view(issues@) =~= start + g1 + g2 + g3 + g4 + g5 + g6 + g7 + g8);
    assert(named_row_issues(rows@) == g1 + g2 + g3 + g4 + g5 + g6 + g7 + g8);
}

/// Appends one problem per empty bucket; gives the count of every bucket, in order.
fn push_bucket_issues(rows: &Vec<ParityRow>, issues: &mut Vec<String>) -> (counts: Vec<(SummaryBucket, usize)>)
    ensures
        strings_view(final(issues)@) == strings_view(old(issues)@) + bucket_issues(rows@, all_buckets()),
        counts@.len() == 9,
        forall|i: int|
            0 <= i < 9 ==> (#[trigger] counts@[i]).0 == all_buckets()[i] && counts@[i].1 == bucket_count(
                rows@,
                all_buckets()[i],
            ),
{
    let ghost start = strings_view(issues@);
    let buckets = bucket_list();
    let mut counts: Vec<(SummaryBucket, usize)> = Vec::new();
    let mut k: usize = 0;
    proof {
        assert(all_buckets().take(0) =~= Seq::<SummaryBucket>::empty());
        assert(start + bucket_issues(rows@, all_buckets().take(0)) =~= start);
    }
    while k < buckets.len()
        invariant
            k <= buckets@.len(),
            buckets@ == all_buckets(),
            strings_view(issues@) == start + bucket_issues(rows@, all_buckets().take(k as int)),
            counts@.len() == k,
            forall|j: int|
                0 <= j < k ==> (#[trigger] counts@[j]).0 == all_buckets()[j] && counts@[j].1 == bucket_count(
                    rows@,
                    all_buckets()[j],
                ),
        decreases buckets@.len() - k,
    {
        let b = buckets[k];
        let n = count_bucket(rows, b);
        proof {
            assert(all_buckets().take(k + 1).drop_last() =~= all_buckets().take(k as int));
            assert(all_buckets().take(k + 1).last() == b);
        }
        if n == 0 {
            let mut s = owned("expected nonzero ");
            push_str(&mut s, b.label());
            push_str(&mut s, " count");
            push_issue(issues, s);
        }
        counts.push((b, n));
        k = k + 1;
    }
    proof {
        assert(all_buckets().take(9) =~= all_buckets());
    }
    counts
}

impl ParityMatrix {
    /// Checks the matrix: its header, every row, that no row was removed, that every required
    /// component, RPC name, overlay name and hotkey is listed, and that every bucket has rows.
    /// With no problem, the number of rows per bucket; else every problem, in order.
    pub fn validate(&self) -> (r: Result<ValidationSummary, ValidationError>)
        ensures
            match r {
                Ok(summary) => {
                    &&& matrix_issues(*self).len() == 0
                    &&& summary.counts@.len() == 9
                    &&& forall|i: int|
                        0 <= i < 9 ==> (#[trigger] summary.counts@[i]).0 == all_buckets()[i] && summary.counts@[i].1
                            == bucket_count(self.rows@, all_buckets()[i])
                },
                Err(e) => matrix_issues(*self).len() > 0 && e@ == matrix_issues(*self),
            },
    {
        let mut issues: Vec<String> = Vec::new();
        push_header_issues(self, &mut issues);
        let removed = push_rows_issues(&self.rows, &mut issues);
        if removed != 0 {
            let mut s = owned("expected removed_with_reason count to be 0, found ");
            push_decimal(&mut s, removed as u64);
            push_issue(&mut issues, s);
        }
        push_named_issues(&self.rows, &mut issues);
        let counts = push_bucket_issues(&self.rows, &mut issues);
        assert(strings_view(issues@) =~= matrix_issues(*self));
        if issues.len() == 0 {
            Ok(ValidationSummary { counts })
        } else {
            Err(ValidationError::new(issues))
        }
    }
}

} // verus!
