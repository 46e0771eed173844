//! Demo data for the desktop shell's screens.
use crate::models::{Account, ChannelTab, ChatMessage, Platform, PlatformCard, SettingRow, StreamChip, UiEvent};
use crate::text::{decimal, owned, push_decimal, push_str, strings_view};
use vstd::prelude::*;

verus! {

/// `a` is the account with these fields.
pub open spec fn account_is(a: Account, platform: Platform, display_name: Seq<char>, username: Seq<char>, connected: bool) -> bool {
    a.platform == platform && a.display_name@ == display_name && a.username@ == username && a.connected == connected
}

/// The demo accounts.
pub fn accounts() -> (r: Vec<Account>)
    ensures
        r@.len() == 2,
        account_is(r@[0], Platform::Kick, "satont"@, "satont"@, true),
        account_is(r@[1], Platform::Twitch, "justovich221337"@, "justovich221337"@, true),
{
    let mut r: Vec<Account> = Vec::new();
    r.push(Account { platform: Platform::Kick, display_name: owned("satont"), username: owned("satont"), connected: true });
    r.push(
        Account {
            platform: Platform::Twitch,
            display_name: owned("justovich221337"),
            username: owned("justovich221337"),
            connected: true,
        },
    );
    r
}

/// `t` is the tab with these fields.
pub open spec fn tab_is(
    t: ChannelTab,
    id: Seq<char>,
    label: Seq<char>,
    platform: Option<Platform>,
    live: bool,
    viewer_count: Option<usize>,
) -> bool {
    t.id@ == id && t.label@ == label && t.platform == platform && t.live == live && t.viewer_count == viewer_count
}

/// The demo channel tabs: the home tab first.
pub fn channel_tabs() -> (r: Vec<ChannelTab>)
    ensures
        r@.len() == 3,
        tab_is(r@[0], "home"@, "⌂ My channels"@, None, false, None),
        tab_is(r@[1], "suhodolskiy"@, "K suhodolskiy"@, Some(Platform::Kick), false, None),
        tab_is(r@[2], "dapzeroff"@, "K dapzeroff, dapzer"@, Some(Platform::Kick), false, None),
{
    let mut r: Vec<ChannelTab> = Vec::new();
    r.push(
        ChannelTab { id: owned("home"), label: owned("⌂ My channels"), platform: None, live: false, viewer_count: None },
    );
    r.push(
        ChannelTab {
            id: owned("suhodolskiy"),
            label: owned("K suhodolskiy"),
            platform: Some(Platform::Kick),
            live: false,
            viewer_count: None,
        },
    );
    r.push(
        ChannelTab {
            id: owned("dapzeroff"),
            label: owned("K dapzeroff, dapzer"),
            platform: Some(Platform::Kick),
            live: false,
            viewer_count: None,
        },
    );
    r
}

/// `c` is the chip with these fields.
pub open spec fn chip_is(c: StreamChip, platform: Platform, channel_name: Seq<char>, live: bool, viewer_count: Option<usize>) -> bool {
    c.platform == platform && c.channel_name@ == channel_name && c.live == live && c.viewer_count == viewer_count
}

/// The demo stream chips of the header.
pub fn header_chips() -> (r: Vec<StreamChip>)
    ensures
        r@.len() == 2,
        chip_is(r@[0], Platform::Kick, "satont 9"@, true, None),
        chip_is(r@[1], Platform::Twitch, "justovich221337"@, false, None),
{
    let mut r: Vec<StreamChip> = Vec::new();
    r.push(StreamChip { platform: Platform::Kick, channel_name: owned("satont 9"), live: true, viewer_count: None });
    r.push(StreamChip { platform: Platform::Twitch, channel_name: owned("justovich221337"), live: false, viewer_count: None });
    r
}

/// The rows of the demo chat: platform, time, author, whether the author wears the `BOT`
/// badge, text, author colour and whether the row is a system notice.
pub open spec fn chat_rows() -> Seq<(Platform, Seq<char>, Seq<char>, bool, Seq<char>, u32, bool)> {
    seq![
        (Platform::Kick, "01:31:32"@, "Lanxre"@, false, "ну вообще да, надо посмотреть на финале"@, 0xa855f7u32, false),
        (Platform::Kick, "01:32:00"@, "Lanxre"@, false, "но как же мне не нравится читать код на расте"@, 0xa855f7u32, false),
        (Platform::Kick, "01:35:38"@, "Lanxre"@, false, "интересно, если есть прикол переписывать все на раст, то почему нет прикола переписи на го"@, 0xa855f7u32, false),
        (Platform::Kick, "01:37:54"@, "zalupaslona7_5"@, false, "у раста комьюнити фанатиков ебнутых"@, 0x60a5fau32, false),
        (Platform::Kick, "01:39:50"@, "Fossabot"@, true, "Tg: https://t.me/satontdev"@, 0x60a5fau32, false),
        (Platform::Kick, "01:41:13"@, "Lanxre"@, false, "cloudflare уже один раз обосрались"@, 0xa855f7u32, false),
        (Platform::Kick, "01:41:14"@, "zalupaslona7_5"@, false, "а можно просто на с писать"@, 0x60a5fau32, false),
        (Platform::Kick, "01:41:19"@, "Lanxre"@, false, "я бы подумал два раза"@, 0xa855f7u32, false),
        (Platform::Kick, "01:42:54"@, "zalupaslona7_5"@, false, "я имею ввиду вместо раста"@, 0x60a5fau32, false),
        (Platform::Kick, "01:43:09"@, "zalupaslona7_5"@, false, "а почему зиг"@, 0x60a5fau32, false),
        (Platform::Kick, "01:43:18"@, "zalupaslona7_5"@, false, "за зиг вообще не шарю"@, 0x60a5fau32, false),
        (Platform::Kick, "01:46:49"@, "Fossabot"@, true, "donz99 just followed the stream! 💚"@, 0x60a5fau32, true),
        (Platform::Twitch, "01:49:19"@, "justovich221337"@, false, "!pc"@, 0xd1d5dbu32, false),
        (Platform::Kick, "01:49:20"@, "Satont"@, false, "!pc"@, 0xffffffu32, false),
        (Platform::Kick, "01:49:21"@, "Fossabot"@, true, "Motherboard: Asus Rog Strix B850E Gaming Wi‑Fi | CPU: AMD Ryzen 7 9800x3d | RAM: ADATA XPG Lancer d30 64GB 6000MHz"@, 0x60a5fau32, false),
        (Platform::Kick, "01:49:43"@, "zalupaslona7_5"@, false, "столько интересного софта используешь"@, 0x60a5fau32, false),
        (Platform::Kick, "01:49:54"@, "zalupaslona7_5"@, false, "фосса бот какой то)"@, 0x60a5fau32, false),
        (Platform::Kick, "01:50:03"@, "boolshit"@, false, "а почему fossabot а не twir"@, 0x22c55eu32, false),
        (Platform::Kick, "01:50:08"@, "Fossabot"@, true, "Tg: https://t.me/satontdev"@, 0x60a5fau32, false),
        (Platform::Kick, "01:50:53"@, "zalupaslona7_5"@, false, "👍"@, 0x60a5fau32, false),
        (Platform::Kick, "01:51:53"@, "zalupaslona7_5"@, false, "а ты какие то скилы юзаешь?"@, 0x60a5fau32, false),
        (Platform::Kick, "01:52:37"@, "zalupaslona7_5"@, false, "скил для vlq это лол"@, 0x60a5fau32, false),
        (Platform::Kick, "01:53:46"@, "zalupaslona7_5"@, false, "хз а в чем заключаются этот скил"@, 0x60a5fau32, false),
        (Platform::Kick, "01:54:47"@, "Lanxre"@, false, "🙂"@, 0xa855f7u32, false),
        (Platform::Kick, "01:55:28"@, "Lanxre"@, false, "ахахаха"@, 0xa855f7u32, false),
        (Platform::Kick, "01:55:41"@, "Lanxre"@, false, "без икончек"@, 0xa855f7u32, false),
        (Platform::Kick, "01:55:43"@, "zalupaslona7_5"@, false, "хз, новые модели вроде по таким технологиям"@, 0x60a5fau32, false),
    ]
}

/// `m` is row `row` of the demo chat as shown in round `round`: rounds after the first mark
/// the text of non-system rows with ` · ` and the round number.
pub open spec fn chat_message_is(m: ChatMessage, row: (Platform, Seq<char>, Seq<char>, bool, Seq<char>, u32, bool), round: nat) -> bool {
    &&& m.platform == row.0
    &&& m.timestamp@ == row.1
    &&& m.author@ == row.2
    &&& strings_view(m.badges@) == (if row.3 {
        seq!["BOT"@]
    } else {
        Seq::<Seq<char>>::empty()
    })
    &&& m.text@ == (if round == 0 || row.6 {
        row.4
    } else {
        row.4 + " · "@ + decimal(round)
    })
    &&& m.author_color_hex == row.5
    &&& m.system == row.6
}

/// One row of the demo chat.
fn chat_row(j: usize) -> (r: (Platform, &'static str, &'static str, bool, &'static str, u32, bool))
    requires
        j < 27,
    ensures
        (r.0, r.1@, r.2@, r.3, r.4@, r.5, r.6) == chat_rows()[j as int],
{
    match j {
        0 => (Platform::Kick, "01:31:32", "Lanxre", false, "ну вообще да, надо посмотреть на финале", 0xa855f7u32, false),
        1 => (Platform::Kick, "01:32:00", "Lanxre", false, "но как же мне не нравится читать код на расте", 0xa855f7u32, false),
        2 => (Platform::Kick, "01:35:38", "Lanxre", false, "интересно, если есть прикол переписывать все на раст, то почему нет прикола переписи на го", 0xa855f7u32, false),
        3 => (Platform::Kick, "01:37:54", "zalupaslona7_5", false, "у раста комьюнити фанатиков ебнутых", 0x60a5fau32, false),
        4 => (Platform::Kick, "01:39:50", "Fossabot", true, "Tg: https://t.me/satontdev", 0x60a5fau32, false),
        5 => (Platform::Kick, "01:41:13", "Lanxre", false, "cloudflare уже один раз обосрались", 0xa855f7u32, false),
        6 => (Platform::Kick, "01:41:14", "zalupaslona7_5", false, "а можно просто на с писать", 0x60a5fau32, false),
        7 => (Platform::Kick, "01:41:19", "Lanxre", false, "я бы подумал два раза", 0xa855f7u32, false),
        8 => (Platform::Kick, "01:42:54", "zalupaslona7_5", false, "я имею ввиду вместо раста", 0x60a5fau32, false),
        9 => (Platform::Kick, "01:43:09", "zalupaslona7_5", false, "а почему зиг", 0x60a5fau32, false),
        10 => (Platform::Kick, "01:43:18", "zalupaslona7_5", false, "за зиг вообще не шарю", 0x60a5fau32, false),
        11 => (Platform::Kick, "01:46:49", "Fossabot", true, "donz99 just followed the stream! 💚", 0x60a5fau32, true),
        12 => (Platform::Twitch, "01:49:19", "justovich221337", false, "!pc", 0xd1d5dbu32, false),
        13 => (Platform::Kick, "01:49:20", "Satont", false, "!pc", 0xffffffu32, false),
        14 => (Platform::Kick, "01:49:21", "Fossabot", true, "Motherboard: Asus Rog Strix B850E Gaming Wi‑Fi | CPU: AMD Ryzen 7 9800x3d | RAM: ADATA XPG Lancer d30 64GB 6000MHz", 0x60a5fau32, false),
        15 => (Platform::Kick, "01:49:43", "zalupaslona7_5", false, "столько интересного софта используешь", 0x60a5fau32, false),
        16 => (Platform::Kick, "01:49:54", "zalupaslona7_5", false, "фосса бот какой то)", 0x60a5fau32, false),
        17 => (Platform::Kick, "01:50:03", "boolshit", false, "а почему fossabot а не twir", 0x22c55eu32, false),
        18 => (Platform::Kick, "01:50:08", "Fossabot", true, "Tg: https://t.me/satontdev", 0x60a5fau32, false),
        19 => (Platform::Kick, "01:50:53", "zalupaslona7_5", false, "👍", 0x60a5fau32, false),
        20 => (Platform::Kick, "01:51:53", "zalupaslona7_5", false, "а ты какие то скилы юзаешь?", 0x60a5fau32, false),
        21 => (Platform::Kick, "01:52:37", "zalupaslona7_5", false, "скил для vlq это лол", 0x60a5fau32, false),
        22 => (Platform::Kick, "01:53:46", "zalupaslona7_5", false, "хз а в чем заключаются этот скил", 0x60a5fau32, false),
        23 => (Platform::Kick, "01:54:47", "Lanxre", false, "🙂", 0xa855f7u32, false),
        24 => (Platform::Kick, "01:55:28", "Lanxre", false, "ахахаха", 0xa855f7u32, false),
        25 => (Platform::Kick, "01:55:41", "Lanxre", false, "без икончек", 0xa855f7u32, false),
        _ => (Platform::Kick, "01:55:43", "zalupaslona7_5", false, "хз, новые модели вроде по таким технологиям", 0x60a5fau32, false),
    }
}

proof fn lemma_round_row(round: nat, j: nat)
    requires
        j < 27,
    ensures
        (round * 27 + j) % 27 == j,
        (round * 27 + j) / 27 == round,
{
    assert((round * 27 + j) % 27 == j && (round * 27 + j) / 27 == round) by (nonlinear_arith)
        requires
            j < 27,
    ;
}

/// The demo chat: the rows five times over, in order.
pub fn chat_messages() -> (r: Vec<ChatMessage>)
    ensures
        r@.len() == 5 * chat_rows().len(),
        forall|i: int| 0 <= i < r@.len() ==> chat_message_is(#[trigger] r@[i], chat_rows()[i % 27], (i / 27) as nat),
{
    assert(chat_rows().len() == 27);
    let mut messages: Vec<ChatMessage> = Vec::new();
    let mut round: u64 = 0;
    while round < 5
        invariant
            round <= 5,
            chat_rows().len() == 27,
            messages@.len() == round * 27,
            forall|i: int|
                0 <= i < messages@.len() ==> chat_message_is(#[trigger] messages@[i], chat_rows()[i % 27], (i / 27) as nat),
        decreases 5 - round,
    {
        let mut j: usize = 0;
        while j < 27
            invariant
                round < 5,
                j <= 27,
                chat_rows().len() == 27,
                messages@.len() == round * 27 + j,
                forall|i: int|
                    0 <= i < messages@.len() ==> chat_message_is(#[trigger] messages@[i], chat_rows()[i % 27], (i / 27) as nat),
            decreases 27 - j,
        {
            let row = chat_row(j);
            let mut badges: Vec<String> = Vec::new();
            if row.3 {
                badges.push(owned("BOT"));
            }
            proof {
                assert(strings_view(badges@) =~= (if row.3 {
                    seq!["BOT"@]
                } else {
                    Seq::<Seq<char>>::empty()
                }));
            }
            let text = if round == 0 || row.6 {
                owned(row.4)
            } else {
                let mut t = owned(row.4);
                push_str(&mut t, " · ");
                push_decimal(&mut t, round);
                t
            };
            let m = ChatMessage {
                platform: row.0,
                timestamp: owned(row.1),
                author: owned(row.2),
                badges,
                text,
                author_color_hex: row.5,
                system: row.6,
            };
            let ghost n = messages@.len();
            proof {
                lemma_round_row(round as nat, j as nat);
                assert(n == round * 27 + j);
            }
            messages.push(m);
            j = j + 1;
        }
        round = round + 1;
    }
    messages
}

/// `e` is the event with these fields.
pub open spec fn event_is(e: UiEvent, platform: Platform, title: Seq<char>, detail: Seq<char>, accent_hex: u32, timestamp: Seq<char>) -> bool {
    e.platform == platform && e.title@ == title && e.detail@ == detail && e.accent_hex == accent_hex && e.timestamp@ == timestamp
}

/// The demo activity events.
pub fn events() -> (r: Vec<UiEvent>)
    ensures
        r@.len() == 2,
        event_is(r@[0], Platform::Twitch, "New follow"@, "donz99 followed the channel"@, 0x22c55e, "01:46"@),
        event_is(r@[1], Platform::Kick, "Raid"@, "zalupaslona7_5 joined the stream"@, 0x3b82f6, "01:31"@),
{
    let mut r: Vec<UiEvent> = Vec::new();
    r.push(
        UiEvent {
            platform: Platform::Twitch,
            title: owned("New follow"),
            detail: owned("donz99 followed the channel"),
            accent_hex: 0x22c55e,
            timestamp: owned("01:46"),
        },
    );
    r.push(
        UiEvent {
            platform: Platform::Kick,
            title: owned("Raid"),
            detail: owned("zalupaslona7_5 joined the stream"),
            accent_hex: 0x3b82f6,
            timestamp: owned("01:31"),
        },
    );
    r
}

/// `c` is the platform card with these fields.
pub open spec fn card_is(
    c: PlatformCard,
    platform: Platform,
    display_name: Seq<char>,
    username: Seq<char>,
    status: Seq<char>,
    joined_channel: Seq<char>,
    action_label: Seq<char>,
) -> bool {
    &&& c.platform == platform
    &&& c.display_name@ == display_name
    &&& c.username@ == username
    &&& c.status@ == status
    &&& c.joined_channel@ == joined_channel
    &&& c.action_label@ == action_label
}

/// The demo cards of connected platforms.
pub fn platform_cards() -> (r: Vec<PlatformCard>)
    ensures
        r@.len() == 2,
        card_is(r@[0], Platform::Kick, "satont"@, "@satont"@, "Connected"@, "#satont"@, "Disconnect"@),
        card_is(
            r@[1],
            Platform::Twitch,
            "justovich221337"@,
            "@justovich221337"@,
            "Connected"@,
            "#justovich221337"@,
            "Disconnect"@,
        ),
{
    let mut r: Vec<PlatformCard> = Vec::new();
    r.push(
        PlatformCard {
            platform: Platform::Kick,
            display_name: owned("satont"),
            username: owned("@satont"),
            status: owned("Connected"),
            joined_channel: owned("#satont"),
            action_label: owned("Disconnect"),
        },
    );
    r.push(
        PlatformCard {
            platform: Platform::Twitch,
            display_name: owned("justovich221337"),
            username: owned("@justovich221337"),
            status: owned("Connected"),
            joined_channel: owned("#justovich221337"),
            action_label: owned("Disconnect"),
        },
    );
    r
}

/// `s` is the settings row with these fields.
pub open spec fn setting_is(s: SettingRow, label: Seq<char>, value: Seq<char>, hint: Seq<char>) -> bool {
    s.label@ == label && s.value@ == value && s.hint@ == hint
}

/// The demo settings rows.
pub fn settings() -> (r: Vec<SettingRow>)
    ensures
        r@.len() == 3,
        setting_is(r@[0], "Theme"@, "Dark"@, "Palette matches the current desktop app"@),
        setting_is(r@[1], "Font family"@, "Inter"@, "Main chat typography is compact and dark"@),
        setting_is(r@[2], "Composer"@, "Compact"@, "Dense footer layout with chip targets and send action"@),
{
    let mut r: Vec<SettingRow> = Vec::new();
    r.push(SettingRow { label: owned("Theme"), value: owned("Dark"), hint: owned("Palette matches the current desktop app") });
    r.push(
        SettingRow {
            label: owned("Font family"),
            value: owned("Inter"),
            hint: owned("Main chat typography is compact and dark"),
        },
    );
    r.push(
        SettingRow {
            label: owned("Composer"),
            value: owned("Compact"),
            hint: owned("Dense footer layout with chip targets and send action"),
        },
    );
    r
}

} // verus!
