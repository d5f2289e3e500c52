//! The shell's own state: what it does as the application state changes, where
//! its routes lead, and what a frame holds.

use vstd::prelude::*;

use crate::keiki::SessionStatus;
use crate::nav::visited;
use crate::nav::NavEntry;
use crate::nav::NavHistory;
use crate::nav::Route;
use crate::nav::SettingsSection;
use crate::nav::Trail;
use crate::nav::Visit;
use crate::rows::MessagePart;
use crate::rows::MessageRole;
use crate::rows::SessionMessageEntry;
use crate::sidebar::empty_state_action_label;
use crate::sidebar::empty_state_variant;
use crate::sidebar::text_or;
use crate::sidebar::EmptyStateVariant;
use crate::sidebar::Indicator;
use crate::text::concat;
use crate::text::concat3;
use crate::text::contains;
use crate::text::halves;
use crate::text::listed;
use crate::text::optional;
use crate::text::parse_u64;
use crate::text::parsed_u64;
use crate::text::same;
use crate::text::same_optional;
use crate::text::same_options;
use crate::text::split_once;
use crate::text::texts;
use crate::text_map::TextMap;

verus! {

/// How far the boot splash has come.
#[derive(Debug, Clone, Copy, PartialEq, Eq, Structural)]
pub enum SplashPhase {
    Visible,
    FadingOut,
    Gone,
}

/// How the shell is connected to its engine.
#[derive(Debug, Clone, Copy, PartialEq, Eq, Structural)]
pub enum ConnectionStatus {
    Connecting,
    Ready,
    Failed,
}

/// The dialog that the shell was told to open at boot.
#[derive(Debug)]
pub enum BootDialog {
    AddSpace,
    Rename(String),
    Delete(String),
    /// The name stands for no dialog.
    Unknown,
}

/// A staged upload that the shell was told to show: how much of it has gone
/// through, of which image, in which chat.
#[derive(Debug)]
pub struct DemoUpload {
    pub chat_id: String,
    pub percent: u64,
    pub image_path: String,
}

/// How much a staged upload counts as the whole.
pub const DEMO_UPLOAD_TOTAL: u64 = 100;

/// Where an attachment stands until it has been uploaded.
pub fn pending_path(id: &str, name: &str) -> (path: String)
    ensures
        path@ == "pending/"@ + id@ + "/"@ + name@,
{
    let head = concat3("pending/", id, "/");
    concat(head.as_str(), name)
}

/// The devices that a staged image is shown on: that of the selected chat, this
/// one, and the one that a chat without a device counts as.
pub fn demo_upload_devices(chat_device: &Option<String>, local_device: &Option<String>) -> (devices:
    Vec<String>)
    ensures
        texts(devices@) == once(optional(*chat_device)) + once(optional(*local_device)) + seq![
            "local"@,
        ],
{
    let mut devices: Vec<String> = Vec::new();
    if let Some(device) = chat_device {
        devices.push(device.clone());
    }
    assert(texts(devices@) =~= once(optional(*chat_device)));
    if let Some(device) = local_device {
        devices.push(device.clone());
    }
    assert(texts(devices@) =~= once(optional(*chat_device)) + once(optional(*local_device)));
    devices.push("local".to_owned());
    assert(texts(devices@) =~= once(optional(*chat_device)) + once(optional(*local_device)) + seq![
        "local"@,
    ]);
    devices
}

/// A text that is there once, or not at all.
pub open spec fn once(text: Option<Seq<char>>) -> Seq<Seq<char>> {
    match text {
        Some(text) => seq![text],
        None => Seq::empty(),
    }
}

/// The message that shows a staged upload on its way; `text` holds its words and
/// names the image, `now` is in milliseconds since the Unix epoch.
pub fn demo_echo(text: String, now: i64) -> (echo: SessionMessageEntry)
    ensures
        echo.id@ == "demo-upload-echo"@,
        echo.role is User,
        echo.parts@.len() == 1,
        ({
            let MessagePart::Text { id, text: words } = echo.parts@[0];
            id@ == "t0"@ && words@ == text@
        }),
        echo.created_at == now,
        echo.device_id@ == "local"@,
        echo.status is None,
        echo.continuation_of is None,
{
    let mut parts: Vec<MessagePart> = Vec::new();
    parts.push(MessagePart::Text { id: "t0".to_owned(), text });
    SessionMessageEntry {
        id: "demo-upload-echo".to_owned(),
        role: MessageRole::User,
        parts,
        created_at: now,
        device_id: "local".to_owned(),
        status: None,
        continuation_of: None,
    }
}

/// What the message of a staged upload says.
pub const DEMO_UPLOAD_TEXT: &'static str = "Here is the screenshot of the bug.";

/// What a session was last seen doing.
#[derive(Debug, Clone, Copy, PartialEq, Eq, Structural)]
pub enum SessionActivity {
    Working,
    AwaitingInput,
    Errored,
    Idle,
}

/// What a session is doing, as its indicator shows it.
pub fn activity(indicator: Indicator) -> (activity: SessionActivity)
    ensures
        activity == match indicator {
            Indicator::Working => SessionActivity::Working,
            Indicator::AwaitingInput => SessionActivity::AwaitingInput,
            Indicator::Errored => SessionActivity::Errored,
            Indicator::Quiet => SessionActivity::Idle,
        },
{
    match indicator {
        Indicator::Working => SessionActivity::Working,
        Indicator::AwaitingInput => SessionActivity::AwaitingInput,
        Indicator::Errored => SessionActivity::Errored,
        Indicator::Quiet => SessionActivity::Idle,
    }
}

/// A chime.
#[derive(Debug, Clone, Copy, PartialEq, Eq, Structural)]
pub enum Sound {
    Done,
    Request,
}

/// What the user wants to hear and see of sessions that change.
#[derive(Debug, Clone, Copy, PartialEq, Eq, Structural)]
pub struct PingSettings {
    pub sound_enabled: bool,
    pub notifications_enabled: bool,
    pub notifications_background_only: bool,
}

/// What is heard and seen of a session that changed.
#[derive(Debug)]
pub struct Ping {
    pub play: Option<Sound>,
    pub banner: Option<(String, &'static str)>,
}

/// Whether a chime sounds at all: the end of a run stays quiet while a message
/// has not reached its session.
pub open spec fn rings(sound: Option<Sound>, send_pending: bool) -> bool {
    sound is Some && !(send_pending && sound->0 is Done)
}

/// The chime that is heard of a change.
pub open spec fn heard(sound: Option<Sound>, send_pending: bool, settings: PingSettings) -> Option<
    Sound,
> {
    if rings(sound, send_pending) && settings.sound_enabled {
        sound
    } else {
        None
    }
}

/// Whether a banner is posted of a change.
pub open spec fn posted(
    sound: Option<Sound>,
    send_pending: bool,
    settings: PingSettings,
    app_focused: bool,
) -> bool {
    &&& rings(sound, send_pending)
    &&& settings.notifications_enabled
    &&& !(settings.notifications_background_only && app_focused)
}

/// Whether `ping` is what is heard and seen of a change whose chime is `sound`,
/// in the session called `title`.
pub open spec fn pinged(
    ping: Ping,
    sound: Option<Sound>,
    send_pending: bool,
    title: Option<Seq<char>>,
    settings: PingSettings,
    app_focused: bool,
) -> bool {
    &&& ping.play == heard(sound, send_pending, settings)
    &&& ping.banner is Some == posted(sound, send_pending, settings, app_focused)
    &&& ping.banner is Some ==> {
        &&& (ping.banner->0).0@ == text_or(title, "New session"@)
        &&& (ping.banner->0).1@ == match sound->0 {
            Sound::Done => "Run finished"@,
            Sound::Request => "Waiting on your input"@,
        }
    }
}

/// What is heard and seen of a session that changed: `sound` is the chime of
/// the change, `title` the session's name.
pub fn ping(
    sound: Option<Sound>,
    send_pending: bool,
    title: Option<String>,
    settings: PingSettings,
    app_focused: bool,
) -> (ping: Ping)
    ensures
        pinged(ping, sound, send_pending, optional(title), settings, app_focused),
{
    match sound {
        Some(chime) => {
            if send_pending && chime == Sound::Done {
                return Ping { play: None, banner: None };
            }
            let play = if settings.sound_enabled {
                Some(chime)
            } else {
                None
            };
            let banner = if settings.notifications_enabled && !(
            settings.notifications_background_only && app_focused) {
                let heading = match title {
                    Some(text) => text,
                    None => "New session".to_owned(),
                };
                let body = match chime {
                    Sound::Done => "Run finished",
                    Sound::Request => "Waiting on your input",
                };
                Some((heading, body))
            } else {
                None
            };
            Ping { play, banner }
        },
        None => Ping { play: None, banner: None },
    }
}

/// A banner is never posted for a change whose chime would stay quiet if chimes
/// were switched on.
pub proof fn law_banners_follow_the_chimes(
    sound: Option<Sound>,
    send_pending: bool,
    settings: PingSettings,
    app_focused: bool,
)
    ensures
        posted(sound, send_pending, settings, app_focused) ==> sound is Some && heard(
            sound,
            send_pending,
            PingSettings { sound_enabled: true, ..settings },
        ) == sound,
{
}

/// The chime of a session that is seen doing `now`, where `before` is what it was
/// seen doing before: a session that is seen for the first time has none.
/// `sounds` tells the chime of a change.
pub open spec fn chime_of(
    before: Option<SessionActivity>,
    now: SessionActivity,
    sounds: spec_fn(SessionActivity, SessionActivity) -> Option<Sound>,
) -> Option<Sound> {
    match before {
        Some(earlier) => sounds(earlier, now),
        None => None,
    }
}

/// Only a change is heard or seen: a session that is seen for the first time is
/// silent, and so is a change that has no chime. A message that has not reached
/// its session holds back the end of a run, and never a question.
pub proof fn law_only_a_change_is_heard(
    before: Option<SessionActivity>,
    now: SessionActivity,
    sounds: spec_fn(SessionActivity, SessionActivity) -> Option<Sound>,
    send_pending: bool,
    title: Option<Seq<char>>,
    settings: PingSettings,
    app_focused: bool,
    ping: Ping,
)
    requires
        pinged(ping, chime_of(before, now, sounds), send_pending, title, settings, app_focused),
    ensures
        ping.play is Some || ping.banner is Some ==> {
            &&& before is Some
            &&& sounds(before->0, now) is Some
            &&& !(send_pending && sounds(before->0, now) == Some(Sound::Done))
        },
        before is Some && sounds(before->0, now) == Some(Sound::Request) && settings.sound_enabled
            ==> ping.play == Some(Sound::Request),
        before is Some && sounds(before->0, now) == Some(Sound::Done) && settings.sound_enabled
            && !send_pending ==> ping.play == Some(Sound::Done),
{
}

/// The shell.
#[derive(Debug)]
pub struct Shell {
    pub route: Route,
    pub nav: NavHistory,
    pub active_chat: String,
    pub copilot_synced_token: Option<String>,
    pub debug_dialog: Option<String>,
    pub debug_upload: Option<String>,
    pub sound_prev: TextMap<SessionActivity>,
    pub space_boot_applied: bool,
    pub last_space_id: Option<String>,
    pub space_filter: Option<String>,
    pub jump_hints: bool,
    pub splash: SplashPhase,
}

/// The route that a name stands for.
pub open spec fn route_named(name: Option<Seq<char>>) -> Route {
    if name == Some("settings"@) || name == Some("settings/devices"@) || name == Some(
        "settings/appearance"@,
    ) {
        Route::Settings(SettingsSection::Appearance)
    } else if name == Some("settings/notifications"@) {
        Route::Settings(SettingsSection::Notifications)
    } else if name == Some("settings/shortcuts"@) {
        Route::Settings(SettingsSection::Shortcuts)
    } else if name == Some("settings/archived"@) {
        Route::Settings(SettingsSection::Archived)
    } else {
        Route::Chat
    }
}

/// The route that a name stands for: a section of the settings, or the chat.
/// The name `new` also keeps the shell from selecting a chat by itself.
pub fn initial_route(name: &Option<String>) -> (route: (Route, bool))
    ensures
        route.0 == route_named(optional(*name)),
        route.1 == (optional(*name) == Some("new"@)),
{
    proof {
        reveal_strlit("new");
        reveal_strlit("settings");
        reveal_strlit("settings/devices");
        reveal_strlit("settings/appearance");
        reveal_strlit("settings/notifications");
        reveal_strlit("settings/shortcuts");
        reveal_strlit("settings/archived");
        assert("new"@.len() != "settings"@.len());
        assert("new"@.len() != "settings/devices"@.len());
        assert("new"@.len() != "settings/appearance"@.len());
        assert("new"@.len() != "settings/notifications"@.len());
        assert("new"@.len() != "settings/shortcuts"@.len());
        assert("new"@.len() != "settings/archived"@.len());
    }
    if same_optional(name, "settings") || same_optional(name, "settings/devices") || same_optional(
        name,
        "settings/appearance",
    ) {
        (Route::Settings(SettingsSection::Appearance), false)
    } else if same_optional(name, "settings/notifications") {
        (Route::Settings(SettingsSection::Notifications), false)
    } else if same_optional(name, "settings/shortcuts") {
        (Route::Settings(SettingsSection::Shortcuts), false)
    } else if same_optional(name, "settings/archived") {
        (Route::Settings(SettingsSection::Archived), false)
    } else {
        (Route::Chat, same_optional(name, "new"))
    }
}

/// The failure card that a name asks for.
pub fn forced_gate(name: &Option<String>) -> (message: Option<&'static str>)
    ensures
        message is Some == (optional(*name) == Some("failed"@)),
        message is Some ==> message->0@ == "Could not reach the Keiki engine on port 27901"@,
{
    if same_optional(name, "failed") {
        Some("Could not reach the Keiki engine on port 27901")
    } else {
        None
    }
}

/// How the sidebar groups its sessions.
#[derive(Debug, Clone, Copy, PartialEq, Eq, Structural)]
pub enum SidebarOrganization {
    InOneList,
    ByProject,
    ByDevice,
    ByAgent,
}

/// How the sidebar groups its sessions at boot: with the cloud connected, one
/// list becomes a list per agent.
pub fn initial_organization(has_client: bool, saved: SidebarOrganization) -> (organization:
    SidebarOrganization)
    ensures
        organization == if has_client && saved is InOneList {
            SidebarOrganization::ByAgent
        } else {
            saved
        },
{
    if has_client && saved == SidebarOrganization::InOneList {
        SidebarOrganization::ByAgent
    } else {
        saved
    }
}

/// Where a step through the history leads.
#[derive(Debug)]
pub struct Landing {
    /// The chat to select, when the selection changes; the inner value is
    /// absent when no chat is to be selected.
    pub select: Option<Option<String>>,
}

/// The chat that a history entry selects.
pub open spec fn target_of(id: Seq<char>) -> Option<Seq<char>> {
    if id.len() == 0 {
        None
    } else {
        Some(id)
    }
}

/// Whether the shell lands on `visit`: its route shows it, and `landing`
/// selects the chat that it names unless that is selected already.
pub open spec fn lands_on(
    route: Route,
    landing: Landing,
    visit: Visit,
    selected: Option<Seq<char>>,
) -> bool {
    match visit {
        Visit::Chat(id) => {
            &&& route is Chat
            &&& landing.select is Some == (selected != target_of(id))
            &&& landing.select is Some ==> optional(landing.select->0) == target_of(id)
        },
        Visit::Settings(section) => route == Route::Settings(section) && landing.select is None,
    }
}

/// The trail after the chat `selected` came on screen: the first chat after an
/// untouched start takes the place of that start.
pub open spec fn chat_visited(trail: Trail, selected: Seq<char>) -> Trail {
    if trail.visits.len() == 1 && trail.visits[trail.at] == Visit::Chat(Seq::empty()) {
        Trail { visits: trail.visits.update(trail.at, Visit::Chat(selected)), at: trail.at }
    } else {
        visited(trail, Visit::Chat(selected))
    }
}

/// The space to select at boot: the filtered one before the last one, of those
/// that still exist; the last one not where the user opted out of projects.
pub open spec fn boot_space(
    filter: Option<Seq<char>>,
    last: Option<Seq<char>>,
    spaces: Seq<String>,
    no_project: bool,
) -> Option<Seq<char>> {
    if filter is Some && listed(spaces, filter->0) {
        filter
    } else if !no_project && last is Some && listed(spaces, last->0) {
        last
    } else {
        None
    }
}

impl Shell {
    /// Whether the history and the map of activities are sound.
    pub open spec fn wf(self) -> bool {
        self.nav.wf() && self.sound_prev.wf()
    }

    /// The shell at boot.
    pub fn new(
        route: Route,
        debug_dialog: Option<String>,
        debug_upload: Option<String>,
        last_space_id: Option<String>,
        space_filter: Option<String>,
    ) -> (shell: Self)
        ensures
            shell.wf(),
            shell.route == route,
            shell.nav@.visits == seq![
                match route {
                    Route::Chat => Visit::Chat(Seq::empty()),
                    Route::Settings(section) => Visit::Settings(section),
                },
            ],
            shell.nav@.at == 0,
            shell.active_chat@.len() == 0,
            shell.copilot_synced_token is None,
            shell.debug_dialog == debug_dialog,
            shell.debug_upload == debug_upload,
            shell.sound_prev@ == Map::<Seq<char>, SessionActivity>::empty(),
            !shell.space_boot_applied,
            shell.last_space_id == last_space_id,
            shell.space_filter == space_filter,
            !shell.jump_hints,
            shell.splash is Visible,
    {
        let entry = match route {
            Route::Chat => NavEntry::Chat(String::new()),
            Route::Settings(section) => NavEntry::Settings(section),
        };
        Shell {
            route,
            nav: NavHistory::new(entry),
            active_chat: String::new(),
            copilot_synced_token: None,
            debug_dialog,
            debug_upload,
            sound_prev: TextMap::new(),
            space_boot_applied: false,
            last_space_id,
            space_filter,
            jump_hints: false,
            splash: SplashPhase::Visible,
        }
    }

    /// The access token that the copilot is still to be given. Without a
    /// token the copilot counts as never served.
    pub fn copilot_sync(&mut self, token: &Option<String>, has_client: bool, has_engine: bool) -> (sync:
        Option<String>)
        ensures
            optional(sync) == if has_client && has_engine && optional(
                old(self).copilot_synced_token,
            ) != optional(*token) {
                optional(*token)
            } else {
                None
            },
            *token is None ==> *final(self) == (Shell { copilot_synced_token: None, ..*old(self) }),
            *token is Some ==> *final(self) == *old(self),
    {
        match token {
            Some(access) => {
                if has_client && has_engine && !same_optional(
                    &self.copilot_synced_token,
                    access.as_str(),
                ) {
                    Some(access.clone())
                } else {
                    None
                }
            },
            None => {
                self.copilot_synced_token = None;
                None
            },
        }
    }

    /// Notes the access token that the copilot was given.
    pub fn copilot_synced(&mut self, token: String)
        ensures
            *final(self) == (Shell { copilot_synced_token: Some(token), ..*old(self) }),
    {
        self.copilot_synced_token = Some(token);
    }

    /// The dialog to open now: the palette once devices are known, another
    /// once there is a chat to open it on. It opens once.
    pub fn take_dialog(&mut self, has_devices: bool, first_chat: &Option<String>) -> (dialog: Option<
        BootDialog,
    >)
        ensures
            dialog is Some == (old(self).debug_dialog is Some && ((has_devices && optional(
                old(self).debug_dialog,
            ) == Some("add-space"@)) || *first_chat is Some)),
            dialog is None ==> *final(self) == *old(self),
            dialog is Some ==> *final(self) == (Shell { debug_dialog: None, ..*old(self) }),
            dialog is Some ==> {
                let name = old(self).debug_dialog->0@;
                if has_devices && name == "add-space"@ {
                    dialog->0 is AddSpace
                } else if name == "rename"@ {
                    dialog->0 is Rename && dialog->0->Rename_0@ == first_chat->0@
                } else if name == "delete"@ {
                    dialog->0 is Delete && dialog->0->Delete_0@ == first_chat->0@
                } else {
                    dialog->0 is Unknown
                }
            },
    {
        if has_devices && same_optional(&self.debug_dialog, "add-space") {
            self.debug_dialog = None;
            return Some(BootDialog::AddSpace);
        }
        match (&self.debug_dialog, first_chat) {
            (Some(name), Some(first)) => {
                let dialog = if same(name.as_str(), "rename") {
                    BootDialog::Rename(first.clone())
                } else if same(name.as_str(), "delete") {
                    BootDialog::Delete(first.clone())
                } else {
                    BootDialog::Unknown
                };
                self.debug_dialog = None;
                Some(dialog)
            },
            _ => None,
        }
    }

    /// The staged upload to show now that a chat is selected: a share of a
    /// hundred and, behind a colon, the path of an image. A text of another
    /// shape is used up without showing anything.
    pub fn take_upload(&mut self, selected_chat: &Option<String>) -> (upload: Option<DemoUpload>)
        ensures
            old(self).debug_upload is Some && *selected_chat is Some ==> *final(self) == (Shell {
                debug_upload: None,
                ..*old(self)
            }),
            !(old(self).debug_upload is Some && *selected_chat is Some) ==> *final(self) == *old(
                self,
            ) && upload is None,
            old(self).debug_upload is Some && *selected_chat is Some ==> match halves(
                old(self).debug_upload->0@,
                ':',
            ) {
                Some((share, path)) => match parsed_u64(share) {
                    Some(percent) => {
                        &&& upload is Some
                        &&& upload->0.chat_id@ == selected_chat->0@
                        &&& upload->0.percent == percent
                        &&& upload->0.image_path@ == path
                    },
                    None => upload is None,
                },
                None => upload is None,
            },
    {
        let upload = match (&self.debug_upload, selected_chat) {
            (Some(held), Some(chat)) => match split_once(held.as_str(), ':') {
                Some((share, path)) => match parse_u64(share) {
                    Some(percent) => Some(
                        DemoUpload {
                            chat_id: chat.clone(),
                            percent,
                            image_path: path.to_owned(),
                        },
                    ),
                    None => None,
                },
                None => None,
            },
            _ => {
                return None;
            },
        };
        self.debug_upload = None;
        upload
    }

    /// Notes what a session is doing and hands back what it was doing before;
    /// nothing for a session that is seen for the first time, so that it
    /// rings no chime.
    pub fn note_activity(&mut self, chat_id: &str, now: SessionActivity) -> (before: Option<
        SessionActivity,
    >)
        requires
            old(self).wf(),
        ensures
            final(self).wf(),
            final(self).sound_prev@ == old(self).sound_prev@.insert(chat_id@, now),
            before == if old(self).sound_prev@.dom().contains(chat_id@) {
                Some(old(self).sound_prev@[chat_id@])
            } else {
                None
            },
            *final(self) == (Shell { sound_prev: final(self).sound_prev, ..*old(self) }),
    {
        self.sound_prev.insert(chat_id, now)
    }

    /// A session was seen doing `now`: it is noted, and what is heard and seen of
    /// it follows from what it was doing before. `sound_for_transition` tells the
    /// chime of a change.
    pub fn session_seen<F: Fn(SessionActivity, SessionActivity) -> Option<Sound>>(
        &mut self,
        chat_id: &str,
        now: SessionActivity,
        sound_for_transition: F,
        send_pending: bool,
        title: Option<String>,
        settings: PingSettings,
        app_focused: bool,
    ) -> (ping: Ping)
        requires
            old(self).wf(),
            forall|before: SessionActivity| #[trigger]
                call_requires(sound_for_transition, (before, now)),
        ensures
            final(self).wf(),
            final(self).sound_prev@ == old(self).sound_prev@.insert(chat_id@, now),
            *final(self) == (Shell { sound_prev: final(self).sound_prev, ..*old(self) }),
            !old(self).sound_prev@.dom().contains(chat_id@) ==> pinged(
                ping,
                None,
                send_pending,
                optional(title),
                settings,
                app_focused,
            ),
            old(self).sound_prev@.dom().contains(chat_id@) ==> exists|sound: Option<Sound>|
                {
                    &&& #[trigger] call_ensures(
                        sound_for_transition,
                        (old(self).sound_prev@[chat_id@], now),
                        sound,
                    )
                    &&& pinged(ping, sound, send_pending, optional(title), settings, app_focused)
                },
    {
        let sound = match self.note_activity(chat_id, now) {
            Some(before) => sound_for_transition(before, now),
            None => None,
        };
        self::ping(sound, send_pending, title, settings, app_focused)
    }

    /// The space to select at boot, once spaces are known and unless a chat is
    /// selected already. It is asked for once.
    pub fn restore_space(&mut self, spaces: &Vec<String>, chat_selected: bool, no_project: bool) -> (space:
        Option<String>)
        ensures
            old(self).space_boot_applied || spaces@.len() == 0 ==> space is None && *final(self)
                == *old(self),
            !old(self).space_boot_applied && spaces@.len() > 0 ==> {
                &&& *final(self) == (Shell { space_boot_applied: true, ..*old(self) })
                &&& optional(space) == if chat_selected {
                    None
                } else {
                    boot_space(
                        optional(old(self).space_filter),
                        optional(old(self).last_space_id),
                        spaces@,
                        no_project,
                    )
                }
            },
    {
        if self.space_boot_applied || spaces.len() == 0 {
            return None;
        }
        self.space_boot_applied = true;
        if chat_selected {
            return None;
        }
        if let Some(filter) = &self.space_filter {
            if contains(spaces, filter.as_str()) {
                return Some(filter.clone());
            }
        }
        if !no_project {
            if let Some(last) = &self.last_space_id {
                if contains(spaces, last.as_str()) {
                    return Some(last.clone());
                }
            }
        }
        None
    }

    /// Remembers the selected space. Says whether the settings are to be
    /// saved.
    pub fn remember_space(&mut self, selected: &Option<String>) -> (changed: bool)
        ensures
            changed == (*selected is Some && optional(*selected) != optional(
                old(self).last_space_id,
            )),
            !changed ==> *final(self) == *old(self),
            changed ==> *final(self) == (Shell {
                last_space_id: final(self).last_space_id,
                ..*old(self)
            }) && optional(final(self).last_space_id) == optional(*selected),
    {
        match selected {
            Some(space) => {
                if same_optional(&self.last_space_id, space.as_str()) {
                    false
                } else {
                    self.last_space_id = Some(space.clone());
                    true
                }
            },
            None => false,
        }
    }

    /// Drops the filter of a space that is gone, once the spaces are known.
    /// Says whether the settings are to be saved.
    pub fn heal_filter(&mut self, spaces_synced: bool, spaces: &Vec<String>) -> (changed: bool)
        ensures
            changed == (spaces_synced && old(self).space_filter is Some && !listed(
                spaces@,
                old(self).space_filter->0@,
            )),
            !changed ==> *final(self) == *old(self),
            changed ==> *final(self) == (Shell { space_filter: None, ..*old(self) }),
    {
        if !spaces_synced {
            return false;
        }
        let dangling = match &self.space_filter {
            Some(filter) => !contains(spaces, filter.as_str()),
            None => false,
        };
        if dangling {
            self.space_filter = None;
        }
        dangling
    }

    /// Follows the selection: another chat is a visit, which is recorded while
    /// the chat route shows. Says whether the panels of another chat are to be
    /// shown.
    pub fn chat_selected(&mut self, selected: &Option<String>) -> (switched: bool)
        requires
            old(self).wf(),
        ensures
            final(self).wf(),
            ({
                let chat = text_or(optional(*selected), Seq::empty());
                &&& switched == (chat != old(self).active_chat@)
                &&& !switched ==> *final(self) == *old(self)
                &&& switched ==> {
                    &&& final(self).active_chat@ == chat
                    &&& final(self).nav@ == if old(self).route is Chat {
                        chat_visited(old(self).nav@, chat)
                    } else {
                        old(self).nav@
                    }
                    &&& *final(self) == (Shell {
                        active_chat: final(self).active_chat,
                        nav: final(self).nav,
                        ..*old(self)
                    })
                }
            }),
    {
        let chat = match selected {
            Some(id) => id.clone(),
            None => String::new(),
        };
        if same(chat.as_str(), self.active_chat.as_str()) {
            return false;
        }
        let entry = NavEntry::Chat(chat.clone());
        self.active_chat = chat;
        if let Route::Chat = self.route {
            let start = NavEntry::Chat(String::new());
            if self.nav.len() == 1 && self.nav.current().same_route(&start) {
                self.nav.replace(entry);
            } else {
                self.nav.push(entry);
            }
        }
        true
    }

    /// Follows the connection: the splash fades once the engine is ready, and
    /// is gone at once when it cannot be reached; it never comes back. Says
    /// whether the fade begins.
    pub fn connection_changed(&mut self, connection: ConnectionStatus) -> (fades: bool)
        ensures
            fades == (connection is Ready && old(self).splash is Visible),
            *final(self) == (Shell {
                splash: match connection {
                    ConnectionStatus::Ready => if old(self).splash is Visible {
                        SplashPhase::FadingOut
                    } else {
                        old(self).splash
                    },
                    ConnectionStatus::Failed => SplashPhase::Gone,
                    ConnectionStatus::Connecting => old(self).splash,
                },
                ..*old(self)
            }),
    {
        match connection {
            ConnectionStatus::Ready => {
                if self.splash == SplashPhase::Visible {
                    self.splash = SplashPhase::FadingOut;
                    true
                } else {
                    false
                }
            },
            ConnectionStatus::Failed => {
                self.splash = SplashPhase::Gone;
                false
            },
            ConnectionStatus::Connecting => false,
        }
    }

    /// The fade of the splash is over.
    pub fn splash_faded(&mut self)
        ensures
            *final(self) == (Shell { splash: SplashPhase::Gone, ..*old(self) }),
    {
        self.splash = SplashPhase::Gone;
    }

    /// Shows a section of the settings.
    pub fn open_settings(&mut self, section: SettingsSection)
        requires
            old(self).wf(),
        ensures
            final(self).wf(),
            final(self).route == Route::Settings(section),
            final(self).nav@ == visited(old(self).nav@, Visit::Settings(section)),
            *final(self) == (Shell {
                route: final(self).route,
                nav: final(self).nav,
                ..*old(self)
            }),
    {
        self.route = Route::Settings(section);
        self.nav.push(NavEntry::Settings(section));
    }

    /// Leaves the settings for the chat that was on screen.
    pub fn close_settings(&mut self)
        requires
            old(self).wf(),
        ensures
            final(self).wf(),
            final(self).route is Chat,
            final(self).nav@ == visited(old(self).nav@, Visit::Chat(old(self).active_chat@)),
            *final(self) == (Shell {
                route: final(self).route,
                nav: final(self).nav,
                ..*old(self)
            }),
    {
        self.route = Route::Chat;
        self.nav.push(NavEntry::Chat(self.active_chat.clone()));
    }

    /// Lands on a history entry without recording a visit.
    fn apply_nav(&mut self, entry: NavEntry, selected_chat: &Option<String>) -> (landing: Landing)
        ensures
            lands_on(
                final(self).route,
                landing,
                entry@,
                optional(*selected_chat),
            ),
            *final(self) == (Shell { route: final(self).route, ..*old(self) }),
    {
        match entry {
            NavEntry::Chat(id) => {
                self.route = Route::Chat;
                let target = if id.as_str().is_empty() {
                    None
                } else {
                    Some(id)
                };
                if same_options(selected_chat, &target) {
                    Landing { select: None }
                } else {
                    Landing { select: Some(target) }
                }
            },
            NavEntry::Settings(section) => {
                self.route = Route::Settings(section);
                Landing { select: None }
            },
        }
    }

    /// Steps back through the history, if an older route lies behind.
    pub fn navigate_back(&mut self, selected_chat: &Option<String>) -> (landing: Option<Landing>)
        requires
            old(self).wf(),
        ensures
            final(self).wf(),
            landing is Some == (old(self).nav@.at > 0),
            landing is None ==> final(self).route == old(self).route && final(self).nav@.at == old(
                self,
            ).nav@.at,
            landing is Some ==> {
                &&& final(self).nav@.at == old(self).nav@.at - 1
                &&& lands_on(
                    final(self).route,
                    landing->0,
                    old(self).nav@.visits[old(self).nav@.at - 1],
                    optional(*selected_chat),
                )
            },
            final(self).nav@.visits == old(self).nav@.visits,
            *final(self) == (Shell {
                route: final(self).route,
                nav: final(self).nav,
                ..*old(self)
            }),
    {
        match self.nav.back() {
            Some(entry) => Some(self.apply_nav(entry, selected_chat)),
            None => None,
        }
    }

    /// Steps forward through the history, if a newer route lies ahead.
    pub fn navigate_forward(&mut self, selected_chat: &Option<String>) -> (landing: Option<Landing>)
        requires
            old(self).wf(),
        ensures
            final(self).wf(),
            landing is Some == (old(self).nav@.at + 1 < old(self).nav@.visits.len()),
            landing is None ==> final(self).route == old(self).route && final(self).nav@.at == old(
                self,
            ).nav@.at,
            landing is Some ==> {
                &&& final(self).nav@.at == old(self).nav@.at + 1
                &&& lands_on(
                    final(self).route,
                    landing->0,
                    old(self).nav@.visits[old(self).nav@.at + 1],
                    optional(*selected_chat),
                )
            },
            final(self).nav@.visits == old(self).nav@.visits,
            *final(self) == (Shell {
                route: final(self).route,
                nav: final(self).nav,
                ..*old(self)
            }),
    {
        match self.nav.forward() {
            Some(entry) => Some(self.apply_nav(entry, selected_chat)),
            None => None,
        }
    }

    /// Shows or hides the keys that open the first rows. Says whether anything
    /// changed.
    pub fn set_jump_hints(&mut self, visible: bool) -> (changed: bool)
        ensures
            changed == (old(self).jump_hints != visible),
            *final(self) == (Shell { jump_hints: visible, ..*old(self) }),
    {
        if self.jump_hints != visible {
            self.jump_hints = visible;
            true
        } else {
            false
        }
    }

    /// Follows the modifier keys: `held` says that exactly those of a jump
    /// shortcut are down. Only the chat route shows the hints, and not under
    /// an overlay, which owns the keyboard.
    pub fn modifiers_changed(&mut self, held: bool, overlay: bool) -> (changed: bool)
        ensures
            final(self).jump_hints == (old(self).route is Chat && !overlay && held),
            changed == (old(self).jump_hints != final(self).jump_hints),
            *final(self) == (Shell { jump_hints: final(self).jump_hints, ..*old(self) }),
    {
        let on_chat = match self.route {
            Route::Chat => true,
            Route::Settings(_) => false,
        };
        self.set_jump_hints(on_chat && !overlay && held)
    }

    /// Follows the window: the hints go when it goes to the background. Says
    /// whether anything changed.
    pub fn activation_changed(&mut self, active: bool) -> (changed: bool)
        ensures
            final(self).jump_hints == (active && old(self).jump_hints),
            changed == (old(self).jump_hints != final(self).jump_hints),
            *final(self) == (Shell { jump_hints: final(self).jump_hints, ..*old(self) }),
    {
        if active {
            false
        } else {
            self.set_jump_hints(false)
        }
    }
}

/// Where the keyboard goes.
#[derive(Debug, Clone, Copy, PartialEq, Eq, Structural)]
pub enum Focus {
    Composer,
    Terminal,
    Nothing,
}

/// Where the keyboard goes when what it went to is gone: to the composer on the
/// chat route; the settings have none, and nothing is focused there.
pub fn focus_lost(route: Route) -> (focus: Focus)
    ensures
        focus == if route is Chat {
            Focus::Composer
        } else {
            Focus::Nothing
        },
{
    match route {
        Route::Chat => Focus::Composer,
        Route::Settings(_) => Focus::Nothing,
    }
}

/// Where the keyboard goes when the terminal drawer has opened or closed: to the
/// prompt, or back to the composer.
pub fn drawer_focus(open: bool) -> (focus: Focus)
    ensures
        focus == if open {
            Focus::Terminal
        } else {
            Focus::Composer
        },
{
    if open {
        Focus::Terminal
    } else {
        Focus::Composer
    }
}

/// Whether the window is painted again each second: the selected chat is doing
/// something, and how long is shown.
pub fn ticks(selected: Option<Indicator>) -> (paints: bool)
    ensures
        paints == (selected is Some && selected->0 !is Quiet),
{
    match selected {
        Some(indicator) => indicator != Indicator::Quiet,
        None => false,
    }
}

/// A step of following a change of the state.
#[derive(Debug, Clone, Copy, PartialEq, Eq, Structural)]
pub enum StateStep {
    /// [`Shell::copilot_sync`].
    Copilot,
    /// [`Shell::take_dialog`].
    Dialog,
    /// [`Shell::take_upload`].
    Upload,
    /// [`Shell::session_seen`], for each session.
    Chimes,
    /// [`Shell::restore_space`]; the space that it names is selected.
    RestoreSpace,
    /// [`Shell::remember_space`], of the space that is selected by then.
    RememberSpace,
    /// The latest chat is selected at boot.
    BootChat,
    /// [`Shell::heal_filter`].
    HealFilter,
    /// [`Shell::chat_selected`], of the chat that is selected by then; another
    /// one brings its panels along ([`crate::panels::RightPane::shown`]).
    SelectedChat,
    /// [`Shell::connection_changed`].
    Connection,
}

/// The steps of following a change of the state, in the order in which they run.
pub open spec fn state_steps() -> Seq<StateStep> {
    seq![
        StateStep::Copilot,
        StateStep::Dialog,
        StateStep::Upload,
        StateStep::Chimes,
        StateStep::RestoreSpace,
        StateStep::RememberSpace,
        StateStep::BootChat,
        StateStep::HealFilter,
        StateStep::SelectedChat,
        StateStep::Connection,
    ]
}

/// The step to take after `done`, or the first one of all.
pub fn next_step(done: Option<StateStep>) -> (next: Option<StateStep>)
    ensures
        done is None ==> next == Some(state_steps()[0]),
        done is Some ==> exists|i: int|
            {
                &&& 0 <= i < state_steps().len()
                &&& #[trigger] state_steps()[i] == done->0
                &&& next == if i + 1 < state_steps().len() {
                    Some(state_steps()[i + 1])
                } else {
                    None
                }
            },
{
    let ghost steps = state_steps();
    let (place, next): (Ghost<int>, Option<StateStep>) = match done {
        None => (Ghost(0), Some(StateStep::Copilot)),
        Some(StateStep::Copilot) => (Ghost(0), Some(StateStep::Dialog)),
        Some(StateStep::Dialog) => (Ghost(1), Some(StateStep::Upload)),
        Some(StateStep::Upload) => (Ghost(2), Some(StateStep::Chimes)),
        Some(StateStep::Chimes) => (Ghost(3), Some(StateStep::RestoreSpace)),
        Some(StateStep::RestoreSpace) => (Ghost(4), Some(StateStep::RememberSpace)),
        Some(StateStep::RememberSpace) => (Ghost(5), Some(StateStep::BootChat)),
        Some(StateStep::BootChat) => (Ghost(6), Some(StateStep::HealFilter)),
        Some(StateStep::HealFilter) => (Ghost(7), Some(StateStep::SelectedChat)),
        Some(StateStep::SelectedChat) => (Ghost(8), Some(StateStep::Connection)),
        Some(StateStep::Connection) => (Ghost(9), None),
    };
    proof {
        if done is Some {
            assert(steps[place@] == done->0);
        }
    }
    next
}

/// Each step stands in the order once, so none runs twice while a change is
/// followed.
pub proof fn law_each_step_runs_once(i: int, j: int)
    requires
        0 <= i < state_steps().len(),
        0 <= j < state_steps().len(),
        state_steps()[i] == state_steps()[j],
    ensures
        i == j,
{
}

/// Walking the history records nothing: landing on a chat of the history and
/// then following that selection leaves the trail as it was.
pub proof fn law_walking_back_records_nothing(trail: Trail, id: Seq<char>)
    requires
        0 <= trail.at < trail.visits.len(),
        trail.visits[trail.at] == Visit::Chat(id),
    ensures
        chat_visited(trail, id).visits == trail.visits,
        chat_visited(trail, id).at == trail.at,
{
    if trail.visits.len() == 1 && id.len() == 0 {
        assert(id =~= Seq::<char>::empty());
        assert(trail.visits.update(trail.at, Visit::Chat(id)) =~= trail.visits);
    }
    assert(trail.visits.update(trail.at, trail.visits[trail.at]) =~= trail.visits);
}

/// The first chat after an untouched start leaves no dead end behind it.
pub proof fn law_the_first_chat_replaces_the_start(id: Seq<char>)
    ensures
        ({
            let start = Trail { visits: seq![Visit::Chat(Seq::empty())], at: 0 };
            let after = chat_visited(start, id);
            after.visits == seq![Visit::Chat(id)] && after.at == 0
        }),
{
    let start = Trail { visits: seq![Visit::Chat(Seq::empty())], at: 0 };
    assert(chat_visited(start, id).visits =~= seq![Visit::Chat(id)]);
}

/// A shortcut of the shell.
#[derive(Debug, Clone, Copy, PartialEq, Eq, Structural)]
pub enum Shortcut {
    ToggleSidebar,
    ToggleTerminal,
    ToggleChanges,
    NewSession,
    OpenSettings,
    NextSession,
    PrevSession,
    ArchiveSession,
    JumpSession(usize),
    AddSpacePalette,
    NewKeikiAgent,
}

/// Whether a shortcut is carried out here: those of a session's panels only on
/// the chat route, those that change the session not under an overlay. How the
/// step to the next session is guarded is its own affair.
pub fn shortcut_acts(shortcut: Shortcut, route: Route, overlay: bool) -> (acts: bool)
    ensures
        acts == match shortcut {
            Shortcut::ToggleTerminal => route is Chat,
            Shortcut::ToggleChanges => route is Chat,
            Shortcut::ArchiveSession => route is Chat && !overlay,
            Shortcut::JumpSession(_) => !overlay,
            _ => true,
        },
{
    let on_chat = match route {
        Route::Chat => true,
        Route::Settings(_) => false,
    };
    match shortcut {
        Shortcut::ToggleTerminal | Shortcut::ToggleChanges => on_chat,
        Shortcut::ArchiveSession => on_chat && !overlay,
        Shortcut::JumpSession(_) => !overlay,
        _ => true,
    }
}

/// The session that a jump to `slot` opens: the row that is drawn there.
pub fn jump_target(visible_order: &Vec<String>, slot: usize) -> (chat_id: Option<String>)
    ensures
        optional(chat_id) == if slot < visible_order@.len() {
            Some(visible_order@[slot as int]@)
        } else {
            None
        },
{
    if slot < visible_order.len() {
        Some(visible_order[slot].clone())
    } else {
        None
    }
}

/// What stands between the boot and the page.
#[derive(Debug, Clone, Copy, PartialEq, Eq, Structural)]
pub enum GatePhase {
    Loading,
    Ready,
    Failed,
}

/// What is known when a frame is drawn.
#[derive(Debug, Clone, Copy, PartialEq, Eq, Structural)]
pub struct FrameState {
    pub gate: GatePhase,
    pub route: Route,
    pub splash: SplashPhase,
    pub is_macos: bool,
    pub anything_focused: bool,
    pub window_active: bool,
    pub selected_unseen: bool,
    pub right_pane_open: bool,
    pub right_pane_expanded: bool,
    pub right_pane_moving: bool,
}

/// What a frame holds.
#[derive(Debug, Clone, Copy, PartialEq, Eq, Structural)]
pub struct Frame {
    /// The keyboard goes to the composer.
    pub focus_composer: bool,
    /// The selected chat counts as seen.
    pub mark_seen: bool,
    /// The page itself.
    pub page: bool,
    /// The card that says what failed.
    pub failure_card: bool,
    /// The right pane.
    pub right_pane: bool,
    /// The handle that resizes the right pane.
    pub right_handle: bool,
    /// The splash, and whether it fades.
    pub splash: Option<bool>,
    /// A strip to drag the window by, in place of the page's titlebar.
    pub drag_strip: bool,
}

/// What a frame holds. The right pane belongs to the chat route; it cannot be
/// resized while it moves or takes the whole window. What the user looks at is
/// seen, and typing never goes nowhere.
pub fn frame(state: FrameState) -> (frame: Frame)
    ensures
        frame.focus_composer == (state.gate is Ready && state.route is Chat
            && !state.anything_focused),
        frame.mark_seen == (state.gate is Ready && state.window_active && state.selected_unseen),
        frame.page == (state.gate is Ready),
        frame.failure_card == (state.gate is Failed),
        frame.right_pane == (state.gate is Ready && state.route is Chat),
        frame.right_handle == (frame.right_pane && state.right_pane_open
            && !state.right_pane_expanded && !state.right_pane_moving),
        frame.splash == match state.splash {
            SplashPhase::Visible => Some(false),
            SplashPhase::FadingOut => Some(true),
            SplashPhase::Gone => None,
        },
        frame.drag_strip == (state.gate !is Ready && !state.is_macos),
{
    let ready = match state.gate {
        GatePhase::Ready => true,
        _ => false,
    };
    let failed = match state.gate {
        GatePhase::Failed => true,
        _ => false,
    };
    let on_chat = match state.route {
        Route::Chat => true,
        Route::Settings(_) => false,
    };
    let splash = match state.splash {
        SplashPhase::Visible => Some(false),
        SplashPhase::FadingOut => Some(true),
        SplashPhase::Gone => None,
    };
    Frame {
        focus_composer: ready && on_chat && !state.anything_focused,
        mark_seen: ready && state.window_active && state.selected_unseen,
        page: ready,
        failure_card: failed,
        right_pane: ready && on_chat,
        right_handle: ready && on_chat && state.right_pane_open && !state.right_pane_expanded
            && !state.right_pane_moving,
        splash,
        drag_strip: !ready && !state.is_macos,
    }
}

/// What the main column shows.
#[derive(Debug, Clone, Copy, PartialEq, Eq)]
pub enum Outlet {
    Settings(SettingsSection),
    /// The selected chat, with the composer under it, which takes dropped files.
    Transcript,
    /// Nothing is selected: a button, and whether it can be pressed.
    SignIn { label: &'static str, enabled: bool },
    /// Nothing is selected: the logo.
    Logo,
}

/// What the main column shows. Whoever is not signed in is asked to, and not
/// twice.
pub fn main_outlet(route: Route, has_selection: bool, status: SessionStatus) -> (outlet: Outlet)
    ensures
        match route {
            Route::Settings(section) => outlet == Outlet::Settings(section),
            Route::Chat => if has_selection {
                outlet is Transcript
            } else {
                match status {
                    SessionStatus::SignedIn => outlet is Logo,
                    SessionStatus::Loading => outlet is SignIn && !outlet->enabled
                        && outlet->label@ == "Opening Keiki…"@,
                    _ => outlet is SignIn && outlet->enabled
                        && outlet->label@ == "Sign in to Keiki"@,
                }
            },
        },
{
    match route {
        Route::Settings(section) => Outlet::Settings(section),
        Route::Chat => {
            if has_selection {
                return Outlet::Transcript;
            }
            let variant = empty_state_variant(status);
            let loading = match variant {
                EmptyStateVariant::Loading => true,
                _ => false,
            };
            match empty_state_action_label(variant) {
                Some(label) => Outlet::SignIn { label, enabled: !loading },
                None => Outlet::Logo,
            }
        },
    }
}

/// A finished run is not announced while the next message is on its way; a
/// request for input always is. The sound is heard only where sounds are on,
/// and the banner shown only where banners are, and never over the focused app
/// where they are kept to the background; neither depends on the other.
pub proof fn law_each_ping_goes_by_its_own_switch(
    sound: Sound,
    send_pending: bool,
    settings: PingSettings,
    app_focused: bool,
)
    ensures
        heard(None, send_pending, settings) is None,
        !posted(None, send_pending, settings, app_focused),
        sound is Done && send_pending ==> heard(Some(sound), send_pending, settings) is None
            && !posted(Some(sound), send_pending, settings, app_focused),
        sound is Request || !send_pending ==> heard(Some(sound), send_pending, settings) == (
        if settings.sound_enabled {
            Some(sound)
        } else {
            None
        }),
        sound is Request || !send_pending ==> posted(
            Some(sound),
            send_pending,
            settings,
            app_focused,
        ) == (settings.notifications_enabled && (!settings.notifications_background_only
            || !app_focused)),
{
}

/// A banner is titled after its chat and says whether the run is finished or
/// waits.
pub proof fn law_a_banner_says_what_happened(
    ping: Ping,
    sound: Option<Sound>,
    send_pending: bool,
    title: Option<Seq<char>>,
    settings: PingSettings,
    app_focused: bool,
)
    requires
        pinged(ping, sound, send_pending, title, settings, app_focused),
    ensures
        sound is None ==> ping.play is None && ping.banner is None,
        ping.play is Some ==> ping.play == sound && settings.sound_enabled,
        ping.banner is Some ==> sound is Some && settings.notifications_enabled,
        ping.banner is Some && title is Some ==> (ping.banner->0).0@ == title->0,
        ping.banner is Some && title is None ==> (ping.banner->0).0@ == "New session"@,
        ping.banner is Some && sound->0 is Done ==> (ping.banner->0).1@ == "Run finished"@,
        ping.banner is Some && sound->0 is Request ==> (ping.banner->0).1@
            == "Waiting on your input"@,
{
}

/// Only a session that was seen before can be heard to change.
pub proof fn law_the_first_sight_is_silent(
    before: SessionActivity,
    now: SessionActivity,
    sounds: spec_fn(SessionActivity, SessionActivity) -> Option<Sound>,
)
    ensures
        chime_of(None, now, sounds) is None,
        chime_of(Some(before), now, sounds) == sounds(before, now),
{
}

/// A route is started on by its name: each section of the settings by its own,
/// and every other name leads to the chats.
pub proof fn law_routes_are_named(name: Option<Seq<char>>)
    ensures
        name is None ==> route_named(name) is Chat,
        name == Some("settings"@) || name == Some("settings/appearance"@) ==> route_named(name)
            == Route::Settings(SettingsSection::Appearance),
        name == Some("settings/notifications"@) ==> route_named(name) == Route::Settings(
            SettingsSection::Notifications,
        ),
        name == Some("settings/shortcuts"@) ==> route_named(name) == Route::Settings(
            SettingsSection::Shortcuts,
        ),
        name == Some("settings/archived"@) ==> route_named(name) == Route::Settings(
            SettingsSection::Archived,
        ),
        route_named(name) is Settings ==> name is Some && "settings"@.is_prefix_of(name->0),
{
    reveal_strlit("settings");
    reveal_strlit("settings/devices");
    reveal_strlit("settings/appearance");
    reveal_strlit("settings/notifications");
    reveal_strlit("settings/shortcuts");
    reveal_strlit("settings/archived");
    assert("settings"@.len() == 8 && "settings/devices"@.len() == 16);
    assert("settings/appearance"@.len() == 19 && "settings/notifications"@.len() == 22);
    assert("settings/shortcuts"@.len() == 18 && "settings/archived"@.len() == 17);
    assert("settings"@.is_prefix_of("settings"@));
    assert("settings/devices"@.subrange(0, 8) =~= "settings"@);
    assert("settings/appearance"@.subrange(0, 8) =~= "settings"@);
    assert("settings/notifications"@.subrange(0, 8) =~= "settings"@);
    assert("settings/shortcuts"@.subrange(0, 8) =~= "settings"@);
    assert("settings/archived"@.subrange(0, 8) =~= "settings"@);
}

/// Walking to a chat shows the chats and selects it, unless it is selected
/// already; walking to the settings selects nothing.
pub proof fn law_walking_selects_what_is_walked_to(
    route: Route,
    landing: Landing,
    visit: Visit,
    selected: Option<Seq<char>>,
)
    requires
        lands_on(route, landing, visit, selected),
    ensures
        visit is Settings ==> route == Route::Settings(visit->Settings_0) && landing.select is None,
        visit is Chat ==> route is Chat,
        visit is Chat && visit->Chat_0.len() > 0 && selected == Some(visit->Chat_0)
            ==> landing.select is None,
        visit is Chat && visit->Chat_0.len() > 0 && selected != Some(visit->Chat_0)
            ==> landing.select is Some && landing.select->0 is Some && landing.select->0->0@
            == visit->Chat_0,
        visit is Chat && visit->Chat_0.len() == 0 ==> (landing.select is Some) == (selected is Some),
        visit is Chat && visit->Chat_0.len() == 0 && landing.select is Some
            ==> landing.select->0 is None,
{
}

/// The space that is restored is the one that is filtered by, where it still
/// exists; else the last one, unless the user had chosen none. It always
/// exists.
pub proof fn law_a_restored_space_exists(
    filter: Option<Seq<char>>,
    last: Option<Seq<char>>,
    spaces: Seq<String>,
    no_project: bool,
)
    ensures
        boot_space(filter, last, spaces, no_project) is Some ==> listed(
            spaces,
            boot_space(filter, last, spaces, no_project)->0,
        ),
        filter is Some && listed(spaces, filter->0) ==> boot_space(filter, last, spaces, no_project)
            == filter,
        (filter is None || !listed(spaces, filter->0)) && no_project ==> boot_space(
            filter,
            last,
            spaces,
            no_project,
        ) is None,
        (filter is None || !listed(spaces, filter->0)) && !no_project && last is Some && listed(
            spaces,
            last->0,
        ) ==> boot_space(filter, last, spaces, no_project) == last,
{
}

/// A text that is there counts once, and one that is not does not count.
pub proof fn law_a_text_counts_once(text: Seq<char>)
    ensures
        once(Some(text)) == seq![text],
        once(None).len() == 0,
{
}

/// The steps that follow a change of state look for what was asked for at the
/// start first, restore the space before it is remembered, and come to the
/// selected chat only when its list is mended.
pub proof fn law_state_steps_build_on_each_other()
    ensures
        state_steps().index_of(StateStep::RestoreSpace) < state_steps().index_of(
            StateStep::RememberSpace,
        ),
        state_steps().index_of(StateStep::BootChat) < state_steps().index_of(
            StateStep::SelectedChat,
        ),
        state_steps().index_of(StateStep::HealFilter) < state_steps().index_of(
            StateStep::SelectedChat,
        ),
        state_steps()[0] is Copilot,
        state_steps().last() is Connection,
{
    let steps = state_steps();
    assert(steps[4] is RestoreSpace && steps[5] is RememberSpace && steps[6] is BootChat);
    assert(steps[7] is HealFilter && steps[8] is SelectedChat);
    assert(steps.contains(StateStep::RestoreSpace) && steps.contains(StateStep::RememberSpace));
    assert(steps.contains(StateStep::BootChat) && steps.contains(StateStep::HealFilter));
    assert(steps.contains(StateStep::SelectedChat));
    let restore = steps.index_of(StateStep::RestoreSpace);
    let remember = steps.index_of(StateStep::RememberSpace);
    let boot = steps.index_of(StateStep::BootChat);
    let heal = steps.index_of(StateStep::HealFilter);
    let chosen = steps.index_of(StateStep::SelectedChat);
    assert(steps[restore] is RestoreSpace && steps[remember] is RememberSpace);
    assert(steps[boot] is BootChat && steps[heal] is HealFilter && steps[chosen] is SelectedChat);
}

/// A chat that is selected takes the place of the empty start where nothing
/// else was visited; everywhere else it is visited behind what was shown, and
/// the way back stays.
pub proof fn law_a_selected_chat_is_visited(trail: Trail, id: Seq<char>)
    requires
        0 <= trail.at < trail.visits.len(),
        trail.visits[trail.at] != Visit::Chat(id),
    ensures
        trail.visits.len() == 1 && trail.visits[0] == Visit::Chat(Seq::empty()) ==> chat_visited(
            trail,
            id,
        ).visits == seq![Visit::Chat(id)] && chat_visited(trail, id).at == 0,
        trail.visits.len() > 1 || trail.visits[0] != Visit::Chat(Seq::empty()) ==> {
            let after = chat_visited(trail, id);
            &&& after.at == trail.at + 1
            &&& after.visits.len() == trail.at + 2
            &&& after.visits[after.at] == Visit::Chat(id)
            &&& after.visits[trail.at] == trail.visits[trail.at]
        },
{
    if trail.visits.len() == 1 && trail.visits[0] == Visit::Chat(Seq::empty()) {
        assert(chat_visited(trail, id).visits =~= seq![Visit::Chat(id)]);
    }
}

} // verus!
