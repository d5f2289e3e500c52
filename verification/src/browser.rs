//! The live view of an agent's cloud browser: what the stream says, what goes
//! back to it, and what the panel shows of it. The page's measures are numbers
//! of the caller's (`N`): nothing here computes with them.

use vstd::prelude::*;

use crate::input::Modifiers;
use crate::input::MouseButton;
use crate::json::is_object;
use crate::json::members;
use crate::json::new_object;
use crate::json::no_members;
use crate::json::set_null;
use crate::json::set_number;
use crate::json::set_text;
use crate::json::Member;
use crate::picture::Picture;
use crate::picture::Undecodable;
use crate::text::chars_of;
use crate::text::concat3;
use crate::text::decimal;
use crate::text::decimal_string;
use crate::text::is_digit;
use crate::text::optional;
use crate::text::same;

verus! {

pub const MSG_AUTHENTICATE: &'static str = "browserbase.screencast.authenticate";

pub const MSG_READY: &'static str = "browserbase.screencast.ready";

pub const MSG_GEOMETRY: &'static str = "browserbase.screencast.geometry";

pub const MSG_NAVIGATED: &'static str = "browserbase.screencast.navigated";

pub const MSG_MOUSE: &'static str = "browserbase.screencast.mouse";

pub const MSG_KEY: &'static str = "browserbase.screencast.key";

/// The largest edge that is asked of the runner; the page keeps its aspect.
pub const MAX_FRAME_EDGE: u64 = 1280;

#[derive(Debug, PartialEq, Eq)]
pub enum Status {
    Connecting,
    Live,
    Ended(String),
}

/// What reaches the panel from its socket.
#[derive(Debug, PartialEq, Eq)]
pub enum Inbound<N> {
    Frame(Picture),
    Geometry { width: N, height: N },
    Navigated(String),
    Ready,
    Ended(String),
}

/// A message of the stream that is no frame.
#[derive(Debug)]
pub struct Control<N> {
    pub kind: Option<String>,
    pub status: Option<u16>,
    pub error: Option<String>,
    pub device_width: Option<N>,
    pub device_height: Option<N>,
    pub url: Option<String>,
}

/// Whether `event` is what a control message stands for.
pub open spec fn control_means<N>(control: Control<N>, event: Option<Inbound<N>>) -> bool {
    if control.status is Some && control.status->0 >= 400 {
        &&& event is Some
        &&& event->0 is Ended
        &&& event->0->Ended_0@ == match control.error {
            Some(error) => error@,
            None => "Browser stream refused ("@ + decimal(control.status->0 as nat) + ")"@,
        }
    } else if optional(control.kind) == Some(MSG_READY@) {
        event == Some(Inbound::<N>::Ready)
    } else if optional(control.kind) == Some(MSG_GEOMETRY@) {
        match (control.device_width, control.device_height) {
            (Some(width), Some(height)) => event == Some(Inbound::Geometry { width, height }),
            _ => event is None,
        }
    } else if optional(control.kind) == Some(MSG_NAVIGATED@) && control.url is Some {
        event is Some && event->0 is Navigated && event->0->Navigated_0@ == control.url->0@
    } else {
        event is None
    }
}

/// What a control message stands for. One that could not be read stands for
/// nothing.
pub fn parse_control<N>(control: Option<Control<N>>) -> (event: Option<Inbound<N>>)
    ensures
        control is None ==> event is None,
        control is Some ==> control_means(control->0, event),
{
    let control = match control {
        Some(control) => control,
        None => {
            return None;
        },
    };
    if let Some(status) = control.status {
        if status >= 400 {
            return Some(
                Inbound::Ended(
                    match control.error {
                        Some(error) => error,
                        None => {
                            let number = decimal_string(status as u64);
                            concat3("Browser stream refused (", number.as_str(), ")")
                        },
                    },
                ),
            );
        }
    }
    let kind = match control.kind {
        Some(kind) => kind,
        None => {
            return None;
        },
    };
    proof {
        reveal_strlit("browserbase.screencast.ready");
        reveal_strlit("browserbase.screencast.geometry");
        reveal_strlit("browserbase.screencast.navigated");
        assert(MSG_READY@.len() != MSG_GEOMETRY@.len());
        assert(MSG_READY@.len() != MSG_NAVIGATED@.len());
        assert(MSG_GEOMETRY@.len() != MSG_NAVIGATED@.len());
    }
    if same(kind.as_str(), MSG_READY) {
        Some(Inbound::Ready)
    } else if same(kind.as_str(), MSG_GEOMETRY) {
        match (control.device_width, control.device_height) {
            (Some(width), Some(height)) => Some(Inbound::Geometry { width, height }),
            _ => None,
        }
    } else if same(kind.as_str(), MSG_NAVIGATED) {
        match control.url {
            Some(url) => Some(Inbound::Navigated(url)),
            None => None,
        }
    } else {
        None
    }
}

/// What happens on the panel's socket.
#[derive(Debug)]
pub enum SocketEvent<N> {
    /// The runner could not be reached.
    DialFailed(String),
    /// The socket is open.
    Dialed,
    /// The first message could not be sent.
    HelloFailed(String),
    /// The panel has something to send.
    Queued(String),
    /// The panel has let go of the socket.
    QueueClosed,
    /// What the panel had to send could not be sent.
    SendFailed,
    /// A frame came.
    Binary(Result<Picture, Undecodable>),
    /// A control message came, where it could be read.
    Control(Option<Control<N>>),
    /// The runner closed the socket.
    Closed,
    /// A ping, or the like.
    Other,
    /// The socket broke.
    Failed(String),
    /// The panel takes nothing any more.
    PanelGone,
}

/// What is done about it.
#[derive(Debug, PartialEq, Eq)]
pub enum SocketAction<N> {
    Authenticate,
    Send(String),
    Close,
    /// Tell the panel, and go on while it listens.
    Deliver(Inbound<N>),
    /// Tell the panel that the stream ended, and let go of the socket.
    End(String),
    Wait,
    Stop,
}

/// Whether `action` ends the stream for `reason`.
pub open spec fn ends_with<N>(action: SocketAction<N>, reason: Seq<char>) -> bool {
    action is End && action->End_0@ == reason
}

/// What is done about an event of the socket. A control message may tell the
/// panel of an end too; the socket is then kept until the panel lets go of it.
pub fn socket_step<N>(event: SocketEvent<N>) -> (action: SocketAction<N>)
    ensures
        match event {
            SocketEvent::DialFailed(reason) => ends_with(action, reason@),
            SocketEvent::Dialed => action is Authenticate,
            SocketEvent::HelloFailed(reason) => ends_with(action, reason@),
            SocketEvent::Queued(text) => action is Send && action->Send_0@ == text@,
            SocketEvent::QueueClosed => action is Close,
            SocketEvent::SendFailed => ends_with(action, "Browser stream closed"@),
            SocketEvent::Binary(Ok(frame)) => action == SocketAction::Deliver(
                Inbound::<N>::Frame(frame),
            ),
            SocketEvent::Binary(Err(_)) => action is Wait,
            SocketEvent::Control(None) => action is Wait,
            SocketEvent::Control(Some(control)) => control_means(
                control,
                match action {
                    SocketAction::Deliver(inbound) => Some(inbound),
                    _ => None,
                },
            ) && (action is Deliver || action is Wait),
            SocketEvent::Closed => ends_with(action, "Browser session ended"@),
            SocketEvent::Other => action is Wait,
            SocketEvent::Failed(reason) => ends_with(action, reason@),
            SocketEvent::PanelGone => action is Stop,
        },
{
    match event {
        SocketEvent::DialFailed(reason) => SocketAction::End(reason),
        SocketEvent::Dialed => SocketAction::Authenticate,
        SocketEvent::HelloFailed(reason) => SocketAction::End(reason),
        SocketEvent::Queued(text) => SocketAction::Send(text),
        SocketEvent::QueueClosed => SocketAction::Close,
        SocketEvent::SendFailed => SocketAction::End("Browser stream closed".to_owned()),
        SocketEvent::Binary(Ok(frame)) => SocketAction::Deliver(Inbound::Frame(frame)),
        SocketEvent::Binary(Err(_)) => SocketAction::Wait,
        SocketEvent::Control(control) => match parse_control(control) {
            Some(inbound) => SocketAction::Deliver(inbound),
            None => SocketAction::Wait,
        },
        SocketEvent::Closed => SocketAction::End("Browser session ended".to_owned()),
        SocketEvent::Other => SocketAction::Wait,
        SocketEvent::Failed(reason) => SocketAction::End(reason),
        SocketEvent::PanelGone => SocketAction::Stop,
    }
}

/// The first message of the socket, which shows the capability.
pub fn authenticate(session_id: &str, token: &str) -> (message: serde_json::Value)
    ensures
        is_object(message),
        members(message) == no_members().insert("type"@, Member::Text(MSG_AUTHENTICATE@)).insert(
            "browserbaseSessionId"@,
            Member::Text(session_id@),
        ).insert("token"@, Member::Text(token@)).insert(
            "maxWidth"@,
            Member::Number(MAX_FRAME_EDGE as nat),
        ).insert("maxHeight"@, Member::Number(MAX_FRAME_EDGE as nat)),
{
    let message = set_text(new_object(), "type", MSG_AUTHENTICATE);
    let message = set_text(message, "browserbaseSessionId", session_id);
    let message = set_text(message, "token", token);
    let message = set_number(message, "maxWidth", MAX_FRAME_EDGE);
    set_number(message, "maxHeight", MAX_FRAME_EDGE)
}

/// The panel.
#[derive(Debug)]
pub struct BrowserPanel<N> {
    pub status: Status,
    pub frame: Option<Picture>,
    /// The page's own size, which is what the pointer is measured in.
    pub width: N,
    pub height: N,
    pub url: Option<String>,
    /// Whether there is a socket that takes messages.
    pub outbound: bool,
    /// How many sockets the panel has opened.
    pub generation: u64,
}

impl<N> BrowserPanel<N> {
    /// A panel before its first socket, for a page of the size given.
    pub fn new(width: N, height: N) -> (panel: Self)
        ensures
            panel == (BrowserPanel {
                status: Status::Connecting,
                frame: None,
                width,
                height,
                url: None,
                outbound: false,
                generation: 0u64,
            }),
    {
        BrowserPanel {
            status: Status::Connecting,
            frame: None,
            width,
            height,
            url: None,
            outbound: false,
            generation: 0,
        }
    }

    /// Opens another socket, which orphans the one before it. Gives the
    /// socket's generation, where one is to be opened.
    pub fn connect(&mut self, signed_in: bool) -> (generation: Option<u64>)
        requires
            old(self).generation < u64::MAX,
        ensures
            final(self).generation == old(self).generation + 1,
            final(self).frame == old(self).frame,
            final(self).width == old(self).width,
            final(self).height == old(self).height,
            final(self).url == old(self).url,
            final(self).outbound == signed_in,
            if signed_in {
                generation == Some(final(self).generation) && final(self).status is Connecting
            } else {
                generation is None && final(self).status is Ended && final(self).status->Ended_0@
                    == "Signed out"@
            },
    {
        self.generation += 1;
        self.status = Status::Connecting;
        self.outbound = false;
        if !signed_in {
            self.status = Status::Ended("Signed out".to_owned());
            return None;
        }
        self.outbound = true;
        Some(self.generation)
    }

    /// What the panel is after an event of its socket. A frame takes the place
    /// of the one before.
    pub open spec fn after(self, inbound: Inbound<N>) -> BrowserPanel<N> {
        match inbound {
            Inbound::Frame(frame) => BrowserPanel { frame: Some(frame), ..self },
            Inbound::Geometry { width, height } => BrowserPanel { width, height, ..self },
            Inbound::Navigated(url) => BrowserPanel { url: Some(url), ..self },
            Inbound::Ready => BrowserPanel { status: Status::Live, ..self },
            Inbound::Ended(reason) => BrowserPanel {
                status: Status::Ended(reason),
                outbound: false,
                ..self
            },
        }
    }

    /// Takes an event of its socket. Gives the frame that is no longer shown.
    pub fn apply(&mut self, inbound: Inbound<N>) -> (superseded: Option<Picture>)
        ensures
            *final(self) == old(self).after(inbound),
            superseded == if inbound is Frame {
                old(self).frame
            } else {
                None
            },
    {
        match inbound {
            Inbound::Frame(frame) => {
                let previous = self.frame.take();
                self.frame = Some(frame);
                previous
            },
            Inbound::Geometry { width, height } => {
                self.width = width;
                self.height = height;
                None
            },
            Inbound::Navigated(url) => {
                self.url = Some(url);
                None
            },
            Inbound::Ready => {
                self.status = Status::Live;
                None
            },
            Inbound::Ended(reason) => {
                self.status = Status::Ended(reason);
                self.outbound = false;
                None
            },
        }
    }

    /// Whether the socket of a generation is the panel's own.
    pub open spec fn hears(self, generation: u64) -> bool {
        self.generation == generation
    }

    /// Takes an event of the socket of a generation. A socket that another has
    /// replaced is no longer heard, and is not to be listened to any more.
    pub fn receive(&mut self, generation: u64, inbound: Inbound<N>) -> (heard: (bool, Option<Picture>))
        ensures
            heard.0 == old(self).hears(generation),
            heard.0 ==> *final(self) == old(self).after(inbound),
            heard.0 ==> heard.1 == (if inbound is Frame {
                old(self).frame
            } else {
                None
            }),
            !heard.0 ==> *final(self) == *old(self) && heard.1 is None,
    {
        if self.generation != generation {
            return (false, None);
        }
        let superseded = self.apply(inbound);
        (true, superseded)
    }

    /// What stands over the picture, and whether it offers to reconnect.
    pub fn status_card(&self) -> (card: Option<(String, bool)>)
        ensures
            match self.status {
                Status::Live => card is None,
                Status::Connecting => card is Some && (card->0).0@ == "Connecting to the browser…"@
                    && !(card->0).1,
                Status::Ended(reason) => card is Some && (card->0).0@ == reason@ && (card->0).1,
            },
    {
        match &self.status {
            Status::Live => None,
            Status::Connecting => Some(("Connecting to the browser…".to_owned(), false)),
            Status::Ended(reason) => Some((reason.clone(), true)),
        }
    }

    /// What the address line shows.
    pub fn address(&self) -> (address: String)
        ensures
            address@ == match self.url {
                Some(url) => url@,
                None => "about:blank"@,
            },
    {
        match &self.url {
            Some(url) => url.clone(),
            None => "about:blank".to_owned(),
        }
    }
}

/// What a button is called in the protocol.
pub fn button_name(button: MouseButton) -> (name: &'static str)
    ensures
        name@ == button_called(button),
{
    match button {
        MouseButton::Left => "left",
        MouseButton::Right => "right",
        MouseButton::Middle => "middle",
        MouseButton::Back => "back",
        MouseButton::Forward => "forward",
    }
}

/// What a button is called in the protocol.
pub open spec fn button_called(button: MouseButton) -> Seq<char> {
    match button {
        MouseButton::Left => "left"@,
        MouseButton::Right => "right"@,
        MouseButton::Middle => "middle"@,
        MouseButton::Back => "back"@,
        MouseButton::Forward => "forward"@,
    }
}

/// The bits of the held modifiers: one for Alt, two for Control, four for the
/// platform's own key, eight for Shift.
pub open spec fn modifier_bits(mods: Modifiers) -> int {
    (if mods.alt {
        1int
    } else {
        0
    }) + (if mods.control {
        2int
    } else {
        0
    }) + (if mods.platform {
        4int
    } else {
        0
    }) + (if mods.shift {
        8int
    } else {
        0
    })
}

/// The bits of the held modifiers.
pub fn cdp_modifiers(mods: Modifiers) -> (bits: u8)
    ensures
        bits == modifier_bits(mods),
{
    let mut bits: u8 = 0;
    if mods.alt {
        bits += 1;
    }
    if mods.control {
        bits += 2;
    }
    if mods.platform {
        bits += 4;
    }
    if mods.shift {
        bits += 8;
    }
    bits
}

/// What every message of the mouse says, apart from where it is.
pub open spec fn mouse_members(kind: Seq<char>, mods: Modifiers) -> Map<Seq<char>, Member> {
    no_members().insert("type"@, Member::Text(MSG_MOUSE@)).insert(
        "kind"@,
        Member::Text(kind),
    ).insert("modifiers"@, Member::Number(modifier_bits(mods) as nat))
}

fn mouse_message(kind: &str, mods: Modifiers) -> (message: serde_json::Value)
    ensures
        is_object(message),
        members(message) == mouse_members(kind@, mods),
{
    let message = set_text(new_object(), "type", MSG_MOUSE);
    let message = set_text(message, "kind", kind);
    set_number(message, "modifiers", cdp_modifiers(mods) as u64)
}

/// What a press or a release says.
pub open spec fn click_members(
    kind: Seq<char>,
    button: MouseButton,
    clicks: int,
    mods: Modifiers,
) -> Map<Seq<char>, Member> {
    mouse_members(kind, mods).insert("button"@, Member::Text(button_called(button))).insert(
        "clickCount"@,
        Member::Number(
            if clicks < 3 {
                clicks as nat
            } else {
                3
            },
        ),
    )
}

fn click_message(kind: &str, button: MouseButton, clicks: usize, mods: Modifiers) -> (message:
    serde_json::Value)
    ensures
        is_object(message),
        members(message) == click_members(kind@, button, clicks as int, mods),
{
    let message = set_text(mouse_message(kind, mods), "button", button_name(button));
    let counted: u64 = if clicks < 3 {
        clicks as u64
    } else {
        3
    };
    set_number(message, "clickCount", counted)
}

/// The message for a pressed button, before its place is added.
pub fn mouse_pressed(button: MouseButton, clicks: usize, mods: Modifiers) -> (message:
    serde_json::Value)
    ensures
        is_object(message),
        members(message) == click_members("mousePressed"@, button, clicks as int, mods),
{
    click_message("mousePressed", button, clicks, mods)
}

/// The message for a released button, before its place is added.
pub fn mouse_released(button: MouseButton, clicks: usize, mods: Modifiers) -> (message:
    serde_json::Value)
    ensures
        is_object(message),
        members(message) == click_members("mouseReleased"@, button, clicks as int, mods),
{
    click_message("mouseReleased", button, clicks, mods)
}

/// The message for a moved pointer, before its place is added.
pub fn mouse_moved(pressed: Option<MouseButton>, mods: Modifiers) -> (message: serde_json::Value)
    ensures
        is_object(message),
        members(message) == mouse_members("mouseMoved"@, mods).insert(
            "button"@,
            Member::Text(
                match pressed {
                    Some(button) => button_called(button),
                    None => "none"@,
                },
            ),
        ),
{
    let button = match pressed {
        Some(button) => button_name(button),
        None => "none",
    };
    set_text(mouse_message("mouseMoved", mods), "button", button)
}

/// The message for a turned wheel, before its place and its way are added.
pub fn mouse_wheel(mods: Modifiers) -> (message: serde_json::Value)
    ensures
        is_object(message),
        members(message) == mouse_members("mouseWheel"@, mods),
{
    mouse_message("mouseWheel", mods)
}

/// A key, as the protocol describes it.
#[derive(Debug, PartialEq, Eq)]
pub struct CdpKey {
    pub key: String,
    pub code: String,
    pub text: Option<String>,
    pub vk: u16,
    pub modifiers: u8,
}

impl CdpKey {
    /// The message for the key. What it types goes with the press alone.
    pub fn message(&self, kind: &str) -> (message: serde_json::Value)
        ensures
            is_object(message),
            members(message) == no_members().insert("type"@, Member::Text(MSG_KEY@)).insert(
                "kind"@,
                Member::Text(kind@),
            ).insert("key"@, Member::Text(self.key@)).insert("code"@, Member::Text(self.code@)).insert(
                "text"@,
                if kind@ == "keyDown"@ && self.text is Some {
                    Member::Text(self.text->0@)
                } else {
                    Member::Null
                },
            ).insert("windowsVirtualKeyCode"@, Member::Number(self.vk as nat)).insert(
                "modifiers"@,
                Member::Number(self.modifiers as nat),
            ),
    {
        let message = set_text(new_object(), "type", MSG_KEY);
        let message = set_text(message, "kind", kind);
        let message = set_text(message, "key", self.key.as_str());
        let message = set_text(message, "code", self.code.as_str());
        let message = match &self.text {
            Some(text) => if same(kind, "keyDown") {
                set_text(message, "text", text.as_str())
            } else {
                set_null(message, "text")
            },
            None => set_null(message, "text"),
        };
        let message = set_number(message, "windowsVirtualKeyCode", self.vk as u64);
        set_number(message, "modifiers", self.modifiers as u64)
    }
}

/// A key that goes by a name: what the protocol calls it, its number, and what
/// it types.
pub struct NamedKey {
    pub key: Seq<char>,
    pub code: Seq<char>,
    pub vk: u16,
    pub text: Option<Seq<char>>,
}

/// The keys that go by a name.
pub open spec fn named_key(key: Seq<char>) -> Option<NamedKey> {
    if key == "enter"@ {
        Some(NamedKey { key: "Enter"@, code: "Enter"@, vk: 13, text: Some("\r"@) })
    } else if key == "backspace"@ {
        Some(NamedKey { key: "Backspace"@, code: "Backspace"@, vk: 8, text: None })
    } else if key == "tab"@ {
        Some(NamedKey { key: "Tab"@, code: "Tab"@, vk: 9, text: None })
    } else if key == "escape"@ {
        Some(NamedKey { key: "Escape"@, code: "Escape"@, vk: 27, text: None })
    } else if key == "space"@ {
        Some(NamedKey { key: " "@, code: "Space"@, vk: 32, text: Some(" "@) })
    } else if key == "delete"@ {
        Some(NamedKey { key: "Delete"@, code: "Delete"@, vk: 46, text: None })
    } else if key == "home"@ {
        Some(NamedKey { key: "Home"@, code: "Home"@, vk: 36, text: None })
    } else if key == "end"@ {
        Some(NamedKey { key: "End"@, code: "End"@, vk: 35, text: None })
    } else if key == "pageup"@ {
        Some(NamedKey { key: "PageUp"@, code: "PageUp"@, vk: 33, text: None })
    } else if key == "pagedown"@ {
        Some(NamedKey { key: "PageDown"@, code: "PageDown"@, vk: 34, text: None })
    } else if key == "up"@ {
        Some(NamedKey { key: "ArrowUp"@, code: "ArrowUp"@, vk: 38, text: None })
    } else if key == "down"@ {
        Some(NamedKey { key: "ArrowDown"@, code: "ArrowDown"@, vk: 40, text: None })
    } else if key == "left"@ {
        Some(NamedKey { key: "ArrowLeft"@, code: "ArrowLeft"@, vk: 37, text: None })
    } else if key == "right"@ {
        Some(NamedKey { key: "ArrowRight"@, code: "ArrowRight"@, vk: 39, text: None })
    } else {
        None
    }
}

/// The capital of an ASCII letter; any other character itself.
pub open spec fn ascii_capital(c: char) -> char {
    if 'a' <= c <= 'z' {
        (c as u32 - 32) as char
    } else {
        c
    }
}

/// What the protocol calls the key of a character.
pub open spec fn code_of(c: char) -> Seq<char> {
    if 'a' <= c <= 'z' || 'A' <= c <= 'Z' {
        "Key"@.push(ascii_capital(c))
    } else if is_digit(c) {
        "Digit"@.push(c)
    } else {
        Seq::empty()
    }
}

/// What a key types: nothing while Control or Alt is held.
pub open spec fn typed_by(key_char: Option<&str>, mods: Modifiers) -> Option<Seq<char>> {
    if mods.control || mods.alt {
        None
    } else {
        match key_char {
            Some(text) => Some(text@),
            None => None,
        }
    }
}

/// Whether a key goes to the page: not while the platform's own key is held,
/// and only a named key or that of a single character.
pub open spec fn goes_to_page(key: Seq<char>, mods: Modifiers) -> bool {
    !mods.platform && (named_key(key) is Some || key.len() == 1)
}

fn to_ascii_capital(c: char) -> (capital: char)
    ensures
        capital == ascii_capital(c),
{
    if 'a' <= c && c <= 'z' {
        let code: u8 = c as u8;
        (code - 32) as char
    } else {
        c
    }
}

fn named(
    key: &'static str,
    code: &'static str,
    vk: u16,
    text: Option<&'static str>,
    modifiers: u8,
) -> (described: CdpKey)
    ensures
        described.key@ == key@,
        described.code@ == code@,
        described.vk == vk,
        optional(described.text) == match text {
            Some(text) => Some(text@),
            None => None,
        },
        described.modifiers == modifiers,
{
    CdpKey {
        key: key.to_owned(),
        code: code.to_owned(),
        text: match text {
            Some(text) => Some(text.to_owned()),
            None => None,
        },
        vk,
        modifiers,
    }
}

fn find_named(key: &str, modifiers: u8) -> (found: Option<CdpKey>)
    ensures
        found is Some == named_key(key@) is Some,
        found is Some ==> {
            let entry = named_key(key@)->0;
            &&& found->0.key@ == entry.key
            &&& found->0.code@ == entry.code
            &&& found->0.vk == entry.vk
            &&& optional(found->0.text) == entry.text
            &&& found->0.modifiers == modifiers
        },
{
    if same(key, "enter") {
        Some(named("Enter", "Enter", 13, Some("\r"), modifiers))
    } else if same(key, "backspace") {
        Some(named("Backspace", "Backspace", 8, None, modifiers))
    } else if same(key, "tab") {
        Some(named("Tab", "Tab", 9, None, modifiers))
    } else if same(key, "escape") {
        Some(named("Escape", "Escape", 27, None, modifiers))
    } else if same(key, "space") {
        Some(named(" ", "Space", 32, Some(" "), modifiers))
    } else if same(key, "delete") {
        Some(named("Delete", "Delete", 46, None, modifiers))
    } else if same(key, "home") {
        Some(named("Home", "Home", 36, None, modifiers))
    } else if same(key, "end") {
        Some(named("End", "End", 35, None, modifiers))
    } else if same(key, "pageup") {
        Some(named("PageUp", "PageUp", 33, None, modifiers))
    } else if same(key, "pagedown") {
        Some(named("PageDown", "PageDown", 34, None, modifiers))
    } else if same(key, "up") {
        Some(named("ArrowUp", "ArrowUp", 38, None, modifiers))
    } else if same(key, "down") {
        Some(named("ArrowDown", "ArrowDown", 40, None, modifiers))
    } else if same(key, "left") {
        Some(named("ArrowLeft", "ArrowLeft", 37, None, modifiers))
    } else if same(key, "right") {
        Some(named("ArrowRight", "ArrowRight", 39, None, modifiers))
    } else {
        None
    }
}

fn find_code(c: char) -> (code: String)
    ensures
        code@ == code_of(c),
{
    if ('a' <= c && c <= 'z') || ('A' <= c && c <= 'Z') {
        let mut code = "Key".to_owned();
        code.push(to_ascii_capital(c));
        code
    } else if '0' <= c && c <= '9' {
        let mut code = "Digit".to_owned();
        code.push(c);
        code
    } else {
        String::new()
    }
}

/// The key as the protocol describes it. A key that does not go to the page is
/// left to the app.
pub fn cdp_key(key: &str, key_char: Option<&str>, mods: Modifiers) -> (described: Option<CdpKey>)
    ensures
        described is Some == goes_to_page(key@, mods),
        described is Some ==> described->0.modifiers == modifier_bits(mods),
        key@.len() == 1 && !mods.platform && !mods.control && !mods.alt && key_char is Some ==> {
            &&& described is Some
            &&& described->0.key@ == key_char->0@
            &&& optional(described->0.text) == Some(key_char->0@)
        },
        key@.len() == 1 && !mods.platform && (mods.control || mods.alt || key_char is None) ==> {
            &&& described is Some
            &&& described->0.key@ == key@
            &&& described->0.text is None
        },
        mods.platform ==> described is None,
        described is Some && named_key(key@) is Some ==> {
            let entry = named_key(key@)->0;
            &&& described->0.key@ == entry.key
            &&& described->0.code@ == entry.code
            &&& described->0.vk == entry.vk
            &&& optional(described->0.text) == entry.text
        },
        described is Some && named_key(key@) is None ==> {
            let typed = typed_by(key_char, mods);
            &&& described->0.key@ == (if typed is Some {
                typed->0
            } else {
                key@
            })
            &&& described->0.code@ == code_of(key@[0])
            &&& described->0.vk == ascii_capital(key@[0]) as u32 % 0x1_0000
            &&& optional(described->0.text) == typed
        },
{
    proof {
        lemma_named_keys_are_words(key@);
    }
    if mods.platform {
        return None;
    }
    let modifiers = cdp_modifiers(mods);
    let found = find_named(key, modifiers);
    if found.is_some() {
        return found;
    }
    let chars = chars_of(key);
    if chars.len() != 1 {
        return None;
    }
    let single = chars[0];
    let typed = if mods.control || mods.alt {
        None
    } else {
        key_char
    };
    let number: u32 = to_ascii_capital(single) as u32;
    Some(
        CdpKey {
            key: match typed {
                Some(text) => text.to_owned(),
                None => key.to_owned(),
            },
            code: find_code(single),
            text: match typed {
                Some(text) => Some(text.to_owned()),
                None => None,
            },
            vk: (number % 0x1_0000) as u16,
            modifiers,
        },
    )
}

/// Reconnecting orphans every socket before: once the panel has opened
/// another, no earlier one is heard.
pub proof fn law_reconnecting_orphans_the_sockets_before<N>(
    before: BrowserPanel<N>,
    after: BrowserPanel<N>,
    generation: u64,
)
    requires
        after.generation == before.generation + 1,
        generation <= before.generation,
    ensures
        !after.hears(generation),
{
}

/// The bits tell which modifiers are held: no two combinations share them.
pub proof fn law_modifier_bits_tell_the_keys_apart(a: Modifiers, b: Modifiers)
    requires
        modifier_bits(a) == modifier_bits(b),
    ensures
        a == b,
{
}

/// The bit of each modifier is set just while it is held, whatever else is
/// held.
pub proof fn law_each_modifier_has_its_bit(mods: Modifiers)
    ensures
        0 <= modifier_bits(mods) < 16,
        mods.alt == (modifier_bits(mods) % 2 == 1),
        mods.control == ((modifier_bits(mods) / 2) % 2 == 1),
        mods.platform == ((modifier_bits(mods) / 4) % 2 == 1),
        mods.shift == ((modifier_bits(mods) / 8) % 2 == 1),
{
}

/// A name that stands for a key has more than one character.
proof fn lemma_named_keys_are_words(key: Seq<char>)
    ensures
        named_key(key) is Some ==> key.len() > 1,
{
    reveal_strlit("enter");
    reveal_strlit("backspace");
    reveal_strlit("tab");
    reveal_strlit("escape");
    reveal_strlit("space");
    reveal_strlit("delete");
    reveal_strlit("home");
    reveal_strlit("end");
    reveal_strlit("pageup");
    reveal_strlit("pagedown");
    reveal_strlit("up");
    reveal_strlit("down");
    reveal_strlit("left");
    reveal_strlit("right");
}

/// The key of a single character goes to the page and types what the platform
/// says it types, whether Shift is held or not; with Control or Alt it goes
/// there and types nothing. While the platform's own key is held it stays with
/// the app.
pub proof fn law_a_character_key_types_its_text(key: Seq<char>, text: &str, mods: Modifiers)
    requires
        key.len() == 1,
    ensures
        named_key(key) is None,
        goes_to_page(key, mods) == !mods.platform,
        !mods.control && !mods.alt ==> typed_by(Some(text), mods) == Some(text@),
        mods.control || mods.alt ==> typed_by(Some(text), mods) is None,
        typed_by(None, mods) is None,
{
    lemma_named_keys_are_words(key);
}

/// A key that has neither a name nor a single character stays with the app.
pub proof fn law_other_words_stay_with_the_app(key: Seq<char>, mods: Modifiers)
    requires
        key.len() != 1,
        goes_to_page(key, mods),
    ensures
        !mods.platform,
        key.len() > 1,
        key == "enter"@ || key == "backspace"@ || key == "tab"@ || key == "escape"@ || key
            == "space"@ || key == "delete"@ || key == "home"@ || key == "end"@ || key == "pageup"@
            || key == "pagedown"@ || key == "up"@ || key == "down"@ || key == "left"@ || key
            == "right"@,
{
    lemma_named_keys_are_words(key);
}

/// A named key is called by its code, but for the space bar, which is called
/// by what it types. Only the space bar and Enter type anything, a character
/// whose number is the key's own. No two named keys share a number.
pub proof fn law_named_keys_are_told_apart(key: Seq<char>, other: Seq<char>)
    requires
        named_key(key) is Some,
        named_key(other) is Some,
    ensures
        key != "space"@ ==> named_key(key)->0.key == named_key(key)->0.code,
        key == "space"@ ==> named_key(key)->0.text == Some(named_key(key)->0.key),
        named_key(key)->0.text is Some == (key == "space"@ || key == "enter"@),
        named_key(key)->0.text is Some ==> named_key(key)->0.text->0.len() == 1
            && named_key(key)->0.text->0[0] as u32 == named_key(key)->0.vk,
        key != other ==> named_key(key)->0.vk != named_key(other)->0.vk,
{
    reveal_strlit("\r");
    reveal_strlit(" ");
    reveal_strlit("enter");
    reveal_strlit("backspace");
    reveal_strlit("tab");
    reveal_strlit("escape");
    reveal_strlit("space");
    assert("enter"@[0] == 'e');
    assert("space"@[0] == 's');
}

/// An arrow is called after the way it points, and the four of them are
/// numbered in a row: left, up, right, down.
pub proof fn law_arrows_are_named_after_their_way(key: Seq<char>)
    ensures
        key == "left"@ ==> named_key(key) is Some && named_key(key)->0.key == "ArrowLeft"@
            && named_key(key)->0.vk == 37,
        key == "up"@ ==> named_key(key) is Some && named_key(key)->0.key == "ArrowUp"@ && named_key(
            key,
        )->0.vk == 38,
        key == "right"@ ==> named_key(key) is Some && named_key(key)->0.key == "ArrowRight"@
            && named_key(key)->0.vk == 39,
        key == "down"@ ==> named_key(key) is Some && named_key(key)->0.key == "ArrowDown"@
            && named_key(key)->0.vk == 40,
{
    reveal_strlit("enter");
    reveal_strlit("backspace");
    reveal_strlit("tab");
    reveal_strlit("escape");
    reveal_strlit("space");
    reveal_strlit("delete");
    reveal_strlit("home");
    reveal_strlit("end");
    reveal_strlit("pageup");
    reveal_strlit("pagedown");
    reveal_strlit("up");
    reveal_strlit("down");
    reveal_strlit("left");
    reveal_strlit("right");
    assert("enter"@[0] == 'e');
    assert("space"@[0] == 's');
    assert("home"@[0] == 'h');
    assert("down"@[0] == 'd');
    assert("left"@[0] == 'l');
    assert("right"@[0] == 'r');
    assert("enter"@.len() == 5);
    assert("backspace"@.len() == 9);
    assert("tab"@.len() == 3);
    assert("escape"@.len() == 6);
    assert("space"@.len() == 5);
    assert("delete"@.len() == 6);
    assert("home"@.len() == 4);
    assert("end"@.len() == 3);
    assert("pageup"@.len() == 6);
    assert("pagedown"@.len() == 8);
    assert("up"@.len() == 2);
    assert("down"@.len() == 4);
    assert("left"@.len() == 4);
    assert("right"@.len() == 5);
}

/// The two cases of a letter have the same key, called after the capital; a
/// digit's key is called after the digit; no other character's key has a name.
pub proof fn law_the_code_names_the_character(c: char)
    ensures
        'A' <= c <= 'Z' ==> code_of(c) == "Key"@.push(c) && ascii_capital(c) == c,
        'a' <= c <= 'z' ==> 'A' <= ascii_capital(c) <= 'Z' && c as u32 - ascii_capital(c) as u32
            == 'a' as u32 - 'A' as u32 && code_of(c) == code_of(ascii_capital(c)),
        '0' <= c <= '9' ==> code_of(c) == "Digit"@.push(c),
        !('a' <= c <= 'z') ==> ascii_capital(c) == c,
        (code_of(c).len() == 0) == !('A' <= c <= 'Z' || 'a' <= c <= 'z' || '0' <= c <= '9'),
{
}

/// Each event of the socket touches what it is about and nothing else: only a
/// frame the picture, only the geometry the size, only a navigation the
/// address, and the socket is let go of just where the stream ended.
pub proof fn law_an_event_touches_what_it_is_about<N>(panel: BrowserPanel<N>, inbound: Inbound<N>)
    ensures
        ({
            let after = panel.after(inbound);
            &&& after.generation == panel.generation
            &&& inbound is Frame ==> after.frame == Some(inbound->Frame_0)
            &&& !(inbound is Frame) ==> after.frame == panel.frame
            &&& inbound is Geometry ==> after.width == inbound->width && after.height
                == inbound->height
            &&& !(inbound is Geometry) ==> after.width == panel.width && after.height
                == panel.height
            &&& inbound is Navigated ==> after.url == Some(inbound->Navigated_0)
            &&& !(inbound is Navigated) ==> after.url == panel.url
            &&& inbound is Ready ==> after.status is Live
            &&& inbound is Ended ==> after.status == Status::Ended(inbound->Ended_0)
                && !after.outbound
            &&& !(inbound is Ready || inbound is Ended) ==> after.status == panel.status
            &&& !(inbound is Ended) ==> after.outbound == panel.outbound
        }),
{
}

/// A refusal ends the stream whatever else the message says, and gives the
/// error that it names; nothing but a refusal ends it.
pub proof fn law_only_a_refusal_ends_the_stream<N>(control: Control<N>, event: Option<Inbound<N>>)
    requires
        control_means(control, event),
    ensures
        (event is Some && event->0 is Ended) == (control.status is Some && control.status->0
            >= 400),
        event is Some && event->0 is Ended && control.error is Some ==> event->0->Ended_0@
            == control.error->0@,
        event is Some && event->0 is Ready ==> optional(control.kind) == Some(MSG_READY@),
        event is Some && event->0 is Geometry ==> optional(control.kind) == Some(MSG_GEOMETRY@)
            && control.device_width == Some(event->0->width) && control.device_height == Some(
            event->0->height,
        ),
        event is Some && event->0 is Navigated ==> optional(control.kind) == Some(MSG_NAVIGATED@)
            && optional(control.url) == Some(event->0->Navigated_0@),
        event is Some ==> !(event->0 is Frame),
{
}

/// A message of the mouse says that it is one, of which kind, and which
/// modifiers are held; a click says its button too, and how often it was
/// clicked, up to three times.
pub proof fn law_a_click_says_what_was_clicked(
    kind: Seq<char>,
    button: MouseButton,
    clicks: int,
    mods: Modifiers,
)
    requires
        0 <= clicks,
    ensures
        ({
            let said = click_members(kind, button, clicks, mods);
            &&& said["type"@] == Member::Text(MSG_MOUSE@)
            &&& said["kind"@] == Member::Text(kind)
            &&& said["modifiers"@] == Member::Number(modifier_bits(mods) as nat)
            &&& said["button"@] == Member::Text(button_called(button))
            &&& clicks <= 3 ==> said["clickCount"@] == Member::Number(clicks as nat)
            &&& clicks > 3 ==> said["clickCount"@] == Member::Number(3)
            &&& mouse_members(kind, mods)["kind"@] == Member::Text(kind)
            &&& mouse_members(kind, mods)["type"@] == Member::Text(MSG_MOUSE@)
            &&& mouse_members(kind, mods)["modifiers"@] == said["modifiers"@]
        }),
{
    reveal_strlit("type");
    reveal_strlit("kind");
    reveal_strlit("modifiers");
    reveal_strlit("button");
    reveal_strlit("clickCount");
    assert("type"@[0] == 't');
    assert("kind"@[0] == 'k');
    assert("modifiers"@.len() != "kind"@.len());
    assert("modifiers"@.len() != "type"@.len());
    assert("button"@.len() != "kind"@.len());
    assert("button"@.len() != "type"@.len());
    assert("button"@.len() != "modifiers"@.len());
    assert("clickCount"@.len() != "button"@.len());
    assert("clickCount"@.len() != "kind"@.len());
    assert("clickCount"@.len() != "type"@.len());
    assert("clickCount"@.len() != "modifiers"@.len());
}

/// A stream that ends gives its reason.
pub proof fn law_an_end_gives_its_reason<N>(action: SocketAction<N>, reason: Seq<char>)
    requires
        ends_with(action, reason),
    ensures
        action is End && action->End_0@ == reason,
{
}

/// A button goes by its name in the protocol.
pub proof fn law_buttons_go_by_their_names(button: MouseButton)
    ensures
        button is Left ==> button_called(button) == "left"@,
        button is Right ==> button_called(button) == "right"@,
        button is Middle ==> button_called(button) == "middle"@,
        button is Back ==> button_called(button) == "back"@,
        button is Forward ==> button_called(button) == "forward"@,
{
}

} // verus!
