//! Keiki cloud rows: identifiers, timestamps and the mapping of remote
//! records onto the shell's own rows.

use vstd::prelude::*;

use crate::order::lemma_filter_members;
use crate::rows::Chat;
use crate::rows::Device;
use crate::rows::MessagePart;
use crate::rows::MessageRole;
use crate::rows::SessionMessageEntry;
use crate::rows::Space;
use crate::text::after_prefix;
use crate::text::concat;
use crate::text::concat3;
use crate::text::find_char;
use crate::text::first_index;
use crate::text::halves;
use crate::text::is_digit;
use crate::text::law_a_prefix_comes_off;
use crate::text::law_a_text_is_split_at_the_first;
use crate::text::lemma_first_index;
use crate::text::lemma_first_index_bounds;
use crate::text::optional;
use crate::text::split_once;
use crate::text::starts_with;
use crate::text::strip_prefix;
use crate::text::trim;
use crate::text::trimmed;

verus! {

/// Device id under which every cloud row is filed.
pub const DEVICE_ID: &'static str = "keiki-cloud";

/// What a space id of a cloud agent begins with.
pub const AGENT_PREFIX: &'static str = "keiki-agent:";

/// What a chat id of a cloud conversation begins with.
pub const CHAT_PREFIX: &'static str = "keiki-conv:";

/// Key of the stored sign-in.
pub const CREDENTIAL_KEY: &'static str = "keiki://oauth";

/// Service address when none is configured.
pub const DEFAULT_API_URL: &'static str = "https://onkeiki.com";

/// Where the sign-in stands.
#[derive(Debug, Clone, Copy, PartialEq, Eq, Structural)]
pub enum SessionStatus {
    SignedOut,
    Loading,
    SignedIn,
    Error,
}

/// The request that a conversation is waiting for.
#[derive(Debug, Clone, Copy, PartialEq, Eq, Structural)]
pub enum KeikiConversationPending {
    Takeover,
    HandBack,
    Block,
    Send,
    Steer,
}

/// An instant: whole seconds since the Unix epoch and the nanoseconds after
/// them, which pass a thousand million within a leap second.
#[derive(Debug, Clone, Copy, PartialEq, Eq, Structural)]
pub struct Timestamp {
    pub secs: i64,
    pub nanos: u32,
}

impl Timestamp {
    /// Whether the instant lies in the span of a calendar that counts its
    /// days in 32 bits.
    pub open spec fn valid(self) -> bool {
        &&& -200_000_000_000_000 < self.secs < 200_000_000_000_000
        &&& self.nanos < 2_000_000_000
    }

    /// Whether this instant comes after `other`.
    pub open spec fn later_than(self, other: Timestamp) -> bool {
        self.secs > other.secs || (self.secs == other.secs && self.nanos > other.nanos)
    }

    /// Milliseconds since the Unix epoch.
    pub open spec fn millis(self) -> int {
        self.secs * 1000 + (self.nanos / 1_000_000) as int
    }

    /// Whether this instant comes after `other`.
    pub fn is_after(self, other: Timestamp) -> (after: bool)
        ensures
            after == self.later_than(other),
    {
        self.secs > other.secs || (self.secs == other.secs && self.nanos > other.nanos)
    }

    /// Seconds since the Unix epoch.
    pub fn timestamp(&self) -> (secs: i64)
        ensures
            secs == self.secs,
    {
        self.secs
    }

    /// Milliseconds since the Unix epoch.
    pub fn timestamp_millis(&self) -> (millis: i64)
        requires
            self.valid(),
        ensures
            millis == self.millis(),
    {
        self.secs * 1000 + (self.nanos / 1_000_000) as i64
    }
}

/// A staff member's hold on a conversation.
#[derive(Debug, Clone)]
pub struct ConversationTakeover {
    pub expires_at: String,
}

/// The cloud conversation on screen.
#[derive(Debug, Clone)]
pub struct KeikiConversation {
    pub chat_id: String,
    pub blocked: bool,
    pub takeover: Option<ConversationTakeover>,
    pub pending: Option<KeikiConversationPending>,
    pub error: Option<String>,
    pub steer_reply: Option<String>,
}

impl KeikiConversation {
    /// A conversation of which nothing but its id is known.
    pub fn new(chat_id: String) -> (conversation: Self)
        ensures
            conversation.chat_id@ == chat_id@,
            !conversation.blocked,
            conversation.takeover is None,
            conversation.pending is None,
            conversation.error is None,
            conversation.steer_reply is None,
    {
        KeikiConversation {
            chat_id,
            blocked: false,
            takeover: None,
            pending: None,
            error: None,
            steer_reply: None,
        }
    }
}

/// What `chrono` reads from a text as an RFC 3339 date and time: the seconds
/// since the Unix epoch and the nanoseconds after them.
pub uninterp spec fn rfc3339(text: Seq<char>) -> Option<(i64, u32)>;

/// `chrono::DateTime::parse_from_rfc3339`, moved to UTC and taken apart into
/// its whole seconds and the nanoseconds after them. Claimed: the result
/// depends on the text alone, and it stays in the span that `chrono` counts in
/// 32-bit days, with the nanoseconds below two thousand million. An offset has
/// minutes: a text that ends in a sign and two digits names no instant.
#[verifier::external_body]
fn parse_rfc3339(value: &str) -> (instant: Option<(i64, u32)>)
    ensures
        instant == rfc3339(value@),
        ends_in_hour_offset(value@) ==> instant is None,
        instant is Some ==> (Timestamp { secs: (instant->0).0, nanos: (instant->0).1 }).valid(),
{
    chrono::DateTime::parse_from_rfc3339(value).ok().map(
        |parsed| (parsed.timestamp(), parsed.timestamp_subsec_nanos()),
    )
}

/// Whether `tail` ends in a sign and two digits: an offset in whole hours.
pub open spec fn ends_in_hour_offset(tail: Seq<char>) -> bool {
    let n = tail.len() as int;
    &&& n >= 3
    &&& tail[n - 3] == '+' || tail[n - 3] == '-'
    &&& is_digit(tail[n - 2])
    &&& is_digit(tail[n - 1])
}

/// `value` with its first space turned into the `T` that separates a date from
/// its time.
pub open spec fn with_date_separator(value: Seq<char>) -> Seq<char> {
    let at = first_index(value, ' ');
    if at < value.len() {
        value.update(at, 'T')
    } else {
        value
    }
}

/// `value` in the shape of RFC 3339: a `T` for the first space, and minutes
/// after an offset in whole hours.
pub open spec fn normalized(value: Seq<char>) -> Seq<char> {
    let joined = with_date_separator(value);
    let at = first_index(joined, 'T');
    if at < joined.len() && ends_in_hour_offset(joined.skip(at + 1)) {
        joined + ":00"@
    } else {
        joined
    }
}

/// `value` in the shape of RFC 3339: a `T` for the first space, and minutes
/// after an offset in whole hours.
pub fn normalize_timestamp(value: &str) -> (shaped: String)
    ensures
        shaped@ == normalized(value@),
{
    let length: usize = value.unicode_len();
    let mut shaped = match find_char(value, ' ') {
        Some(at) => {
            let head = value.substring_char(0, at);
            let tail = value.substring_char(at + 1, length);
            let joined = concat3(head, "T", tail);
            proof {
                reveal_strlit("T");
            }
            assert(joined@ == value@.update(at as int, 'T'));
            joined
        },
        None => value.to_owned(),
    };
    assert(shaped@ == with_date_separator(value@));
    let found = find_char(shaped.as_str(), 'T');
    if let Some(at) = found {
        let end: usize = shaped.as_str().unicode_len();
        let ghost tail = shaped@.skip(at + 1);
        if end - at > 3 {
            let sign = shaped.as_str().get_char(end - 3);
            let tens = shaped.as_str().get_char(end - 2);
            let ones = shaped.as_str().get_char(end - 1);
            assert(tail[tail.len() - 3] == sign);
            assert(tail[tail.len() - 2] == tens);
            assert(tail[tail.len() - 1] == ones);
            if (sign == '+' || sign == '-') && '0' <= tens && tens <= '9' && '0' <= ones && ones
                <= '9' {
                shaped.append(":00");
            }
        }
    }
    shaped
}

/// The instant that `chrono` read.
pub open spec fn instant_at(read: Option<(i64, u32)>) -> Option<Timestamp> {
    match read {
        Some(instant) => Some(Timestamp { secs: instant.0, nanos: instant.1 }),
        None => None,
    }
}

/// The instant that `value` names, in RFC 3339 or in the form of a database
/// column with a space between date and time.
pub open spec fn instant_of(value: Seq<char>) -> Option<Timestamp> {
    instant_at(
        match rfc3339(value) {
            Some(instant) => Some(instant),
            None => rfc3339(normalized(value)),
        },
    )
}

/// Whether a text is written like a date: in digits and minus signs.
pub open spec fn like_a_date(text: Seq<char>) -> bool {
    forall|i: int| 0 <= i < text.len() ==> is_digit(#[trigger] text[i]) || text[i] == '-'
}

/// A date, a time and an offset in whole hours, as a database writes them.
pub open spec fn database_form(date: Seq<char>, time: Seq<char>, offset: Seq<char>) -> Seq<char> {
    date + " "@ + time + offset
}

/// A date, a time and an offset in whole hours, as RFC 3339 writes them.
pub open spec fn rfc_form(date: Seq<char>, time: Seq<char>, offset: Seq<char>) -> Seq<char> {
    date + "T"@ + time + offset + ":00"@
}

/// The form of a database becomes that of RFC 3339: the space after the date
/// turns into a `T`, and the offset, which no minus sign of the date is taken
/// for, gets its minutes.
pub proof fn law_the_form_of_a_database_is_put_right(
    date: Seq<char>,
    time: Seq<char>,
    offset: Seq<char>,
)
    requires
        like_a_date(date),
        offset.len() == 3,
        ends_in_hour_offset(offset),
    ensures
        normalized(database_form(date, time, offset)) == rfc_form(date, time, offset),
        ends_in_hour_offset(database_form(date, time, offset)),
{
    reveal_strlit(" ");
    reveal_strlit("T");
    let value = database_form(date, time, offset);
    let at = date.len() as int;
    let n = value.len() as int;
    assert(value[n - 3] == offset[0] && value[n - 2] == offset[1] && value[n - 1] == offset[2]);
    assert forall|j: int| 0 <= j < at implies value[j] != ' ' by {
        assert(value[j] == date[j]);
    }
    lemma_first_index(value, ' ', at);
    let joined = value.update(at, 'T');
    assert(with_date_separator(value) == joined);
    assert forall|j: int| 0 <= j < at implies joined[j] != 'T' by {
        assert(joined[j] == date[j]);
    }
    lemma_first_index(joined, 'T', at);
    let tail = joined.skip(at + 1);
    assert(tail =~= time + offset);
    let m = tail.len() as int;
    assert(tail[m - 3] == offset[0] && tail[m - 2] == offset[1] && tail[m - 1] == offset[2]);
    assert(joined =~= date + "T"@ + time + offset);
}

/// The instant that `value` names, in RFC 3339 or in the form of a database
/// column with a space between date and time. The two forms of an instant name
/// the same.
pub fn parse_timestamp(value: &str) -> (instant: Option<Timestamp>)
    ensures
        instant == instant_of(value@),
        instant is Some ==> instant->0.valid(),
        rfc3339(value@) is Some ==> instant == instant_at(rfc3339(value@)),
        forall|date: Seq<char>, time: Seq<char>, offset: Seq<char>|
            like_a_date(date) && offset.len() == 3 && ends_in_hour_offset(offset) && value@
                == #[trigger] database_form(date, time, offset) ==> instant == instant_at(
                rfc3339(rfc_form(date, time, offset)),
            ),
{
    proof {
        assert forall|date: Seq<char>, time: Seq<char>, offset: Seq<char>|
            like_a_date(date) && offset.len() == 3 && ends_in_hour_offset(offset) && value@
                == #[trigger] database_form(date, time, offset) implies normalized(value@)
            == rfc_form(date, time, offset) && ends_in_hour_offset(value@) by {
            law_the_form_of_a_database_is_put_right(date, time, offset);
        }
    }
    if let Some((secs, nanos)) = parse_rfc3339(value) {
        return Some(Timestamp { secs, nanos });
    }
    let shaped = normalize_timestamp(value);
    match parse_rfc3339(shaped.as_str()) {
        Some((secs, nanos)) => Some(Timestamp { secs, nanos }),
        None => None,
    }
}

/// The instant that `value` names, or `now` when it names none.
pub open spec fn instant_or(value: Seq<char>, now: Timestamp) -> Timestamp {
    match instant_of(value) {
        Some(instant) => instant,
        None => now,
    }
}

/// The instant that `value` names, or `now` when it names none.
pub fn timestamp_or_now(value: &str, now: Timestamp) -> (instant: Timestamp)
    ensures
        instant == instant_or(value@, now),
        now.valid() ==> instant.valid(),
{
    match parse_timestamp(value) {
        Some(instant) => instant,
        None => now,
    }
}

/// Whether `expires`, the end of a takeover, is known and still ahead of `now`.
pub fn still_ahead(expires: Option<Timestamp>, now: Timestamp) -> (ahead: bool)
    ensures
        ahead == (expires is Some && expires->0.later_than(now)),
{
    match expires {
        Some(instant) => instant.is_after(now),
        None => false,
    }
}

/// Whether a staff member holds the conversation at `now`.
pub fn takeover_live(conversation: &KeikiConversation, now: Timestamp) -> (live: bool)
    ensures
        live == match conversation.takeover {
            Some(takeover) => match instant_of(takeover.expires_at@) {
                Some(expires) => expires.later_than(now),
                None => false,
            },
            None => false,
        },
{
    match &conversation.takeover {
        Some(takeover) => still_ahead(parse_timestamp(takeover.expires_at.as_str()), now),
        None => false,
    }
}

/// The configured service address, unless it is blank or missing.
pub fn default_api_url(configured: Option<String>) -> (url: String)
    ensures
        url@ == match configured {
            Some(value) => if trimmed(value@).len() == 0 {
                DEFAULT_API_URL@
            } else {
                value@
            },
            None => DEFAULT_API_URL@,
        },
{
    match configured {
        Some(value) => {
            if trim(value.as_str()).is_empty() {
                DEFAULT_API_URL.to_owned()
            } else {
                value
            }
        },
        None => DEFAULT_API_URL.to_owned(),
    }
}

/// Space id of an agent.
pub open spec fn agent_space(agent: Seq<char>) -> Seq<char> {
    AGENT_PREFIX@ + agent
}

/// Chat id of an agent's conversation with a phone number.
pub open spec fn agent_chat(agent: Seq<char>, phone: Seq<char>) -> Seq<char> {
    CHAT_PREFIX@ + agent + seq![':'] + phone
}

/// Whether a chat id belongs to a cloud conversation.
pub open spec fn cloud_chat(id: Seq<char>) -> bool {
    CHAT_PREFIX@.is_prefix_of(id)
}

/// Whether a space id belongs to a cloud agent.
pub open spec fn cloud_space(id: Seq<char>) -> bool {
    AGENT_PREFIX@.is_prefix_of(id)
}

/// Space id of an agent.
pub fn agent_id(agent: &str) -> (id: String)
    ensures
        id@ == agent_space(agent@),
{
    concat(AGENT_PREFIX, agent)
}

/// Chat id of an agent's conversation with a phone number.
pub fn chat_id(agent: &str, phone: &str) -> (id: String)
    ensures
        id@ == agent_chat(agent@, phone@),
{
    let mut id = concat(CHAT_PREFIX, agent);
    id.push(':');
    id.append(phone);
    assert(id@ == agent_chat(agent@, phone@));
    id
}

/// Whether a chat id belongs to a cloud conversation.
pub fn is_keiki_chat(id: &str) -> (cloud: bool)
    ensures
        cloud == cloud_chat(id@),
{
    starts_with(id, CHAT_PREFIX)
}

/// Whether a space id belongs to a cloud agent.
pub fn is_keiki_space(id: &str) -> (cloud: bool)
    ensures
        cloud == cloud_space(id@),
{
    starts_with(id, AGENT_PREFIX)
}

/// How the service finds a conversation.
#[derive(Debug, Clone)]
pub struct ConversationLocator {
    pub identity: String,
    pub agent_id: Option<String>,
    pub api_key: Option<String>,
}

/// The agent and the phone number that a chat id names, neither of them empty.
pub open spec fn located(id: Seq<char>) -> Option<(Seq<char>, Seq<char>)> {
    match after_prefix(id, CHAT_PREFIX@) {
        Some(rest) => match halves(rest, ':') {
            Some((agent, phone)) => if agent.len() > 0 && phone.len() > 0 {
                Some((agent, phone))
            } else {
                None
            },
            None => None,
        },
        None => None,
    }
}

/// Where the conversation of a chat id is found, when the id names an agent
/// and a phone number.
pub fn conversation_locator(id: &str) -> (locator: Option<ConversationLocator>)
    ensures
        match located(id@) {
            Some((agent, phone)) => locator is Some && locator->0.identity@ == phone && optional(
                locator->0.agent_id,
            ) == Some(agent) && locator->0.api_key is None,
            None => locator is None,
        },
{
    match strip_prefix(id, CHAT_PREFIX) {
        Some(rest) => match split_once(rest, ':') {
            Some((agent, phone)) => {
                if !agent.is_empty() && !phone.is_empty() {
                    Some(
                        ConversationLocator {
                            identity: phone.to_owned(),
                            agent_id: Some(agent.to_owned()),
                            api_key: None,
                        },
                    )
                } else {
                    None
                }
            },
            None => None,
        },
        None => None,
    }
}

/// The id of a conversation leads back to its agent and phone number, for an
/// agent id without a colon.
pub proof fn law_chat_ids_round_trip(agent: Seq<char>, phone: Seq<char>)
    requires
        agent.len() > 0,
        phone.len() > 0,
        !agent.contains(':'),
    ensures
        located(agent_chat(agent, phone)) == Some((agent, phone)),
        cloud_chat(agent_chat(agent, phone)),
{
    let id = agent_chat(agent, phone);
    assert(CHAT_PREFIX@.is_prefix_of(id));
    let rest = id.skip(CHAT_PREFIX@.len() as int);
    assert(rest == agent + seq![':'] + phone);
    assert(rest[agent.len() as int] == ':');
    assert forall|j: int| 0 <= j < agent.len() implies rest[j] != ':' by {
        assert(agent.contains(agent[j]));
    }
    lemma_first_index(rest, ':', agent.len() as int);
    assert(rest.take(agent.len() as int) == agent);
    assert(rest.skip(agent.len() as int + 1) == phone);
}

/// Every chat id that can be located is the id of what it locates.
pub proof fn law_located_ids_are_rebuilt(id: Seq<char>)
    requires
        located(id) is Some,
    ensures
        agent_chat((located(id)->0).0, (located(id)->0).1) == id,
        cloud_chat(id),
{
    let rest = id.skip(CHAT_PREFIX@.len() as int);
    lemma_first_index_bounds(rest, ':');
    let at = first_index(rest, ':');
    assert(rest == rest.take(at) + seq![':'] + rest.skip(at + 1));
    assert(id == CHAT_PREFIX@ + rest);
    assert(agent_chat(rest.take(at), rest.skip(at + 1)) == CHAT_PREFIX@ + rest);
}

/// Agents' space ids are told apart from conversations' chat ids: each passes
/// its own test, and no id passes both.
pub proof fn law_cloud_ids_are_disjoint(agent: Seq<char>, id: Seq<char>)
    ensures
        cloud_space(agent_space(agent)),
        !(cloud_space(id) && cloud_chat(id)),
{
    assert(AGENT_PREFIX@.is_prefix_of(agent_space(agent)));
    reveal_strlit("keiki-agent:");
    reveal_strlit("keiki-conv:");
    if cloud_space(id) && cloud_chat(id) {
        assert(AGENT_PREFIX@[6] == 'a');
        assert(CHAT_PREFIX@[6] == 'c');
        assert(id.subrange(0, AGENT_PREFIX@.len() as int)[6] == id[6]);
        assert(id.subrange(0, CHAT_PREFIX@.len() as int)[6] == id[6]);
    }
}

/// The device row under which the cloud is listed, seen at `now`.
pub fn map_device(now: Timestamp) -> (device: Device)
    ensures
        device.id@ == DEVICE_ID@,
        device.name@ == "Keiki"@,
        device.platform@ == "cloud"@,
        device.last_seen_at == Some(now),
        device.created_at is None,
        device.version is None,
{
    Device {
        id: DEVICE_ID.to_owned(),
        name: "Keiki".to_owned(),
        platform: "cloud".to_owned(),
        last_seen_at: Some(now),
        created_at: None,
        version: None,
    }
}

/// An agent as the service lists it.
#[derive(Debug, Clone)]
pub struct AgentSummary {
    pub id: String,
    pub name: String,
    pub created_at: String,
}

/// Whether `space` is the row of `agent`, created at `now` when its own time
/// cannot be read.
pub open spec fn space_of(space: Space, agent: AgentSummary, now: Timestamp) -> bool {
    &&& space.id@ == agent_space(agent.id@)
    &&& space.device_id@ == DEVICE_ID@
    &&& space.path@ == agent.name@
    &&& optional(space.name) == Some(agent.name@)
    &&& !space.git_detected
    &&& space.git_checked_at is None
    &&& space.checkout_id is None
    &&& space.created_at == instant_or(agent.created_at@, now)
}

/// The space row of an agent, created at `now` when its own time cannot be
/// read.
pub fn map_agent(agent: &AgentSummary, now: Timestamp) -> (space: Space)
    ensures
        space_of(space, *agent, now),
{
    Space {
        id: agent_id(agent.id.as_str()),
        device_id: DEVICE_ID.to_owned(),
        path: agent.name.clone(),
        name: Some(agent.name.clone()),
        git_detected: false,
        git_checked_at: None,
        checkout_id: None,
        created_at: timestamp_or_now(agent.created_at.as_str(), now),
    }
}

/// A conversation as the service lists it.
#[derive(Debug, Clone)]
pub struct ConversationSummary {
    pub phone: String,
    pub contact_name: Option<String>,
    pub agent_id: Option<String>,
    pub last_message: String,
    pub last_message_at: String,
}

/// Whether `chat` is the row of `conversation` under `agent`, dated `now` when
/// its own time cannot be read.
pub open spec fn chat_of(
    chat: Chat,
    conversation: ConversationSummary,
    agent: Seq<char>,
    now: Timestamp,
) -> bool {
    &&& chat.id@ == agent_chat(agent, conversation.phone@)
    &&& chat.device_id@ == DEVICE_ID@
    &&& optional(chat.title) == Some(
        match conversation.contact_name {
            Some(name) => name@,
            None => conversation.phone@,
        },
    )
    &&& !chat.archived
    &&& chat.cwd is None
    &&& chat.branch is None
    &&& chat.checkout_id is None
    &&& optional(chat.last_message_preview) == Some(conversation.last_message@)
    &&& chat.last_message_at == Some(instant_or(conversation.last_message_at@, now))
    &&& chat.created_at == instant_or(conversation.last_message_at@, now)
    &&& chat.harness_session_id is None
    &&& chat.harness_session_cwd is None
    &&& optional(chat.space_id) == Some(agent_space(agent))
    &&& chat.last_seen_at is None
    &&& chat.room_gen is None
}

/// The chat row of a conversation, unless it names no agent. A time that
/// cannot be read never drops the row.
pub fn map_conversation(conversation: &ConversationSummary, now: Timestamp) -> (chat: Option<Chat>)
    ensures
        match conversation.agent_id {
            Some(agent) => chat is Some && chat_of(chat->0, *conversation, agent@, now),
            None => chat is None,
        },
{
    match &conversation.agent_id {
        Some(agent) => {
            let dated = timestamp_or_now(conversation.last_message_at.as_str(), now);
            let title = match &conversation.contact_name {
                Some(name) => name.clone(),
                None => conversation.phone.clone(),
            };
            Some(
                Chat {
                    id: chat_id(agent.as_str(), conversation.phone.as_str()),
                    device_id: DEVICE_ID.to_owned(),
                    title: Some(title),
                    archived: false,
                    cwd: None,
                    branch: None,
                    checkout_id: None,
                    last_message_preview: Some(conversation.last_message.clone()),
                    last_message_at: Some(dated),
                    created_at: dated,
                    harness_session_id: None,
                    harness_session_cwd: None,
                    space_id: Some(agent_id(agent.as_str())),
                    last_seen_at: None,
                    room_gen: None,
                },
            )
        },
        None => None,
    }
}

/// The conversations that name an agent, in their order.
pub open spec fn with_agent(conversations: Seq<ConversationSummary>) -> Seq<ConversationSummary> {
    conversations.filter(|conversation: ConversationSummary| conversation.agent_id is Some)
}

/// The rows that stand for the listed agents and conversations: one space per
/// agent, and one chat per conversation that names an agent.
pub fn map_snapshot(
    agents: &Vec<AgentSummary>,
    conversations: &Vec<ConversationSummary>,
    now: Timestamp,
) -> (rows: (Vec<Space>, Vec<Chat>))
    ensures
        rows.0@.len() == agents@.len(),
        forall|i: int|
            0 <= i < agents@.len() ==> #[trigger] space_of(rows.0@[i], agents@[i], now),
        rows.1@.len() == with_agent(conversations@).len(),
        forall|i: int|
            0 <= i < rows.1@.len() ==> #[trigger] chat_of(
                rows.1@[i],
                with_agent(conversations@)[i],
                with_agent(conversations@)[i].agent_id->0@,
                now,
            ),
{
    let mut spaces: Vec<Space> = Vec::new();
    let mut i: usize = 0;
    while i < agents.len()
        invariant
            i <= agents.len(),
            spaces@.len() == i,
            forall|j: int| 0 <= j < i ==> #[trigger] space_of(spaces@[j], agents@[j], now),
        decreases agents.len() - i,
    {
        spaces.push(map_agent(&agents[i], now));
        i += 1;
    }
    let mut chats: Vec<Chat> = Vec::new();
    let ghost named = |conversation: ConversationSummary| conversation.agent_id is Some;
    let mut k: usize = 0;
    assert(conversations@.take(0).filter(named) == Seq::<ConversationSummary>::empty()) by {
        reveal(Seq::filter);
    }
    while k < conversations.len()
        invariant
            k <= conversations.len(),
            named == (|conversation: ConversationSummary| conversation.agent_id is Some),
            chats@.len() == conversations@.take(k as int).filter(named).len(),
            forall|j: int|
                0 <= j < chats@.len() ==> #[trigger] chat_of(
                    chats@[j],
                    conversations@.take(k as int).filter(named)[j],
                    conversations@.take(k as int).filter(named)[j].agent_id->0@,
                    now,
                ),
        decreases conversations.len() - k,
    {
        let ghost kept = conversations@.take(k as int).filter(named);
        proof {
            reveal(Seq::filter);
            assert(conversations@.take(k + 1).drop_last() == conversations@.take(k as int));
        }
        if let Some(chat) = map_conversation(&conversations[k], now) {
            chats.push(chat);
            assert(conversations@.take(k + 1).filter(named) == kept.push(conversations@[k as int]));
        } else {
            assert(conversations@.take(k + 1).filter(named) == kept);
        }
        k += 1;
    }
    assert(conversations@.take(k as int) == conversations@);
    (spaces, chats)
}

/// Which way a message went.
#[derive(Debug, Clone, Copy, PartialEq, Eq, Structural)]
pub enum MessageDirection {
    Inbound,
    Outbound,
}

/// A message as the service lists it.
#[derive(Debug, Clone)]
pub struct ConversationMessage {
    pub id: String,
    pub direction: MessageDirection,
    pub content: String,
    pub created_at: String,
    pub internal: bool,
    pub staff_name: Option<String>,
}

/// A conversation with all its messages.
#[derive(Debug, Clone)]
pub struct ConversationDetail {
    pub messages: Vec<ConversationMessage>,
}

/// The heading of an internal turn: the staff member's name, unless it is
/// blank.
pub open spec fn internal_label(staff_name: Option<Seq<char>>) -> Seq<char> {
    match staff_name {
        Some(name) => if trimmed(name).len() > 0 {
            "Internal turn — "@ + name
        } else {
            "Internal turn"@
        },
        None => "Internal turn"@,
    }
}

/// What the transcript shows of a message: an internal one is headed by who
/// took the turn.
pub open spec fn shown_text(message: ConversationMessage) -> Seq<char> {
    if message.internal {
        internal_label(optional(message.staff_name)) + "\n\n"@ + message.content@
    } else {
        message.content@
    }
}

/// What the transcript shows of a message.
fn transcript_message_text(message: &ConversationMessage) -> (text: String)
    ensures
        text@ == shown_text(*message),
{
    if !message.internal {
        return message.content.clone();
    }
    let label = match &message.staff_name {
        Some(name) => {
            if !trim(name.as_str()).is_empty() {
                concat("Internal turn — ", name.as_str())
            } else {
                "Internal turn".to_owned()
            }
        },
        None => "Internal turn".to_owned(),
    };
    concat3(label.as_str(), "\n\n", message.content.as_str())
}

/// Whether `entry` stands for `message` in a transcript, dated `now` when its
/// own time cannot be read.
pub open spec fn entry_of(
    entry: SessionMessageEntry,
    message: ConversationMessage,
    now: Timestamp,
) -> bool {
    &&& entry.id@ == message.id@
    &&& entry.role == match message.direction {
        MessageDirection::Inbound => MessageRole::User,
        MessageDirection::Outbound => MessageRole::Assistant,
    }
    &&& entry.parts@.len() == 1
    &&& entry.parts@[0]->Text_id@ == message.id@ + ":text"@
    &&& entry.parts@[0]->Text_text@ == shown_text(message)
    &&& entry.created_at == instant_or(message.created_at@, now).millis()
    &&& entry.device_id@ == DEVICE_ID@
    &&& entry.status is None
    &&& entry.continuation_of is None
}

/// The transcript entry of a message: what came in is the user's, what went
/// out the assistant's.
pub fn map_message(message: &ConversationMessage, now: Timestamp) -> (entry: Option<
    SessionMessageEntry,
>)
    requires
        now.valid(),
    ensures
        entry is Some,
        entry_of(entry->0, *message, now),
{
    let dated = timestamp_or_now(message.created_at.as_str(), now);
    let role = match message.direction {
        MessageDirection::Inbound => MessageRole::User,
        MessageDirection::Outbound => MessageRole::Assistant,
    };
    let mut parts: Vec<MessagePart> = Vec::new();
    parts.push(
        MessagePart::Text {
            id: concat(message.id.as_str(), ":text"),
            text: transcript_message_text(message),
        },
    );
    Some(
        SessionMessageEntry {
            id: message.id.clone(),
            role,
            parts,
            created_at: dated.timestamp_millis(),
            device_id: DEVICE_ID.to_owned(),
            status: None,
            continuation_of: None,
        },
    )
}

/// Whether `entries` stand, one for one and in order, for `messages`.
pub open spec fn transcript_of(
    entries: Seq<SessionMessageEntry>,
    messages: Seq<ConversationMessage>,
    now: Timestamp,
) -> bool {
    &&& entries.len() == messages.len()
    &&& forall|i: int|
        0 <= i < entries.len() ==> #[trigger] entry_of(entries[i], messages[i], now)
}

/// The transcript of a conversation: one entry per message, in order.
pub fn map_transcript(detail: &ConversationDetail, now: Timestamp) -> (entries: Vec<
    SessionMessageEntry,
>)
    requires
        now.valid(),
    ensures
        transcript_of(entries@, detail.messages@, now),
{
    let mut entries: Vec<SessionMessageEntry> = Vec::new();
    let mut i: usize = 0;
    while i < detail.messages.len()
        invariant
            now.valid(),
            i <= detail.messages.len(),
            transcript_of(entries@, detail.messages@.take(i as int), now),
        decreases detail.messages.len() - i,
    {
        let mapped = map_message(&detail.messages[i], now);
        if let Some(entry) = mapped {
            entries.push(entry);
        }
        i += 1;
        assert(transcript_of(entries@, detail.messages@.take(i as int), now)) by {
            assert forall|j: int| 0 <= j < entries@.len() implies #[trigger] entry_of(
                entries@[j],
                detail.messages@.take(i as int)[j],
                now,
            ) by {
                if j < i - 1 {
                    assert(entry_of(
                        entries@.drop_last()[j],
                        detail.messages@.take(i - 1)[j],
                        now,
                    ));
                }
            }
        }
    }
    assert(detail.messages@.take(i as int) == detail.messages@);
    entries
}

/// A transcript shows its messages in their order and under their own ids:
/// what came in is the user's and what went out the assistant's. Of a message
/// that is not internal it shows the content and nothing else; an internal one
/// is headed, by who took the turn where that is known.
pub proof fn law_a_transcript_shows_each_message(
    entries: Seq<SessionMessageEntry>,
    messages: Seq<ConversationMessage>,
    now: Timestamp,
    i: int,
)
    requires
        transcript_of(entries, messages, now),
        0 <= i < messages.len(),
    ensures
        ({
            let message = messages[i];
            let entry = entries[i];
            let text = entry.parts@[0]->Text_text@;
            &&& entries.len() == messages.len()
            &&& entry.id@ == message.id@
            &&& entry.parts@.len() == 1
            &&& entry.parts@[0]->Text_id@ == message.id@ + ":text"@
            &&& entry.device_id@ == DEVICE_ID@
            &&& entry.status is None && entry.continuation_of is None
            &&& instant_of(message.created_at@) is Some ==> entry.created_at == instant_of(
                message.created_at@,
            )->0.millis()
            &&& instant_of(message.created_at@) is None ==> entry.created_at == now.millis()
            &&& entry.role is User == message.direction is Inbound
            &&& entry.role is Assistant == message.direction is Outbound
            &&& !message.internal ==> text == message.content@
            &&& message.internal && message.staff_name is None ==> text == "Internal turn"@
                + "\n\n"@ + message.content@
            &&& message.internal && message.staff_name is Some && trimmed(
                message.staff_name->0@,
            ).len() == 0 ==> text == "Internal turn"@ + "\n\n"@ + message.content@
            &&& message.internal && message.staff_name is Some && trimmed(
                message.staff_name->0@,
            ).len() > 0 ==> text == "Internal turn — "@ + message.staff_name->0@ + "\n\n"@
                + message.content@
        }),
{
    assert(entry_of(entries[i], messages[i], now));
}

/// A heading only ever stands before the content: the transcript's text ends
/// in it, and is no longer than it just where the message is not internal.
pub proof fn law_the_content_is_always_shown(message: ConversationMessage)
    ensures
        message.content@.len() <= shown_text(message).len(),
        shown_text(message).skip(shown_text(message).len() - message.content@.len())
            == message.content@,
        (shown_text(message).len() == message.content@.len()) == !message.internal,
{
    let text = shown_text(message);
    reveal_strlit("\n\n");
    assert("\n\n"@.len() == 2);
    assert(text.skip(text.len() - message.content@.len()) =~= message.content@);
}

/// One instant comes after another by its seconds, and within a second by its
/// nanoseconds. Of two instants that differ just one comes after the other.
pub proof fn law_instants_are_in_order(a: Timestamp, b: Timestamp, c: Timestamp)
    ensures
        a.secs > b.secs ==> a.later_than(b),
        a.secs == b.secs ==> a.later_than(b) == (a.nanos > b.nanos),
        !(a.later_than(b) && b.later_than(a)),
        a != b ==> a.later_than(b) || b.later_than(a),
        a.later_than(b) && b.later_than(c) ==> a.later_than(c),
{
}

/// The milliseconds of an instant are the whole ones that have gone by.
pub proof fn law_milliseconds_are_whole(instant: Timestamp)
    ensures
        instant.millis() * 1_000_000 <= instant.secs * 1_000_000_000 + instant.nanos,
        instant.secs * 1_000_000_000 + instant.nanos < (instant.millis() + 1) * 1_000_000,
{
}

/// A text that can be read as it stands names the instant that was read; one
/// that can only be read in its normal form names that of the form; and one
/// that cannot be read at all is dated now.
pub proof fn law_a_date_that_cannot_be_read_is_now(value: Seq<char>, now: Timestamp)
    ensures
        rfc3339(value) is Some ==> instant_or(value, now).secs == (rfc3339(value)->0).0
            && instant_or(value, now).nanos == (rfc3339(value)->0).1,
        rfc3339(value) is None && rfc3339(normalized(value)) is Some ==> instant_or(
            value,
            now,
        ).secs == (rfc3339(normalized(value))->0).0 && instant_or(value, now).nanos == (rfc3339(
            normalized(value),
        )->0).1,
        rfc3339(value) is None && rfc3339(normalized(value)) is None ==> instant_or(value, now)
            == now,
{
}

/// A chat is titled after the contact, or else after the phone number; it is
/// filed under its agent's space, and shows the last message and when it came.
pub proof fn law_a_chat_shows_its_conversation(
    chat: Chat,
    conversation: ConversationSummary,
    agent: Seq<char>,
    now: Timestamp,
)
    requires
        chat_of(chat, conversation, agent, now),
    ensures
        chat.title is Some,
        conversation.contact_name is Some ==> chat.title->0@ == conversation.contact_name->0@,
        conversation.contact_name is None ==> chat.title->0@ == conversation.phone@,
        chat.space_id is Some && chat.space_id->0@ == AGENT_PREFIX@ + agent,
        chat.id@ == CHAT_PREFIX@ + agent + seq![':'] + conversation.phone@,
        chat.device_id@ == DEVICE_ID@,
        chat.last_message_preview is Some && chat.last_message_preview->0@
            == conversation.last_message@,
        chat.last_message_at == Some(chat.created_at),
        instant_of(conversation.last_message_at@) is Some ==> chat.created_at == instant_of(
            conversation.last_message_at@,
        )->0,
        instant_of(conversation.last_message_at@) is None ==> chat.created_at == now,
        !chat.archived,
        chat.cwd is None && chat.branch is None && chat.checkout_id is None,
        chat.harness_session_id is None && chat.harness_session_cwd is None,
        chat.last_seen_at is None && chat.room_gen is None,
{
}

/// A space is called and found by its agent's name and dated by its creation.
pub proof fn law_a_space_shows_its_agent(space: Space, agent: AgentSummary, now: Timestamp)
    requires
        space_of(space, agent, now),
    ensures
        space.id@ == AGENT_PREFIX@ + agent.id@,
        space.device_id@ == DEVICE_ID@,
        space.name is Some && space.name->0@ == agent.name@,
        space.path@ == agent.name@,
        instant_of(agent.created_at@) is Some ==> space.created_at == instant_of(
            agent.created_at@,
        )->0,
        instant_of(agent.created_at@) is None ==> space.created_at == now,
        !space.git_detected && space.git_checked_at is None && space.checkout_id is None,
{
}

/// The chats listed are those of the conversations that name an agent, and of
/// no others.
pub proof fn law_only_agents_conversations_are_listed(
    conversations: Seq<ConversationSummary>,
    conversation: ConversationSummary,
)
    ensures
        with_agent(conversations).contains(conversation) == (conversations.contains(conversation)
            && conversation.agent_id is Some),
{
    lemma_filter_members(
        conversations,
        |conversation: ConversationSummary| conversation.agent_id is Some,
        conversation,
    );
}

/// A conversation is located only by an id that names both an agent and a phone
/// number, and the agent's id ends at the first colon.
pub proof fn law_a_locator_names_agent_and_phone(id: Seq<char>)
    ensures
        located(id) is Some ==> (located(id)->0).0.len() > 0 && (located(id)->0).1.len() > 0,
        located(id) is Some ==> !(located(id)->0).0.contains(':'),
        located(id) is Some ==> id == "keiki-conv:"@ + (located(id)->0).0.push(':') + (located(
            id,
        )->0).1,
        located(CHAT_PREFIX@) is None,
{
    if located(id) is Some {
        let rest = after_prefix(id, CHAT_PREFIX@)->0;
        law_a_prefix_comes_off(CHAT_PREFIX@, rest, id);
        law_a_text_is_split_at_the_first(rest, ':');
        let (agent, phone) = located(id)->0;
        assert(CHAT_PREFIX@ + (agent.push(':') + phone) =~= CHAT_PREFIX@ + agent.push(':') + phone);
    }
    law_a_prefix_comes_off(CHAT_PREFIX@, Seq::empty(), CHAT_PREFIX@);
    assert(CHAT_PREFIX@ + Seq::<char>::empty() =~= CHAT_PREFIX@);
    law_a_text_is_split_at_the_first(Seq::empty(), ':');
}

/// A cloud row is known by the beginning of its id: a conversation's is none of
/// an agent's space.
pub proof fn law_cloud_rows_are_known_by_their_ids(agent: Seq<char>, phone: Seq<char>)
    ensures
        cloud_chat(agent_chat(agent, phone)),
        cloud_space(agent_space(agent)),
        agent_space(agent) == "keiki-agent:"@ + agent,
        agent_chat(agent, phone) == "keiki-conv:"@ + agent + seq![':'] + phone,
{
    let chat = agent_chat(agent, phone);
    assert(chat.subrange(0, CHAT_PREFIX@.len() as int) =~= CHAT_PREFIX@);
    let space = agent_space(agent);
    assert(space.subrange(0, AGENT_PREFIX@.len() as int) =~= AGENT_PREFIX@);
}

/// Only what a database writes differently is changed: a text without a space
/// keeps all its characters, and one that does not end in an offset of whole
/// hours gets nothing behind it.
pub proof fn law_a_normal_form_stays(value: Seq<char>)
    ensures
        !value.contains(' ') ==> with_date_separator(value) == value,
        with_date_separator(value).len() == value.len(),
        !value.contains(' ') && !value.contains('T') ==> normalized(value) == value,
        !ends_in_hour_offset(with_date_separator(value)) ==> normalized(value)
            == with_date_separator(value),
        normalized(value).len() == value.len() || normalized(value) == with_date_separator(value)
            + ":00"@,
{
    lemma_first_index_bounds(value, ' ');
    let joined = with_date_separator(value);
    lemma_first_index_bounds(joined, 'T');
    let at = first_index(joined, 'T');
    if !value.contains(' ') && first_index(value, ' ') < value.len() {
        assert(value.contains(value[first_index(value, ' ')]));
    }
    if !value.contains(' ') && !value.contains('T') && at < joined.len() {
        assert(value.contains(value[at]));
    }
    if at < joined.len() && ends_in_hour_offset(joined.skip(at + 1)) {
        let tail = joined.skip(at + 1);
        let n = tail.len() as int;
        assert(tail[n - 3] == joined[joined.len() - 3]);
        assert(tail[n - 2] == joined[joined.len() - 2]);
        assert(tail[n - 1] == joined[joined.len() - 1]);
    }
}

/// An offset of whole hours is a sign and two digits at the end of a text, be
/// the sign a plus or a minus.
pub proof fn law_an_hour_offset_is_a_sign_and_two_digits(
    text: Seq<char>,
    sign: char,
    tens: char,
    ones: char,
)
    ensures
        ends_in_hour_offset(text.push(sign).push(tens).push(ones)) == ((sign == '+' || sign == '-')
            && '0' <= tens <= '9' && '0' <= ones <= '9'),
        text.len() < 3 ==> !ends_in_hour_offset(text),
{
}

} // verus!
