//! What the sidebar shows: the account, the session rows and their menus.

use vstd::prelude::*;

use crate::avatars::avatar_state;
use crate::avatars::expression;
use crate::avatars::AvatarState;
use crate::avatars::ChatIndicator;
use crate::json::is_object;
use crate::json::members;
use crate::json::new_object;
use crate::json::no_members;
use crate::json::set_flag;
use crate::json::set_text;
use crate::json::Member;
use crate::keiki::cloud_chat;
use crate::keiki::conversation_locator;
use crate::keiki::is_keiki_chat;
use crate::keiki::located;
use crate::keiki::ConversationLocator;
use crate::keiki::KeikiConversation;
use crate::keiki::KeikiConversationPending;
use crate::keiki::SessionStatus;
use crate::rows::Chat;
use crate::text::concat3;
use crate::text::contains;
use crate::text::listed;
use crate::text::optional;
use crate::text::same;
use crate::text::same_optional;
use crate::text::texts;
use crate::text::trim;
use crate::text::trimmed;

verus! {

/// An organization that the account belongs to.
#[derive(Debug, Clone, Default)]
pub struct Organization {
    pub id: String,
    pub name: Option<String>,
}

/// What is known of the signed-in account.
#[derive(Debug, Clone, Default)]
pub struct KeikiSessionInfo {
    pub display_name: Option<String>,
    pub email: Option<String>,
    pub active_org_id: Option<String>,
    pub active_org_name: Option<String>,
    pub role: Option<String>,
    pub switchable_orgs: Vec<Organization>,
}

/// The first of two optional texts that is there.
pub open spec fn first_of(a: Option<Seq<char>>, b: Option<Seq<char>>) -> Option<Seq<char>> {
    if a is Some {
        a
    } else {
        b
    }
}

/// An optional text, or another in its place.
pub open spec fn text_or(a: Option<Seq<char>>, b: Seq<char>) -> Seq<char> {
    match a {
        Some(text) => text,
        None => b,
    }
}

/// The account's line, the line below it and what its menu is headed with.
pub open spec fn identity_of(status: SessionStatus, session: Option<KeikiSessionInfo>) -> (
    Seq<char>,
    Option<Seq<char>>,
    Seq<char>,
) {
    match status {
        SessionStatus::SignedIn => match session {
            Some(info) => (
                text_or(
                    first_of(optional(info.display_name), optional(info.email)),
                    "Keiki account"@,
                ),
                first_of(optional(info.active_org_name), optional(info.email)),
                text_or(optional(info.email), "Keiki account"@),
            ),
            None => ("Keiki account"@, None, "Keiki account"@),
        },
        SessionStatus::Loading => ("Signing in…"@, None, "Keiki account"@),
        _ => ("Not signed in"@, Some("Keiki"@), "Keiki account"@),
    }
}

fn first_text(a: &Option<String>, b: &Option<String>) -> (text: Option<String>)
    ensures
        optional(text) == first_of(optional(*a), optional(*b)),
{
    match a {
        Some(text) => Some(text.clone()),
        None => match b {
            Some(text) => Some(text.clone()),
            None => None,
        },
    }
}

fn text_or_else(a: Option<String>, b: &str) -> (text: String)
    ensures
        text@ == text_or(optional(a), b@),
{
    match a {
        Some(text) => text,
        None => b.to_owned(),
    }
}

/// The account's line, the line below it and what its menu is headed with.
pub fn account_identity(status: SessionStatus, session: Option<&KeikiSessionInfo>) -> (identity: (
    String,
    Option<String>,
    String,
))
    ensures
        (identity.0@, optional(identity.1), identity.2@) == identity_of(
            status,
            match session {
                Some(info) => Some(*info),
                None => None,
            },
        ),
{
    match status {
        SessionStatus::SignedIn => match session {
            Some(info) => {
                let line = text_or_else(
                    first_text(&info.display_name, &info.email),
                    "Keiki account",
                );
                let subline = first_text(&info.active_org_name, &info.email);
                let heading = text_or_else(info.email.clone(), "Keiki account");
                (line, subline, heading)
            },
            None => ("Keiki account".to_owned(), None, "Keiki account".to_owned()),
        },
        SessionStatus::Loading => ("Signing in…".to_owned(), None, "Keiki account".to_owned()),
        _ => (
            "Not signed in".to_owned(),
            Some("Keiki".to_owned()),
            "Keiki account".to_owned(),
        ),
    }
}

/// What a character becomes in capitals; a few become several characters.
pub uninterp spec fn capitals(c: char) -> Seq<char>;

/// `char::to_uppercase` of the standard library, collected into a string.
/// Claimed: the result depends on the character alone.
#[verifier::external_body]
fn to_capitals(c: char) -> (text: String)
    ensures
        text@ == capitals(c),
{
    c.to_uppercase().to_string()
}

/// The letter on the account's badge: the first of its line in capitals.
pub fn badge(line: &str) -> (letter: String)
    ensures
        letter@ == if line@.len() > 0 {
            capitals(line@[0])
        } else {
            "?"@
        },
{
    if line.unicode_len() > 0 {
        to_capitals(line.get_char(0))
    } else {
        "?".to_owned()
    }
}

/// One row of the account menu.
#[derive(Debug)]
pub enum AccountRow {
    /// The heading over the organizations.
    OrganizationHeading,
    /// An organization: `enabled` when choosing it switches to it, `dimmed`
    /// while a switch to another is under way, `switching` while to this one.
    Organization { id: String, label: String, active: bool, enabled: bool, dimmed: bool, switching: bool },
    /// The line below the organizations.
    OrganizationRule,
    SignOut,
    SignIn { caption: &'static str, enabled: bool },
    Error(String),
    Separator,
    Settings,
}

/// Whether `row` is the row of `org`, while `active` is the organization in
/// use and `switching` the one that is being switched to.
pub open spec fn organization_row(
    row: AccountRow,
    org: Organization,
    active: Option<Seq<char>>,
    switching: Option<Seq<char>>,
) -> bool {
    &&& row is Organization
    &&& row->id@ == org.id@
    &&& row->label@ == text_or(optional(org.name), org.id@)
    &&& row->active == (active == Some(org.id@))
    &&& row->switching == (switching == Some(org.id@))
    &&& row->Organization_enabled == (active != Some(org.id@) && switching is None)
    &&& row->dimmed == (switching is Some && switching != Some(org.id@))
}

/// Whether `rows` are those of the organizations: one each under a heading, and
/// none at all where there is nothing to switch to.
pub open spec fn lists_organizations(
    rows: Seq<AccountRow>,
    orgs: Seq<Organization>,
    active: Option<Seq<char>>,
    switching: Option<Seq<char>>,
) -> bool {
    if orgs.len() == 0 {
        rows.len() == 0
    } else {
        &&& rows.len() == orgs.len() + 2
        &&& rows[0] is OrganizationHeading
        &&& rows.last() is OrganizationRule
        &&& forall|i: int|
            0 <= i < orgs.len() ==> organization_row(
                #[trigger] rows[i + 1],
                orgs[i],
                active,
                switching,
            )
    }
}

/// The rows of the organizations.
pub fn organization_rows(
    orgs: &Vec<Organization>,
    active: &Option<String>,
    switching: &Option<String>,
) -> (rows: Vec<AccountRow>)
    ensures
        lists_organizations(rows@, orgs@, optional(*active), optional(*switching)),
{
    let mut rows: Vec<AccountRow> = Vec::new();
    if orgs.len() == 0 {
        return rows;
    }
    rows.push(AccountRow::OrganizationHeading);
    let mut i: usize = 0;
    while i < orgs.len()
        invariant
            i <= orgs@.len(),
            rows@.len() == i + 1,
            rows@[0] is OrganizationHeading,
            forall|j: int|
                1 <= j <= i ==> organization_row(
                    #[trigger] rows@[j],
                    orgs@[j - 1],
                    optional(*active),
                    optional(*switching),
                ),
        decreases orgs.len() - i,
    {
        let id = orgs[i].id.clone();
        let label = match &orgs[i].name {
            Some(name) => name.clone(),
            None => orgs[i].id.clone(),
        };
        let is_active = same_optional(active, id.as_str());
        let is_switching = same_optional(switching, id.as_str());
        let busy = switching.is_some();
        rows.push(
            AccountRow::Organization {
                id,
                label,
                active: is_active,
                enabled: !is_active && !busy,
                dimmed: busy && !is_switching,
                switching: is_switching,
            },
        );
        i += 1;
    }
    rows.push(AccountRow::OrganizationRule);
    assert forall|k: int| 0 <= k < orgs@.len() implies organization_row(
        #[trigger] rows@[k + 1],
        orgs@[k],
        optional(*active),
        optional(*switching),
    ) by {
        let j = k + 1;
        assert(organization_row(rows@[j], orgs@[j - 1], optional(*active), optional(*switching)));
    }
    rows
}

/// Whether `rows` are those below the organizations: signing out, or signing in
/// and why it failed, and then the settings.
pub open spec fn lists_account(
    rows: Seq<AccountRow>,
    status: SessionStatus,
    error: Option<Seq<char>>,
) -> bool {
    if status is SignedIn {
        &&& rows.len() == 3
        &&& rows[0] is SignOut
        &&& rows[1] is Separator
        &&& rows[2] is Settings
    } else {
        let shift: int = if error is Some {
            1
        } else {
            0
        };
        &&& rows.len() == 3 + shift
        &&& rows[0] is SignIn
        &&& rows[0]->SignIn_enabled == (status !is Loading)
        &&& rows[0]->caption@ == if status is Loading {
            "Opening Keiki…"@
        } else {
            "Sign in to Keiki"@
        }
        &&& error is Some ==> rows[1] is Error && rows[1]->Error_0@ == error->0
        &&& rows[1 + shift] is Separator
        &&& rows[2 + shift] is Settings
    }
}

/// The rows below the organizations.
pub fn account_rows(status: SessionStatus, error: &Option<String>) -> (rows: Vec<AccountRow>)
    ensures
        lists_account(rows@, status, optional(*error)),
{
    let mut rows: Vec<AccountRow> = Vec::new();
    match status {
        SessionStatus::SignedIn => {
            rows.push(AccountRow::SignOut);
        },
        _ => {
            let loading = matches!(status, SessionStatus::Loading);
            rows.push(
                AccountRow::SignIn {
                    caption: if loading {
                        "Opening Keiki…"
                    } else {
                        "Sign in to Keiki"
                    },
                    enabled: !loading,
                },
            );
            if let Some(words) = error {
                rows.push(AccountRow::Error(words.clone()));
            }
        },
    }
    rows.push(AccountRow::Separator);
    rows.push(AccountRow::Settings);
    rows
}

/// How many rows the organizations of an account take in its menu: none unless
/// it is signed in.
pub open spec fn organization_span(
    status: SessionStatus,
    session: Option<&KeikiSessionInfo>,
) -> int {
    if status is SignedIn && session is Some && session->0.switchable_orgs@.len() > 0 {
        session->0.switchable_orgs@.len() as int + 2
    } else {
        0
    }
}

/// The rows of the account menu: while the account is signed in its
/// organizations, and below them what can be done with the account.
pub fn user_menu_rows(
    status: SessionStatus,
    session: Option<&KeikiSessionInfo>,
    switching: &Option<String>,
    error: &Option<String>,
) -> (rows: Vec<AccountRow>)
    ensures
        ({
            let span = organization_span(status, session);
            &&& span <= rows@.len()
            &&& span > 0 ==> lists_organizations(
                rows@.take(span),
                session->0.switchable_orgs@,
                optional(session->0.active_org_id),
                optional(*switching),
            )
            &&& lists_account(rows@.skip(span), status, optional(*error))
        }),
{
    let mut below = account_rows(status, error);
    let mut rows: Vec<AccountRow> = Vec::new();
    if let SessionStatus::SignedIn = status {
        if let Some(held) = session {
            rows = organization_rows(&held.switchable_orgs, &held.active_org_id, switching);
        }
    }
    let ghost above = rows@;
    let ghost rest = below@;
    rows.append(&mut below);
    assert(rows@.take(above.len() as int) =~= above);
    assert(rows@.skip(above.len() as int) =~= rest);
    rows
}

/// What the empty main panel offers.
#[derive(Debug, Clone, Copy, PartialEq, Eq, Structural)]
pub enum EmptyStateVariant {
    SignIn,
    Loading,
    Ready,
}

/// What the empty main panel offers.
pub fn empty_state_variant(status: SessionStatus) -> (variant: EmptyStateVariant)
    ensures
        variant == match status {
            SessionStatus::Loading => EmptyStateVariant::Loading,
            SessionStatus::SignedIn => EmptyStateVariant::Ready,
            SessionStatus::SignedOut => EmptyStateVariant::SignIn,
            SessionStatus::Error => EmptyStateVariant::SignIn,
        },
{
    match status {
        SessionStatus::Loading => EmptyStateVariant::Loading,
        SessionStatus::SignedIn => EmptyStateVariant::Ready,
        SessionStatus::SignedOut | SessionStatus::Error => EmptyStateVariant::SignIn,
    }
}

/// What the button of the empty main panel says, where there is one.
pub fn empty_state_action_label(variant: EmptyStateVariant) -> (label: Option<&'static str>)
    ensures
        match variant {
            EmptyStateVariant::SignIn => label is Some && label->0@ == "Sign in to Keiki"@,
            EmptyStateVariant::Loading => label is Some && label->0@ == "Opening Keiki…"@,
            EmptyStateVariant::Ready => label is None,
        },
{
    match variant {
        EmptyStateVariant::SignIn => Some("Sign in to Keiki"),
        EmptyStateVariant::Loading => Some("Opening Keiki…"),
        EmptyStateVariant::Ready => None,
    }
}

/// Whether the menu of `chat_id` offers what is done to a conversation: it is
/// a cloud chat and the one on screen.
pub fn keiki_menu_is_selected(chat_id: &str, selected_chat: Option<&str>) -> (offered: bool)
    ensures
        offered == (cloud_chat(chat_id@) && selected_chat is Some && selected_chat->0@ == chat_id@),
{
    match selected_chat {
        Some(selected) => is_keiki_chat(chat_id) && same(selected, chat_id),
        None => false,
    }
}

/// Whether `id` is one of the cloud chats.
pub open spec fn live_cloud_chat(chats: Seq<Chat>, id: Seq<char>) -> bool {
    cloud_chat(id) && exists|i: int| 0 <= i < chats.len() && (#[trigger] chats[i]).id@ == id
}

/// Whether any chat is a cloud chat.
pub open spec fn has_cloud_chat(chats: Seq<Chat>) -> bool {
    exists|i: int| 0 <= i < chats.len() && cloud_chat((#[trigger] chats[i]).id@)
}

/// The pins that stay: those of chats that still exist. Before any cloud chat
/// is known, all of them.
pub open spec fn pruned(pinned: Seq<Seq<char>>, chats: Seq<Chat>) -> Seq<Seq<char>> {
    if has_cloud_chat(chats) {
        pinned.filter(|id: Seq<char>| live_cloud_chat(chats, id))
    } else {
        pinned
    }
}

fn is_live_cloud_chat(chats: &Vec<Chat>, id: &str) -> (live: bool)
    ensures
        live == live_cloud_chat(chats@, id@),
{
    if !is_keiki_chat(id) {
        return false;
    }
    let mut i: usize = 0;
    while i < chats.len()
        invariant
            i <= chats@.len(),
            cloud_chat(id@),
            forall|j: int| 0 <= j < i ==> (#[trigger] chats@[j]).id@ != id@,
        decreases chats.len() - i,
    {
        if same(chats[i].id.as_str(), id) {
            assert(chats@[i as int].id@ == id@);
            return true;
        }
        i += 1;
    }
    false
}

fn knows_cloud_chats(chats: &Vec<Chat>) -> (known: bool)
    ensures
        known == has_cloud_chat(chats@),
{
    let mut i: usize = 0;
    while i < chats.len()
        invariant
            i <= chats@.len(),
            forall|j: int| 0 <= j < i ==> !cloud_chat((#[trigger] chats@[j]).id@),
        decreases chats.len() - i,
    {
        if is_keiki_chat(chats[i].id.as_str()) {
            assert(cloud_chat(chats@[i as int].id@));
            return true;
        }
        i += 1;
    }
    false
}

/// Drops the pins of conversations that are gone. Before any conversation is
/// known nothing is dropped.
pub fn prune_pinned_keiki_conversations(pinned: &mut Vec<String>, chats: &Vec<Chat>)
    ensures
        texts(final(pinned)@) == pruned(texts(old(pinned)@), chats@),
{
    if !knows_cloud_chats(chats) {
        return;
    }
    let ghost before = texts(pinned@);
    let mut kept: Vec<String> = Vec::new();
    let mut i: usize = 0;
    let ghost live = |id: Seq<char>| live_cloud_chat(chats@, id);
    assert(before.take(0).filter(live) =~= Seq::<Seq<char>>::empty()) by {
        reveal(Seq::filter);
    }
    assert(texts(kept@) =~= Seq::<Seq<char>>::empty());
    while i < pinned.len()
        invariant
            i <= pinned@.len(),
            before == texts(pinned@),
            live == (|id: Seq<char>| live_cloud_chat(chats@, id)),
            texts(kept@) == before.take(i as int).filter(live),
        decreases pinned.len() - i,
    {
        let ghost held = texts(kept@);
        let id = pinned[i].clone();
        assert(before[i as int] == id@);
        proof {
            reveal(Seq::filter);
            assert(before.take(i + 1).drop_last() =~= before.take(i as int));
        }
        if is_live_cloud_chat(chats, id.as_str()) {
            kept.push(id);
            assert(texts(kept@) =~= held.push(id@));
        }
        i += 1;
    }
    assert(before.take(i as int) =~= before);
    *pinned = kept;
}

/// Where `id` stands first in `pinned`, or the number of pins.
pub open spec fn pin_of(pinned: Seq<Seq<char>>, id: Seq<char>) -> int
    decreases pinned.len(),
{
    if pinned.len() == 0 || pinned[0] == id {
        0
    } else {
        1 + pin_of(pinned.skip(1), id)
    }
}

/// The pins after the one of `id` was flipped.
pub open spec fn pin_flipped(pinned: Seq<Seq<char>>, id: Seq<char>) -> Seq<Seq<char>> {
    let at = pin_of(pinned, id);
    if at < pinned.len() {
        pinned.remove(at)
    } else {
        pinned.push(id)
    }
}

/// Pins a conversation, or takes its pin away, after the pins of gone ones
/// were dropped. Only conversations are pinned: for another chat nothing
/// happens. Says whether the pins are to be saved.
pub fn toggle_keiki_conversation_pin(pinned: &mut Vec<String>, chats: &Vec<Chat>, chat_id: &str) -> (changed:
    bool)
    ensures
        changed == cloud_chat(chat_id@),
        !changed ==> *final(pinned) == *old(pinned),
        changed ==> texts(final(pinned)@) == pin_flipped(
            pruned(texts(old(pinned)@), chats@),
            chat_id@,
        ),
{
    if !is_keiki_chat(chat_id) {
        return false;
    }
    prune_pinned_keiki_conversations(pinned, chats);
    let ghost before = texts(pinned@);
    let mut i: usize = 0;
    assert(before.skip(0) =~= before);
    while i < pinned.len()
        invariant
            i <= pinned@.len(),
            before == texts(pinned@),
            before == pruned(texts(old(pinned)@), chats@),
            cloud_chat(chat_id@),
            pin_of(before, chat_id@) == i + pin_of(before.skip(i as int), chat_id@),
        decreases pinned.len() - i,
    {
        assert(before.skip(i as int).skip(1) =~= before.skip(i + 1));
        assert(before[i as int] == pinned@[i as int]@);
        if same(pinned[i].as_str(), chat_id) {
            pinned.remove(i);
            assert(texts(pinned@) =~= before.remove(i as int));
            return true;
        }
        i += 1;
    }
    pinned.push(chat_id.to_owned());
    assert(texts(pinned@) =~= before.push(chat_id@));
    true
}

/// A pin that was set is taken away by the next flip, and one that was taken
/// away once is gone when it was there once.
pub proof fn law_pins_flip(pinned: Seq<Seq<char>>, id: Seq<char>)
    ensures
        !pinned.contains(id) ==> pin_flipped(pin_flipped(pinned, id), id) == pinned,
        pinned.contains(id) && pinned.no_duplicates() ==> !pin_flipped(pinned, id).contains(id),
{
    lemma_pin_of(pinned, id);
    let at = pin_of(pinned, id);
    if !pinned.contains(id) {
        let set = pinned.push(id);
        lemma_pin_of(set, id);
        let again = pin_of(set, id);
        if again < pinned.len() {
            assert(pinned[again] == id);
            assert(pinned.contains(id));
        }
        assert(set[pinned.len() as int] == id);
        assert(again == pinned.len());
        assert(set.remove(again) =~= pinned);
    } else if pinned.no_duplicates() {
        let i = choose|i: int| 0 <= i < pinned.len() && pinned[i] == id;
        let rest = pinned.remove(at);
        if rest.contains(id) {
            let j = choose|j: int| 0 <= j < rest.len() && rest[j] == id;
            let k = if j < at {
                j
            } else {
                j + 1
            };
            assert(pinned[k] == id && pinned[at] == id && k != at);
        }
    }
}

proof fn lemma_pin_of(pinned: Seq<Seq<char>>, id: Seq<char>)
    ensures
        0 <= pin_of(pinned, id) <= pinned.len(),
        pin_of(pinned, id) < pinned.len() ==> pinned[pin_of(pinned, id)] == id,
        forall|j: int| 0 <= j < pin_of(pinned, id) ==> pinned[j] != id,
        pinned.contains(id) ==> pin_of(pinned, id) < pinned.len(),
    decreases pinned.len(),
{
    if pinned.len() > 0 && pinned[0] != id {
        let rest = pinned.skip(1);
        lemma_pin_of(rest, id);
        assert forall|j: int| 0 <= j < pin_of(pinned, id) implies pinned[j] != id by {
            if j > 0 {
                assert(rest[j - 1] == pinned[j]);
            }
        }
        if pinned.contains(id) {
            let i = choose|i: int| 0 <= i < pinned.len() && pinned[i] == id;
            assert(rest[i - 1] == id);
        }
    }
}

/// Pruning the pins a second time drops nothing more.
pub proof fn law_pruning_settles(pinned: Seq<Seq<char>>, chats: Seq<Chat>)
    ensures
        pruned(pruned(pinned, chats), chats) == pruned(pinned, chats),
{
    if has_cloud_chat(chats) {
        let live = |id: Seq<char>| live_cloud_chat(chats, id);
        lemma_filter_twice(pinned, live);
        assert(pruned(pinned, chats) == pinned.filter(live)) by {
            assert(live =~= (|id: Seq<char>| live_cloud_chat(chats, id)));
        }
    }
}

proof fn lemma_filter_twice(s: Seq<Seq<char>>, keep: spec_fn(Seq<char>) -> bool)
    ensures
        s.filter(keep).filter(keep) == s.filter(keep),
    decreases s.len(),
{
    reveal(Seq::filter);
    if s.len() > 0 {
        let front = s.drop_last();
        lemma_filter_twice(front, keep);
        if keep(s.last()) {
            let once = front.filter(keep).push(s.last());
            assert(once.drop_last() =~= front.filter(keep));
        }
    }
}

/// The glyph beside a row's status.
#[derive(Debug, Clone, Copy, PartialEq, Eq, Structural)]
pub enum RowGlyph {
    Check,
    Spinner,
    Dot,
}

/// The colour of a row's status.
#[derive(Debug, Clone, Copy, PartialEq, Eq, Structural)]
pub enum RowTone {
    Danger,
    Indicator(ChatIndicator),
}

/// What the corner of a session row holds.
#[derive(Debug)]
pub enum RowCorner {
    /// The key that opens the row.
    Jump(String),
    /// The button that archives the row, or takes it out of the archive.
    Archive(&'static str),
    /// A glyph and a word.
    Status { glyph: RowGlyph, label: &'static str },
    /// A glyph alone.
    Glyph(RowGlyph),
    /// How long ago the session was last active.
    Time(String),
}

/// What is known of a session row.
#[derive(Debug)]
pub struct RowState {
    pub id: String,
    pub time_ago: String,
    pub has_branch: bool,
    pub has_change_request: bool,
    pub has_harness: bool,
    pub status: ChatIndicator,
    pub archived: bool,
    pub undelivered: bool,
    pub hovered: bool,
    pub jump_label: Option<String>,
}

/// How a session row is drawn.
#[derive(Debug)]
pub struct ChatRow {
    pub avatar: Option<(String, AvatarState)>,
    pub shows_harness: bool,
    pub tone: RowTone,
    pub corner: RowCorner,
    pub corner_archives: bool,
    pub shows_metadata: bool,
    pub height: u32,
}

/// The word that stands for a row's status.
pub open spec fn status_word(row: RowState) -> Option<Seq<char>> {
    if row.undelivered {
        Some("Failed"@)
    } else {
        match row.status {
            ChatIndicator::Working => Some("Working"@),
            ChatIndicator::AwaitingInput => Some("Input"@),
            ChatIndicator::Errored => Some("Failed"@),
            ChatIndicator::Completed => None,
            ChatIndicator::Idle => None,
        }
    }
}

/// The glyph that stands for a row's status: a message that was not delivered
/// is not being worked on.
pub open spec fn status_glyph(row: RowState) -> RowGlyph {
    if row.status is Completed {
        RowGlyph::Check
    } else if row.status is Working && !row.undelivered {
        RowGlyph::Spinner
    } else {
        RowGlyph::Dot
    }
}

/// Whether `corner` is what the corner of `row` holds: the jump key before the
/// archive button, that before the status, and the time for want of a status.
pub open spec fn corner_of(corner: RowCorner, row: RowState) -> bool {
    if row.jump_label is Some {
        corner is Jump && corner->Jump_0@ == row.jump_label->0@
    } else if row.hovered {
        corner is Archive && corner->Archive_0@ == if row.archived {
            "Unarchive"@
        } else {
            "Archive"@
        }
    } else if status_word(row) is Some {
        corner is Status && corner->Status_label@ == status_word(row)->0 && corner->Status_glyph
            == status_glyph(row)
    } else if row.status is Completed {
        corner == RowCorner::Glyph(RowGlyph::Check)
    } else {
        corner is Time && corner->Time_0@ == row.time_ago@
    }
}

/// The height of a session row in pixels: a line more for its branch or its
/// pull request.
pub open spec fn row_height(shows_branch: bool, shows_pull_request: bool) -> u32 {
    if shows_pull_request {
        63
    } else if shows_branch {
        61
    } else {
        45
    }
}

/// The height of a session row in pixels: a line more for its branch or its
/// pull request, as tall as the taller of the two.
pub fn chat_row_height(shows_branch: bool, shows_pull_request: bool) -> (pixels: u32)
    ensures
        pixels == row_height(shows_branch, shows_pull_request),
{
    let branch: u32 = if shows_branch {
        14
    } else {
        0
    };
    let metadata: u32 = if shows_pull_request {
        16
    } else {
        branch
    };
    if metadata == 0 {
        45
    } else {
        47 + metadata
    }
}

/// How a session row is drawn. A cloud chat shows its agent's avatar in place
/// of the harness.
pub fn chat_row(row: &RowState) -> (drawn: ChatRow)
    ensures
        match located(row.id@) {
            Some((agent, _)) => drawn.avatar is Some && (drawn.avatar->0).0@ == agent && (
            drawn.avatar->0).1 == expression(row.status),
            None => drawn.avatar is None,
        },
        drawn.shows_harness == (located(row.id@) is None && row.has_harness),
        drawn.tone == if row.undelivered {
            RowTone::Danger
        } else {
            RowTone::Indicator(row.status)
        },
        corner_of(drawn.corner, *row),
        drawn.corner_archives == row.hovered,
        drawn.shows_metadata == (row.has_branch || row.has_change_request),
        drawn.height == row_height(row.has_branch, row.has_change_request),
{
    let avatar = match conversation_locator(row.id.as_str()) {
        Some(locator) => match locator.agent_id {
            Some(agent) => Some((agent, avatar_state(row.status))),
            None => None,
        },
        None => None,
    };
    let shows_harness = avatar.is_none() && row.has_harness;
    let tone = if row.undelivered {
        RowTone::Danger
    } else {
        RowTone::Indicator(row.status)
    };
    let corner = match &row.jump_label {
        Some(label) => RowCorner::Jump(label.clone()),
        None => {
            if row.hovered {
                RowCorner::Archive(
                    if row.archived {
                        "Unarchive"
                    } else {
                        "Archive"
                    },
                )
            } else {
                settled_corner(row)
            }
        },
    };
    ChatRow {
        avatar,
        shows_harness,
        tone,
        corner,
        corner_archives: row.hovered,
        shows_metadata: row.has_branch || row.has_change_request,
        height: chat_row_height(row.has_branch, row.has_change_request),
    }
}

/// The corner of a row that neither a key nor the pointer is on.
fn settled_corner(row: &RowState) -> (corner: RowCorner)
    requires
        row.jump_label is None,
        !row.hovered,
    ensures
        corner_of(corner, *row),
{
    let glyph = match row.status {
        ChatIndicator::Completed => RowGlyph::Check,
        ChatIndicator::Working => {
            if row.undelivered {
                RowGlyph::Dot
            } else {
                RowGlyph::Spinner
            }
        },
        _ => RowGlyph::Dot,
    };
    if row.undelivered {
        return RowCorner::Status { glyph, label: "Failed" };
    }
    match row.status {
        ChatIndicator::Working => RowCorner::Status { glyph, label: "Working" },
        ChatIndicator::AwaitingInput => RowCorner::Status { glyph, label: "Input" },
        ChatIndicator::Errored => RowCorner::Status { glyph, label: "Failed" },
        ChatIndicator::Completed => RowCorner::Glyph(glyph),
        ChatIndicator::Idle => RowCorner::Time(row.time_ago.clone()),
    }
}

/// The row whose corner offers the archive button, after the pointer entered
/// or left the row `id`. Says whether anything changed.
pub fn row_hovered(hovered: &mut Option<String>, id: &str, entered: bool) -> (changed: bool)
    ensures
        optional(*final(hovered)) == if entered {
            Some(id@)
        } else if optional(*old(hovered)) == Some(id@) {
            None
        } else {
            optional(*old(hovered))
        },
        changed == (optional(*final(hovered)) != optional(*old(hovered))),
{
    let held = same_optional(hovered, id);
    if entered {
        if held {
            false
        } else {
            *hovered = Some(id.to_owned());
            true
        }
    } else if held {
        *hovered = None;
        true
    } else {
        false
    }
}

/// Whether the keys of two lists differ or stand in another order. The height
/// of a row plays no part.
pub fn sidebar_key_order_changed(old_keys: &Vec<String>, new_keys: &Vec<String>) -> (changed: bool)
    ensures
        changed == (texts(old_keys@) != texts(new_keys@)),
{
    let ghost before = texts(old_keys@);
    let ghost after = texts(new_keys@);
    if old_keys.len() != new_keys.len() {
        assert(before.len() != after.len());
        return true;
    }
    let mut i: usize = 0;
    while i < old_keys.len()
        invariant
            i <= old_keys@.len(),
            old_keys@.len() == new_keys@.len(),
            before == texts(old_keys@),
            after == texts(new_keys@),
            forall|j: int| 0 <= j < i ==> before[j] == after[j],
        decreases old_keys.len() - i,
    {
        assert(before[i as int] == old_keys@[i as int]@);
        assert(after[i as int] == new_keys@[i as int]@);
        if !same(old_keys[i].as_str(), new_keys[i].as_str()) {
            return true;
        }
        i += 1;
    }
    assert(before =~= after);
    false
}

/// The keys that were not there before.
pub open spec fn fresh_keys(before: Seq<String>, after: Seq<Seq<char>>) -> Seq<Seq<char>> {
    after.filter(|key: Seq<char>| !listed(before, key))
}

/// How the session list moves from one order to the next: which rows fade in,
/// and whether the list is animated at all.
#[derive(Debug)]
pub struct Resort {
    pub animates: bool,
    pub fresh: Vec<String>,
}

/// How the session list moves from one order to the next. `moves` says that
/// some row that stays changes its place on screen. The first order that is
/// drawn is never animated.
pub fn resort(old_keys: &Vec<String>, new_keys: &Vec<String>, moves: bool) -> (plan: Resort)
    ensures
        texts(plan.fresh@) == fresh_keys(old_keys@, texts(new_keys@)),
        plan.animates == (old_keys@.len() > 0 && texts(old_keys@) != texts(new_keys@) && (moves
            || plan.fresh@.len() > 0)),
{
    let ghost after = texts(new_keys@);
    let ghost is_fresh = |key: Seq<char>| !listed(old_keys@, key);
    let mut fresh: Vec<String> = Vec::new();
    let mut i: usize = 0;
    assert(after.take(0).filter(is_fresh) =~= Seq::<Seq<char>>::empty()) by {
        reveal(Seq::filter);
    }
    assert(texts(fresh@) =~= Seq::<Seq<char>>::empty());
    while i < new_keys.len()
        invariant
            i <= new_keys@.len(),
            after == texts(new_keys@),
            is_fresh == (|key: Seq<char>| !listed(old_keys@, key)),
            texts(fresh@) == after.take(i as int).filter(is_fresh),
        decreases new_keys.len() - i,
    {
        let ghost held = texts(fresh@);
        let key = new_keys[i].clone();
        assert(after[i as int] == key@);
        proof {
            reveal(Seq::filter);
            assert(after.take(i + 1).drop_last() =~= after.take(i as int));
        }
        if !contains(old_keys, key.as_str()) {
            fresh.push(key);
            assert(texts(fresh@) =~= held.push(key@));
        }
        i += 1;
    }
    assert(after.take(i as int) =~= after);
    let changed = sidebar_key_order_changed(old_keys, new_keys);
    Resort { animates: old_keys.len() > 0 && changed && (moves || fresh.len() > 0), fresh }
}

/// A row of a chat's context menu.
#[derive(Debug, Clone, Copy, PartialEq, Eq, Structural)]
pub enum ChatMenuRow {
    Rename,
    Archive,
    Separator,
    /// `dimmed` while the conversation waits for a block to change.
    Block { dimmed: bool },
    Unblock { dimmed: bool },
    Pin { pinned: bool },
    ViewConversation,
    Copy,
    Delete,
    Back,
    CopySessionId,
}

/// The rows that act on the conversation: none unless the menu's chat is the
/// cloud chat on screen.
pub open spec fn action_rows(offered: bool, conversation: Option<KeikiConversation>) -> Seq<
    ChatMenuRow,
> {
    if !offered {
        Seq::empty()
    } else {
        let dimmed = conversation is Some && conversation->0.pending == Some(
            KeikiConversationPending::Block,
        );
        let blocked = conversation is Some && conversation->0.blocked;
        seq![
            ChatMenuRow::Separator,
            if blocked {
                ChatMenuRow::Unblock { dimmed }
            } else {
                ChatMenuRow::Block { dimmed }
            },
        ]
    }
}

/// The rows of a chat's menu.
pub open spec fn root_rows(
    offered: bool,
    conversation: Option<KeikiConversation>,
    cloud: bool,
    pinned: bool,
) -> Seq<ChatMenuRow> {
    seq![ChatMenuRow::Rename, ChatMenuRow::Archive] + action_rows(offered, conversation) + (
    if cloud {
        seq![ChatMenuRow::Pin { pinned }, ChatMenuRow::ViewConversation]
    } else {
        Seq::empty()
    }) + seq![ChatMenuRow::Copy, ChatMenuRow::Separator, ChatMenuRow::Delete]
}

/// The rows of the context menu of `chat_id`.
pub fn chat_menu_rows(
    chat_id: &str,
    selected_chat: Option<&str>,
    conversation: &Option<KeikiConversation>,
    pinned: &Vec<String>,
) -> (rows: Vec<ChatMenuRow>)
    ensures
        rows@ == root_rows(
            cloud_chat(chat_id@) && selected_chat is Some && selected_chat->0@ == chat_id@,
            *conversation,
            cloud_chat(chat_id@),
            listed(pinned@, chat_id@),
        ),
{
    let mut rows: Vec<ChatMenuRow> = Vec::new();
    rows.push(ChatMenuRow::Rename);
    rows.push(ChatMenuRow::Archive);
    if keiki_menu_is_selected(chat_id, selected_chat) {
        let (dimmed, blocked) = match conversation {
            Some(held) => {
                let waits = match held.pending {
                    Some(KeikiConversationPending::Block) => true,
                    _ => false,
                };
                (waits, held.blocked)
            },
            None => (false, false),
        };
        rows.push(ChatMenuRow::Separator);
        if blocked {
            rows.push(ChatMenuRow::Unblock { dimmed });
        } else {
            rows.push(ChatMenuRow::Block { dimmed });
        }
    }
    if is_keiki_chat(chat_id) {
        rows.push(ChatMenuRow::Pin { pinned: contains(pinned, chat_id) });
        rows.push(ChatMenuRow::ViewConversation);
    }
    rows.push(ChatMenuRow::Copy);
    rows.push(ChatMenuRow::Separator);
    rows.push(ChatMenuRow::Delete);
    assert(rows@ =~= root_rows(
        cloud_chat(chat_id@) && selected_chat is Some && selected_chat->0@ == chat_id@,
        *conversation,
        cloud_chat(chat_id@),
        listed(pinned@, chat_id@),
    ));
    rows
}

/// Whether a click on a block row of `chat_id` is carried out: the
/// conversation does not wait for a block already, and it is still on screen.
pub fn block_row_acts(
    chat_id: &str,
    selected_chat: &Option<String>,
    pending: Option<KeikiConversationPending>,
) -> (acts: bool)
    ensures
        acts == (pending != Some(KeikiConversationPending::Block) && optional(*selected_chat)
            == Some(chat_id@)),
{
    match pending {
        Some(KeikiConversationPending::Block) => false,
        _ => same_optional(selected_chat, chat_id),
    }
}

/// Where the chat `id` stands first, or the number of chats.
pub open spec fn chat_at(chats: Seq<Chat>, id: Seq<char>) -> int
    decreases chats.len(),
{
    if chats.len() == 0 || chats[0].id@ == id {
        0
    } else {
        1 + chat_at(chats.skip(1), id)
    }
}

/// The chat `id`, if it is listed.
pub fn find_chat<'a>(chats: &'a Vec<Chat>, id: &str) -> (chat: Option<&'a Chat>)
    ensures
        match chat {
            Some(found) => chat_at(chats@, id@) < chats@.len() && *found == chats@[chat_at(
                chats@,
                id@,
            )],
            None => chat_at(chats@, id@) == chats@.len(),
        },
{
    let mut i: usize = 0;
    assert(chats@.skip(0) =~= chats@);
    while i < chats.len()
        invariant
            i <= chats@.len(),
            chat_at(chats@, id@) == i + chat_at(chats@.skip(i as int), id@),
        decreases chats.len() - i,
    {
        assert(chats@.skip(i as int).skip(1) =~= chats@.skip(i + 1));
        if same(chats[i].id.as_str(), id) {
            return Some(&chats[i]);
        }
        i += 1;
    }
    None
}

/// The id that the harness knows the chat by, unless it is blank.
pub open spec fn session_id_of(chats: Seq<Chat>, id: Seq<char>) -> Option<Seq<char>> {
    if chat_at(chats, id) < chats.len() {
        match chats[chat_at(chats, id)].harness_session_id {
            Some(held) => if trimmed(held@).len() > 0 {
                Some(held@)
            } else {
                None
            },
            None => None,
        }
    } else {
        None
    }
}

/// The id that the harness knows the chat by, unless it is blank: what the
/// copy menu offers.
pub fn copyable_session_id(chats: &Vec<Chat>, id: &str) -> (session_id: Option<String>)
    ensures
        optional(session_id) == session_id_of(chats@, id@),
{
    match find_chat(chats, id) {
        Some(chat) => match &chat.harness_session_id {
            Some(held) => {
                if trim(held.as_str()).is_empty() {
                    None
                } else {
                    Some(held.clone())
                }
            },
            None => None,
        },
        None => None,
    }
}

/// The rows of the copy page of the context menu of `chat_id`.
pub fn copy_menu_rows(chats: &Vec<Chat>, chat_id: &str) -> (rows: Vec<ChatMenuRow>)
    ensures
        rows@ == seq![ChatMenuRow::Back, ChatMenuRow::Separator] + if session_id_of(
            chats@,
            chat_id@,
        ) is Some {
            seq![ChatMenuRow::CopySessionId]
        } else {
            Seq::empty()
        },
{
    let mut rows: Vec<ChatMenuRow> = Vec::new();
    rows.push(ChatMenuRow::Back);
    rows.push(ChatMenuRow::Separator);
    if copyable_session_id(chats, chat_id).is_some() {
        rows.push(ChatMenuRow::CopySessionId);
    }
    assert(rows@ =~= seq![ChatMenuRow::Back, ChatMenuRow::Separator] + if session_id_of(
        chats@,
        chat_id@,
    ) is Some {
        seq![ChatMenuRow::CopySessionId]
    } else {
        Seq::empty()
    });
    rows
}

/// What copying the id that the harness knows a chat by puts on the clipboard,
/// and what the sidebar says then. There is nothing to copy where it is blank.
pub fn copy_harness_session_id(chats: &Vec<Chat>, chat_id: &str) -> (copied: Option<
    (String, &'static str),
>)
    ensures
        copied is Some == session_id_of(chats@, chat_id@) is Some,
        copied is Some ==> {
            &&& (copied->0).0@ == session_id_of(chats@, chat_id@)->0
            &&& (copied->0).1@ == "Harness session ID copied"@
        },
{
    match copyable_session_id(chats, chat_id) {
        Some(id) => Some((id, "Harness session ID copied")),
        None => None,
    }
}

/// The conversation whose page is asked for, where there is a service to ask.
pub fn viewed_conversation(has_client: bool, chat_id: &str) -> (locator: Option<
    ConversationLocator,
>)
    ensures
        locator is Some == (has_client && located(chat_id@) is Some),
        locator is Some ==> {
            &&& optional(locator->0.agent_id) == Some((located(chat_id@)->0).0)
            &&& locator->0.identity@ == (located(chat_id@)->0).1
            &&& locator->0.api_key is None
        },
{
    if has_client {
        conversation_locator(chat_id)
    } else {
        None
    }
}

/// What looking at a conversation on the web does: its page is opened, or the
/// sidebar says why not.
pub fn view_keiki_conversation(page: Option<String>) -> (opened: Result<String, &'static str>)
    ensures
        match page {
            Some(url) => opened is Ok && opened->Ok_0 == url,
            None => opened is Err && opened->Err_0@ == "Keiki conversation is not ready yet"@,
        },
{
    match page {
        Some(url) => Ok(url),
        None => Err("Keiki conversation is not ready yet"),
    }
}

/// What the sidebar says of a change that the engine was asked to make; `reply`
/// is absent where there is no engine. Of a change that was made it says
/// nothing.
pub fn mutation_notice(reply: Option<Result<(), String>>) -> (notice: Option<String>)
    ensures
        optional(notice) == match reply {
            None => Some("Engine not connected"@),
            Some(Err(error)) => Some(error@),
            Some(Ok(_)) => None,
        },
{
    match reply {
        None => Some("Engine not connected".to_owned()),
        Some(Err(error)) => Some(error),
        Some(Ok(())) => None,
    }
}

/// The title of the chat `id`: its own, or `fallback`.
pub fn chat_title(chats: &Vec<Chat>, id: &str, fallback: &str) -> (title: String)
    ensures
        title@ == if chat_at(chats@, id@) < chats@.len() {
            text_or(optional(chats@[chat_at(chats@, id@)].title), fallback@)
        } else {
            fallback@
        },
{
    match find_chat(chats, id) {
        Some(chat) => match &chat.title {
            Some(title) => title.clone(),
            None => fallback.to_owned(),
        },
        None => fallback.to_owned(),
    }
}

/// What the dialog says before a session is deleted.
pub fn delete_warning(title: &str) -> (body: String)
    ensures
        body@ == "“"@ + title@ + "” will be permanently deleted. This can’t be undone."@,
{
    concat3("“", title, "” will be permanently deleted. This can’t be undone.")
}

/// A change to a session that the engine is asked to make.
#[derive(Debug, PartialEq, Eq)]
pub enum Mutation {
    RenameChat { chat_id: String, title: String },
    SetChatArchived { chat_id: String, archived: bool },
    DeleteChat { chat_id: String },
}

/// The renaming that a submitted title asks for: none when it is blank.
pub fn rename_mutation(chat_id: String, typed: &str) -> (mutation: Option<Mutation>)
    ensures
        mutation is Some == (trimmed(typed@).len() > 0),
        mutation is Some ==> {
            &&& mutation->0 is RenameChat
            &&& mutation->0->RenameChat_chat_id@ == chat_id@
            &&& mutation->0->title@ == trimmed(typed@)
        },
{
    let title = trim(typed);
    if title.is_empty() {
        None
    } else {
        Some(Mutation::RenameChat { chat_id, title: title.to_owned() })
    }
}

/// The change that puts a chat away, or brings it back.
pub fn set_chat_archived(chat_id: String, archived: bool) -> (mutation: Mutation)
    ensures
        mutation == (Mutation::SetChatArchived { chat_id, archived }),
{
    Mutation::SetChatArchived { chat_id, archived }
}

/// The change that the archive shortcut asks for: none without a chat on screen
/// that can be archived. The shortcut archives, it never brings a chat back.
pub fn archive_selected_chat(archivable: &Option<String>) -> (mutation: Option<Mutation>)
    ensures
        mutation is Some == archivable is Some,
        mutation is Some ==> {
            &&& mutation->0 is SetChatArchived
            &&& mutation->0->SetChatArchived_chat_id@ == archivable->0@
            &&& mutation->0->archived
        },
{
    match archivable {
        Some(chat_id) => Some(set_chat_archived(chat_id.clone(), true)),
        None => None,
    }
}

/// The members of the call that asks the engine for a change.
pub open spec fn mutation_members(mutation: Mutation) -> Map<Seq<char>, Member> {
    match mutation {
        Mutation::RenameChat { chat_id, title } => no_members().insert(
            "op"@,
            Member::Text("renameChat"@),
        ).insert("chatId"@, Member::Text(chat_id@)).insert("title"@, Member::Text(title@)),
        Mutation::SetChatArchived { chat_id, archived } => no_members().insert(
            "op"@,
            Member::Text("setChatArchived"@),
        ).insert("chatId"@, Member::Text(chat_id@)).insert("archived"@, Member::Flag(archived)),
        Mutation::DeleteChat { chat_id } => no_members().insert(
            "op"@,
            Member::Text("deleteChat"@),
        ).insert("chatId"@, Member::Text(chat_id@)),
    }
}

/// The parameters of the call that asks the engine for a change.
pub fn mutation_params(mutation: &Mutation) -> (params: serde_json::Value)
    ensures
        is_object(params),
        members(params) == mutation_members(*mutation),
{
    match mutation {
        Mutation::RenameChat { chat_id, title } => {
            let params = set_text(new_object(), "op", "renameChat");
            let params = set_text(params, "chatId", chat_id.as_str());
            set_text(params, "title", title.as_str())
        },
        Mutation::SetChatArchived { chat_id, archived } => {
            let params = set_text(new_object(), "op", "setChatArchived");
            let params = set_text(params, "chatId", chat_id.as_str());
            set_flag(params, "archived", *archived)
        },
        Mutation::DeleteChat { chat_id } => {
            let params = set_text(new_object(), "op", "deleteChat");
            set_text(params, "chatId", chat_id.as_str())
        },
    }
}

/// What deleting a chat does: the engine is asked to delete it, and the
/// selection is given up when it is the chat on screen.
pub fn delete_chat(chat_id: String, selected_chat: &Option<String>) -> (plan: (bool, Mutation))
    ensures
        plan.0 == (optional(*selected_chat) == Some(chat_id@)),
        plan.1 is DeleteChat,
        plan.1->DeleteChat_chat_id@ == chat_id@,
{
    let deselects = same_optional(selected_chat, chat_id.as_str());
    (deselects, Mutation::DeleteChat { chat_id })
}

/// What the strip above the composer shows.
#[derive(Debug, Clone, Copy, PartialEq, Eq, Structural)]
pub enum StatusStrip {
    Empty,
    RunFailed,
    Sending,
}

/// What a session is doing.
#[derive(Debug, Clone, Copy, PartialEq, Eq, Structural)]
pub enum Indicator {
    Working,
    AwaitingInput,
    Errored,
    Quiet,
}

/// What the strip above the composer shows: the working and the waiting show
/// elsewhere, and nothing shows while no chat is selected.
pub fn status_strip(has_selection: bool, indicator: Indicator, sending: bool) -> (strip: StatusStrip)
    ensures
        strip == if !has_selection {
            StatusStrip::Empty
        } else if indicator is Errored {
            StatusStrip::RunFailed
        } else if indicator is Quiet && sending {
            StatusStrip::Sending
        } else {
            StatusStrip::Empty
        },
{
    if !has_selection {
        return StatusStrip::Empty;
    }
    match indicator {
        Indicator::Working | Indicator::AwaitingInput => StatusStrip::Empty,
        Indicator::Errored => StatusStrip::RunFailed,
        Indicator::Quiet => {
            if sending {
                StatusStrip::Sending
            } else {
                StatusStrip::Empty
            }
        },
    }
}

/// A signed-in account goes by its display name, else by its address; under it
/// stands the organization, else the address. Nobody is named while the account
/// is not signed in.
pub proof fn law_an_account_goes_by_its_name(status: SessionStatus, info: KeikiSessionInfo)
    ensures
        ({
            let shown = identity_of(SessionStatus::SignedIn, Some(info));
            &&& info.display_name is Some ==> shown.0 == info.display_name->0@
            &&& info.display_name is None && info.email is Some ==> shown.0 == info.email->0@
            &&& info.display_name is None && info.email is None ==> shown.0 == "Keiki account"@
            &&& info.active_org_name is Some ==> shown.1 == Some(info.active_org_name->0@)
            &&& info.active_org_name is None ==> shown.1 == optional(info.email)
            &&& info.email is Some ==> shown.2 == info.email->0@
            &&& info.email is None ==> shown.2 == "Keiki account"@
        }),
        status is Loading ==> identity_of(status, Some(info)).0 == "Signing in…"@,
        status is SignedOut || status is Error ==> identity_of(status, Some(info)).0
            == "Not signed in"@,
        identity_of(SessionStatus::SignedIn, None).0 == "Keiki account"@,
{
}

/// One can switch to every organization but the active one, and to none while a
/// switch is under way; meanwhile all but the one that is switched to are
/// dimmed. An organization without a name goes by its id.
pub proof fn law_one_organization_is_switched_to_at_a_time(
    row: AccountRow,
    org: Organization,
    active: Option<Seq<char>>,
    switching: Option<Seq<char>>,
)
    requires
        organization_row(row, org, active, switching),
    ensures
        row->id@ == org.id@,
        org.name is Some ==> row->label@ == org.name->0@,
        org.name is None ==> row->label@ == org.id@,
        row->active == (active is Some && active->0 == org.id@),
        row->active ==> !row->Organization_enabled,
        switching is Some ==> !row->Organization_enabled,
        switching is None && !row->active ==> row->Organization_enabled && !row->dimmed,
        row->switching == (switching is Some && switching->0 == org.id@),
        row->dimmed == (switching is Some && switching->0 != org.id@),
{
}

/// A signed-in account can be signed out, and any other can be signed in unless
/// that is under way; an error is shown only where one can sign in. The
/// settings are always the last row.
pub proof fn law_an_account_can_be_signed_in_or_out(
    rows: Seq<AccountRow>,
    status: SessionStatus,
    error: Option<Seq<char>>,
)
    requires
        lists_account(rows, status, error),
    ensures
        rows.last() is Settings,
        status is SignedIn == rows[0] is SignOut,
        !(status is SignedIn) ==> rows[0] is SignIn && rows[0]->SignIn_enabled == !(
        status is Loading),
        !(status is SignedIn) && error is Some ==> rows[1] is Error && rows[1]->Error_0@ == error->0,
        status is SignedIn || error is None ==> rows.len() == 3 && rows[1] is Separator,
{
}

/// A pin is kept just where its conversation still exists; as long as no
/// conversation is known, every pin is.
pub proof fn law_pins_of_living_conversations_stay(
    pinned: Seq<Seq<char>>,
    chats: Seq<Chat>,
    id: Seq<char>,
)
    ensures
        !has_cloud_chat(chats) ==> pruned(pinned, chats) == pinned,
        has_cloud_chat(chats) ==> pruned(pinned, chats).contains(id) == (pinned.contains(id)
            && cloud_chat(id) && exists|i: int|
            0 <= i < chats.len() && (#[trigger] chats[i]).id@ == id),
    decreases pinned.len(),
{
    reveal(Seq::filter);
    if has_cloud_chat(chats) && pinned.len() > 0 {
        let front = pinned.drop_last();
        let last = pinned.last();
        law_pins_of_living_conversations_stay(front, chats, id);
        let fewer = pruned(front, chats);
        let all = pruned(pinned, chats);
        if pinned.contains(id) && id != last {
            assert(front[pinned.index_of(id)] == id);
        }
        if front.contains(id) {
            assert(pinned[front.index_of(id)] == id);
        }
        if id == last {
            assert(pinned[pinned.len() - 1] == id);
        }
        if live_cloud_chat(chats, last) {
            assert(all == fewer.push(last));
            assert(all[fewer.len() as int] == last);
            if all.contains(id) && id != last {
                assert(fewer[all.index_of(id)] == id);
            }
            if fewer.contains(id) {
                assert(all[fewer.index_of(id)] == id);
            }
        } else {
            assert(all == fewer);
        }
    }
}

/// A pin that is set comes behind the others, and one that is taken away is the
/// first of its id; the others stay as they are.
pub proof fn law_a_flip_touches_one_pin(pinned: Seq<Seq<char>>, id: Seq<char>, at: int)
    ensures
        !pinned.contains(id) ==> pin_flipped(pinned, id) == pinned.push(id),
        0 <= at < pinned.len() && pinned[at] == id && (forall|j: int|
            0 <= j < at ==> #[trigger] pinned[j] != id) ==> pin_flipped(pinned, id)
            == pinned.remove(at),
{
    if !pinned.contains(id) {
        lemma_pin_at(pinned, id, pinned.len() as int);
    } else if 0 <= at < pinned.len() && pinned[at] == id && (forall|j: int|
        0 <= j < at ==> #[trigger] pinned[j] != id) {
        lemma_pin_at(pinned, id, at);
    }
}

proof fn lemma_pin_at(pinned: Seq<Seq<char>>, id: Seq<char>, at: int)
    requires
        0 <= at <= pinned.len(),
        forall|j: int| 0 <= j < at ==> #[trigger] pinned[j] != id,
        at < pinned.len() ==> pinned[at] == id,
    ensures
        pin_of(pinned, id) == at,
    decreases pinned.len(),
{
    if at > 0 {
        let rest = pinned.skip(1);
        assert(pinned[0] != id);
        assert forall|j: int| 0 <= j < at - 1 implies #[trigger] rest[j] != id by {
            assert(rest[j] == pinned[j + 1]);
        }
        lemma_pin_at(rest, id, at - 1);
    }
}

/// What stands in the corner of a row, the first of these that there is: the
/// number to jump to it, the button to archive it while the pointer is over it,
/// the word for its state, the mark of a finished run, and the time.
pub proof fn law_corners_show_the_first_that_there_is(corner: RowCorner, row: RowState)
    requires
        corner_of(corner, row),
    ensures
        corner is Jump == row.jump_label is Some,
        corner is Archive == (row.jump_label is None && row.hovered),
        corner is Archive && row.archived ==> corner->Archive_0@ == "Unarchive"@,
        corner is Archive && !row.archived ==> corner->Archive_0@ == "Archive"@,
        corner is Status == (row.jump_label is None && !row.hovered && (row.undelivered
            || row.status is Working || row.status is AwaitingInput || row.status is Errored)),
        corner is Time ==> corner->Time_0@ == row.time_ago@,
        row.jump_label is None && !row.hovered && !row.undelivered && row.status is Completed
            ==> corner == RowCorner::Glyph(RowGlyph::Check),
        row.jump_label is None && !row.hovered && !row.undelivered && row.status is Idle
            ==> corner is Time,
{
}

/// A message that was not delivered has failed, whatever the run does; only a
/// run that works turns.
pub proof fn law_the_undelivered_has_failed(row: RowState)
    ensures
        row.undelivered || row.status is Errored ==> status_word(row) == Some("Failed"@),
        !row.undelivered && row.status is Working ==> status_word(row) == Some("Working"@),
        !row.undelivered && row.status is AwaitingInput ==> status_word(row) == Some("Input"@),
        status_glyph(row) is Spinner == (row.status is Working && !row.undelivered),
        status_glyph(row) is Check == row.status is Completed,
{
}

/// A row grows with what it shows.
pub proof fn law_rows_grow_with_what_they_show(shows_branch: bool, shows_pull_request: bool)
    ensures
        row_height(false, false) < row_height(true, false) < row_height(shows_branch, true),
        row_height(false, false) == 45,
        row_height(true, false) == 61,
        row_height(shows_branch, true) == 63,
{
}

/// The keys that are new are those that were not there before.
pub proof fn law_new_keys_were_not_there(before: Seq<String>, after: Seq<Seq<char>>, key: Seq<char>)
    ensures
        fresh_keys(before, after).contains(key) == (after.contains(key) && !listed(before, key)),
    decreases after.len(),
{
    reveal(Seq::filter);
    if after.len() > 0 {
        let front = after.drop_last();
        let last = after.last();
        law_new_keys_were_not_there(before, front, key);
        let fewer = fresh_keys(before, front);
        let all = fresh_keys(before, after);
        if after.contains(key) && key != last {
            assert(front[after.index_of(key)] == key);
        }
        if front.contains(key) {
            assert(after[front.index_of(key)] == key);
        }
        if key == last {
            assert(after[after.len() - 1] == key);
        }
        if !listed(before, last) {
            assert(all == fewer.push(last));
            assert(all[fewer.len() as int] == last);
            if all.contains(key) && key != last {
                assert(fewer[all.index_of(key)] == key);
            }
            if fewer.contains(key) {
                assert(all[fewer.index_of(key)] == key);
            }
        } else {
            assert(all == fewer);
        }
    }
}

/// A chat can be renamed first and deleted last. Blocking is offered for the
/// open cloud conversation alone, as unblocking where it is blocked; pinning
/// and viewing only for a cloud conversation.
pub proof fn law_a_menu_offers_what_can_be_done(
    offered: bool,
    conversation: Option<KeikiConversation>,
    cloud: bool,
    pinned: bool,
)
    ensures
        ({
            let rows = root_rows(offered, conversation, cloud, pinned);
            let blocked = conversation is Some && conversation->0.blocked;
            let waits = conversation is Some && conversation->0.pending == Some(
                KeikiConversationPending::Block,
            );
            let pin: int = if offered {
                4
            } else {
                2
            };
            &&& rows[0] is Rename
            &&& rows[1] is Archive
            &&& rows.last() is Delete
            &&& offered && blocked ==> rows[3] == (ChatMenuRow::Unblock { dimmed: waits })
            &&& offered && !blocked ==> rows[3] == (ChatMenuRow::Block { dimmed: waits })
            &&& cloud ==> rows[pin] == (ChatMenuRow::Pin { pinned })
                && rows[pin + 1] is ViewConversation && rows[pin + 2] is Copy
            &&& !cloud ==> rows[pin] is Copy
            &&& rows.len() == 5 + (if offered {
                2int
            } else {
                0
            }) + (if cloud {
                2int
            } else {
                0
            })
        }),
{
}

/// A chat is the first of its id, and its session can be copied just where it
/// has one that is not blank.
pub proof fn law_a_session_is_copied_from_its_chat(chats: Seq<Chat>, id: Seq<char>, at: int)
    requires
        0 <= at < chats.len(),
        chats[at].id@ == id,
        forall|j: int| 0 <= j < at ==> (#[trigger] chats[j]).id@ != id,
    ensures
        chat_at(chats, id) == at,
        chats[at].harness_session_id is None ==> session_id_of(chats, id) is None,
        chats[at].harness_session_id is Some ==> session_id_of(chats, id) == (if trimmed(
            chats[at].harness_session_id->0@,
        ).len() > 0 {
            Some(chats[at].harness_session_id->0@)
        } else {
            None
        }),
    decreases chats.len(),
{
    if at > 0 {
        let rest = chats.skip(1);
        assert(chats[0].id@ != id);
        assert forall|j: int| 0 <= j < at - 1 implies (#[trigger] rest[j]).id@ != id by {
            assert(rest[j] == chats[j + 1]);
        }
        law_a_session_is_copied_from_its_chat(rest, id, at - 1);
    }
}

/// A change that is sent names its chat and what is to be done with it.
pub proof fn law_a_change_names_its_chat(mutation: Mutation)
    ensures
        mutation matches Mutation::RenameChat { chat_id, title } ==> mutation_members(
            mutation,
        )["op"@] == Member::Text("renameChat"@) && mutation_members(mutation)["chatId"@]
            == Member::Text(chat_id@) && mutation_members(mutation)["title"@] == Member::Text(
            title@,
        ),
        mutation matches Mutation::SetChatArchived { chat_id, archived } ==> mutation_members(
            mutation,
        )["op"@] == Member::Text("setChatArchived"@) && mutation_members(mutation)["chatId"@]
            == Member::Text(chat_id@) && mutation_members(mutation)["archived"@] == Member::Flag(
            archived,
        ),
        mutation matches Mutation::DeleteChat { chat_id } ==> mutation_members(mutation)["op"@]
            == Member::Text("deleteChat"@) && mutation_members(mutation)["chatId"@] == Member::Text(
            chat_id@,
        ),
{
    reveal_strlit("op");
    reveal_strlit("chatId");
    reveal_strlit("title");
    reveal_strlit("archived");
    assert("op"@.len() == 2 && "chatId"@.len() == 6 && "title"@.len() == 5);
    assert("archived"@.len() == 8);
}

/// The organizations stand in their order between a heading and a rule, and
/// neither stands there without them.
pub proof fn law_organizations_stand_in_their_order(
    rows: Seq<AccountRow>,
    orgs: Seq<Organization>,
    active: Option<Seq<char>>,
    switching: Option<Seq<char>>,
    i: int,
)
    requires
        lists_organizations(rows, orgs, active, switching),
    ensures
        orgs.len() == 0 ==> rows.len() == 0,
        orgs.len() > 0 ==> rows.len() == orgs.len() + 2 && rows[0] is OrganizationHeading
            && rows.last() is OrganizationRule,
        0 <= i < orgs.len() ==> rows[i + 1] is Organization && rows[i + 1]->id@ == orgs[i].id@,
{
    if 0 <= i < orgs.len() {
        assert(organization_row(rows[i + 1], orgs[i], active, switching));
    }
}

/// Organizations are offered only to a signed-in account that can switch.
pub proof fn law_only_members_can_switch(status: SessionStatus, session: Option<&KeikiSessionInfo>)
    ensures
        (organization_span(status, session) > 0) == (status is SignedIn && session is Some
            && session->0.switchable_orgs@.len() > 0),
        organization_span(status, session) > 0 ==> organization_span(status, session)
            == session->0.switchable_orgs@.len() + 2,
        organization_span(status, session) >= 0,
{
}

/// Pins are pruned only once a cloud conversation is listed: chats of this
/// machine alone say nothing of them.
pub proof fn law_local_chats_prune_no_pins(pinned: Seq<Seq<char>>, chats: Seq<Chat>, i: int)
    ensures
        (forall|k: int| 0 <= k < chats.len() ==> !cloud_chat((#[trigger] chats[k]).id@)) ==> pruned(
            pinned,
            chats,
        ) == pinned,
        0 <= i < chats.len() && cloud_chat(chats[i].id@) ==> has_cloud_chat(chats),
{
}

/// Nothing is copied from a chat that is not there.
pub proof fn law_no_session_without_its_chat(chats: Seq<Chat>, id: Seq<char>)
    requires
        forall|j: int| 0 <= j < chats.len() ==> (#[trigger] chats[j]).id@ != id,
    ensures
        chat_at(chats, id) == chats.len(),
        session_id_of(chats, id) is None,
    decreases chats.len(),
{
    if chats.len() > 0 {
        let rest = chats.skip(1);
        assert(chats[0].id@ != id);
        assert forall|j: int| 0 <= j < rest.len() implies (#[trigger] rest[j]).id@ != id by {
            assert(rest[j] == chats[j + 1]);
        }
        law_no_session_without_its_chat(rest, id);
    }
}

} // verus!
