//! What the user can do to a cloud conversation, from the click to the reply.

use vstd::prelude::*;

use crate::account::Account;
use crate::account::Failure;
use crate::keiki::conversation_locator;
use crate::keiki::located;
use crate::keiki::map_transcript;
use crate::keiki::transcript_of;
use crate::keiki::ConversationDetail;
use crate::keiki::ConversationLocator;
use crate::keiki::ConversationTakeover;
use crate::keiki::KeikiConversation;
use crate::keiki::KeikiConversationPending;
use crate::keiki::Timestamp;
use crate::rows::SessionMessageEntry;
use crate::text::optional;
use crate::text::same;
use crate::text::same_optional;

verus! {

/// What the user does to a conversation.
#[derive(Debug, Clone, Copy, PartialEq, Eq, Structural)]
pub enum ConversationAction {
    Takeover,
    HandBack,
    Block,
    Unblock,
    Send,
    Steer,
}

/// What the conversation waits for while an action is under way.
pub open spec fn pending_of(action: ConversationAction) -> KeikiConversationPending {
    match action {
        ConversationAction::Takeover => KeikiConversationPending::Takeover,
        ConversationAction::HandBack => KeikiConversationPending::HandBack,
        ConversationAction::Block => KeikiConversationPending::Block,
        ConversationAction::Unblock => KeikiConversationPending::Block,
        ConversationAction::Send => KeikiConversationPending::Send,
        ConversationAction::Steer => KeikiConversationPending::Steer,
    }
}

/// What the conversation waits for while an action is under way.
pub fn pending_for(action: ConversationAction) -> (pending: KeikiConversationPending)
    ensures
        pending == pending_of(action),
{
    match action {
        ConversationAction::Takeover => KeikiConversationPending::Takeover,
        ConversationAction::HandBack => KeikiConversationPending::HandBack,
        ConversationAction::Block | ConversationAction::Unblock => KeikiConversationPending::Block,
        ConversationAction::Send => KeikiConversationPending::Send,
        ConversationAction::Steer => KeikiConversationPending::Steer,
    }
}

/// An action on a chat, with the text that goes with it. `clears_composer`
/// says that the composer held that text.
#[derive(Debug)]
pub struct ActionStart {
    pub chat_id: String,
    pub action: ConversationAction,
    pub text: Option<String>,
    pub clears_composer: bool,
}

/// Whether an action can start: there is a conversation, and the account can
/// sign requests.
pub open spec fn can_start(conversation: Option<KeikiConversation>, account: Account) -> bool {
    conversation is Some && account.ready()
}

/// The chat of the conversation on screen, when an action on it can start.
pub fn selected_conversation(conversation: &Option<KeikiConversation>, account: &Account) -> (chat_id:
    Option<String>)
    ensures
        chat_id is Some == can_start(*conversation, *account),
        chat_id is Some ==> chat_id->0@ == conversation->0.chat_id@,
{
    match conversation {
        Some(held) => {
            if account.is_ready() {
                Some(held.chat_id.clone())
            } else {
                None
            }
        },
        None => None,
    }
}

/// Starts an action on the conversation on screen.
fn start_action(
    conversation: &Option<KeikiConversation>,
    account: &Account,
    action: ConversationAction,
    text: Option<String>,
    clears_composer: bool,
) -> (start: Option<ActionStart>)
    ensures
        start is Some == can_start(*conversation, *account),
        start is Some ==> {
            &&& start->0.chat_id@ == conversation->0.chat_id@
            &&& start->0.action == action
            &&& start->0.text == text
            &&& start->0.clears_composer == clears_composer
        },
{
    match selected_conversation(conversation, account) {
        Some(chat_id) => Some(ActionStart { chat_id, action, text, clears_composer }),
        None => None,
    }
}

/// Takes the conversation on screen over from its agent.
pub fn take_over(conversation: &Option<KeikiConversation>, account: &Account) -> (start: Option<
    ActionStart,
>)
    ensures
        start is Some == can_start(*conversation, *account),
        start is Some ==> {
            &&& start->0.chat_id@ == conversation->0.chat_id@
            &&& start->0.action is Takeover
            &&& start->0.text is None
            &&& !start->0.clears_composer
        },
{
    start_action(conversation, account, ConversationAction::Takeover, None, false)
}

/// Hands the conversation on screen back to its agent.
pub fn hand_back(conversation: &Option<KeikiConversation>, account: &Account) -> (start: Option<
    ActionStart,
>)
    ensures
        start is Some == can_start(*conversation, *account),
        start is Some ==> {
            &&& start->0.chat_id@ == conversation->0.chat_id@
            &&& start->0.action is HandBack
            &&& start->0.text is None
            &&& !start->0.clears_composer
        },
{
    start_action(conversation, account, ConversationAction::HandBack, None, false)
}

/// Blocks the contact of the conversation on screen.
pub fn block(conversation: &Option<KeikiConversation>, account: &Account) -> (start: Option<
    ActionStart,
>)
    ensures
        start is Some == can_start(*conversation, *account),
        start is Some ==> {
            &&& start->0.chat_id@ == conversation->0.chat_id@
            &&& start->0.action is Block
            &&& start->0.text is None
            &&& !start->0.clears_composer
        },
{
    start_action(conversation, account, ConversationAction::Block, None, false)
}

/// Unblocks the contact of the conversation on screen.
pub fn unblock(conversation: &Option<KeikiConversation>, account: &Account) -> (start: Option<
    ActionStart,
>)
    ensures
        start is Some == can_start(*conversation, *account),
        start is Some ==> {
            &&& start->0.chat_id@ == conversation->0.chat_id@
            &&& start->0.action is Unblock
            &&& start->0.text is None
            &&& !start->0.clears_composer
        },
{
    start_action(conversation, account, ConversationAction::Unblock, None, false)
}

/// Sends `text` from the composer into the conversation on screen.
pub fn send(conversation: &Option<KeikiConversation>, account: &Account, text: String) -> (start:
    Option<ActionStart>)
    ensures
        start is Some == can_start(*conversation, *account),
        start is Some ==> {
            &&& start->0.chat_id@ == conversation->0.chat_id@
            &&& start->0.action is Send
            &&& start->0.text == Some(text)
            &&& start->0.clears_composer
        },
{
    start_action(conversation, account, ConversationAction::Send, Some(text), true)
}

/// Steers the agent of the conversation on screen with `text`.
pub fn steer(conversation: &Option<KeikiConversation>, account: &Account, text: String) -> (start:
    Option<ActionStart>)
    ensures
        start is Some == can_start(*conversation, *account),
        start is Some ==> {
            &&& start->0.chat_id@ == conversation->0.chat_id@
            &&& start->0.action is Steer
            &&& start->0.text == Some(text)
            &&& !start->0.clears_composer
        },
{
    start_action(conversation, account, ConversationAction::Steer, Some(text), false)
}

/// What the service is asked.
#[derive(Debug)]
pub enum ConversationRequest {
    StartTakeover,
    EndTakeover,
    SetBlocked(bool),
    SendMessage(String),
    Steer(String),
}

/// What an action does once it was noted on its conversation.
#[derive(Debug)]
pub enum ActionStep {
    /// The conversation did not take the action.
    Stop,
    /// Show this on the conversation.
    Fail(&'static str),
    /// Ask the service, under this name.
    Ask { operation: &'static str, locator: ConversationLocator, request: ConversationRequest },
}

/// Whether `request` is what the service is asked for `action` with `text`.
pub open spec fn asks(
    request: ConversationRequest,
    action: ConversationAction,
    text: Option<String>,
) -> bool {
    let words = match text {
        Some(held) => held@,
        None => Seq::<char>::empty(),
    };
    match action {
        ConversationAction::Takeover => request is StartTakeover,
        ConversationAction::HandBack => request is EndTakeover,
        ConversationAction::Block => request == ConversationRequest::SetBlocked(true),
        ConversationAction::Unblock => request == ConversationRequest::SetBlocked(false),
        ConversationAction::Send => request is SendMessage && request->SendMessage_0@ == words,
        ConversationAction::Steer => request is Steer && request->Steer_0@ == words,
    }
}

/// What a request for `action` is called.
pub open spec fn operation_name(action: ConversationAction) -> Seq<char> {
    match action {
        ConversationAction::Takeover => "Keiki takeover"@,
        ConversationAction::HandBack => "Keiki hand back"@,
        ConversationAction::Block => "Keiki block update"@,
        ConversationAction::Unblock => "Keiki block update"@,
        ConversationAction::Send => "Keiki message send"@,
        ConversationAction::Steer => "Keiki steer"@,
    }
}

/// What an action does after the conversation was asked to take it: `started`
/// is the conversation's word, `ready` says that requests can be signed.
pub fn begin_action(
    chat_id: &str,
    action: ConversationAction,
    text: Option<String>,
    started: bool,
    ready: bool,
) -> (step: ActionStep)
    ensures
        !started ==> step is Stop,
        started && !ready ==> step is Fail && step->Fail_0@ == "Keiki credentials are unavailable"@,
        started && ready && located(chat_id@) is None ==> step is Fail && step->Fail_0@
            == "The selected Keiki conversation is invalid"@,
        started && ready && located(chat_id@) is Some ==> {
            &&& step is Ask
            &&& step->operation@ == operation_name(action)
            &&& asks(step->request, action, text)
            &&& optional(step->locator.agent_id) == Some((located(chat_id@)->0).0)
            &&& step->locator.identity@ == (located(chat_id@)->0).1
            &&& step->locator.api_key is None
        },
{
    if !started {
        return ActionStep::Stop;
    }
    if !ready {
        return ActionStep::Fail("Keiki credentials are unavailable");
    }
    match conversation_locator(chat_id) {
        Some(locator) => {
            let words = match text {
                Some(held) => held,
                None => String::new(),
            };
            match action {
                ConversationAction::Takeover => ActionStep::Ask {
                    operation: "Keiki takeover",
                    locator,
                    request: ConversationRequest::StartTakeover,
                },
                ConversationAction::HandBack => ActionStep::Ask {
                    operation: "Keiki hand back",
                    locator,
                    request: ConversationRequest::EndTakeover,
                },
                ConversationAction::Block => ActionStep::Ask {
                    operation: "Keiki block update",
                    locator,
                    request: ConversationRequest::SetBlocked(true),
                },
                ConversationAction::Unblock => ActionStep::Ask {
                    operation: "Keiki block update",
                    locator,
                    request: ConversationRequest::SetBlocked(false),
                },
                ConversationAction::Send => ActionStep::Ask {
                    operation: "Keiki message send",
                    locator,
                    request: ConversationRequest::SendMessage(words),
                },
                ConversationAction::Steer => ActionStep::Ask {
                    operation: "Keiki steer",
                    locator,
                    request: ConversationRequest::Steer(words),
                },
            }
        },
        None => ActionStep::Fail("The selected Keiki conversation is invalid"),
    }
}

/// What the service answered.
#[derive(Debug)]
pub enum ConversationReply {
    TakenOver(ConversationTakeover),
    HandedBack,
    Blocked(bool),
    Sent(ConversationTakeover),
    Steered(String),
}

/// What came of an action.
#[derive(Debug)]
pub enum ActionResult {
    Takeover(ConversationTakeover),
    HandBack,
    Blocked(bool),
    Sent { takeover: ConversationTakeover, detail: Option<ConversationDetail> },
    Steered { reply: String, detail: Option<ConversationDetail> },
}

/// What an action does with its reply.
#[derive(Debug)]
pub enum ReplyStep {
    /// Fetch the transcript, then finish with it.
    Fetch(ConversationReply),
    /// Finish.
    Done(Result<ActionResult, Failure>),
}

/// What an action does with its reply: words that were taken in are followed
/// by a look at the transcript.
pub fn reply_received(reply: Result<ConversationReply, Failure>) -> (step: ReplyStep)
    ensures
        step == match reply {
            Ok(ConversationReply::TakenOver(takeover)) => ReplyStep::Done(
                Ok(ActionResult::Takeover(takeover)),
            ),
            Ok(ConversationReply::HandedBack) => ReplyStep::Done(Ok(ActionResult::HandBack)),
            Ok(ConversationReply::Blocked(blocked)) => ReplyStep::Done(
                Ok(ActionResult::Blocked(blocked)),
            ),
            Ok(words) => ReplyStep::Fetch(words),
            Err(failure) => ReplyStep::Done(Err(failure)),
        },
{
    match reply {
        Ok(ConversationReply::TakenOver(takeover)) => ReplyStep::Done(
            Ok(ActionResult::Takeover(takeover)),
        ),
        Ok(ConversationReply::HandedBack) => ReplyStep::Done(Ok(ActionResult::HandBack)),
        Ok(ConversationReply::Blocked(blocked)) => ReplyStep::Done(
            Ok(ActionResult::Blocked(blocked)),
        ),
        Ok(words) => ReplyStep::Fetch(words),
        Err(failure) => ReplyStep::Done(Err(failure)),
    }
}

/// What came of an action whose words were taken in. The transcript is extra:
/// an action does not fail for want of it.
pub fn transcript_fetched(reply: ConversationReply, detail: Option<ConversationDetail>) -> (result:
    ActionResult)
    ensures
        result == match reply {
            ConversationReply::TakenOver(takeover) => ActionResult::Takeover(takeover),
            ConversationReply::HandedBack => ActionResult::HandBack,
            ConversationReply::Blocked(blocked) => ActionResult::Blocked(blocked),
            ConversationReply::Sent(takeover) => ActionResult::Sent { takeover, detail },
            ConversationReply::Steered(words) => ActionResult::Steered { reply: words, detail },
        },
{
    match reply {
        ConversationReply::TakenOver(takeover) => ActionResult::Takeover(takeover),
        ConversationReply::HandedBack => ActionResult::HandBack,
        ConversationReply::Blocked(blocked) => ActionResult::Blocked(blocked),
        ConversationReply::Sent(takeover) => ActionResult::Sent { takeover, detail },
        ConversationReply::Steered(words) => ActionResult::Steered { reply: words, detail },
    }
}

/// What a failure says on the conversation: the service's own message where
/// it sent one.
pub open spec fn failure_message(failure: Failure) -> Seq<char> {
    match failure {
        Failure::Api { message, .. } => message@,
        _ => failure.words(),
    }
}

/// What a failure says on the conversation.
pub fn conversation_error(failure: &Failure) -> (message: String)
    ensures
        message@ == failure_message(*failure),
{
    match failure {
        Failure::Api { message, .. } => message.clone(),
        _ => failure.text(),
    }
}

/// Whether `chat_id` is the conversation that is held and the chat that is
/// selected.
pub open spec fn on_screen(
    conversation: Option<KeikiConversation>,
    selected_chat: Option<String>,
    chat_id: Seq<char>,
) -> bool {
    &&& conversation is Some
    &&& conversation->0.chat_id@ == chat_id
    &&& optional(selected_chat) == Some(chat_id)
}

/// Shows `message` on the conversation and ends its wait, when it is still on
/// screen. Says whether anything changed.
pub fn set_conversation_error(
    conversation: &mut Option<KeikiConversation>,
    selected_chat: &Option<String>,
    chat_id: &str,
    message: String,
) -> (changed: bool)
    ensures
        changed == on_screen(*old(conversation), *selected_chat, chat_id@),
        !changed ==> *final(conversation) == *old(conversation),
        changed ==> *final(conversation) == Some(
            KeikiConversation { pending: None, error: Some(message), ..old(conversation)->0 },
        ),
{
    if !is_on_screen(conversation, selected_chat, chat_id) {
        return false;
    }
    if let Some(held) = conversation.as_mut() {
        held.pending = None;
        held.error = Some(message);
    }
    true
}

/// Whether `chat_id` is the conversation that is held and the chat that is
/// selected.
fn is_on_screen(
    conversation: &Option<KeikiConversation>,
    selected_chat: &Option<String>,
    chat_id: &str,
) -> (shown: bool)
    ensures
        shown == on_screen(*conversation, *selected_chat, chat_id@),
{
    match conversation {
        Some(held) => same(held.chat_id.as_str(), chat_id) && same_optional(selected_chat, chat_id),
        None => false,
    }
}

/// What finishing an action changes outside the conversation.
#[derive(Debug)]
pub struct ActionEffects {
    pub changed: bool,
    pub transcript: Option<Vec<SessionMessageEntry>>,
    pub clear_composer: bool,
}

/// Whether `after` is `before` once `action` came to `result`.
pub open spec fn settled(
    after: KeikiConversation,
    before: KeikiConversation,
    action: ConversationAction,
    result: Result<ActionResult, Failure>,
) -> bool {
    match result {
        Ok(ActionResult::Takeover(takeover)) => after == (KeikiConversation {
            pending: None,
            takeover: Some(takeover),
            ..before
        }),
        Ok(ActionResult::HandBack) => after == (KeikiConversation {
            pending: None,
            takeover: None,
            ..before
        }),
        Ok(ActionResult::Blocked(blocked)) => after == (KeikiConversation {
            pending: None,
            blocked,
            ..before
        }),
        Ok(ActionResult::Sent { takeover, .. }) => after == (KeikiConversation {
            pending: None,
            takeover: Some(takeover),
            ..before
        }),
        Ok(ActionResult::Steered { reply, .. }) => after == (KeikiConversation {
            pending: None,
            steer_reply: Some(reply),
            ..before
        }),
        Err(failure) => {
            &&& optional(after.error) == Some(failure_message(failure))
            &&& after == (KeikiConversation {
                pending: None,
                takeover: if conflicts(failure) && action is Send {
                    None
                } else {
                    before.takeover
                },
                error: after.error,
                ..before
            })
        },
    }
}

/// Whether the service answered that the conversation is in someone else's
/// hands.
pub open spec fn conflicts(failure: Failure) -> bool {
    failure matches Failure::Api { status, .. } && status == 409
}

/// The transcript that came with the result, if any.
pub open spec fn result_detail(result: Result<ActionResult, Failure>) -> Option<ConversationDetail> {
    match result {
        Ok(ActionResult::Sent { detail, .. }) => detail,
        Ok(ActionResult::Steered { detail, .. }) => detail,
        _ => None,
    }
}

/// Brings what came of an action onto the conversation, when it is still on
/// screen: the wait ends, and the result or the failure shows. A message that
/// was refused because someone else holds the conversation ends the takeover.
pub fn finish_action(
    conversation: &mut Option<KeikiConversation>,
    selected_chat: &Option<String>,
    chat_id: &str,
    action: ConversationAction,
    result: Result<ActionResult, Failure>,
    has_composer: bool,
    now: Timestamp,
) -> (effects: ActionEffects)
    requires
        now.valid(),
    ensures
        effects.changed == on_screen(*old(conversation), *selected_chat, chat_id@),
        !effects.changed ==> {
            &&& *final(conversation) == *old(conversation)
            &&& effects.transcript is None
            &&& !effects.clear_composer
        },
        effects.changed ==> {
            &&& *final(conversation) is Some
            &&& settled(final(conversation)->0, old(conversation)->0, action, result)
            &&& effects.transcript is Some == result_detail(result) is Some
            &&& effects.transcript is Some ==> transcript_of(
                effects.transcript->0@,
                result_detail(result)->0.messages@,
                now,
            )
            &&& effects.clear_composer == (has_composer && (result matches Ok(
                ActionResult::Sent { .. },
            )))
        },
{
    if !is_on_screen(conversation, selected_chat, chat_id) {
        return ActionEffects { changed: false, transcript: None, clear_composer: false };
    }
    let mut transcript: Option<Vec<SessionMessageEntry>> = None;
    let mut clear_composer = false;
    if let Some(held) = conversation.as_mut() {
        held.pending = None;
        match result {
            Ok(ActionResult::Takeover(takeover)) => {
                held.takeover = Some(takeover);
            },
            Ok(ActionResult::HandBack) => {
                held.takeover = None;
            },
            Ok(ActionResult::Blocked(blocked)) => {
                held.blocked = blocked;
            },
            Ok(ActionResult::Sent { takeover, detail }) => {
                held.takeover = Some(takeover);
                if let Some(found) = detail {
                    transcript = Some(map_transcript(&found, now));
                }
                clear_composer = has_composer;
            },
            Ok(ActionResult::Steered { reply, detail }) => {
                held.steer_reply = Some(reply);
                if let Some(found) = detail {
                    transcript = Some(map_transcript(&found, now));
                }
            },
            Err(failure) => {
                let conflict = match &failure {
                    Failure::Api { status, .. } => *status == 409,
                    _ => false,
                };
                if conflict && matches!(action, ConversationAction::Send) {
                    held.takeover = None;
                }
                held.error = Some(conversation_error(&failure));
            },
        }
    }
    ActionEffects { changed: true, transcript, clear_composer }
}

/// Whatever came of it, an action that finishes on screen leaves the
/// conversation's id as it was and nothing pending.
pub proof fn law_finishing_ends_the_wait(
    after: KeikiConversation,
    before: KeikiConversation,
    action: ConversationAction,
    result: Result<ActionResult, Failure>,
)
    requires
        settled(after, before, action, result),
    ensures
        after.pending is None,
        after.chat_id == before.chat_id,
        result is Ok ==> after.error == before.error,
        !(result matches Ok(ActionResult::Blocked(_))) ==> after.blocked == before.blocked,
{
}

/// What the fetch of a transcript for `chat_id` does.
#[derive(Debug)]
pub enum WatchStep {
    Stop,
    Fetch(ConversationLocator),
}

/// Whether the transcript of `chat_id` can be fetched, and from where.
pub fn watch_transcript(chat_id: &str, ready: bool) -> (step: WatchStep)
    ensures
        match located(chat_id@) {
            Some((agent, phone)) => if ready {
                &&& step is Fetch
                &&& step->Fetch_0.identity@ == phone
                &&& optional(step->Fetch_0.agent_id) == Some(agent)
                &&& step->Fetch_0.api_key is None
            } else {
                step is Stop
            },
            None => step is Stop,
        },
{
    match conversation_locator(chat_id) {
        Some(locator) => {
            if ready {
                WatchStep::Fetch(locator)
            } else {
                WatchStep::Stop
            }
        },
        None => WatchStep::Stop,
    }
}

/// The transcript that a finished fetch puts on screen: none when the user
/// has gone to another chat meanwhile.
pub fn transcript_arrived(
    selected_chat: &Option<String>,
    chat_id: &str,
    detail: &ConversationDetail,
    now: Timestamp,
) -> (transcript: Option<Vec<SessionMessageEntry>>)
    requires
        now.valid(),
    ensures
        transcript is Some == (optional(*selected_chat) == Some(chat_id@)),
        transcript is Some ==> transcript_of(transcript->0@, detail.messages@, now),
{
    if same_optional(selected_chat, chat_id) {
        Some(map_transcript(detail, now))
    } else {
        None
    }
}

/// Shows on the conversation why its transcript could not be fetched, when it
/// is still the one that is held. Says whether anything changed.
pub fn transcript_failed(
    conversation: &mut Option<KeikiConversation>,
    chat_id: &str,
    words: String,
) -> (changed: bool)
    ensures
        changed == (*old(conversation) is Some && old(conversation)->0.chat_id@ == chat_id@),
        !changed ==> *final(conversation) == *old(conversation),
        changed ==> *final(conversation) == Some(
            KeikiConversation { error: Some(words), ..old(conversation)->0 },
        ),
{
    let held = match conversation {
        Some(current) => same(current.chat_id.as_str(), chat_id),
        None => false,
    };
    if !held {
        return false;
    }
    if let Some(current) = conversation.as_mut() {
        current.error = Some(words);
    }
    true
}

/// What a conversation waits for tells which action was begun, but that
/// blocking and unblocking wait for the same.
pub proof fn law_the_wait_tells_the_action(a: ConversationAction, b: ConversationAction)
    ensures
        (pending_of(a) == pending_of(b)) == (a == b || ((a is Block || a is Unblock) && (b is Block
            || b is Unblock))),
        pending_of(a) is Takeover == a is Takeover,
        pending_of(a) is HandBack == a is HandBack,
        pending_of(a) is Send == a is Send,
        pending_of(a) is Steer == a is Steer,
{
}

/// The service is asked for what was begun: blocking and unblocking differ in
/// what they set, and what was typed is sent as it was typed.
pub proof fn law_the_service_is_asked_for_the_action(
    request: ConversationRequest,
    action: ConversationAction,
    text: Option<String>,
)
    requires
        asks(request, action, text),
    ensures
        request is StartTakeover == action is Takeover,
        request is EndTakeover == action is HandBack,
        request is SetBlocked == (action is Block || action is Unblock),
        request is SetBlocked ==> request->SetBlocked_0 == action is Block,
        request is SendMessage == action is Send,
        request is SendMessage && text is Some ==> request->SendMessage_0@ == text->0@,
        request is Steer == action is Steer,
        request is Steer && text is Some ==> request->Steer_0@ == text->0@,
{
}

/// An outcome changes what it is about: who holds the conversation, whether it
/// is blocked, or what was answered to a steer. Only a failure leaves an error,
/// and it changes nothing else, but that a message which came too late ends the
/// takeover.
pub proof fn law_an_outcome_changes_what_it_is_about(
    after: KeikiConversation,
    before: KeikiConversation,
    action: ConversationAction,
    result: Result<ActionResult, Failure>,
)
    requires
        settled(after, before, action, result),
    ensures
        after.pending is None,
        after.chat_id == before.chat_id,
        result matches Ok(ActionResult::Blocked(blocked)) ==> after.blocked == blocked,
        !(result is Ok && result->Ok_0 is Blocked) ==> after.blocked == before.blocked,
        result matches Ok(ActionResult::Takeover(takeover)) ==> after.takeover == Some(takeover),
        result matches Ok(ActionResult::Sent { takeover, .. }) ==> after.takeover == Some(takeover),
        result matches Ok(ActionResult::HandBack) ==> after.takeover is None,
        result is Ok && (result->Ok_0 is Blocked || result->Ok_0 is Steered) ==> after.takeover
            == before.takeover,
        result matches Ok(ActionResult::Steered { reply, .. }) ==> after.steer_reply == Some(reply),
        !(result is Ok && result->Ok_0 is Steered) ==> after.steer_reply == before.steer_reply,
        result is Ok ==> after.error == before.error,
        result is Err ==> optional(after.error) == Some(failure_message(result->Err_0)),
        result is Err && action is Send && result->Err_0 is Api && result->Err_0->status == 409
            ==> after.takeover is None,
        result is Err && !(action is Send && result->Err_0 is Api && result->Err_0->status == 409)
            ==> after.takeover == before.takeover,
{
}

/// What is said of a failure is the service's own message, where it gave one.
pub proof fn law_the_service_speaks_for_itself(failure: Failure)
    ensures
        failure is Api ==> failure_message(failure) == failure->Api_message@,
        !(failure is Api) ==> failure_message(failure) == failure.words(),
        conflicts(failure) ==> failure is Api && failure->status == 409,
{
}

/// A reply reaches the screen only while its conversation is both open and
/// selected.
pub proof fn law_only_the_open_chat_is_on_screen(
    conversation: Option<KeikiConversation>,
    selected_chat: Option<String>,
    chat_id: Seq<char>,
    other: Seq<char>,
)
    requires
        on_screen(conversation, selected_chat, chat_id),
    ensures
        conversation is Some && conversation->0.chat_id@ == chat_id,
        selected_chat is Some && selected_chat->0@ == chat_id,
        on_screen(conversation, selected_chat, other) ==> other == chat_id,
{
}

/// Messages that were fetched come with what was sent or steered, and with
/// nothing else.
pub proof fn law_only_a_message_brings_its_transcript(result: Result<ActionResult, Failure>)
    ensures
        result matches Ok(ActionResult::Sent { detail, .. }) ==> result_detail(result) == detail,
        result matches Ok(ActionResult::Steered { detail, .. }) ==> result_detail(result) == detail,
        result_detail(result) is Some ==> result is Ok && (result->Ok_0 is Sent
            || result->Ok_0 is Steered),
{
}

/// An action may begin just where a conversation is open and requests can be
/// signed.
pub proof fn law_an_action_needs_a_conversation_and_a_token(
    conversation: Option<KeikiConversation>,
    account: Account,
)
    ensures
        can_start(conversation, account) == (conversation is Some && account.has_client
            && account.token is Some && account.credentials is Some),
{
}

/// A request goes by the name of what it does; blocking and unblocking are one.
pub proof fn law_requests_go_by_what_they_do(action: ConversationAction)
    ensures
        action is Takeover ==> operation_name(action) == "Keiki takeover"@,
        action is HandBack ==> operation_name(action) == "Keiki hand back"@,
        action is Block || action is Unblock ==> operation_name(action) == "Keiki block update"@,
        action is Send ==> operation_name(action) == "Keiki message send"@,
        action is Steer ==> operation_name(action) == "Keiki steer"@,
{
}

} // verus!
