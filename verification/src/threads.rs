//! The conversations between agents, as the right pane lists them.

use vstd::prelude::*;

use crate::avatars::avatar_state;
use crate::avatars::expression;
use crate::avatars::AvatarState;
use crate::avatars::ChatIndicator;
use crate::keiki::agent_id;
use crate::keiki::agent_space;
use crate::keiki::Timestamp;
use crate::order::as_ints;
use crate::order::in_order;
use crate::order::law_sorting_keeps_ties_in_place;
use crate::order::law_sorting_orders;
use crate::order::place_by;
use crate::order::sorted_by;
use crate::text::concat3;
use crate::text::optional;
use crate::text::same;
use crate::text::same_optional;

verus! {

/// A chat that one agent opened on another.
#[derive(Debug)]
pub struct PeerChat {
    pub chat_id: String,
    pub space_id: Option<String>,
    pub last_message_at: Option<Timestamp>,
    pub source_agent_id: String,
    pub target_agent_id: String,
    pub title: String,
    pub target_name: Option<String>,
    pub status: ChatIndicator,
    pub ago: String,
    pub ended: bool,
}

/// How a conversation between agents is drawn.
#[derive(Debug)]
pub struct PeerThreadRow {
    pub chat_id: String,
    pub title: String,
    pub source_agent_id: String,
    pub target_agent_id: String,
    pub target_state: AvatarState,
    pub caption: String,
    pub selected: bool,
    pub can_end: bool,
}

/// What the surface shows.
#[derive(Debug)]
pub enum PeerThreads {
    Empty(&'static str),
    Rows(Vec<PeerThreadRow>),
}

/// Whether the agent of `space` is on either end of a conversation.
pub open spec fn concerns(chat: PeerChat, space: Seq<char>) -> bool {
    optional(chat.space_id) == Some(space) || agent_space(chat.source_agent_id@) == space
}

/// Whether the last message of `a` came after that of `b`. A conversation
/// without one comes last.
pub open spec fn fresher(a: PeerChat, b: PeerChat) -> bool {
    match (a.last_message_at, b.last_message_at) {
        (Some(x), Some(y)) => x.later_than(y),
        (Some(_), None) => true,
        _ => false,
    }
}

/// Which of the chats the agent of `space` is on either end of.
pub open spec fn concerning(chats: Seq<PeerChat>, space: Seq<char>) -> spec_fn(int) -> bool {
    |k: int| concerns(chats[k], space)
}

/// Which of two chats is the fresher one.
pub open spec fn freshness(chats: Seq<PeerChat>) -> spec_fn(int, int) -> bool {
    |a: int, b: int| fresher(chats[a], chats[b])
}

/// The places of the conversations of `space` among the first `n` chats, the
/// freshest first; of equally fresh ones the first that is listed.
pub open spec fn ordered(chats: Seq<PeerChat>, space: Seq<char>, n: int) -> Seq<int> {
    sorted_by(concerning(chats, space), freshness(chats), n)
}

/// The word that stands for how a conversation goes.
pub open spec fn state_word(chat: PeerChat) -> Seq<char> {
    if chat.ended {
        "Ended"@
    } else if expression(chat.status) is Thinking || expression(chat.status) is Running {
        "Working"@
    } else {
        Seq::empty()
    }
}

/// The line below a conversation's title: its state and how long ago it was
/// active, each where there is something to say.
pub open spec fn caption_of(chat: PeerChat) -> Seq<char> {
    if state_word(chat).len() == 0 {
        chat.ago@
    } else if chat.ago@.len() == 0 {
        state_word(chat)
    } else {
        state_word(chat) + " · "@ + chat.ago@
    }
}

/// Whether `row` draws `chat`.
pub open spec fn draws(row: PeerThreadRow, chat: PeerChat, selected: Option<Seq<char>>) -> bool {
    &&& row.chat_id@ == chat.chat_id@
    &&& row.title@ == chat.title@ + " ↔ "@ + match chat.target_name {
        Some(name) => name@,
        None => "Agent"@,
    }
    &&& row.source_agent_id@ == chat.source_agent_id@
    &&& row.target_agent_id@ == chat.target_agent_id@
    &&& row.target_state == expression(chat.status)
    &&& row.caption@ == caption_of(chat)
    &&& row.selected == (selected == Some(chat.chat_id@))
    &&& row.can_end == !chat.ended
}

fn is_fresher(a: &PeerChat, b: &PeerChat) -> (fresh: bool)
    ensures
        fresh == fresher(*a, *b),
{
    match (a.last_message_at, b.last_message_at) {
        (Some(x), Some(y)) => x.is_after(y),
        (Some(_), None) => true,
        _ => false,
    }
}

fn does_concern(chat: &PeerChat, space: &str) -> (does: bool)
    ensures
        does == concerns(*chat, space@),
{
    if same_optional(&chat.space_id, space) {
        return true;
    }
    let source = agent_id(chat.source_agent_id.as_str());
    same(source.as_str(), space)
}

fn find_place(chats: &Vec<PeerChat>, rows: &Vec<usize>, chat: usize) -> (at: usize)
    requires
        chat < chats@.len(),
        forall|j: int| 0 <= j < rows@.len() ==> #[trigger] rows@[j] < chats@.len(),
    ensures
        at == place_by(freshness(chats@), as_ints(rows@), chat as int),
        at <= rows@.len(),
{
    let ghost views = as_ints(rows@);
    let mut at: usize = 0;
    assert(views.skip(0) =~= views);
    while at < rows.len()
        invariant
            at <= rows@.len(),
            chat < chats@.len(),
            views == as_ints(rows@),
            forall|j: int| 0 <= j < rows@.len() ==> #[trigger] rows@[j] < chats@.len(),
            place_by(freshness(chats@), views, chat as int) == at + place_by(
                freshness(chats@),
                views.skip(at as int),
                chat as int,
            ),
        decreases rows.len() - at,
    {
        assert(views.skip(at as int).skip(1) =~= views.skip(at + 1));
        assert(views.skip(at as int)[0] == rows@[at as int]);
        if is_fresher(&chats[chat], &chats[rows[at]]) {
            return at;
        }
        at += 1;
    }
    at
}

/// The places of the conversations of `space`, the freshest first.
fn order_threads(chats: &Vec<PeerChat>, space: &str) -> (rows: Vec<usize>)
    ensures
        as_ints(rows@) == ordered(chats@, space@, chats@.len() as int),
        forall|j: int| 0 <= j < rows@.len() ==> #[trigger] rows@[j] < chats@.len(),
{
    let mut rows: Vec<usize> = Vec::new();
    let mut i: usize = 0;
    assert(as_ints(rows@) =~= Seq::<int>::empty());
    while i < chats.len()
        invariant
            i <= chats@.len(),
            as_ints(rows@) == ordered(chats@, space@, i as int),
            forall|j: int| 0 <= j < rows@.len() ==> #[trigger] rows@[j] < i,
        decreases chats.len() - i,
    {
        if does_concern(&chats[i], space) {
            let at = find_place(chats, &rows, i);
            let ghost before = as_ints(rows@);
            rows.insert(at, i);
            assert(as_ints(rows@) =~= before.insert(at as int, i as int));
        }
        i += 1;
    }
    rows
}

fn draw_thread(chat: &PeerChat, selected: &Option<String>) -> (row: PeerThreadRow)
    ensures
        draws(row, *chat, optional(*selected)),
{
    let target_state = avatar_state(chat.status);
    let word = if chat.ended {
        "Ended"
    } else {
        match target_state {
            AvatarState::Thinking | AvatarState::Running => "Working",
            _ => "",
        }
    };
    proof {
        reveal_strlit("");
        reveal_strlit("Ended");
        reveal_strlit("Working");
        assert(""@ =~= Seq::<char>::empty());
    }
    let caption = if word.is_empty() {
        chat.ago.clone()
    } else if chat.ago.as_str().is_empty() {
        word.to_owned()
    } else {
        concat3(word, " · ", chat.ago.as_str())
    };
    let target = match &chat.target_name {
        Some(name) => name.as_str(),
        None => "Agent",
    };
    PeerThreadRow {
        chat_id: chat.chat_id.clone(),
        title: concat3(chat.title.as_str(), " ↔ ", target),
        source_agent_id: chat.source_agent_id.clone(),
        target_agent_id: chat.target_agent_id.clone(),
        target_state,
        caption,
        selected: same_optional(selected, chat.chat_id.as_str()),
        can_end: !chat.ended,
    }
}

/// The conversations that the agent of the selected space is on either end of,
/// the freshest first.
pub fn peer_threads(chats: &Vec<PeerChat>, space: &Option<String>, selected: &Option<String>) -> (shown:
    PeerThreads)
    ensures
        match *space {
            None => shown is Empty && shown->Empty_0@
                == "Select an agent to see its conversations"@,
            Some(id) => {
                let places = ordered(chats@, id@, chats@.len() as int);
                if places.len() == 0 {
                    shown is Empty && shown->Empty_0@ == "No agent-to-agent conversations yet"@
                } else {
                    &&& shown is Rows
                    &&& shown->Rows_0@.len() == places.len()
                    &&& forall|i: int|
                        0 <= i < places.len() ==> draws(
                            #[trigger] shown->Rows_0@[i],
                            chats@[places[i]],
                            optional(*selected),
                        )
                }
            },
        },
{
    let id = match space {
        Some(id) => id,
        None => {
            return PeerThreads::Empty("Select an agent to see its conversations");
        },
    };
    let order = order_threads(chats, id.as_str());
    let ghost places = as_ints(order@);
    if order.len() == 0 {
        return PeerThreads::Empty("No agent-to-agent conversations yet");
    }
    let mut rows: Vec<PeerThreadRow> = Vec::new();
    let mut i: usize = 0;
    while i < order.len()
        invariant
            i <= order@.len(),
            places == as_ints(order@),
            rows@.len() == i,
            forall|j: int| 0 <= j < order@.len() ==> #[trigger] order@[j] < chats@.len(),
            forall|j: int|
                0 <= j < i ==> draws(#[trigger] rows@[j], chats@[places[j]], optional(*selected)),
        decreases order.len() - i,
    {
        assert(places[i as int] == order@[i as int]);
        rows.push(draw_thread(&chats[order[i]], selected));
        i += 1;
    }
    PeerThreads::Rows(rows)
}

/// The conversations come in order: none is fresher than one before it, and
/// each of those that concern the space is there once.
pub proof fn law_threads_come_freshest_first(chats: Seq<PeerChat>, space: Seq<char>, n: int)
    ensures
        in_order(concerning(chats, space), freshness(chats), n, ordered(chats, space, n)),
{
    law_sorting_orders(concerning(chats, space), freshness(chats), n);
}

/// A thread concerns the space that it is filed under, and that of the agent
/// that began it, and no other.
pub proof fn law_a_thread_concerns_its_own_space(chat: PeerChat, space: Seq<char>)
    ensures
        concerns(chat, agent_space(chat.source_agent_id@)),
        chat.space_id is Some ==> concerns(chat, chat.space_id->0@),
        concerns(chat, space) ==> space == agent_space(chat.source_agent_id@) || (
        chat.space_id is Some && chat.space_id->0@ == space),
{
}

/// The later message makes a thread fresher; one with a message is fresher than
/// one without, and none without is fresher than any.
pub proof fn law_the_later_message_is_fresher(a: PeerChat, b: PeerChat)
    ensures
        a.last_message_at is None ==> !fresher(a, b),
        a.last_message_at is Some && b.last_message_at is None ==> fresher(a, b),
        a.last_message_at is Some && b.last_message_at is Some && a.last_message_at->0.secs
            > b.last_message_at->0.secs ==> fresher(a, b) && !fresher(b, a),
        a.last_message_at == b.last_message_at ==> !fresher(a, b),
{
}

/// A thread says that it has ended, else that its agent works or waits, and
/// when it was last heard of; what is not known is left out with the dot that
/// would have gone before it.
pub proof fn law_a_caption_says_what_is_known(chat: PeerChat)
    ensures
        chat.ended && chat.ago@.len() == 0 ==> caption_of(chat) == "Ended"@,
        chat.ended && chat.ago@.len() > 0 ==> caption_of(chat) == "Ended"@ + " · "@ + chat.ago@,
        !chat.ended && (chat.status is Working || chat.status is AwaitingInput) && chat.ago@.len()
            > 0 ==> caption_of(chat) == "Working"@ + " · "@ + chat.ago@,
        !chat.ended && (chat.status is Working || chat.status is AwaitingInput) && chat.ago@.len()
            == 0 ==> caption_of(chat) == "Working"@,
        !chat.ended && !(chat.status is Working || chat.status is AwaitingInput) ==> caption_of(
            chat,
        ) == chat.ago@,
{
    reveal_strlit("Ended");
    reveal_strlit("Working");
    assert("Ended"@.len() == 5 && "Working"@.len() == 7);
}

/// A drawn thread is titled after both its ends, is marked where it is
/// selected, and can be ended unless it has.
pub proof fn law_a_drawn_thread_is_the_thread(
    row: PeerThreadRow,
    chat: PeerChat,
    selected: Option<Seq<char>>,
)
    requires
        draws(row, chat, selected),
    ensures
        row.chat_id@ == chat.chat_id@,
        chat.target_name is Some ==> row.title@ == chat.title@ + " ↔ "@ + chat.target_name->0@,
        chat.target_name is None ==> row.title@ == chat.title@ + " ↔ "@ + "Agent"@,
        row.source_agent_id@ == chat.source_agent_id@,
        row.target_agent_id@ == chat.target_agent_id@,
        row.selected == (selected is Some && selected->0 == chat.chat_id@),
        row.can_end == !chat.ended,
{
}

/// The rows are the threads that concern the space, and no others.
pub proof fn law_rows_are_the_threads_of_the_space(chats: Seq<PeerChat>, space: Seq<char>, k: int)
    requires
        0 <= k < chats.len(),
    ensures
        ordered(chats, space, chats.len() as int).contains(k) == (agent_space(
            chats[k].source_agent_id@,
        ) == space || (chats[k].space_id is Some && chats[k].space_id->0@ == space)),
{
    let n = chats.len() as int;
    let rows = ordered(chats, space, n);
    law_threads_come_freshest_first(chats, space, n);
    if concerns(chats[k], space) {
        assert(concerning(chats, space)(k));
    }
    if rows.contains(k) {
        let at = rows.index_of(k);
        assert(concerning(chats, space)(rows[at]));
    }
}

/// Each thread has one row; no thread comes before one with a later message,
/// and none without a message before one with. Threads that were last heard of
/// at the same instant stay in their order.
pub proof fn law_no_row_stands_before_a_fresher_one(
    chats: Seq<PeerChat>,
    space: Seq<char>,
    i: int,
    j: int,
)
    requires
        0 <= i < j < ordered(chats, space, chats.len() as int).len(),
    ensures
        ({
            let rows = ordered(chats, space, chats.len() as int);
            let first = chats[rows[i]].last_message_at;
            let second = chats[rows[j]].last_message_at;
            &&& 0 <= rows[i] < chats.len() && 0 <= rows[j] < chats.len()
            &&& rows[i] != rows[j]
            &&& second is Some ==> first is Some
            &&& second is Some ==> first->0.secs >= second->0.secs
            &&& second is Some && first->0.secs == second->0.secs ==> first->0.nanos
                >= second->0.nanos
            &&& first == second ==> rows[i] < rows[j]
        }),
{
    let n = chats.len() as int;
    let rows = ordered(chats, space, n);
    law_threads_come_freshest_first(chats, space, n);
    assert(!freshness(chats)(rows[j], rows[i]));
    if chats[rows[i]].last_message_at == chats[rows[j]].last_message_at {
        assert(!freshness(chats)(rows[i], rows[j]));
        law_sorting_keeps_ties_in_place(concerning(chats, space), freshness(chats), n, i, j);
    }
}

} // verus!
