//! The terminal's calls: what each of them hands to the engine, and what the
//! frames of its stream mean.

use vstd::prelude::*;

use crate::json::is_object;
use crate::json::members;
use crate::json::Member;
use crate::json::new_object;
use crate::json::no_members;
use crate::json::set_number;
use crate::json::set_text;
use crate::text::optional;
use crate::text::same;
use crate::text::texts;

verus! {

/// `params` with the device that the call is meant for, where that is another
/// than the one that takes the call. Only an object can name it.
pub fn with_target(params: serde_json::Value, target: &Option<String>) -> (aimed: serde_json::Value)
    ensures
        is_object(aimed) == is_object(params),
        *target is Some && is_object(params) ==> members(aimed) == members(params).insert(
            "targetDeviceId"@,
            Member::Text(target->0@),
        ),
        *target is None || !is_object(params) ==> aimed == params,
{
    match target {
        Some(device) => set_text(params, "targetDeviceId", device.as_str()),
        None => params,
    }
}

/// A call of the terminal.
#[derive(Debug)]
pub enum TerminalCall {
    Open { chat_id: String, cols: u16, rows: u16 },
    Subscribe { terminal_id: String, after_seq: u64 },
    Write { terminal_id: String, data: String },
    Resize { terminal_id: String, cols: u16, rows: u16 },
    Close { terminal_id: String },
}

/// What a call hands over, before it is aimed at a device.
pub open spec fn call_members(call: TerminalCall) -> Map<Seq<char>, Member> {
    match call {
        TerminalCall::Open { chat_id, cols, rows } => no_members().insert(
            "chatId"@,
            Member::Text(chat_id@),
        ).insert("cols"@, Member::Number(cols as nat)).insert("rows"@, Member::Number(rows as nat)),
        TerminalCall::Subscribe { terminal_id, after_seq } => no_members().insert("terminalId"@, Member::Text(terminal_id@)).insert(
            "afterSeq"@,
            Member::Number(after_seq as nat),
        ),
        TerminalCall::Write { terminal_id, data } => no_members().insert(
            "terminalId"@,
            Member::Text(terminal_id@),
        ).insert("data"@, Member::Text(data@)),
        TerminalCall::Resize { terminal_id, cols, rows } => no_members().insert("terminalId"@, Member::Text(terminal_id@)).insert(
            "cols"@,
            Member::Number(cols as nat),
        ).insert("rows"@, Member::Number(rows as nat)),
        TerminalCall::Close { terminal_id } => no_members().insert(
            "terminalId"@,
            Member::Text(terminal_id@),
        ),
    }
}

/// What a call hands to the engine, aimed at the device `target`.
pub fn call_params(call: &TerminalCall, target: &Option<String>) -> (params: serde_json::Value)
    ensures
        is_object(params),
        members(params) == match *target {
            Some(device) => call_members(*call).insert(
                "targetDeviceId"@,
                Member::Text(device@),
            ),
            None => call_members(*call),
        },
{
    let object = new_object();
    let params = match call {
        TerminalCall::Open { chat_id, cols, rows } => set_number(
            set_number(set_text(object, "chatId", chat_id.as_str()), "cols", *cols as u64),
            "rows",
            *rows as u64,
        ),
        TerminalCall::Subscribe { terminal_id, after_seq } => set_number(
            set_text(object, "terminalId", terminal_id.as_str()),
            "afterSeq",
            *after_seq,
        ),
        TerminalCall::Write { terminal_id, data } => set_text(
            set_text(object, "terminalId", terminal_id.as_str()),
            "data",
            data.as_str(),
        ),
        TerminalCall::Resize { terminal_id, cols, rows } => set_number(
            set_number(set_text(object, "terminalId", terminal_id.as_str()), "cols", *cols as u64),
            "rows",
            *rows as u64,
        ),
        TerminalCall::Close { terminal_id } => set_text(
            object,
            "terminalId",
            terminal_id.as_str(),
        ),
    };
    with_target(params, target)
}

/// What a frame of the stream means.
#[derive(Debug, Clone, Copy, PartialEq, Eq, Structural)]
pub enum FrameStep {
    /// Read it as an event of the terminal.
    Forward,
    /// The stream is over.
    End,
    /// Nothing.
    Skip,
}

/// What a frame of the stream means, by its name: output and the end of the
/// shell are events, an error ends the stream, anything else keeps it warm.
pub open spec fn meaning(event: Option<Seq<char>>) -> FrameStep {
    match event {
        Some(name) => if name == "data"@ || name == "exit"@ {
            FrameStep::Forward
        } else if name == "error"@ {
            FrameStep::End
        } else {
            FrameStep::Skip
        },
        None => FrameStep::Skip,
    }
}

/// What a frame of the stream means, by its name.
pub fn frame_step(event: &Option<String>) -> (step: FrameStep)
    ensures
        step == meaning(optional(*event)),
{
    match event {
        Some(name) => {
            if same(name.as_str(), "data") || same(name.as_str(), "exit") {
                FrameStep::Forward
            } else if same(name.as_str(), "error") {
                FrameStep::End
            } else {
                FrameStep::Skip
            }
        },
        None => FrameStep::Skip,
    }
}

/// A frame of the stream.
#[derive(Debug)]
pub struct Frame {
    pub event: Option<String>,
    pub data: String,
}

/// What a run of frames hands on, up to the one that ends the stream.
pub open spec fn handed_on(frames: Seq<Frame>) -> Seq<Seq<char>>
    decreases frames.len(),
{
    if frames.len() == 0 {
        Seq::empty()
    } else {
        let rest = handed_on(frames.drop_first());
        match meaning(optional(frames[0].event)) {
            FrameStep::Forward => seq![frames[0].data@] + rest,
            FrameStep::End => Seq::empty(),
            FrameStep::Skip => rest,
        }
    }
}

/// Whether one of the frames ends the stream.
pub open spec fn ends_stream(frames: Seq<Frame>) -> bool {
    exists|i: int|
        0 <= i < frames.len() && meaning(optional((#[trigger] frames[i]).event)) is End
}

/// Reads a run of frames: what they hand on, and whether the stream is over.
pub fn read_frames(frames: &Vec<Frame>) -> (read: (Vec<String>, bool))
    ensures
        texts(read.0@) == handed_on(frames@),
        read.1 == ends_stream(frames@),
{
    let mut events: Vec<String> = Vec::new();
    let mut k: usize = 0;
    assert(frames@.skip(0) =~= frames@);
    assert(texts(events@) + handed_on(frames@) =~= handed_on(frames@));
    while k < frames.len()
        invariant
            k <= frames@.len(),
            handed_on(frames@) == texts(events@) + handed_on(frames@.skip(k as int)),
            forall|i: int|
                0 <= i < k ==> !(meaning(optional((#[trigger] frames@[i]).event)) is End),
        decreases frames.len() - k,
    {
        let frame = &frames[k];
        let ghost before = texts(events@);
        assert(frames@.skip(k as int).drop_first() =~= frames@.skip(k + 1));
        match frame_step(&frame.event) {
            FrameStep::Forward => {
                events.push(frame.data.clone());
                assert(texts(events@) =~= before.push(frame.data@));
                assert(handed_on(frames@) =~= texts(events@) + handed_on(frames@.skip(k + 1)));
            },
            FrameStep::End => {
                assert(texts(events@) =~= handed_on(frames@));
                return (events, true);
            },
            FrameStep::Skip => {},
        }
        k += 1;
    }
    assert(texts(events@) =~= handed_on(frames@));
    (events, false)
}

/// A frame of data or of the end of the terminal is handed on, an error ends
/// the stream, and nothing else is heeded.
pub proof fn law_frames_mean_what_they_are_called(event: Option<Seq<char>>)
    ensures
        (meaning(event) is Forward) == (event == Some("data"@) || event == Some("exit"@)),
        (meaning(event) is End) == (event == Some("error"@)),
        event is None ==> meaning(event) is Skip,
{
    reveal_strlit("data");
    reveal_strlit("exit");
    reveal_strlit("error");
    assert("data"@.len() == 4 && "exit"@.len() == 4 && "error"@.len() == 5);
}

/// What is handed on of two stretches of a stream is what is handed on of the
/// first and then of the second, unless the first ends the stream: nothing
/// behind an end is handed on.
pub proof fn law_nothing_is_handed_on_behind_the_end(a: Seq<Frame>, b: Seq<Frame>)
    ensures
        ends_stream(a) ==> handed_on(a + b) == handed_on(a),
        !ends_stream(a) ==> handed_on(a + b) == handed_on(a) + handed_on(b),
        ends_stream(a + b) == (ends_stream(a) || ends_stream(b)),
    decreases a.len(),
{
    let whole = a + b;
    if a.len() == 0 {
        assert(whole =~= b);
        assert(handed_on(a) + handed_on(b) =~= handed_on(b));
    } else {
        let rest = a.drop_first();
        law_nothing_is_handed_on_behind_the_end(rest, b);
        assert(whole.drop_first() =~= rest + b);
        assert(whole[0] == a[0]);
        if meaning(optional(a[0].event)) is End {
            assert(ends_stream(a));
        } else {
            if ends_stream(a) {
                let i = choose|i: int|
                    0 <= i < a.len() && meaning(optional((#[trigger] a[i]).event)) is End;
                assert(rest[i - 1] == a[i]);
                assert(ends_stream(rest));
            }
            if ends_stream(rest) {
                let i = choose|i: int|
                    0 <= i < rest.len() && meaning(optional((#[trigger] rest[i]).event)) is End;
                assert(a[i + 1] == rest[i]);
                assert(ends_stream(a));
            }
            assert(handed_on(a + b) =~= if ends_stream(a) {
                handed_on(a)
            } else {
                handed_on(a) + handed_on(b)
            });
        }
    }
    if ends_stream(a) {
        let i = choose|i: int|
            0 <= i < a.len() && meaning(optional((#[trigger] a[i]).event)) is End;
        assert(whole[i] == a[i]);
    }
    if ends_stream(b) {
        let i = choose|i: int|
            0 <= i < b.len() && meaning(optional((#[trigger] b[i]).event)) is End;
        assert(whole[a.len() + i] == b[i]);
    }
    if ends_stream(whole) {
        let i = choose|i: int|
            0 <= i < whole.len() && meaning(optional((#[trigger] whole[i]).event)) is End;
        if i < a.len() {
            assert(a[i] == whole[i]);
        } else {
            assert(b[i - a.len()] == whole[i]);
        }
    }
}

/// A single frame hands its data on just where it is to be handed on.
pub proof fn law_a_frame_hands_its_data_on(frame: Frame)
    ensures
        meaning(optional(frame.event)) is Forward ==> handed_on(seq![frame]) == seq![frame.data@],
        !(meaning(optional(frame.event)) is Forward) ==> handed_on(seq![frame]).len() == 0,
{
    assert(seq![frame].drop_first() =~= Seq::empty());
    reveal_with_fuel(handed_on, 2);
    assert(seq![frame.data@] + Seq::<Seq<char>>::empty() =~= seq![frame.data@]);
}

/// A call to a terminal says what it is about: the chat it is opened for, or
/// the terminal's id, and with it the size, the data or where to go on.
pub proof fn law_a_call_says_what_it_is_about(call: TerminalCall)
    ensures
        call matches TerminalCall::Open { chat_id, cols, rows } ==> call_members(call)["chatId"@]
            == Member::Text(chat_id@) && call_members(call)["cols"@] == Member::Number(cols as nat)
            && call_members(call)["rows"@] == Member::Number(rows as nat),
        call matches TerminalCall::Subscribe { terminal_id, after_seq } ==> call_members(
            call,
        )["terminalId"@] == Member::Text(terminal_id@) && call_members(call)["afterSeq"@]
            == Member::Number(after_seq as nat),
        call matches TerminalCall::Write { terminal_id, data } ==> call_members(call)["terminalId"@]
            == Member::Text(terminal_id@) && call_members(call)["data"@] == Member::Text(data@),
        call matches TerminalCall::Resize { terminal_id, cols, rows } ==> call_members(
            call,
        )["terminalId"@] == Member::Text(terminal_id@) && call_members(call)["cols"@]
            == Member::Number(cols as nat) && call_members(call)["rows"@] == Member::Number(
            rows as nat,
        ),
        call matches TerminalCall::Close { terminal_id } ==> call_members(call)["terminalId"@]
            == Member::Text(terminal_id@),
{
    reveal_strlit("chatId");
    reveal_strlit("terminalId");
    reveal_strlit("cols");
    reveal_strlit("rows");
    reveal_strlit("afterSeq");
    reveal_strlit("data");
    assert("chatId"@.len() == 6 && "terminalId"@.len() == 10 && "afterSeq"@.len() == 8);
    assert("cols"@.len() == 4 && "rows"@.len() == 4 && "data"@.len() == 4);
    assert("cols"@[0] == 'c' && "rows"@[0] == 'r');
}

} // verus!
