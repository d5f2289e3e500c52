use zeron::avatars::ChatIndicator;
use zeron::keiki::Timestamp;
use zeron::paths::{extension_is, file_name, join_path, parent};
use zeron::text::{decimal_string, is_lexically_before, join, parse_u64, split_once, trim};
use zeron::text_map::TextMap;
use zeron::threads::{peer_threads, PeerChat, PeerThreads};
use zeron::transport::{
    call_params, frame_step, read_frames, with_target, Frame, FrameStep, TerminalCall,
};

fn frame(event: Option<&str>, data: &str) -> Frame {
    Frame {
        event: event.map(str::to_string),
        data: data.into(),
    }
}

#[test]
fn calls_are_aimed_at_other_devices() {
    let here = call_params(
        &TerminalCall::Open {
            chat_id: "c".into(),
            cols: 80,
            rows: 24,
        },
        &None,
    );
    assert_eq!(
        here.to_string(),
        r#"{"chatId":"c","cols":80,"rows":24}"#
    );
    let there = call_params(
        &TerminalCall::Write {
            terminal_id: "t".into(),
            data: "aGk=".into(),
        },
        &Some("d".into()),
    );
    assert_eq!(
        there.to_string(),
        r#"{"data":"aGk=","targetDeviceId":"d","terminalId":"t"}"#
    );
    let subscribe = call_params(
        &TerminalCall::Subscribe {
            terminal_id: "t".into(),
            after_seq: 9,
        },
        &None,
    );
    assert_eq!(
        subscribe.to_string(),
        r#"{"afterSeq":9,"terminalId":"t"}"#
    );
    let resize = call_params(
        &TerminalCall::Resize {
            terminal_id: "t".into(),
            cols: 1,
            rows: 2,
        },
        &None,
    );
    assert_eq!(
        resize.to_string(),
        r#"{"cols":1,"rows":2,"terminalId":"t"}"#
    );
    let close = call_params(
        &TerminalCall::Close {
            terminal_id: "t".into(),
        },
        &None,
    );
    assert_eq!(close.to_string(), r#"{"terminalId":"t"}"#);
    let list = serde_json::Value::Array(vec![]);
    assert_eq!(with_target(list.clone(), &Some("d".into())), list);
}

#[test]
fn frames_are_handed_on_until_one_ends_the_stream() {
    assert_eq!(frame_step(&Some("data".into())), FrameStep::Forward);
    assert_eq!(frame_step(&Some("exit".into())), FrameStep::Forward);
    assert_eq!(frame_step(&Some("ping".into())), FrameStep::Skip);
    assert_eq!(frame_step(&None), FrameStep::Skip);
    assert_eq!(frame_step(&Some("error".into())), FrameStep::End);
    let frames = vec![
        frame(Some("data"), "one"),
        frame(Some("ping"), ""),
        frame(Some("exit"), "two"),
        frame(Some("error"), ""),
        frame(Some("data"), "late"),
    ];
    let (events, over) = read_frames(&frames);
    assert_eq!(events, ["one", "two"]);
    assert!(over);
    assert_eq!(read_frames(&vec![frame(None, "x")]), (vec![], false));
}

fn thread(id: &str, source: &str, secs: Option<i64>, ended: bool) -> PeerChat {
    PeerChat {
        chat_id: id.into(),
        space_id: Some("keiki-agent:a".into()),
        last_message_at: secs.map(|secs| Timestamp { secs, nanos: 0 }),
        source_agent_id: source.into(),
        target_agent_id: "a".into(),
        title: "Ask".into(),
        target_name: None,
        status: ChatIndicator::Working,
        ago: "1m".into(),
        ended,
    }
}

#[test]
fn threads_come_freshest_first() {
    let mut elsewhere = thread("x", "c", Some(9), false);
    elsewhere.space_id = Some("keiki-agent:z".into());
    let mut own = thread("own", "a", Some(2), true);
    own.space_id = None;
    let chats = vec![
        thread("silent", "b", None, false),
        elsewhere,
        thread("old", "b", Some(1), false),
        own,
        thread("new", "b", Some(3), false),
    ];
    let space = Some("keiki-agent:a".to_string());
    match peer_threads(&chats, &space, &Some("own".into())) {
        PeerThreads::Rows(rows) => {
            let ids: Vec<&str> = rows.iter().map(|row| row.chat_id.as_str()).collect();
            assert_eq!(ids, ["new", "own", "old", "silent"]);
            assert_eq!(rows[0].title, "Ask ↔ Agent");
            assert_eq!(rows[0].caption, "Working · 1m");
            assert!(rows[0].can_end && !rows[0].selected);
            assert_eq!(rows[1].caption, "Ended · 1m");
            assert!(!rows[1].can_end && rows[1].selected);
        }
        other => panic!("no rows: {other:?}"),
    }
    assert!(matches!(
        peer_threads(&chats, &None, &None),
        PeerThreads::Empty("Select an agent to see its conversations")
    ));
    assert!(matches!(
        peer_threads(&vec![], &space, &None),
        PeerThreads::Empty("No agent-to-agent conversations yet")
    ));
}

#[test]
fn paths_come_apart() {
    assert_eq!(file_name("/opt/zeron/"), Some("zeron"));
    assert_eq!(file_name("/"), None);
    assert_eq!(parent("/opt/zeron").as_deref(), Some("/opt"));
    assert_eq!(parent("/"), None);
    assert_eq!(join_path("/opt", "zeron"), "/opt/zeron");
    assert!(extension_is("Keiki.app", "app"));
    assert!(!extension_is(".app", "app"));
}

#[test]
fn texts_are_read_and_written() {
    assert_eq!(decimal_string(1_204), "1204");
    assert_eq!(decimal_string(0), "0");
    assert_eq!(parse_u64("+7"), Some(7));
    assert_eq!(parse_u64("18446744073709551616"), None);
    assert_eq!(parse_u64(""), None);
    assert_eq!(trim("\u{2003}a b\n"), "a b");
    assert_eq!(split_once("a:b:c", ':'), Some(("a", "b:c")));
    assert_eq!(join(&vec!["a".into(), "b".into()], ", "), "a, b");
    assert!(is_lexically_before("a", "ab"));
    assert!(is_lexically_before("Z", "a"));
    assert!(!is_lexically_before("a", "a"));
    let mut map: TextMap<u32> = TextMap::new();
    assert_eq!(map.insert("a", 1), None);
    assert_eq!(map.insert("a", 2), Some(1));
    assert_eq!(map.get("a"), Some(&2));
    assert_eq!(map.get("b"), None);
}
