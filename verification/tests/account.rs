use zeron::account::{
    agents_listed, authorized, begin_refresh, conversations_listed, poll, Account, Authorized,
    AuthorizedAction, AuthorizedEvent, Credentials, Failure, Outcome, PollAction, PollEvent,
    RefreshStep, RestoreStep, Token,
};
use zeron::agent_dialog::{
    creation_finished, creation_outcome, AgentDialog, AgentTemplate, CreatedAgent, Submission,
};
use zeron::conversation::{
    begin_action, block, conversation_error, finish_action, hand_back, pending_for,
    reply_received, selected_conversation, send, set_conversation_error, steer, take_over,
    transcript_arrived, transcript_failed, transcript_fetched, unblock, watch_transcript,
    ActionResult, ActionStep, ConversationAction, ConversationReply, ConversationRequest,
    ReplyStep, WatchStep,
};
use zeron::keiki::{
    AgentSummary, ConversationDetail, ConversationMessage, ConversationTakeover, KeikiConversation,
    KeikiConversationPending, MessageDirection, SessionStatus, Timestamp,
};

fn token(text: &str) -> Token {
    Token {
        access_token: text.into(),
    }
}

fn credentials() -> Credentials {
    Credentials {
        client_id: "client".into(),
        refresh_token: "SECRET-REDACTED".into(),
    }
}

fn refused(status: u16, authentication: bool, forgotten: bool) -> Failure {
    Failure::Api {
        status,
        message: "message".into(),
        text: "text".into(),
        authentication,
        invalid_refresh_token: forgotten,
    }
}

fn signed_in() -> Account {
    let mut account = Account::new();
    account.has_client = true;
    account.complete_callback(Ok((token("t"), credentials())));
    account
}

fn now() -> Timestamp {
    Timestamp { secs: 0, nanos: 0 }
}

fn detail() -> ConversationDetail {
    ConversationDetail {
        messages: vec![ConversationMessage {
            id: "m".into(),
            direction: MessageDirection::Outbound,
            content: "hello".into(),
            created_at: "2026-01-01T00:00:00Z".into(),
            internal: false,
            staff_name: None,
        }],
    }
}

fn takeover() -> ConversationTakeover {
    ConversationTakeover {
        expires_at: "2026-01-01T00:00:00Z".into(),
    }
}

#[test]
fn a_refused_token_is_renewed_once() {
    let operation = "Keiki agents";
    let (state, action) = authorized::<u32>(
        operation,
        Authorized::Requesting,
        AuthorizedEvent::Requested(Outcome::Refused(refused(401, true, false))),
    );
    assert!(matches!(action, AuthorizedAction::Refresh));
    let (state, action) = authorized::<u32>(
        operation,
        state,
        AuthorizedEvent::Refreshed(Outcome::Answered((token("new"), credentials()))),
    );
    assert!(matches!(action, AuthorizedAction::Persist));
    let (state, action) =
        authorized::<u32>(operation, state, AuthorizedEvent::Persisted(Ok(())));
    assert!(matches!(action, AuthorizedAction::Store { .. }));
    let (state, action) = authorized::<u32>(operation, state, AuthorizedEvent::Stored(Ok(())));
    assert!(
        matches!(action, AuthorizedAction::Retry { access_token } if access_token == "new")
    );
    let (state, action) = authorized::<u32>(
        operation,
        state,
        AuthorizedEvent::Requested(Outcome::Refused(refused(401, true, false))),
    );
    assert!(matches!(action, AuthorizedAction::Fail(_)));
    assert!(matches!(state, Authorized::Done));
}

#[test]
fn a_token_that_cannot_be_renewed_ends_the_session() {
    let (_, action) = authorized::<u32>(
        "Keiki agents",
        Authorized::Refreshing,
        AuthorizedEvent::Refreshed(Outcome::TaskFailed("cancelled".into())),
    );
    match action {
        AuthorizedAction::ExpireAndFail { message, failure } => {
            assert_eq!(message, "Keiki session expired");
            assert_eq!(failure.text(), "Keiki token refresh: cancelled");
        }
        other => panic!("went on: {other:?}"),
    }
    let (_, action) = authorized::<u32>(
        "Keiki agents",
        Authorized::Requesting,
        AuthorizedEvent::Stored(Ok(())),
    );
    assert!(matches!(action, AuthorizedAction::Ignore));
}

#[test]
fn stored_credentials_sign_the_account_in() {
    let mut account = Account::new();
    account.has_client = true;
    account.start();
    assert!(matches!(
        account.credentials_read(Some(credentials())),
        RestoreStep::Refresh(_)
    ));
    assert!(matches!(
        account.restore_finished(credentials(), Outcome::Answered(token("t"))),
        RestoreStep::Poll
    ));
    assert_eq!(account.status, SessionStatus::SignedIn);
    assert!(account.is_ready());
    assert_eq!(account.revocable_token(), Some("t"));
    assert!(matches!(
        account.restore_finished(
            credentials(),
            Outcome::Refused(refused(400, false, true))
        ),
        RestoreStep::Expire
    ));
    assert!(matches!(
        account.restore_finished(credentials(), Outcome::TaskFailed("gone".into())),
        RestoreStep::Stop
    ));
    assert_eq!(account.error.as_deref(), Some("gone"));
    assert!(matches!(account.credentials_read(None), RestoreStep::Stop));
    assert_eq!(account.status, SessionStatus::SignedOut);
}

#[test]
fn a_sign_in_waits_for_its_callback() {
    let mut account = Account::new();
    account.has_client = true;
    account.begin_sign_in();
    account.sign_in_opened(3);
    assert_eq!(account.handle_callback(), Some(3));
    assert_eq!(account.handle_callback(), None);
    assert!(!account.complete_callback(Err(refused(500, false, false))));
    assert_eq!(account.error.as_deref(), Some("text"));
    assert_eq!(
        account.sign_in_failed(&Failure::Local {
            message: "no browser".into()
        }),
        "Keiki sign in failed: no browser"
    );
    account.renew(token("u"), credentials());
    assert_eq!(account.revocable_token(), Some("u"));
}

#[test]
fn the_account_is_polled_while_signed_in() {
    assert_eq!(
        poll(PollEvent::Woke {
            signed_in: Some(true)
        }),
        PollAction::Refresh
    );
    assert_eq!(poll(PollEvent::Woke { signed_in: None }), PollAction::Stop);
    assert_eq!(
        poll(PollEvent::Refreshed),
        PollAction::Wait { seconds: 15 }
    );
    assert_eq!(
        poll(PollEvent::RefreshFailed {
            signed_in: Some(true)
        }),
        PollAction::Wait { seconds: 10 }
    );
}

#[test]
fn actions_start_on_the_selected_conversation() {
    let account = signed_in();
    let conversation = Some(KeikiConversation::new("keiki-conv:a:1".into()));
    assert_eq!(
        selected_conversation(&conversation, &account).as_deref(),
        Some("keiki-conv:a:1")
    );
    for start in [
        take_over(&conversation, &account),
        hand_back(&conversation, &account),
        block(&conversation, &account),
        unblock(&conversation, &account),
    ] {
        assert!(!start.unwrap().clears_composer);
    }
    assert!(send(&conversation, &account, "hi".into())
        .unwrap()
        .clears_composer);
    assert_eq!(
        steer(&conversation, &account, "hi".into())
            .unwrap()
            .text
            .as_deref(),
        Some("hi")
    );
    assert!(take_over(&None, &account).is_none());
    assert!(take_over(&conversation, &Account::new()).is_none());
    assert_eq!(
        pending_for(ConversationAction::Unblock),
        KeikiConversationPending::Block
    );
}

#[test]
fn actions_ask_the_service() {
    match begin_action(
        "keiki-conv:a:1",
        ConversationAction::Unblock,
        None,
        true,
        true,
    ) {
        ActionStep::Ask {
            operation,
            locator,
            request,
        } => {
            assert_eq!(operation, "Keiki block update");
            assert_eq!(locator.identity, "1");
            assert!(matches!(request, ConversationRequest::SetBlocked(false)));
        }
        other => panic!("not asked: {other:?}"),
    }
    assert!(matches!(
        begin_action("keiki-conv:a:1", ConversationAction::Send, None, false, true),
        ActionStep::Stop
    ));
    assert!(matches!(
        begin_action("keiki-conv:a:1", ConversationAction::Send, None, true, false),
        ActionStep::Fail("Keiki credentials are unavailable")
    ));
    assert!(matches!(
        begin_action("local", ConversationAction::Send, None, true, true),
        ActionStep::Fail("The selected Keiki conversation is invalid")
    ));
    assert!(matches!(
        reply_received(Ok(ConversationReply::HandedBack)),
        ReplyStep::Done(Ok(ActionResult::HandBack))
    ));
    assert!(matches!(
        reply_received(Ok(ConversationReply::Steered("ok".into()))),
        ReplyStep::Fetch(_)
    ));
}

#[test]
fn results_reach_the_conversation_on_screen() {
    let chat = "keiki-conv:a:1";
    let selected = Some(chat.to_string());
    let mut conversation = Some(KeikiConversation::new(chat.into()));
    let result = transcript_fetched(ConversationReply::Sent(takeover()), Some(detail()));
    let effects = finish_action(
        &mut conversation,
        &selected,
        chat,
        ConversationAction::Send,
        Ok(result),
        true,
        now(),
    );
    assert!(effects.changed && effects.clear_composer);
    assert_eq!(effects.transcript.unwrap().len(), 1);
    assert!(conversation.as_ref().unwrap().takeover.is_some());
    // Someone else holds the conversation: the takeover is over.
    let effects = finish_action(
        &mut conversation,
        &selected,
        chat,
        ConversationAction::Send,
        Err(refused(409, false, false)),
        true,
        now(),
    );
    assert!(effects.changed && !effects.clear_composer);
    assert!(conversation.as_ref().unwrap().takeover.is_none());
    assert_eq!(
        conversation.as_ref().unwrap().error.as_deref(),
        Some("message")
    );
    let effects = finish_action(
        &mut conversation,
        &None,
        chat,
        ConversationAction::Block,
        Ok(ActionResult::Blocked(true)),
        true,
        now(),
    );
    assert!(!effects.changed);
    assert_eq!(conversation_error(&refused(500, false, false)), "message");
    assert!(set_conversation_error(
        &mut conversation,
        &selected,
        chat,
        "late".into()
    ));
    assert!(transcript_arrived(&selected, chat, &detail(), now()).is_some());
    assert!(transcript_arrived(&None, chat, &detail(), now()).is_none());
    assert!(transcript_failed(&mut conversation, chat, "offline".into()));
    assert!(matches!(
        watch_transcript(chat, true),
        WatchStep::Fetch(locator) if locator.identity == "1"
    ));
    assert!(matches!(watch_transcript(chat, false), WatchStep::Stop));
}

#[test]
fn agents_are_made_from_templates() {
    assert!(AgentDialog::open(SessionStatus::SignedOut).is_none());
    let mut dialog = AgentDialog::open(SessionStatus::SignedIn).unwrap();
    assert!(matches!(dialog.submit(), Submission::Refused));
    dialog.templates_loaded(Ok(vec![AgentTemplate {
        id: "support".into(),
        name: "Support".into(),
        emoji: "🌸".into(),
        blurb: "Answers".into(),
    }]));
    assert!(dialog.select_template(0));
    assert!(dialog.can_create());
    dialog.name = "  Ada ".into();
    match dialog.submit() {
        Submission::Create(create) => {
            assert_eq!(create.template, "support");
            assert_eq!(create.name.as_deref(), Some("Ada"));
            assert_eq!(create.line_number, None);
        }
        other => panic!("not created: {other:?}"),
    }
    assert!(matches!(dialog.submit(), Submission::Nothing));
    let mut dialog = Some(dialog);
    let unconfirmed = creation_outcome(
        Ok(CreatedAgent {
            id: "a".into(),
            ok: false,
            missing_secrets: vec![],
        }),
        Ok(()),
    );
    let effects = creation_finished(&mut dialog, unconfirmed);
    assert!(effects.select_space.is_none());
    assert_eq!(
        dialog.as_ref().unwrap().error.as_deref(),
        Some("Keiki did not confirm that the agent was created")
    );
    let created = creation_outcome(
        Ok(CreatedAgent {
            id: "a".into(),
            ok: true,
            missing_secrets: vec!["KEY".into(), "TOKEN".into()],
        }),
        Ok(()),
    );
    let effects = creation_finished(&mut dialog, created);
    assert_eq!(effects.select_space.as_deref(), Some("keiki-agent:a"));
    assert_eq!(
        effects.notice.as_deref(),
        Some("Agent created. Add these secrets on onkeiki.com before it can run: KEY, TOKEN.")
    );
    assert!(dialog.is_none());
}

#[test]
fn rows_are_fetched_agents_first() {
    let signed_out = Account::new();
    let mut account = Account::new();
    account.has_client = true;
    account.renew(token("access"), credentials());
    let refusal = |step| match step {
        RefreshStep::Fail(failure) => failure.text(),
        other => panic!("went on: {other:?}"),
    };
    assert_eq!(
        refusal(begin_refresh(&signed_out)),
        "Keiki credentials are unavailable"
    );
    assert!(matches!(
        begin_refresh(&account),
        RefreshStep::ListAgents {
            operation: "Keiki agent list"
        }
    ));
    assert_eq!(
        refusal(agents_listed(&signed_out, Ok(vec![]))),
        "Keiki credentials are unavailable"
    );
    let down = || Failure::Local {
        message: "down".into(),
    };
    assert_eq!(refusal(agents_listed(&account, Err(down()))), "down");
    let agent = AgentSummary {
        id: "a".into(),
        name: "Agent".into(),
        created_at: "2026-01-01T00:00:00Z".into(),
    };
    let RefreshStep::ListConversations { operation, agents } =
        agents_listed(&account, Ok(vec![agent]))
    else {
        panic!("no conversations are asked for");
    };
    assert_eq!(operation, "Keiki conversation list");
    let now = Timestamp { secs: 0, nanos: 0 };
    assert_eq!(
        refusal(conversations_listed(&agents, Err(down()), now)),
        "down"
    );
    let RefreshStep::Apply { spaces, chats } = conversations_listed(&agents, Ok(vec![]), now)
    else {
        panic!("no rows are shown");
    };
    assert_eq!(spaces.len(), 1);
    assert_eq!(chats.len(), 0);
}
