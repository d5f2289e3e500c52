use zeron::avatars::{AvatarState, ChatIndicator};
use zeron::keiki::{KeikiConversation, KeikiConversationPending, SessionStatus, Timestamp};
use zeron::keymap::{bindings, valid_or_default, Keymap, KeymapDefaults};
use zeron::nav::{NavEntry, NavHistory, Route, SettingsSection};
use zeron::panels::{
    add_menu, panel_key, resolve_active, subagent_runs, surface_choices, tab_strip, ChatPanels, RightPane, RightSurface,
    SessionPanels, SurfaceChoice, SurfaceEffect, SurfaceRow, TabMark, TabPlace,
};
use zeron::rows::{Chat, MessagePart, MessageRole, MessageStatus};
use zeron::shell::{
    activity, demo_echo, demo_upload_devices, drawer_focus, focus_lost, forced_gate, frame, initial_organization,
    initial_route, jump_target, main_outlet, next_step, pending_path, ping, shortcut_acts, ticks, BootDialog, ConnectionStatus, Focus, FrameState, GatePhase, Outlet,
    PingSettings, SessionActivity, Shell, Shortcut, SidebarOrganization, Sound, SplashPhase, StateStep,
    DEMO_UPLOAD_TEXT, DEMO_UPLOAD_TOTAL,
};
use zeron::sidebar::{
    account_identity, account_rows, archive_selected_chat, badge, block_row_acts, chat_menu_rows, chat_row,
    chat_row_height, chat_title, copy_harness_session_id, copy_menu_rows, copyable_session_id, delete_chat, delete_warning,
    empty_state_action_label, empty_state_variant, find_chat, keiki_menu_is_selected,
    mutation_notice, mutation_params, organization_rows, prune_pinned_keiki_conversations, rename_mutation, resort, row_hovered, set_chat_archived,
    sidebar_key_order_changed, status_strip, toggle_keiki_conversation_pin, user_menu_rows,
    view_keiki_conversation, viewed_conversation, AccountRow,
    ChatMenuRow, EmptyStateVariant, Indicator, KeikiSessionInfo, Mutation, Organization, RowCorner,
    RowGlyph, RowState, RowTone, StatusStrip,
};
use zeron::titlebar::{
    caption_action, caption_buttons_width, cluster_buttons_start, filter_side, fullscreen_changed,
    resolve_linux_captions, right_caption_inset, titlebar_clicked, titlebar_cluster_start,
    titlebar_moved, CaptionAction, TitlebarClick, WindowButton, CLUSTER_BUTTONS_WIDTH,
    TITLEBAR_ACTION_EDGE_INSET, TITLEBAR_ACTION_SLOT_WIDTH, TITLEBAR_CONTROL_GAP,
    TITLEBAR_GROUP_GAP,
};

#[test]
fn account_identity_signed_out() {
    assert_eq!(
        account_identity(SessionStatus::SignedOut, None),
        (
            "Not signed in".into(),
            Some("Keiki".into()),
            "Keiki account".into()
        )
    );
}

#[test]
fn account_identity_loading() {
    assert_eq!(
        account_identity(SessionStatus::Loading, None),
        ("Signing in…".into(), None, "Keiki account".into())
    );
}

#[test]
fn account_identity_signed_in_with_name_and_org() {
    let session = KeikiSessionInfo {
        display_name: Some("Ada Lovelace".into()),
        email: Some("ada@example.com".into()),
        active_org_name: Some("Analytical Engines".into()),
        role: Some("owner".into()),
        ..KeikiSessionInfo::default()
    };
    assert_eq!(
        account_identity(SessionStatus::SignedIn, Some(&session)),
        (
            "Ada Lovelace".into(),
            Some("Analytical Engines".into()),
            "ada@example.com".into()
        )
    );
}

#[test]
fn account_identity_signed_in_with_email_only() {
    let session = KeikiSessionInfo {
        display_name: None,
        email: Some("ada@example.com".into()),
        active_org_name: None,
        role: None,
        ..KeikiSessionInfo::default()
    };
    assert_eq!(
        account_identity(SessionStatus::SignedIn, Some(&session)),
        (
            "ada@example.com".into(),
            Some("ada@example.com".into()),
            "ada@example.com".into()
        )
    );
}

#[test]
fn account_identity_signed_in_without_organization() {
    let session = KeikiSessionInfo {
        display_name: Some("Ada Lovelace".into()),
        email: Some("ada@example.com".into()),
        active_org_name: None,
        role: Some("owner".into()),
        ..KeikiSessionInfo::default()
    };
    assert_eq!(
        account_identity(SessionStatus::SignedIn, Some(&session)),
        (
            "Ada Lovelace".into(),
            Some("ada@example.com".into()),
            "ada@example.com".into()
        )
    );
}

#[test]
fn account_identity_signed_in_before_session_info_arrives() {
    assert_eq!(
        account_identity(SessionStatus::SignedIn, None),
        ("Keiki account".into(), None, "Keiki account".into())
    );
}

fn keiki_chat(id: &str) -> Chat {
    Chat {
        id: id.into(),
        device_id: "device".into(),
        title: None,
        archived: false,
        cwd: None,
        branch: None,
        checkout_id: None,
        last_message_preview: None,
        last_message_at: None,
        created_at: Timestamp {
            secs: 1_704_067_200,
            nanos: 0,
        },
        harness_session_id: None,
        harness_session_cwd: None,
        space_id: None,
        last_seen_at: None,
        room_gen: None,
    }
}

#[test]
fn prune_pinned_keiki_conversations_drops_stale_ids() {
    let mut pinned = vec![
        "keiki-conv:agent:stale".to_string(),
        "keiki-conv:agent:live".to_string(),
    ];
    let chats = vec![keiki_chat("keiki-conv:agent:live")];

    prune_pinned_keiki_conversations(&mut pinned, &chats);

    assert_eq!(pinned, vec!["keiki-conv:agent:live"]);
}

#[test]
fn prune_pinned_keiki_conversations_keeps_live_ids() {
    let mut pinned = vec!["keiki-conv:agent:live".to_string()];
    let chats = vec![keiki_chat("keiki-conv:agent:live")];

    prune_pinned_keiki_conversations(&mut pinned, &chats);

    assert_eq!(pinned, vec!["keiki-conv:agent:live"]);
}

#[test]
fn prune_pinned_keiki_conversations_skips_empty_keiki_snapshot() {
    let mut pinned = vec![
        "keiki-conv:agent:live".to_string(),
        "keiki-conv:other:also-live".to_string(),
    ];
    let chats = vec![keiki_chat("zeron-chat")];

    prune_pinned_keiki_conversations(&mut pinned, &chats);

    assert_eq!(
        pinned,
        vec![
            "keiki-conv:agent:live".to_string(),
            "keiki-conv:other:also-live".to_string()
        ]
    );
}

#[test]
fn titlebar_cluster_matches_zeron_window_controls() {
    // The cluster clears the traffic lights, and reclaims the inset when
    // fullscreen hides them.
    assert_eq!(titlebar_cluster_start(false) as f32, 88.0);
    assert_eq!(titlebar_cluster_start(true) as f32, 12.0);
    assert_eq!(TITLEBAR_CONTROL_GAP as f32, 2.0);
    assert_eq!(TITLEBAR_GROUP_GAP as f32, 8.0);
    assert_eq!(CLUSTER_BUTTONS_WIDTH as f32, 82.0);
    assert_eq!(TITLEBAR_ACTION_SLOT_WIDTH as f32, 32.0);
    assert_eq!(TITLEBAR_ACTION_EDGE_INSET as f32, 6.0);
}

#[test]
fn windows_caption_controls_reserve_titlebar_space() {
    let right_padding = |windows, captions, base: f32| {
        base + right_caption_inset(windows, captions) as f32
    };
    assert_eq!(right_padding(true, 0, 16.0), 124.0);
    assert_eq!(right_padding(false, 0, 16.0), 16.0);
}

#[test]
fn linux_caption_controls_reserve_titlebar_space() {
    let right_padding = |windows, captions, base: f32| {
        base + right_caption_inset(windows, captions) as f32
    };
    // 24px buttons on the cluster's 2px rhythm.
    assert_eq!(caption_buttons_width(0) as f32, 0.0);
    assert_eq!(caption_buttons_width(1) as f32, 24.0);
    assert_eq!(caption_buttons_width(3) as f32, 76.0);
    // Right-side captions (the Linux default: minimize,maximize,close):
    // content pads past the 10px edge inset + the button row.
    assert_eq!(right_padding(false, 3, 16.0), 16.0 + 10.0 + 76.0);
    // GNOME-vanilla ":close" — a single right button.
    assert_eq!(right_padding(false, 1, 16.0), 16.0 + 10.0 + 24.0);
    // Left-side captions ("close:…" layouts) shift the app cluster right
    // by the button row + one 2px gap.
    assert_eq!(cluster_buttons_start(false, false, 0) as f32, 10.0);
    assert_eq!(
        cluster_buttons_start(false, false, 1) as f32,
        10.0 + 24.0 + 2.0
    );
    assert_eq!(
        cluster_buttons_start(false, false, 3) as f32,
        10.0 + 76.0 + 2.0
    );
    // macOS ignores the Linux caption count entirely.
    assert_eq!(cluster_buttons_start(true, false, 3) as f32, 88.0);
}

#[test]
fn session_panels_default_closed_per_chat() {
    let panels = SessionPanels::default();
    assert_eq!(panels.get("a"), ChatPanels::default());
    // Everything closed until explicitly opened (user request — the
    // brief default-open popped the pane on every visited session).
    assert!(!panels.get("a").terminal_open);
    assert!(!panels.get("a").changes_open);
    assert_eq!(panels.get("a").right_active, RightSurface::Picker);
    // With no selected chat there is no session to close.
    assert!(!panels.get("").terminal_open);
}

#[test]
fn session_panels_flags_are_chat_scoped() {
    let mut panels = SessionPanels::default();
    // Opening the terminal in chat A opens it ONLY in chat A.
    assert!(panels.toggle_terminal("a"));
    assert!(panels.get("a").terminal_open);
    assert!(!panels.get("b").terminal_open);
    assert!(!panels.get("").terminal_open);
    // Changes pane in B is independent of A's terminal.
    assert!(panels.toggle_changes("b"));
    assert!(panels.get("b").changes_open);
    assert!(!panels.get("b").terminal_open);
    assert!(!panels.get("a").changes_open);
    // Switching back to A restores A's state untouched.
    assert!(panels.get("a").terminal_open);
    // Toggling off round-trips.
    assert!(!panels.toggle_terminal("a"));
    assert!(!panels.get("a").terminal_open);
}

#[test]
fn session_panels_both_flags_coexist_per_chat() {
    let mut panels = SessionPanels::default();
    panels.toggle_terminal("a");
    panels.toggle_changes("a");
    assert_eq!(
        panels.get("a"),
        ChatPanels {
            terminal_open: true,
            changes_open: true,
            ..Default::default()
        }
    );
    assert_eq!(panels.get("b"), ChatPanels::default());
    // The right pane round-trips back closed.
    assert!(!panels.toggle_changes("a"));
    assert!(!panels.get("a").changes_open);
}

#[test]
fn session_panels_update_tracks_right_surfaces() {
    let mut panels = SessionPanels::default();
    panels.update("a", |p| ChatPanels {
        right_active: RightSurface::Diff(3),
        ..p
    });
    assert_eq!(panels.get("a").right_active, RightSurface::Diff(3));
    // Other chats keep the picker default.
    assert_eq!(panels.get("b").right_active, RightSurface::Picker);
    panels.update("a", |p| ChatPanels {
        right_active: RightSurface::Terminal(7),
        ..p
    });
    assert_eq!(panels.get("a").right_active, RightSurface::Terminal(7));
}

#[test]
fn sidebar_chat_height_tracks_visible_metadata() {
    assert_eq!(chat_row_height(false, false) as f32, 45.0);
    assert_eq!(chat_row_height(true, false) as f32, 61.0);
    assert_eq!(chat_row_height(false, true) as f32, 63.0);
    assert_eq!(chat_row_height(true, true) as f32, 63.0);
}

fn keys(list: &[(&str, f32)]) -> Vec<String> {
    list.iter().map(|(k, _)| k.to_string()).collect()
}

#[test]
fn sidebar_height_change_is_not_a_reorder() {
    let open = keys(&[("first-group", 105.0), ("second-group", 240.0)]);
    let collapsed = keys(&[("first-group", 40.0), ("second-group", 240.0)]);
    assert!(!sidebar_key_order_changed(&open, &collapsed));

    let reordered = keys(&[("second-group", 240.0), ("first-group", 40.0)]);
    assert!(sidebar_key_order_changed(&collapsed, &reordered));
}

fn chat(id: &str) -> NavEntry {
    NavEntry::Chat(id.to_string())
}

#[test]
fn nav_history_starts_with_nothing_to_walk() {
    let nav = NavHistory::new(chat(""));
    assert!(!nav.can_back());
    assert!(!nav.can_forward());
    assert_eq!(*nav.current(), chat(""));
}

#[test]
fn nav_push_then_back_and_forward() {
    let mut nav = NavHistory::new(chat("a"));
    nav.push(chat("b"));
    nav.push(NavEntry::Settings(SettingsSection::Appearance));
    assert!(nav.can_back());
    assert!(!nav.can_forward());

    // Back walks toward the oldest entry without dropping anything.
    assert_eq!(
        nav.back(),
        Some(chat("b")),
        "back lands on the previous route"
    );
    assert_eq!(nav.back(), Some(chat("a")));
    assert!(!nav.can_back());
    assert!(nav.can_forward());
    assert_eq!(nav.back(), None, "past the oldest entry is a no-op");

    // Forward retraces the same path.
    assert_eq!(nav.forward(), Some(chat("b")));
    assert_eq!(
        nav.forward(),
        Some(NavEntry::Settings(SettingsSection::Appearance))
    );
    assert!(!nav.can_forward());
    assert_eq!(nav.forward(), None);
}

#[test]
fn nav_push_dedups_the_current_route() {
    let mut nav = NavHistory::new(chat("a"));
    nav.push(chat("a"));
    nav.push(chat("a"));
    assert_eq!(nav.len(), 1, "re-selecting the current route never stacks");
}

#[test]
fn nav_push_truncates_the_forward_branch() {
    // a → b → c, back to a, then push d: the b/c branch is gone (browser
    // semantics).
    let mut nav = NavHistory::new(chat("a"));
    nav.push(chat("b"));
    nav.push(chat("c"));
    nav.back();
    nav.back();
    assert_eq!(*nav.current(), chat("a"));
    assert!(nav.can_forward());
    nav.push(chat("d"));
    assert!(!nav.can_forward(), "the old branch is unreachable");
    assert_eq!(nav.len(), 2);
    assert_eq!(nav.back(), Some(chat("a")));
    assert_eq!(nav.forward(), Some(chat("d")));
}

#[test]
fn nav_replace_swaps_in_place() {
    // The boot auto-select replaces the untouched empty-state entry, so Back
    // stays disabled after landing in the last-used chat.
    let mut nav = NavHistory::new(chat(""));
    nav.replace(chat("boot"));
    assert_eq!(nav.len(), 1);
    assert_eq!(*nav.current(), chat("boot"));
    assert!(!nav.can_back());
}

#[test]
fn nav_settings_sections_are_distinct_entries() {
    let mut nav = NavHistory::new(chat("a"));
    nav.push(NavEntry::Settings(SettingsSection::Appearance));
    nav.push(NavEntry::Settings(SettingsSection::Shortcuts));
    assert_eq!(nav.len(), 3, "section changes are navigations");
    assert_eq!(
        nav.back(),
        Some(NavEntry::Settings(SettingsSection::Appearance))
    );
    assert_eq!(nav.back(), Some(chat("a")));
}

#[test]
fn keiki_menu_is_scoped_to_the_selected_chat() {
    assert!(keiki_menu_is_selected(
        "keiki-conv:one",
        Some("keiki-conv:one")
    ));
    assert!(!keiki_menu_is_selected(
        "keiki-conv:one",
        Some("keiki-conv:two")
    ));
    assert!(!keiki_menu_is_selected("engine-chat", Some("engine-chat")));
}

#[test]
fn empty_state_variant_matches_keiki_session_status() {
    assert_eq!(
        empty_state_variant(SessionStatus::SignedOut),
        EmptyStateVariant::SignIn
    );
    assert_eq!(
        empty_state_variant(SessionStatus::Error),
        EmptyStateVariant::SignIn
    );
    assert_eq!(
        empty_state_variant(SessionStatus::Loading),
        EmptyStateVariant::Loading
    );
    assert_eq!(
        empty_state_variant(SessionStatus::SignedIn),
        EmptyStateVariant::Ready
    );
}

#[test]
fn empty_state_action_label_matches_each_variant() {
    assert_eq!(
        empty_state_action_label(EmptyStateVariant::SignIn),
        Some("Sign in to Keiki")
    );
    assert_eq!(
        empty_state_action_label(EmptyStateVariant::Loading),
        Some("Opening Keiki…")
    );
    assert_eq!(empty_state_action_label(EmptyStateVariant::Ready), None);
}

#[test]
fn the_badge_is_a_capital() {
    assert_eq!(badge("ada"), "A");
    assert_eq!(badge("ßa"), "SS");
    assert_eq!(badge(""), "?");
}

#[test]
fn account_menus_follow_the_status() {
    assert!(matches!(
        account_rows(SessionStatus::SignedIn, &None)[0],
        AccountRow::SignOut
    ));
    let rows = account_rows(SessionStatus::Error, &Some("offline".into()));
    assert_eq!(rows.len(), 4);
    assert!(matches!(
        rows[0],
        AccountRow::SignIn {
            caption: "Sign in to Keiki",
            enabled: true
        }
    ));
    assert!(matches!(&rows[1], AccountRow::Error(words) if words == "offline"));
    let orgs = vec![
        Organization {
            id: "one".into(),
            name: Some("One".into()),
        },
        Organization {
            id: "two".into(),
            name: None,
        },
    ];
    let rows = organization_rows(&orgs, &Some("one".into()), &None);
    assert_eq!(rows.len(), 4);
    assert!(matches!(
        &rows[2],
        AccountRow::Organization { label, enabled: true, active: false, .. } if label == "two"
    ));
    let session = KeikiSessionInfo {
        active_org_id: Some("one".into()),
        switchable_orgs: orgs,
        ..KeikiSessionInfo::default()
    };
    let rows = user_menu_rows(SessionStatus::SignedIn, Some(&session), &None, &None);
    assert_eq!(rows.len(), 7);
    assert!(matches!(rows[0], AccountRow::OrganizationHeading));
    assert!(matches!(rows[3], AccountRow::OrganizationRule));
    assert!(matches!(rows[4], AccountRow::SignOut));
    let rows = user_menu_rows(SessionStatus::Loading, Some(&session), &None, &None);
    assert_eq!(rows.len(), 3);
    assert!(matches!(rows[0], AccountRow::SignIn { enabled: false, .. }));
    let rows = user_menu_rows(SessionStatus::SignedIn, None, &None, &None);
    assert_eq!(rows.len(), 3);
}

#[test]
fn the_sidebar_says_what_came_of_it() {
    let mut chat = keiki_chat("keiki-conv:a:1");
    chat.harness_session_id = Some("session".into());
    let chats = vec![chat];
    assert_eq!(
        copy_harness_session_id(&chats, "keiki-conv:a:1"),
        Some(("session".into(), "Harness session ID copied"))
    );
    assert_eq!(copy_harness_session_id(&chats, "other"), None);
    let locator = viewed_conversation(true, "keiki-conv:a:1").unwrap();
    assert_eq!(locator.identity, "1");
    assert!(viewed_conversation(false, "keiki-conv:a:1").is_none());
    assert!(viewed_conversation(true, "local").is_none());
    assert_eq!(
        view_keiki_conversation(Some("https://example.invalid".into())),
        Ok("https://example.invalid".into())
    );
    assert_eq!(
        view_keiki_conversation(None),
        Err("Keiki conversation is not ready yet")
    );
    assert_eq!(
        mutation_notice(None).as_deref(),
        Some("Engine not connected")
    );
    assert_eq!(
        mutation_notice(Some(Err("refused".into()))).as_deref(),
        Some("refused")
    );
    assert_eq!(mutation_notice(Some(Ok(()))), None);
}

#[test]
fn pins_flip_and_are_pruned() {
    let chats = vec![keiki_chat("keiki-conv:a:1")];
    let mut pinned = vec!["keiki-conv:a:gone".to_string()];
    assert!(toggle_keiki_conversation_pin(
        &mut pinned,
        &chats,
        "keiki-conv:a:1"
    ));
    assert_eq!(pinned, ["keiki-conv:a:1"]);
    assert!(toggle_keiki_conversation_pin(
        &mut pinned,
        &chats,
        "keiki-conv:a:1"
    ));
    assert!(pinned.is_empty());
    assert!(!toggle_keiki_conversation_pin(&mut pinned, &chats, "local"));
}

fn row(id: &str) -> RowState {
    RowState {
        id: id.into(),
        time_ago: "2m".into(),
        has_branch: true,
        has_change_request: false,
        has_harness: true,
        status: ChatIndicator::Working,
        archived: false,
        undelivered: false,
        hovered: false,
        jump_label: None,
    }
}

#[test]
fn rows_show_what_matters_most_in_their_corner() {
    let drawn = chat_row(&row("keiki-conv:a:1"));
    assert_eq!(drawn.avatar, Some(("a".to_string(), AvatarState::Running)));
    assert!(!drawn.shows_harness);
    assert_eq!(drawn.height, 61);
    assert!(matches!(
        drawn.corner,
        RowCorner::Status {
            glyph: RowGlyph::Spinner,
            label: "Working"
        }
    ));
    let drawn = chat_row(&RowState {
        undelivered: true,
        ..row("local")
    });
    assert!(drawn.shows_harness);
    assert_eq!(drawn.tone, RowTone::Danger);
    assert!(matches!(
        drawn.corner,
        RowCorner::Status {
            glyph: RowGlyph::Dot,
            label: "Failed"
        }
    ));
    let drawn = chat_row(&RowState {
        hovered: true,
        archived: true,
        ..row("local")
    });
    assert!(matches!(drawn.corner, RowCorner::Archive("Unarchive")));
    assert!(drawn.corner_archives);
    let drawn = chat_row(&RowState {
        hovered: true,
        jump_label: Some("⌘1".into()),
        ..row("local")
    });
    assert!(matches!(drawn.corner, RowCorner::Jump(label) if label == "⌘1"));
    let drawn = chat_row(&RowState {
        status: ChatIndicator::Completed,
        ..row("local")
    });
    assert!(matches!(drawn.corner, RowCorner::Glyph(RowGlyph::Check)));
    let drawn = chat_row(&RowState {
        status: ChatIndicator::Idle,
        ..row("local")
    });
    assert!(matches!(drawn.corner, RowCorner::Time(time) if time == "2m"));
}

#[test]
fn the_pointer_is_on_one_row() {
    let mut hovered = None;
    assert!(row_hovered(&mut hovered, "a", true));
    assert!(!row_hovered(&mut hovered, "b", false));
    assert_eq!(hovered.as_deref(), Some("a"));
    assert!(row_hovered(&mut hovered, "a", false));
    assert_eq!(hovered, None);
}

#[test]
fn new_rows_fade_in_where_the_order_changed() {
    let old = keys(&[("a", 1.0), ("b", 1.0)]);
    let new = keys(&[("c", 1.0), ("a", 1.0), ("b", 1.0)]);
    let plan = resort(&old, &new, false);
    assert!(plan.animates);
    assert_eq!(plan.fresh, ["c"]);
    assert!(!resort(&old, &old, true).animates);
    assert!(!resort(&vec![], &new, true).animates);
}

#[test]
fn menus_of_rows_offer_what_can_be_done() {
    let mut conversation = KeikiConversation::new("keiki-conv:a:1".into());
    conversation.blocked = true;
    conversation.pending = Some(KeikiConversationPending::Block);
    let rows = chat_menu_rows(
        "keiki-conv:a:1",
        Some("keiki-conv:a:1"),
        &Some(conversation),
        &vec!["keiki-conv:a:1".to_string()],
    );
    assert_eq!(
        rows,
        [
            ChatMenuRow::Rename,
            ChatMenuRow::Archive,
            ChatMenuRow::Separator,
            ChatMenuRow::Unblock { dimmed: true },
            ChatMenuRow::Pin { pinned: true },
            ChatMenuRow::ViewConversation,
            ChatMenuRow::Copy,
            ChatMenuRow::Separator,
            ChatMenuRow::Delete,
        ]
    );
    assert!(!block_row_acts(
        "keiki-conv:a:1",
        &Some("keiki-conv:a:1".into()),
        Some(KeikiConversationPending::Block)
    ));
    let mut plain = keiki_chat("local");
    plain.harness_session_id = Some("session".into());
    plain.title = Some("Title".into());
    let chats = vec![plain];
    assert_eq!(copyable_session_id(&chats, "local").as_deref(), Some("session"));
    assert!(copy_menu_rows(&chats, "local").contains(&ChatMenuRow::CopySessionId));
    assert_eq!(chat_title(&chats, "local", "this session"), "Title");
    assert_eq!(chat_title(&chats, "other", "this session"), "this session");
    assert!(find_chat(&chats, "other").is_none());
    assert!(delete_warning("Title").contains("Title"));
    assert_eq!(
        rename_mutation("local".into(), "  New  "),
        Some(Mutation::RenameChat {
            chat_id: "local".into(),
            title: "New".into()
        })
    );
    assert_eq!(rename_mutation("local".into(), "  "), None);
    let (selected, mutation) = delete_chat("local".into(), &Some("local".into()));
    assert!(selected);
    assert_eq!(
        mutation,
        Mutation::DeleteChat {
            chat_id: "local".into()
        }
    );
}

#[test]
fn the_strip_tells_of_failures_and_sends() {
    assert_eq!(
        status_strip(true, Indicator::Errored, true),
        StatusStrip::RunFailed
    );
    assert_eq!(
        status_strip(true, Indicator::Quiet, true),
        StatusStrip::Sending
    );
    assert_eq!(
        status_strip(true, Indicator::Working, true),
        StatusStrip::Empty
    );
    assert_eq!(
        status_strip(false, Indicator::Errored, true),
        StatusStrip::Empty
    );
}

fn shell() -> Shell {
    Shell::new(
        Route::Chat,
        Some("rename".into()),
        Some("40:/tmp/a.png".into()),
        Some("s1".into()),
        None,
    )
}

#[test]
fn the_first_chat_takes_the_place_of_the_start() {
    let mut shell = shell();
    assert!(shell.chat_selected(&Some("a".into())));
    assert!(!shell.chat_selected(&Some("a".into())));
    assert!(!shell.nav.can_back());
    assert!(shell.chat_selected(&Some("b".into())));
    assert!(shell.nav.can_back());
    shell.open_settings(SettingsSection::Shortcuts);
    assert_eq!(shell.route, Route::Settings(SettingsSection::Shortcuts));
    let landing = shell.navigate_back(&Some("a".into())).unwrap();
    assert_eq!(shell.route, Route::Chat);
    assert_eq!(landing.select, Some(Some("b".to_string())));
    assert!(shell.navigate_forward(&None).is_some());
    shell.close_settings();
    assert_eq!(shell.route, Route::Chat);
}

#[test]
fn a_start_restores_the_last_space_once() {
    let mut shell = shell();
    assert_eq!(shell.restore_space(&vec![], false, false), None);
    assert_eq!(
        shell
            .restore_space(&vec!["s1".to_string()], false, false)
            .as_deref(),
        Some("s1")
    );
    assert_eq!(
        shell.restore_space(&vec!["s1".to_string()], false, false),
        None
    );
    shell.space_filter = Some("gone".into());
    assert!(!shell.heal_filter(false, &vec![]));
    assert!(shell.heal_filter(true, &vec!["s1".to_string()]));
    assert!(shell.remember_space(&Some("s2".into())));
    assert_eq!(shell.last_space_id.as_deref(), Some("s2"));
}

#[test]
fn a_start_may_ask_for_a_dialog_or_an_upload() {
    let mut shell = shell();
    assert!(shell.take_dialog(true, &None).is_none());
    assert!(matches!(
        shell.take_dialog(true, &Some("a".into())),
        Some(BootDialog::Rename(id)) if id == "a"
    ));
    assert!(shell.take_dialog(true, &Some("a".into())).is_none());
    let upload = shell.take_upload(&Some("a".into())).unwrap();
    assert_eq!((upload.percent, upload.image_path.as_str()), (40, "/tmp/a.png"));
    assert!(shell.take_upload(&Some("a".into())).is_none());
}

#[test]
fn tokens_are_handed_over_once() {
    let mut shell = shell();
    let token = Some("t".to_string());
    assert_eq!(shell.copilot_sync(&token, false, true), None);
    assert_eq!(shell.copilot_sync(&token, true, true).as_deref(), Some("t"));
    shell.copilot_synced("t".into());
    assert_eq!(shell.copilot_sync(&token, true, true), None);
    assert_eq!(shell.copilot_sync(&None, true, true), None);
    assert_eq!(shell.copilot_synced_token, None);
}

#[test]
fn the_splash_fades_when_the_engine_answers() {
    let mut shell = shell();
    assert!(!shell.connection_changed(ConnectionStatus::Connecting));
    assert!(shell.connection_changed(ConnectionStatus::Ready));
    assert_eq!(shell.splash, SplashPhase::FadingOut);
    assert!(!shell.connection_changed(ConnectionStatus::Ready));
    shell.splash_faded();
    assert_eq!(shell.splash, SplashPhase::Gone);
    assert!(shell.modifiers_changed(true, false));
    assert!(!shell.modifiers_changed(true, false));
    assert!(shell.set_jump_hints(false));
    assert_eq!(shell.note_activity("a", SessionActivity::Working), None);
    assert_eq!(
        shell.note_activity("a", SessionActivity::Idle),
        Some(SessionActivity::Working)
    );
    assert_eq!(activity(Indicator::Errored), SessionActivity::Errored);
}

#[test]
fn chimes_come_with_banners() {
    let settings = PingSettings {
        sound_enabled: true,
        notifications_enabled: true,
        notifications_background_only: true,
    };
    let heard = ping(Some(Sound::Done), false, None, settings, false);
    assert_eq!(heard.play, Some(Sound::Done));
    assert_eq!(
        heard.banner,
        Some(("New session".to_string(), "Run finished"))
    );
    assert_eq!(
        ping(Some(Sound::Request), false, None, settings, true).banner,
        None
    );
    assert_eq!(ping(Some(Sound::Done), true, None, settings, false).play, None);
    assert_eq!(ping(None, false, None, settings, false).play, None);
}

#[test]
fn a_start_opens_where_it_is_asked_to() {
    assert_eq!(initial_route(&Some("new".into())), (Route::Chat, true));
    assert_eq!(
        initial_route(&Some("settings/shortcuts".into())),
        (Route::Settings(SettingsSection::Shortcuts), false)
    );
    assert_eq!(initial_route(&None), (Route::Chat, false));
    assert!(forced_gate(&Some("failed".into())).is_some());
    assert!(forced_gate(&None).is_none());
    assert_eq!(
        initial_organization(true, SidebarOrganization::InOneList),
        SidebarOrganization::ByAgent
    );
    assert_eq!(
        initial_organization(true, SidebarOrganization::ByDevice),
        SidebarOrganization::ByDevice
    );
}

#[test]
fn shortcuts_are_quiet_where_they_do_not_belong() {
    let settings = Route::Settings(SettingsSection::Archived);
    assert!(!shortcut_acts(Shortcut::ToggleTerminal, settings, false));
    assert!(shortcut_acts(Shortcut::ToggleSidebar, settings, true));
    assert!(!shortcut_acts(Shortcut::JumpSession(1), Route::Chat, true));
    let order = vec!["a".to_string(), "b".to_string()];
    assert_eq!(jump_target(&order, 1).as_deref(), Some("b"));
    assert_eq!(jump_target(&order, 2), None);
}

#[test]
fn a_frame_shows_the_page_once_the_engine_is_there() {
    let state = FrameState {
        gate: GatePhase::Ready,
        route: Route::Chat,
        splash: SplashPhase::Gone,
        is_macos: false,
        anything_focused: false,
        window_active: true,
        selected_unseen: true,
        right_pane_open: true,
        right_pane_expanded: false,
        right_pane_moving: false,
    };
    let shown = frame(state);
    assert!(shown.page && shown.focus_composer && shown.mark_seen && shown.right_handle);
    assert_eq!(shown.splash, None);
    let shown = frame(FrameState {
        gate: GatePhase::Failed,
        ..state
    });
    assert!(shown.failure_card && !shown.page && shown.drag_strip);
}

#[test]
fn the_right_pane_keeps_its_tabs_per_chat() {
    let mut pane = RightPane::new();
    let diff = pane.open_diff("a");
    assert!(matches!(
        pane.open_terminal("a", 7),
        SurfaceEffect::SelectTerminal(7)
    ));
    assert!(pane.open_subagent("a", "doc".into(), "Agent".into()));
    assert!(!pane.open_subagent("a", "doc".into(), "Agent".into()));
    let diffs = vec![(diff, "Changes".to_string())];
    let terminals = vec![(7, "zsh".to_string())];
    let rows = pane.rows("a", &diffs, &terminals);
    assert_eq!(rows.len(), 3);
    assert!(pane.rows("b", &diffs, &terminals).is_empty());
    let shown = pane.resolved_active("a", &diffs, &terminals);
    let chips = tab_strip(&rows, shown, &vec![], None);
    assert!(chips[2].active);
    assert_eq!(chips[0].mark, TabMark::Branch);
    assert_eq!(chips[1].place, TabPlace::Still);
    assert!(pane.drag_over("a", "a", 0, 2));
    assert!(!pane.drag_over("a", "a", 0, 2));
    assert!(!pane.drag_over("a", "b", 0, 1));
    assert_eq!(pane.drag.map(|drag| drag.over), Some(2));
    assert_eq!(
        add_menu(&rows, true),
        Some(vec![SurfaceChoice::Terminal, SurfaceChoice::Git])
    );
    assert_eq!(add_menu(&rows, false), Some(vec![SurfaceChoice::Terminal]));
    assert_eq!(add_menu(&vec![], true), None);
    let chips = tab_strip(&rows, shown, &vec![], pane.drag);
    assert_eq!(chips[0].place, TabPlace::Spacer);
    pane.heal_drag(true);
    assert!(pane.drag.is_some());
    assert!(pane.drop_tab("a", "a", 0));
    assert!(pane.drag_over("a", "a", 0, 1));
    pane.heal_drag(false);
    assert!(pane.drag.is_none());
    let rows = pane.rows("a", &diffs, &terminals);
    assert_eq!(rows[2].surface, RightSurface::Diff(diff));
    assert!(!pane.reorder("a", 0, 9));
    assert!(matches!(
        pane.close("a", RightSurface::Terminal(7)),
        SurfaceEffect::CloseTerminal(7)
    ));
    assert_eq!(pane.rows("a", &diffs, &terminals).len(), 2);
    assert!(matches!(
        pane.set_active("a", RightSurface::Diff(diff), true),
        SurfaceEffect::RefreshDiff(_)
    ));
    assert_eq!(
        pane.resolved_active("a", &diffs, &terminals),
        RightSurface::Diff(diff)
    );
    // The diff is gone: the first tab that is left shows.
    assert!(matches!(
        pane.resolved_active("a", &vec![], &terminals),
        RightSurface::Subagent(_)
    ));
    // The pane opens onto the diff, which is brought up to date.
    let (open, effect) = pane.toggle("a", &diffs, &terminals);
    assert!(open && matches!(effect, SurfaceEffect::RefreshDiff(id) if id == diff));
    assert!(pane.is_open("a", "a"));
    pane.toggle_expanded();
    let (open, effect) = pane.toggle("a", &diffs, &terminals);
    assert!(!open && matches!(effect, SurfaceEffect::Nothing));
    assert!(!pane.expanded);
    // Without the diff the subagent shows, which has nothing to bring up to date.
    let (open, effect) = pane.toggle("a", &vec![], &terminals);
    assert!(open && matches!(effect, SurfaceEffect::Nothing));
}

#[test]
fn a_chat_brings_its_panels_along() {
    let mut pane = RightPane::new();
    let none: Vec<(u64, String)> = vec![];
    let (drawer, effect) = pane.shown("a", &none, &none);
    assert!(!drawer && matches!(effect, SurfaceEffect::Nothing));
    let diff = pane.open_diff("a");
    let diffs = vec![(diff, "Changes".to_string())];
    // A closed pane leaves its diff alone.
    assert!(matches!(
        pane.shown("a", &diffs, &none).1,
        SurfaceEffect::Nothing
    ));
    pane.toggle("a", &diffs, &none);
    assert!(pane.panels.toggle_terminal("a"));
    let (drawer, effect) = pane.shown("a", &diffs, &none);
    assert!(drawer && matches!(effect, SurfaceEffect::RefreshDiff(id) if id == diff));
    assert!(matches!(
        pane.shown("a", &none, &none).1,
        SurfaceEffect::Nothing
    ));
    assert!(!pane.shown("b", &diffs, &none).0);
}

#[test]
fn a_subagent_opens_the_pane_that_it_opens_into() {
    let mut pane = RightPane::new();
    let none: Vec<(u64, String)> = vec![];
    let diff = pane.open_diff("a");
    let diffs = vec![(diff, "Changes".to_string())];
    let (effect, watch) =
        pane.add_subagent_surface("a", "a", "doc".into(), "Agent".into(), &diffs, &none);
    assert!(watch && matches!(effect, SurfaceEffect::RefreshDiff(id) if id == diff));
    assert!(pane.is_open("a", "a"));
    assert_eq!(
        pane.resolved_active("a", &diffs, &none),
        RightSurface::Subagent(1)
    );
    // It is brought to the front again; the pane stays open.
    pane.set_active("a", RightSurface::Diff(diff), true);
    let (effect, watch) =
        pane.add_subagent_surface("a", "a", "doc".into(), "Agent".into(), &diffs, &none);
    assert!(!watch && matches!(effect, SurfaceEffect::Nothing));
    assert!(pane.is_open("a", "a"));
    assert_eq!(
        pane.resolved_active("a", &diffs, &none),
        RightSurface::Subagent(1)
    );
}

#[test]
fn a_subagent_runs_while_its_last_message_comes_in() {
    let mut entry = demo_echo("text".into(), 0);
    assert!(!subagent_runs(&vec![]));
    assert!(!subagent_runs(&vec![entry.clone()]));
    entry.status = Some(MessageStatus::Streaming);
    let streaming = entry.clone();
    assert!(subagent_runs(&vec![entry.clone()]));
    entry.status = Some(MessageStatus::Complete);
    assert!(!subagent_runs(&vec![streaming.clone(), entry.clone()]));
    assert!(subagent_runs(&vec![entry, streaming]));
}

#[test]
fn the_keyboard_goes_back_to_the_composer() {
    assert_eq!(focus_lost(Route::Chat), Focus::Composer);
    assert_eq!(
        focus_lost(Route::Settings(SettingsSection::Notifications)),
        Focus::Nothing
    );
}

#[test]
fn the_keyboard_follows_the_drawer() {
    let mut pane = RightPane::new();
    assert_eq!(drawer_focus(pane.panels.toggle_terminal("a")), Focus::Terminal);
    assert_eq!(drawer_focus(pane.panels.toggle_terminal("a")), Focus::Composer);
}

#[test]
fn the_window_ticks_while_the_selected_chat_is_busy() {
    assert!(ticks(Some(Indicator::Working)));
    assert!(ticks(Some(Indicator::Errored)));
    assert!(!ticks(Some(Indicator::Quiet)));
    assert!(!ticks(None));
}

#[test]
fn the_right_pane_holds_what_is_left() {
    let mut pane = RightPane::new();
    let none: Vec<(u64, String)> = vec![];
    assert_eq!(pane.content("a", "a", &none, &none), None);
    pane.toggle("a", &none, &none);
    assert_eq!(
        pane.content("a", "a", &none, &none),
        Some(RightSurface::Picker)
    );
    assert_eq!(pane.content("", "a", &none, &none), None);
    let diff = pane.open_diff("a");
    let diffs = vec![(diff, "Changes".to_string())];
    assert_eq!(
        pane.content("a", "a", &diffs, &none),
        Some(RightSurface::Diff(diff))
    );
    assert_eq!(
        pane.content("a", "a", &none, &none),
        Some(RightSurface::Picker)
    );
}

#[test]
fn a_maximized_window_is_restored() {
    assert_eq!(
        caption_action(WindowButton::Maximize, false),
        CaptionAction::Maximize
    );
    assert_eq!(
        caption_action(WindowButton::Maximize, true),
        CaptionAction::Restore
    );
    assert_eq!(
        caption_action(WindowButton::Close, true),
        CaptionAction::Close
    );
    assert_eq!(
        caption_action(WindowButton::Minimize, true),
        CaptionAction::Minimize
    );
}

#[test]
fn hints_go_with_the_window() {
    let mut shell = Shell::new(Route::Chat, None, None, None, None);
    assert!(!shell.activation_changed(false));
    assert!(shell.modifiers_changed(true, false));
    assert!(!shell.activation_changed(true));
    assert!(shell.jump_hints);
    assert!(shell.activation_changed(false));
    assert!(!shell.jump_hints);
}

#[test]
fn a_change_of_the_state_is_followed_in_order() {
    let mut steps = vec![];
    let mut step = next_step(None);
    while let Some(now) = step {
        steps.push(now);
        step = next_step(Some(now));
    }
    assert_eq!(
        steps,
        [
            StateStep::Copilot,
            StateStep::Dialog,
            StateStep::Upload,
            StateStep::Chimes,
            StateStep::RestoreSpace,
            StateStep::RememberSpace,
            StateStep::BootChat,
            StateStep::HealFilter,
            StateStep::SelectedChat,
            StateStep::Connection,
        ]
    );
}

#[test]
fn the_engine_is_asked_for_changes_by_name() {
    let renamed = rename_mutation("c".into(), " New ").unwrap();
    assert_eq!(
        mutation_params(&renamed).to_string(),
        r#"{"chatId":"c","op":"renameChat","title":"New"}"#
    );
    let back = set_chat_archived("c".into(), false);
    assert_eq!(
        mutation_params(&back).to_string(),
        r#"{"archived":false,"chatId":"c","op":"setChatArchived"}"#
    );
    let away = archive_selected_chat(&Some("c".into())).unwrap();
    assert_eq!(away, set_chat_archived("c".into(), true));
    assert_eq!(
        mutation_params(&away).to_string(),
        r#"{"archived":true,"chatId":"c","op":"setChatArchived"}"#
    );
    assert_eq!(archive_selected_chat(&None), None);
    let (_, gone) = delete_chat("c".into(), &None);
    assert_eq!(
        mutation_params(&gone).to_string(),
        r#"{"chatId":"c","op":"deleteChat"}"#
    );
}

#[test]
fn panels_belong_to_a_session_or_a_space() {
    assert_eq!(panel_key("chat", &None), "chat");
    assert_ne!(panel_key("", &Some("s".into())), "");
    let rows = vec![SurfaceRow {
        surface: RightSurface::Diff(1),
        title: "Changes".into(),
    }];
    assert_eq!(
        resolve_active(RightSurface::Diff(1), &rows),
        RightSurface::Diff(1)
    );
    assert_eq!(
        resolve_active(RightSurface::Diff(2), &rows),
        RightSurface::Diff(1)
    );
    assert_eq!(
        resolve_active(RightSurface::Diff(2), &vec![]),
        RightSurface::Picker
    );
    assert!(surface_choices(true).contains(&SurfaceChoice::Git));
    assert!(!surface_choices(false).contains(&SurfaceChoice::Git));
}

#[test]
fn captions_are_drawn_where_the_window_can_use_them() {
    let side = vec![
        WindowButton::Minimize,
        WindowButton::Maximize,
        WindowButton::Close,
    ];
    assert_eq!(
        filter_side(&side, false, true),
        [WindowButton::Maximize, WindowButton::Close]
    );
    assert!(resolve_linux_captions(false, &side, &side, true, true).is_none());
    let (left, right) = resolve_linux_captions(true, &vec![], &side, true, true).unwrap();
    assert!(left.is_empty());
    assert_eq!(right.len(), 3);
    let mut armed = true;
    assert!(titlebar_moved(&mut armed, true));
    assert!(!titlebar_moved(&mut armed, true));
    assert_eq!(titlebar_clicked(2, true), TitlebarClick::SystemDoubleClick);
    assert_eq!(titlebar_clicked(2, false), TitlebarClick::Zoom);
    assert_eq!(titlebar_clicked(1, false), TitlebarClick::Nothing);
    let mut known = None;
    assert!(!fullscreen_changed(&mut known, true, true));
    assert!(fullscreen_changed(&mut known, false, true));
}

#[test]
fn the_keymap_binds_what_it_holds() {
    let keymap = Keymap {
        toggle_sidebar: "mod-1".into(),
        toggle_changes: "mod-2".into(),
        toggle_terminal: "mod-3".into(),
        new_session: "mod-4".into(),
        next_session: "mod-5".into(),
        prev_session: "mod-6".into(),
        archive_session: "mod-7".into(),
        jumps: ["mod-8", "", "mod-9", "", "", "", "", "", "mod-0"].map(String::from),
    };
    let defaults = KeymapDefaults {
        next_session: "mod-]".into(),
        prev_session: "mod-[".into(),
        jumps: ["a", "b", "c", "d", "e", "f", "g", "h", "i"].map(String::from),
    };
    let bound = bindings(&keymap, &defaults);
    assert_eq!(bound[0].combo, "mod-1");
    assert_eq!(bound[0].fallback.as_deref(), Some("mod-s"));
    assert_eq!(bound[7].combo, "mod-k");
    assert_eq!(bound.len(), 11);
    assert_eq!(bound[9].shortcut, Shortcut::JumpSession(2));
    let last = bound.last().unwrap();
    assert_eq!(last.shortcut, Shortcut::JumpSession(8));
    assert_eq!(last.fallback.as_deref(), Some("i"));
    assert_eq!(valid_or_default("x".into(), false, "y".into()), "y");
    assert_eq!(valid_or_default("x".into(), true, "y".into()), "x");
}

#[test]
fn the_main_column_asks_to_sign_in_once() {
    let asks = |status| main_outlet(Route::Chat, false, status);
    assert_eq!(
        asks(SessionStatus::SignedOut),
        Outlet::SignIn {
            label: "Sign in to Keiki",
            enabled: true
        }
    );
    assert_eq!(asks(SessionStatus::Error), asks(SessionStatus::SignedOut));
    assert_eq!(
        asks(SessionStatus::Loading),
        Outlet::SignIn {
            label: "Opening Keiki…",
            enabled: false
        }
    );
    assert_eq!(asks(SessionStatus::SignedIn), Outlet::Logo);
    assert_eq!(
        main_outlet(Route::Chat, true, SessionStatus::SignedOut),
        Outlet::Transcript
    );
    let archived = SettingsSection::Archived;
    assert_eq!(
        main_outlet(Route::Settings(archived), true, SessionStatus::Loading),
        Outlet::Settings(archived)
    );
}

#[test]
fn only_a_change_is_heard() {
    let mut shell = shell();
    let settings = PingSettings {
        sound_enabled: true,
        notifications_enabled: true,
        notifications_background_only: false,
    };
    let sounds = |before, now| match (before, now) {
        (SessionActivity::Working, SessionActivity::Idle) => Some(Sound::Done),
        (_, SessionActivity::AwaitingInput) => Some(Sound::Request),
        _ => None,
    };
    let mut seen = |chat: &str, now, send_pending| {
        let ping = shell.session_seen(chat, now, sounds, send_pending, None, settings, false);
        (ping.play, ping.banner.is_some())
    };
    // Whatever it does, a session is silent when it is seen for the first time.
    assert_eq!(seen("a", SessionActivity::AwaitingInput, false), (None, false));
    assert_eq!(seen("b", SessionActivity::Working, false), (None, false));
    assert_eq!(
        seen("b", SessionActivity::Idle, false),
        (Some(Sound::Done), true)
    );
    assert_eq!(seen("b", SessionActivity::Working, false), (None, false));
    assert_eq!(seen("b", SessionActivity::Idle, true), (None, false));
    assert_eq!(
        seen("b", SessionActivity::AwaitingInput, true),
        (Some(Sound::Request), true)
    );
}

#[test]
fn a_staged_upload_is_shown_as_a_message() {
    assert_eq!(pending_path("7", "a.png"), "pending/7/a.png");
    assert_eq!(
        demo_upload_devices(&Some("d1".into()), &Some("d2".into())),
        ["d1", "d2", "local"]
    );
    assert_eq!(demo_upload_devices(&None, &None), ["local"]);
    let echo = demo_echo(DEMO_UPLOAD_TEXT.into(), 12);
    assert_eq!(echo.id, "demo-upload-echo");
    assert_eq!(echo.role, MessageRole::User);
    assert_eq!(
        echo.parts,
        [MessagePart::Text {
            id: "t0".into(),
            text: "Here is the screenshot of the bug.".into()
        }]
    );
    assert_eq!((echo.created_at, echo.device_id.as_str()), (12, "local"));
    assert_eq!(DEMO_UPLOAD_TOTAL, 100);
}
