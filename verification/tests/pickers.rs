use zeron::agent_dialog::Loadable;
use zeron::folders::{
    breadcrumbs, browser_rows, child_path, completion_prefix_len, parent_path, segment_target,
    typed_path_target, FolderEntry, FolderListing,
};
use zeron::keiki::{SessionStatus, Timestamp};
use zeron::pickers::{
    boot_picker, resolve, selected_ref_index, steering_mode, CheckoutKind, CheckoutPlan,
    DraftConfig, HarnessId, PickerKey, PickerKind, Pickers, ReasoningLevel, RepoRef,
    ResolvedRunConfig, SandboxLevel, SteeringMode, NO_ACTIVE_ROW,
};
use zeron::rows::{Device, Space};
use zeron::targets::{
    device_row, device_rows, footer, no_spaces, ref_list, scoped_space_rows,
    selected_device_index, selected_space_index, space_actions, target_labels, Footer, RefList,
    SpaceAction,
};

fn space(id: &str, device: &str, git: bool) -> Space {
    Space {
        id: id.into(),
        device_id: device.into(),
        path: format!("/repos/{id}"),
        name: None,
        git_detected: git,
        git_checked_at: None,
        checkout_id: None,
        created_at: Timestamp { secs: 0, nanos: 0 },
    }
}

fn device(id: &str, name: &str) -> Device {
    Device {
        id: id.into(),
        name: name.into(),
        platform: "linux".into(),
        last_seen_at: None,
        created_at: None,
        version: None,
    }
}

fn reference(name: &str, current: bool, worktree: Option<&str>) -> RepoRef {
    RepoRef {
        name: name.into(),
        current,
        worktree_path: worktree.map(str::to_string),
    }
}

fn refs() -> Vec<RepoRef> {
    vec![
        reference("main", true, None),
        reference("feature", false, Some("/worktrees/feature")),
        reference("plain", false, None),
    ]
}

#[test]
fn folder_paths_and_breadcrumbs() {
    assert_eq!(parent_path("/home/w/dev"), Some("/home/w".to_string()));
    assert_eq!(parent_path("/home"), Some("/".to_string()));
    assert_eq!(parent_path("/home/"), Some("/".to_string()));
    assert_eq!(parent_path("/"), None);
    assert_eq!(parent_path(""), None);
    assert_eq!(child_path("/home", "w"), "/home/w");
    assert_eq!(child_path("/", "home"), "/home");
    let crumbs = breadcrumbs("/home/w/dev");
    let labels: Vec<&str> = crumbs.iter().map(|(l, _)| l.as_str()).collect();
    assert_eq!(labels, ["/", "home", "w", "dev"]);
    assert_eq!(crumbs[2].1, "/home/w");
    assert_eq!(breadcrumbs("/").len(), 1);
}

#[test]
fn completion_prefix_lengths() {
    // Case-insensitive; the length indexes into the NAME's bytes.
    assert_eq!(completion_prefix_len("Documents", "doc"), Some(3));
    assert_eq!(&"Documents"[3..], "uments");
    assert_eq!(completion_prefix_len("zeron", "zeron"), Some(5));
    assert_eq!(completion_prefix_len("zeron", ""), Some(0));
    assert_eq!(completion_prefix_len("zeron", "dev"), None);
    // Longer than the name → not a prefix.
    assert_eq!(completion_prefix_len("dev", "devel"), None);
    // Multibyte names slice on a char boundary.
    assert_eq!(completion_prefix_len("héllo", "hé"), Some(3));
    assert_eq!(&"héllo"[3..], "llo");
}

#[test]
fn segment_target_resolution() {
    let names = ["github", "GitHub", "worktree"];
    // Exact casing beats the earlier case-insensitive sibling…
    assert_eq!(segment_target(&names, "GitHub"), Some(1));
    assert_eq!(segment_target(&names, "github"), Some(0));
    // …but with no exact-cased hit, case-insensitive exact still lands.
    assert_eq!(segment_target(&names, "WORKTREE"), Some(2));
    // Unique prefix descends; an ambiguous one keeps the slash honest.
    assert_eq!(segment_target(&names, "work"), Some(2));
    assert_eq!(segment_target(&names, "g"), None);
    assert_eq!(segment_target(&names, "x"), None);
}

#[test]
fn typed_path_target_expands_absolute_and_home_paths() {
    let home = Some("/home/wing");
    assert_eq!(typed_path_target("/disk2/", home), Some("/disk2".into()));
    assert_eq!(
        typed_path_target("/disk2/projects", home),
        Some("/disk2/projects".into())
    );
    assert_eq!(typed_path_target("/", home), Some("/".into()));
    assert_eq!(typed_path_target("~", home), Some("/home/wing".into()));
    assert_eq!(typed_path_target("~/", home), Some("/home/wing".into()));
    assert_eq!(
        typed_path_target("~/github/", home),
        Some("/home/wing/github".into())
    );
    // `~x` is a folder name; relative queries are searches, not paths.
    assert_eq!(typed_path_target("~x", home), None);
    assert_eq!(typed_path_target("src", home), None);
    // `~` can't expand before the device's home is known.
    assert_eq!(typed_path_target("~/github", None), None);
    assert_eq!(typed_path_target("/disk2", None), Some("/disk2".into()));
}

#[test]
fn a_jump_home_leads_to_the_root_where_that_is_the_home() {
    assert_eq!(typed_path_target("~", Some("/")), Some("/".into()));
    assert_eq!(typed_path_target("~/", Some("/")), Some("/".into()));
    assert_eq!(typed_path_target("~//", Some("//")), Some("/".into()));
    assert_eq!(typed_path_target("~/src", Some("/")), Some("/src".into()));
}

#[test]
fn browser_navigation_reducer() {
    let listing = FolderListing {
        path: "/home/w".into(),
        entries: vec![
            FolderEntry {
                name: "notes.txt".into(),
                is_dir: false,
                is_repo: false,
            },
            FolderEntry {
                name: "dev".into(),
                is_dir: true,
                is_repo: false,
            },
            FolderEntry {
                name: "zeron".into(),
                is_dir: true,
                is_repo: true,
            },
        ],
        truncated: false,
    };
    // Files never show as rows.
    assert_eq!(browser_rows(&listing).len(), 2);
    assert_eq!(browser_rows(&listing)[1].name, "zeron");
}

#[test]
fn resolved_chat_config_requires_harness() {
    let mut resolved = ResolvedRunConfig::default();
    assert!(resolved.chat_config().is_none());
    resolved.harness = Some(HarnessId::Copilot);
    resolved.model = Some("opus".into());
    resolved.reasoning = Some(ReasoningLevel::High);
    let config = resolved.chat_config().expect("harness set");
    assert_eq!(config.harness, HarnessId::Copilot);
    assert_eq!(config.model.as_deref(), Some("opus"));
    assert_eq!(config.sandbox, SandboxLevel::WorkspaceWrite);
}

#[test]
fn crumbs_lead_back_up() {
    let crumbs = breadcrumbs("//home//w/");
    assert_eq!(crumbs.len(), 3);
    assert_eq!(crumbs[2].1, "/home/w");
    assert_eq!(parent_path(&crumbs[2].1), Some(crumbs[1].1.clone()));
    assert_eq!(parent_path(&crumbs[1].1), Some("/".to_string()));
    assert_eq!(
        parent_path(&child_path("/home", "w")),
        Some("/home".to_string())
    );
    assert_eq!(parent_path("relative"), None);
}

#[test]
fn a_draft_resolves_to_the_copilot() {
    let draft = DraftConfig::default();
    let resolved = resolve(&draft, None);
    assert_eq!(resolved.harness, Some(HarnessId::Copilot));
    assert_eq!(resolved.model.as_deref(), Some("copilot"));
    assert_eq!(resolved.reasoning, None);
    assert_eq!(
        steering_mode(&resolved),
        Some(SteeringMode::TurnBoundary)
    );
    let picked = DraftConfig {
        harness: Some(HarnessId::Mock),
        model: Some("m".into()),
        ..DraftConfig::default()
    };
    let resolved = resolve(&picked, None);
    assert_eq!(resolved.harness, Some(HarnessId::Mock));
    assert_eq!(steering_mode(&resolved), None);
    let mut chat = resolved.chat_config().unwrap();
    chat.model_options = serde_json::Value::Object(
        [("speed".to_string(), serde_json::Value::from("fast"))]
            .into_iter()
            .collect(),
    );
    let again = resolve(&draft, Some(&chat));
    assert_eq!(again.harness, Some(HarnessId::Mock));
    assert_eq!(again.model.as_deref(), Some("m"));
    assert_eq!(again.model_options["speed"], "fast");
}

#[test]
fn a_start_may_open_a_picker() {
    assert_eq!(boot_picker(Some("branch")), Some(PickerKind::Branch));
    assert_eq!(boot_picker(Some("checkout")), Some(PickerKind::Checkout));
    assert_eq!(boot_picker(Some("project")), Some(PickerKind::Space));
    assert_eq!(boot_picker(Some("device")), Some(PickerKind::Device));
    assert_eq!(boot_picker(Some("repo")), None);
    assert_eq!(boot_picker(None), None);
}

#[test]
fn refs_are_fetched_once_and_again_when_forced() {
    let mut pickers = Pickers::new(None, Some("s".into()), None);
    let here = Some("laptop".to_string());
    let folder = space("s", "desktop", true);
    assert!(pickers
        .ensure_refs(Some(&space("s", "desktop", false)), false, true, &here)
        .is_none());
    assert!(pickers.ensure_refs(Some(&folder), false, false, &here).is_none());
    let params = pickers
        .ensure_refs(Some(&folder), false, true, &here)
        .unwrap();
    assert_eq!(params["repoPath"], "/repos/s");
    assert_eq!(params["targetDeviceId"], "desktop");
    assert!(pickers.ensure_refs(Some(&folder), true, true, &here).is_none());
    pickers.refs_loaded(Ok(refs()), false, &None);
    assert!(pickers.ensure_refs(Some(&folder), false, true, &here).is_none());
    let own = Some("desktop".to_string());
    let params = pickers
        .ensure_refs(Some(&folder), true, true, &own)
        .unwrap();
    assert!(params.get("targetDeviceId").is_none());
    assert!(matches!(pickers.refs, Loadable::Ready(_)));
    pickers.refs_loaded(Err("offline".into()), false, &None);
    assert!(matches!(&pickers.refs, Loadable::Error(error) if error == "offline"));
}

#[test]
fn checkouts_follow_the_picked_ref() {
    let mut pickers = Pickers::new(None, None, None);
    assert_eq!(
        pickers.checkout_plan(),
        CheckoutPlan::CurrentCheckout { branch: None }
    );
    assert_eq!(pickers.ref_label(), "Select ref");
    pickers.refs_loaded(Ok(refs()), false, &None);
    assert_eq!(
        pickers.checkout_plan(),
        CheckoutPlan::CurrentCheckout {
            branch: Some("main".into())
        }
    );
    assert_eq!(pickers.checkout_label(), "Current checkout");
    assert!(!pickers.pick_ref(&refs()[1], false));
    assert_eq!(
        pickers.checkout_plan(),
        CheckoutPlan::ReuseWorktree {
            path: "/worktrees/feature".into(),
            branch: "feature".into()
        }
    );
    assert_eq!(pickers.checkout_label(), "Current worktree");
    assert_eq!(pickers.ref_label(), "feature");
    // A plain ref has to be checked out first; a session never moves.
    assert!(pickers.pick_ref(&refs()[2], false));
    assert!(!pickers.pick_ref(&refs()[2], true));
    assert_eq!(pickers.ref_label(), "feature");
    pickers.pick_checkout(CheckoutKind::NewWorktree);
    assert!(!pickers.pick_ref(&refs()[2], false));
    assert_eq!(
        pickers.checkout_plan(),
        CheckoutPlan::NewWorktree {
            base: Some("plain".into())
        }
    );
    assert_eq!(pickers.ref_label(), "From plain");
    assert_eq!(pickers.checkout_label(), "New worktree");
    // Back to the folder itself: the plain ref is dropped.
    pickers.pick_checkout(CheckoutKind::Local);
    assert_eq!(pickers.ref_label(), "main");
}

#[test]
fn one_switch_runs_at_a_time() {
    let mut pickers = Pickers::new(None, None, None);
    let folder = space("s", "desktop", true);
    let here = Some("desktop".to_string());
    let params = pickers
        .switch_draft_ref("plain", Some(&folder), true, &here)
        .unwrap();
    assert_eq!(params["refName"], "plain");
    assert_eq!(params["repoPath"], "/repos/s");
    assert!(pickers
        .switch_draft_ref("other", Some(&folder), true, &here)
        .is_none());
    assert!(!pickers.switch_finished("plain".into(), Err("dirty".into())));
    assert_eq!(pickers.switch_error.as_deref(), Some("dirty"));
    assert!(pickers
        .switch_draft_ref("plain", Some(&folder), true, &here)
        .is_some());
    assert!(pickers.switch_error.is_none());
    assert!(pickers.switch_finished("plain".into(), Ok(())));
    assert_eq!(pickers.config.branch.as_deref(), Some("plain"));
}

#[test]
fn picks_do_not_leak_into_another_session() {
    let mut pickers = Pickers::new(Some("a".into()), Some("s".into()), None);
    pickers.config.model = Some("m".into());
    pickers.config.branch = Some("b".into());
    pickers.selection_changed(&Some("a".into()), &Some("s".into()));
    assert_eq!(pickers.config.model.as_deref(), Some("m"));
    pickers.selection_changed(&Some("b".into()), &Some("s".into()));
    assert_eq!(pickers.config.model, None);
    assert_eq!(pickers.config.branch.as_deref(), Some("b"));
    pickers.selection_changed(&Some("b".into()), &Some("t".into()));
    assert_eq!(pickers.config.branch, None);
}

#[test]
fn pickers_open_on_what_is_selected() {
    let mut pickers = Pickers::new(None, None, None);
    let opened = pickers.toggle(PickerKind::Branch, false, true, 2).unwrap();
    assert_eq!(opened.placeholder, "Search refs…");
    assert!(opened.search && opened.refs);
    assert_eq!(pickers.active, 2);
    // The clearing of the search is the picker's own doing.
    pickers.search_edited();
    assert_eq!(pickers.active, 2);
    pickers.search_edited();
    assert_eq!(pickers.active, 0);
    assert!(pickers.toggle(PickerKind::Branch, false, false, 0).is_none());
    assert_eq!(pickers.open, None);
    pickers.config.checkout = CheckoutKind::NewWorktree;
    let opened = pickers.toggle(PickerKind::Checkout, false, false, 0).unwrap();
    assert!(!opened.search);
    assert_eq!(pickers.active, 1);
    assert_eq!(
        pickers.on_key_down(PickerKey::Enter, false, None, 0),
        Some(1)
    );
    pickers.on_key_down(PickerKey::Step, false, Some(0), 2);
    assert_eq!(pickers.active, 0);
    assert_eq!(pickers.row_count(400, 1, 1), 2);
    pickers.on_key_down(PickerKey::Escape, false, None, 2);
    assert_eq!(pickers.open, None);
    assert!(pickers.toggle(PickerKind::Space, true, false, 0).is_none());
    assert!(pickers.toggle(PickerKind::Space, false, false, 1).is_some());
    assert_eq!(pickers.submitted_row(3), Some(1));
    assert_eq!(pickers.submitted_row(1), None);
    pickers.close();
    assert_eq!(pickers.row_count(400, 1, 1), 0);
}

#[test]
fn the_selected_ref_is_one_that_is_listed() {
    assert_eq!(
        selected_ref_index(&refs(), &Some("feature".into()), &Some("plain".into())),
        1
    );
    assert_eq!(selected_ref_index(&refs(), &None, &Some("plain".into())), 2);
    assert_eq!(selected_ref_index(&refs(), &None, &None), 0);
    let many: Vec<RepoRef> = (0..400)
        .map(|number| reference(&format!("r{number}"), false, None))
        .collect();
    assert_eq!(selected_ref_index(&many, &None, &Some("r350".into())), 299);
    match ref_list(true, &Loadable::Ready(vec![]), &many, &None, &None, &None, 0) {
        RefList::Rows(rows, note) => {
            assert_eq!(rows.len(), 300);
            assert_eq!(note.as_deref(), Some("Showing 300 of 400 refs"));
        }
        other => panic!("no rows: {other:?}"),
    }
}

#[test]
fn refs_wear_their_tags() {
    let list = ref_list(
        true,
        &Loadable::Ready(vec![]),
        &refs(),
        &None,
        &Some("feature".into()),
        &Some("plain".into()),
        1,
    );
    match list {
        RefList::Rows(rows, note) => {
            assert_eq!(rows[0].tag, Some("current"));
            assert_eq!(rows[1].tag, Some("worktree"));
            assert_eq!(rows[2].tag, None);
            assert!(rows[1].selected && rows[1].active && rows[2].switching);
            assert!(note.is_none());
        }
        other => panic!("no rows: {other:?}"),
    }
    let idle = Loadable::Idle;
    assert!(matches!(
        ref_list(false, &idle, &refs(), &None, &None, &None, 0),
        RefList::NoAgent
    ));
    assert!(matches!(
        ref_list(true, &idle, &refs(), &None, &None, &None, 0),
        RefList::Loading
    ));
    assert!(matches!(
        ref_list(true, &Loadable::Ready(refs()), &vec![], &None, &None, &None, 0),
        RefList::Empty
    ));
    assert!(matches!(
        ref_list(
            true,
            &Loadable::Error("offline".into()),
            &vec![],
            &None,
            &None,
            &None,
            0
        ),
        RefList::Error(message) if message == "offline"
    ));
}

#[test]
fn agents_are_listed_by_device() {
    let spaces = vec![
        space("a", "one", true),
        space("b", "two", true),
        space("c", "one", true),
    ];
    assert_eq!(scoped_space_rows(&spaces, &None), [0, 1, 2]);
    assert_eq!(scoped_space_rows(&spaces, &Some("one".into())), [0, 2]);
    assert_eq!(
        selected_space_index(&spaces, &Some("one".into()), &Some("c".into())),
        1
    );
    assert_eq!(
        selected_space_index(&spaces, &Some("one".into()), &Some("b".into())),
        NO_ACTIVE_ROW
    );
    assert_eq!(selected_space_index(&spaces, &None, &None), NO_ACTIVE_ROW);
    assert_eq!(no_spaces(false), "No agents on this device.");
    assert_eq!(no_spaces(true), "No agents match.");
}

#[test]
fn agents_of_the_cloud_are_offered_when_signed_in() {
    assert_eq!(
        space_actions(SessionStatus::SignedIn),
        [SpaceAction::NewAgent, SpaceAction::NewKeikiAgent]
    );
    for status in [
        SessionStatus::SignedOut,
        SessionStatus::Loading,
        SessionStatus::Error,
    ] {
        assert_eq!(space_actions(status), [SpaceAction::NewAgent]);
    }
}

#[test]
fn this_device_is_listed_first() {
    let devices = vec![
        device("1", "zeta"),
        device("2", "Alpha"),
        device("3", "beta"),
        device("0", "ALPHA"),
    ];
    let rows = device_rows(&devices, &Some("1".into()));
    assert_eq!(rows, [0, 3, 1, 2]);
    assert_eq!(selected_device_index(&devices, &rows, &Some("3".into())), 3);
    assert_eq!(selected_device_index(&devices, &rows, &None), 0);
    let row = device_row(
        &devices[0],
        0,
        0,
        &Some("1".into()),
        &Some("1".into()),
        false,
    );
    assert!(row.selected && row.active && row.here && row.offline);
    assert_eq!(row.label, "zeta");
}

#[test]
fn the_footer_names_where_a_session_runs() {
    let folder = space("s", "d", true);
    assert!(matches!(footer(None, None), Footer::Hidden));
    assert!(matches!(
        footer(Some(&space("s", "d", false)), None),
        Footer::Hidden
    ));
    assert!(matches!(footer(Some(&folder), None), Footer::Draft));
    let elsewhere = Some("/worktrees/x".to_string());
    let branch = Some("x".to_string());
    assert!(matches!(
        footer(Some(&folder), Some((&elsewhere, &branch))),
        Footer::Session { checkout: "Worktree", reference } if reference == "x"
    ));
    assert!(matches!(
        footer(Some(&folder), Some((&None, &None))),
        Footer::Session { checkout: "Local checkout", reference } if reference == "No ref"
    ));
    assert_eq!(
        target_labels(None, None),
        ("This device".to_string(), "No agent".to_string())
    );
    assert_eq!(
        target_labels(Some("laptop"), Some("Support")),
        ("laptop".to_string(), "Support".to_string())
    );
}
