use zeron::settings::{
    loaded, save_advance, save_step, ComposerDefaults, SaveStep, Saving, SettingsStore, Stored,
    UiConfig, UiSettings,
};
use zeron::update_flow::{
    progress, update_step, Phase, UpdateAction, UpdateEvent, UpdateFlow, CHECK_DELAY, RESTART_HOLD,
};

fn share(part: Option<(u64, u64)>) -> Option<f32> {
    part.map(|(part, whole)| part as f32 / whole as f32)
}

fn flow(phase: Phase) -> UpdateFlow {
    UpdateFlow {
        version: "0.4.0".into(),
        phase,
    }
}

fn status(flow: &UpdateFlow, received: u64) -> String {
    let (part, whole) = flow.fill();
    flow.status(
        (part as f32 / whole as f32 * 100.0).round() as u32,
        &format!("{:.1} MB", received as f64 / 1_048_576.0),
    )
}

#[test]
fn progress_needs_a_nonzero_total() {
    assert_eq!(share(progress(5, Some(10))), Some(0.5));
    assert_eq!(share(progress(10, Some(10))), Some(1.0));
    // A server that over-reports must not overflow the bar.
    assert_eq!(share(progress(20, Some(10))), Some(1.0));
    assert_eq!(share(progress(5, None)), None);
    assert_eq!(share(progress(5, Some(0))), None);
}

#[test]
fn status_falls_back_to_bytes_without_a_total() {
    let half = flow(Phase::Downloading {
        received: 5,
        total: Some(10),
    });
    assert_eq!(status(&half, 5), "Downloading… 50%");
    let unknown = flow(Phase::Downloading {
        received: 1_048_576,
        total: None,
    });
    assert_eq!(status(&unknown, 1_048_576), "Downloading… 1.0 MB");
    assert_eq!(status(&flow(Phase::Installing), 0), "Installing…");
}

#[test]
fn the_bar_fills_once_the_download_is_done() {
    let fill = |phase| share(Some(flow(phase).fill())).unwrap();
    assert_eq!(
        fill(Phase::Downloading {
            received: 1,
            total: Some(4),
        }),
        0.25
    );
    // An unknown total leaves the bar empty rather than jumping around.
    assert_eq!(
        fill(Phase::Downloading {
            received: 1,
            total: None,
        }),
        0.0
    );
    assert_eq!(fill(Phase::Installing), 1.0);
    assert_eq!(fill(Phase::Restarting), 1.0);
}

#[test]
fn an_update_runs_from_the_check_to_the_relaunch() {
    assert_eq!((CHECK_DELAY, RESTART_HOLD), (5000, 600));
    let (modal, action) = update_step(None, UpdateEvent::Waited);
    assert!(modal.is_none());
    assert_eq!(action, UpdateAction::Check);
    let (modal, action) = update_step(modal, UpdateEvent::Checked(Some("0.4.0".into())));
    assert_eq!(action, UpdateAction::Download);
    assert_eq!(modal.as_ref().unwrap().title(), "Updating to 0.4.0");
    let (modal, action) = update_step(
        modal,
        UpdateEvent::Received {
            received: 1,
            total: Some(2),
        },
    );
    assert_eq!(action, UpdateAction::Nothing);
    assert_eq!(modal.as_ref().unwrap().fill(), (1, 2));
    let (modal, action) = update_step(modal, UpdateEvent::Downloaded);
    assert_eq!(action, UpdateAction::Install);
    assert_eq!(modal.as_ref().unwrap().phase, Phase::Installing);
    let (modal, action) = update_step(modal, UpdateEvent::Installed);
    assert_eq!(action, UpdateAction::Hold);
    assert_eq!(status(modal.as_ref().unwrap(), 0), "Restarting Comet…");
    let (modal, action) = update_step(modal, UpdateEvent::Held);
    assert_eq!(action, UpdateAction::Relaunch);
    let (modal, action) = update_step(modal, UpdateEvent::Failed);
    assert!(modal.is_none());
    assert_eq!(action, UpdateAction::Nothing);
    let (modal, action) = update_step(None, UpdateEvent::Checked(None));
    assert!(modal.is_none());
    assert_eq!(action, UpdateAction::Nothing);
}

fn look(appearance: &str) -> UiSettings {
    UiSettings {
        appearance: appearance.into(),
        ui_font_family: "system".into(),
        ui_font_size: "medium".into(),
        theme_selection: "default".into(),
        accent: "default".into(),
        surface: "solid".into(),
    }
}

#[test]
fn a_look_is_stored_when_it_changes() {
    let config = UiConfig {
        data_dir: "/data".into(),
        api_base_url: "https://example.invalid".into(),
    };
    let mut store = SettingsStore {
        current: look("system"),
        data_dir: config.data_dir.clone(),
    };
    assert!(!store.update(look("system")));
    assert!(store.update(look("dark")));
    assert_eq!(store.current, look("dark"));
    assert_eq!(UiSettings::path(&config.data_dir), "/data/ui-settings.json");
    assert_eq!(
        loaded(Stored::Missing, look("system")),
        look("system")
    );
    assert_eq!(
        loaded(Stored::Unreadable, look("system")),
        look("system")
    );
    assert_eq!(
        loaded(Stored::Contents(Some(look("dark"))), look("system")),
        look("dark")
    );
}

#[test]
fn missing_and_corrupt_targets_are_none() {
    assert_eq!(
        ComposerDefaults::load(Stored::Missing),
        ComposerDefaults::default()
    );
    assert_eq!(
        ComposerDefaults::load(Stored::Contents(None)),
        ComposerDefaults::default()
    );
    assert_eq!(
        ComposerDefaults::path("/data"),
        "/data/composer-defaults.json"
    );
}

#[test]
fn remembered_targets_come_back() {
    let mut defaults = ComposerDefaults::default();
    defaults.remember(&None, &Some("local".into()), &Some("project".into()), false);
    assert_eq!(
        defaults.restore(None, None),
        (Some("local".to_string()), Some("project".to_string()))
    );
    assert_eq!(
        defaults.restore(Some("other".into()), None).0.as_deref(),
        Some("other")
    );
}

#[test]
fn a_broken_save_replaces_nothing() {
    let state = Saving::Folder;
    assert_eq!(save_step(state), SaveStep::MakeFolder);
    let state = save_advance(state, true);
    assert_eq!(save_step(state), SaveStep::WriteBeside);
    assert_eq!(save_advance(state, false), Saving::Failed);
    let state = save_advance(state, true);
    assert_eq!(save_step(state), SaveStep::Replace);
    let state = save_advance(state, true);
    assert_eq!(state, Saving::Saved);
    assert_eq!(save_step(state), SaveStep::Nothing);
    assert_eq!(save_step(Saving::Failed), SaveStep::Nothing);
}
