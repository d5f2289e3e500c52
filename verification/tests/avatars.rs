use std::time::Duration;

use zeron::avatars::{
    avatar_state, avatar_theme, begin_load, clear, finish_load, flush_evicted, generation,
    group_avatar_state, retry_delay, retry_timer, snapshot, store_error, store_loaded, Appearance,
    AvatarCache, AvatarKey, AvatarSnapshot, AvatarState, AvatarTheme, ChatIndicator, MAX_ENTRIES,
    NANOS_PER_SECOND,
};

fn key(agent: &str) -> AvatarKey {
    AvatarKey::new(agent, AvatarState::Idle, AvatarTheme::Dark, 64)
}

#[test]
fn maps_chat_indicators_to_avatar_states() {
    assert_eq!(avatar_state(ChatIndicator::Working), AvatarState::Running);
    assert_eq!(
        avatar_state(ChatIndicator::AwaitingInput),
        AvatarState::Thinking
    );
    assert_eq!(avatar_state(ChatIndicator::Errored), AvatarState::Error);
    assert_eq!(avatar_state(ChatIndicator::Completed), AvatarState::Idle);
    assert_eq!(avatar_state(ChatIndicator::Idle), AvatarState::Idle);
}

#[test]
fn groups_states_by_severity() {
    assert_eq!(
        group_avatar_state(&vec![
            AvatarState::Idle,
            AvatarState::Thinking,
            AvatarState::Running
        ]),
        AvatarState::Running
    );
    assert_eq!(
        group_avatar_state(&vec![AvatarState::Error, AvatarState::Running]),
        AvatarState::Error
    );
    assert_eq!(group_avatar_state(&vec![]), AvatarState::Idle);
}

#[test]
fn maps_theme_appearance_to_avatar_ink() {
    assert_eq!(avatar_theme(Appearance::Dark), AvatarTheme::Dark);
    assert_eq!(avatar_theme(Appearance::Light), AvatarTheme::Light);
}

#[test]
fn retry_ladder_is_bounded() {
    let delay = |attempts| Duration::from_secs(retry_delay(attempts));
    assert_eq!(delay(0), Duration::from_secs(2));
    assert_eq!(delay(1), Duration::from_secs(4));
    assert_eq!(delay(2), Duration::from_secs(8));
    assert_eq!(delay(3), Duration::from_secs(15));
    assert_eq!(delay(20), Duration::from_secs(15));
}

#[test]
fn a_load_is_claimed_once_and_then_shown() {
    let mut cache = AvatarCache::new();
    assert!(begin_load(&mut cache, &key("a"), 0));
    assert!(!begin_load(&mut cache, &key("a"), 1));
    assert!(matches!(
        snapshot(&mut cache, &key("a"), 1),
        AvatarSnapshot::Loading
    ));
    store_loaded(&mut cache, key("a"), vec![1, 2, 3]);
    match snapshot(&mut cache, &key("a"), 2) {
        AvatarSnapshot::Loaded(bytes) => assert_eq!(*bytes, vec![1, 2, 3]),
        other => panic!("not loaded: {other:?}"),
    }
    assert!(!begin_load(&mut cache, &key("a"), 3));
}

#[test]
fn a_failed_load_waits_before_it_is_tried_again() {
    let mut cache = AvatarCache::new();
    assert!(begin_load(&mut cache, &key("a"), 0));
    store_error(&mut cache, &key("a"), 0);
    match snapshot(&mut cache, &key("a"), 0) {
        AvatarSnapshot::Error { retry_in } => assert!(retry_in > 0),
        other => panic!("no error: {other:?}"),
    }
    assert!(!begin_load(&mut cache, &key("a"), 1));
    assert!(begin_load(&mut cache, &key("a"), 60 * NANOS_PER_SECOND));
    assert!(retry_timer(1, true).is_none());
    assert!(retry_timer(1, false).is_some());
}

#[test]
fn a_cleared_cache_takes_no_older_load() {
    let mut cache = AvatarCache::new();
    let started = generation(&cache);
    assert!(begin_load(&mut cache, &key("a"), 0));
    clear(&mut cache);
    assert!(generation(&cache) != started);
    assert!(!finish_load(&mut cache, key("a"), started, Some(vec![1]), 1));
    assert!(matches!(
        snapshot(&mut cache, &key("a"), 2),
        AvatarSnapshot::Loading
    ));
    let current = generation(&cache);
    assert!(finish_load(&mut cache, key("a"), current, Some(vec![2]), 3));
}

#[test]
fn the_least_recently_used_picture_makes_room() {
    let mut cache = AvatarCache::new();
    for number in 0..MAX_ENTRIES {
        store_loaded(&mut cache, key(&format!("agent-{number}")), vec![number as u8]);
    }
    assert!(flush_evicted(&mut cache).is_empty());
    assert!(matches!(
        snapshot(&mut cache, &key("agent-0"), 0),
        AvatarSnapshot::Loaded(_)
    ));
    store_loaded(&mut cache, key("late"), vec![99]);
    let gone = flush_evicted(&mut cache);
    assert_eq!(gone.len(), 1);
    assert_eq!(*gone[0], vec![1]);
    assert!(matches!(
        snapshot(&mut cache, &key("agent-0"), 0),
        AvatarSnapshot::Loaded(_)
    ));
}

#[test]
fn failures_in_a_row_climb_the_ladder() {
    let mut cache = AvatarCache::new();
    let mut now = 5;
    for delay in [2, 4, 8, 15, 15] {
        assert!(begin_load(&mut cache, &key("a"), now));
        store_error(&mut cache, &key("a"), now);
        match snapshot(&mut cache, &key("a"), now + NANOS_PER_SECOND) {
            AvatarSnapshot::Error { retry_in } => {
                assert_eq!(retry_in, (delay - 1) * NANOS_PER_SECOND);
            }
            other => panic!("no error: {other:?}"),
        }
        now += delay * NANOS_PER_SECOND;
        assert!(!begin_load(&mut cache, &key("a"), now - 1));
    }
}
