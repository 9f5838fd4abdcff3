use wow_hardware_fishbot::bot::{
    bot_step, is_splash, keep_watching, BotAction, BotEvent, BotState, AIM_SETTLE_MS,
    BOBBER_THRESHOLD_KEY, CAST_KEY, SETTLE_MS, SPLASH_TIMEOUT_MS,
};
use wow_hardware_fishbot::capture::{capture_pixel_format, fourcc};
use wow_hardware_fishbot::geometry::Rect;
use wow_hardware_fishbot::mouse::Button;

fn cast() -> Vec<BotAction> {
    vec![BotAction::Tap { key: CAST_KEY }, BotAction::Wait { ms: SETTLE_MS }, BotAction::Search]
}

#[test]
fn the_loop_starts_with_a_cast() {
    let (state, actions) = bot_step(BotState::Idle, BotEvent::Start);
    assert_eq!(state, BotState::Searching);
    assert_eq!(actions, cast());
    assert_eq!(CAST_KEY, 0x1f);
    assert_eq!(BOBBER_THRESHOLD_KEY, 0.80f64.to_bits() as i64);
}

#[test]
fn no_bobber_rests_and_casts_again() {
    let (state, actions) = bot_step(BotState::Searching, BotEvent::Searched(None));
    assert_eq!(state, BotState::Searching);
    let mut expected = vec![BotAction::ReportNoBobber, BotAction::Rest { min_ms: 1000, max_ms: 2000 }];
    expected.extend(cast());
    assert_eq!(actions, expected);
}

#[test]
fn found_bobber_is_aimed_at_and_watched() {
    let bobber = Rect::new(800, 400, 41, 37);
    let (state, actions) = bot_step(BotState::Searching, BotEvent::Searched(Some(bobber)));
    assert_eq!(state, BotState::Watching { bobber });
    assert_eq!(
        actions,
        vec![
            BotAction::MoveCursor { x: 820, y: 418 },
            BotAction::Wait { ms: AIM_SETTLE_MS },
            BotAction::SaveDebugFrame { mark: bobber },
            BotAction::WatchForSplash { area: bobber, timeout_ms: SPLASH_TIMEOUT_MS },
        ]
    );
    assert_eq!(SPLASH_TIMEOUT_MS, 29_000);
}

#[test]
fn splash_is_answered_with_a_right_click() {
    let bobber = Rect::new(1, 2, 3, 4);
    let (state, actions) = bot_step(BotState::Watching { bobber }, BotEvent::Watched(true));
    assert_eq!(state, BotState::Searching);
    let mut expected = vec![
        BotAction::Click { button: Button::Right },
        BotAction::SaveDebugFrame { mark: bobber },
        BotAction::Rest { min_ms: 1000, max_ms: 8000 },
    ];
    expected.extend(cast());
    assert_eq!(actions, expected);
}

#[test]
fn timeout_reports_and_casts_again_without_clicking() {
    let bobber = Rect::new(1, 2, 3, 4);
    let (state, actions) = bot_step(BotState::Watching { bobber }, BotEvent::Watched(false));
    assert_eq!(state, BotState::Searching);
    assert_eq!(actions[0], BotAction::ReportTimeout);
    assert!(!actions.iter().any(|a| matches!(a, BotAction::Click { .. })));
    assert_eq!(actions[actions.len() - 3..].to_vec(), cast());
}

#[test]
fn unexpected_events_change_nothing() {
    let bobber = Rect::new(1, 2, 3, 4);
    for (state, event) in [
        (BotState::Idle, BotEvent::Watched(true)),
        (BotState::Searching, BotEvent::Start),
        (BotState::Watching { bobber }, BotEvent::Searched(None)),
    ] {
        assert_eq!(bot_step(state, event), (state, vec![]));
    }
}

#[test]
fn splash_needs_more_than_250_changed_pixels() {
    assert!(!is_splash(0));
    assert!(!is_splash(250));
    assert!(is_splash(251));
}

#[test]
fn watching_stops_at_the_timeout() {
    assert!(keep_watching(0, 29_000));
    assert!(keep_watching(28_999, 29_000));
    assert!(!keep_watching(29_000, 29_000));
}

#[test]
fn capture_format_is_rgb3() {
    assert_eq!(fourcc(b'R', b'G', b'B', b'3'), 0x3342_4752);
    assert_eq!(capture_pixel_format(), (82u32) | (71u32 << 8) | (66u32 << 16) | (51u32 << 24));
}
