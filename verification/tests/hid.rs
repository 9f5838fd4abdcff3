use wow_hardware_fishbot::keyboard::{HidKeyboard, KeyAction};
use wow_hardware_fishbot::mouse::{Button, ButtonAction, HidMouse, HOME_REPORTS};
use wow_hardware_fishbot::pacing::{random_delay, HidStep};

fn report(step: &HidStep) -> Vec<u8> {
    match step {
        HidStep::Report(r) => r.clone(),
        HidStep::Pause(ms) => panic!("expected a report, got a pause of {ms} ms"),
    }
}

fn pause(step: &HidStep) -> u64 {
    match step {
        HidStep::Pause(ms) => *ms,
        HidStep::Report(r) => panic!("expected a pause, got {r:?}"),
    }
}

fn decode(b: u8) -> i32 {
    b as i8 as i32
}

#[test]
fn key_down_holds_the_key() {
    let plan = HidKeyboard.key(0x1f, KeyAction::Down);
    assert_eq!(plan.len(), 1);
    assert_eq!(report(&plan[0]), vec![0, 0, 0x1f, 0, 0, 0, 0, 0]);
}

#[test]
fn key_up_releases_every_key() {
    let plan = HidKeyboard.key(0x1f, KeyAction::Up);
    assert_eq!(plan.len(), 1);
    assert_eq!(report(&plan[0]), vec![0; 8]);
}

#[test]
fn key_tap_presses_pauses_and_releases() {
    for _ in 0..20 {
        let plan = HidKeyboard.key(0x04, KeyAction::Tap);
        assert_eq!(plan.len(), 3);
        assert_eq!(report(&plan[0]), vec![0, 0, 0x04, 0, 0, 0, 0, 0]);
        let ms = pause(&plan[1]);
        assert!((50..=150).contains(&ms));
        assert_eq!(report(&plan[2]), vec![0; 8]);
    }
}

#[test]
fn button_masks_match_the_report_bits() {
    assert_eq!(Button::Left.mask(), 1);
    assert_eq!(Button::Right.mask(), 2);
    assert_eq!(Button::Middle.mask(), 4);
}

#[test]
fn button_down_up_and_click() {
    let mouse = HidMouse::new();
    let down = mouse.button(Button::Middle, ButtonAction::Down);
    assert_eq!(down.len(), 1);
    assert_eq!(report(&down[0]), vec![4, 0, 0, 0]);
    let up = mouse.button(Button::Middle, ButtonAction::Up);
    assert_eq!(up.len(), 1);
    assert_eq!(report(&up[0]), vec![0, 0, 0, 0]);
    let click = mouse.button(Button::Right, ButtonAction::Click);
    assert_eq!(click.len(), 3);
    assert_eq!(report(&click[0]), vec![2, 0, 0, 0]);
    assert!((50..=150).contains(&pause(&click[1])));
    assert_eq!(report(&click[2]), vec![0, 0, 0, 0]);
    assert_eq!((mouse.cursor_x(), mouse.cursor_y()), (0, 0));
}

#[test]
fn new_mouse_starts_top_left() {
    let mouse = HidMouse::new();
    assert_eq!((mouse.cursor_x(), mouse.cursor_y()), (0, 0));
}

#[test]
fn cursor_home_sends_twenty_full_steps_back() {
    let mut mouse = HidMouse::new();
    let _ = mouse.cursor_move(300, 200);
    let plan = mouse.cursor_home();
    assert_eq!(plan.len(), 2 * HOME_REPORTS);
    for k in 0..HOME_REPORTS {
        assert_eq!(report(&plan[2 * k]), vec![0, 0x81, 0x81, 0]);
        assert!((10..=25).contains(&pause(&plan[2 * k + 1])));
    }
    assert_eq!((mouse.cursor_x(), mouse.cursor_y()), (0, 0));
}

#[test]
fn cursor_move_splits_into_steps_of_at_most_127() {
    let mut mouse = HidMouse::new();
    let plan = mouse.cursor_move(300, -5);
    let reports: Vec<Vec<u8>> = plan.iter().step_by(2).map(report).collect();
    assert_eq!(
        reports,
        vec![vec![0, 127, 0xfb, 0], vec![0, 127, 0, 0], vec![0, 46, 0, 0]]
    );
    for k in 0..3 {
        assert!((10..=25).contains(&pause(&plan[2 * k + 1])));
    }
    assert_eq!((mouse.cursor_x(), mouse.cursor_y()), (300, -5));
}

#[test]
fn cursor_move_reports_add_up_to_the_distance() {
    let mut mouse = HidMouse::new();
    let _ = mouse.cursor_move(960, 540);
    let plan = mouse.cursor_move(37, 1011);
    let mut total = (0, 0);
    let mut count = 0;
    for step in &plan {
        if let HidStep::Report(r) = step {
            assert!(decode(r[1]).abs() <= 127 && decode(r[2]).abs() <= 127);
            total.0 += decode(r[1]);
            total.1 += decode(r[2]);
            count += 1;
        }
    }
    assert_eq!(total, (37 - 960, 1011 - 540));
    // ceil(923 / 127) = 8 reports for the longer axis
    assert_eq!(count, 8);
    assert_eq!((mouse.cursor_x(), mouse.cursor_y()), (37, 1011));
}

#[test]
fn cursor_move_to_the_current_position_sends_nothing() {
    let mut mouse = HidMouse::new();
    let _ = mouse.cursor_move(10, 10);
    let plan = mouse.cursor_move(10, 10);
    assert!(plan.is_empty());
    assert_eq!((mouse.cursor_x(), mouse.cursor_y()), (10, 10));
}

#[test]
fn random_delay_stays_in_range() {
    for _ in 0..200 {
        let ms = random_delay(1000, 2000);
        assert!((1000..=2000).contains(&ms));
    }
    assert_eq!(random_delay(7, 7), 7);
}

#[test]
fn random_delay_varies() {
    let draws: Vec<u64> = (0..64).map(|_| random_delay(0, 1_000_000)).collect();
    assert!(draws.iter().any(|&d| d != draws[0]));
    assert!(draws.iter().any(|&d| d != 0 && d != 1_000_000));
}

#[test]
fn moving_back_mirrors_the_steps() {
    let mut mouse = HidMouse::new();
    let out: Vec<Vec<u8>> = mouse.cursor_move(300, -5).iter().step_by(2).map(report).collect();
    let back: Vec<Vec<u8>> = mouse.cursor_move(0, 0).iter().step_by(2).map(report).collect();
    assert_eq!(out.len(), back.len());
    for (o, b) in out.iter().zip(&back) {
        assert_eq!(decode(o[1]), -decode(b[1]));
        assert_eq!(decode(o[2]), -decode(b[2]));
    }
    assert_eq!((mouse.cursor_x(), mouse.cursor_y()), (0, 0));
}
