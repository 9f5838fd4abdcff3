use crate::pacing::{HidStep, is_report, is_pause_within, random_delay_ms};
use vstd::prelude::*;

verus! {

/// What to do with a key.
#[derive(Clone, Copy, PartialEq, Eq, Structural, Debug)]
pub enum KeyAction {
    Up,
    Down,
    Tap,
}

/// An eight byte boot keyboard report with no modifier and `key_code` as the
/// only key held; key code 0 releases every key.
pub open spec fn keyboard_report(key_code: u8) -> Seq<u8> {
    seq![0u8, 0u8, key_code, 0u8, 0u8, 0u8, 0u8, 0u8]
}

/// Report logic of the keyboard gadget. It holds no state: every report
/// names the whole set of keys held.
#[derive(Clone, Copy, PartialEq, Eq, Structural, Debug)]
pub struct HidKeyboard;

fn key_report(key_code: u8) -> (r: Vec<u8>)
    ensures
        r@ == keyboard_report(key_code),
{
    vec![0u8, 0u8, key_code, 0u8, 0u8, 0u8, 0u8, 0u8]
}

impl HidKeyboard {
    /// Plans a key action. Down holds `key_code`; Up releases every key; Tap
    /// holds it, pauses 50 to 150 ms and releases every key.
    pub fn key(&self, key_code: u8, action: KeyAction) -> (plan: Vec<HidStep>)
        ensures
            action == KeyAction::Down ==> plan@.len() == 1 && is_report(plan@[0], keyboard_report(key_code)),
            action == KeyAction::Up ==> plan@.len() == 1 && is_report(plan@[0], keyboard_report(0)),
            action == KeyAction::Tap ==> plan@.len() == 3
                && is_report(plan@[0], keyboard_report(key_code))
                && is_pause_within(plan@[1], 50, 150)
                && is_report(plan@[2], keyboard_report(0)),
    {
        let mut plan: Vec<HidStep> = Vec::new();
        match action {
            KeyAction::Down => {
                plan.push(HidStep::Report(key_report(key_code)));
            },
            KeyAction::Up => {
                plan.push(HidStep::Report(key_report(0)));
            },
            KeyAction::Tap => {
                plan.push(HidStep::Report(key_report(key_code)));
                plan.push(HidStep::Pause(random_delay_ms(50, 150)));
                plan.push(HidStep::Report(key_report(0)));
            },
        }
        plan
    }
}

} // verus!
