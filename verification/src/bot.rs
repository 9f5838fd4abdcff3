use crate::geometry::{Rect, center_of, fits_i32, half_toward_zero};
use crate::mouse::Button;
use vstd::prelude::*;

verus! {

/// Key code that casts the fishing line (the `2` key).
pub const CAST_KEY: u8 = 0x1f;

/// Time for the bobber to land after a cast.
pub const SETTLE_MS: u64 = 2500;

/// Time for the picture to calm down after the cursor moved onto the bobber.
pub const AIM_SETTLE_MS: u64 = 600;

/// How long to watch for a splash before giving up on a cast.
pub const SPLASH_TIMEOUT_MS: u64 = 29_000;

/// Pause between splash checks.
pub const SPLASH_POLL_MS: u64 = 50;

/// Key of 0.80, the correlation a template match needs to count as the bobber.
pub const BOBBER_THRESHOLD_KEY: i64 = 0x3FE9_9999_9999_999A;

/// Brightness change (out of 255) from which a pixel counts as changed.
pub const SPLASH_PIXEL_DELTA: u8 = 50;

/// More changed pixels than this around the bobber make a splash.
pub const SPLASH_MIN_PIXELS: i32 = 250;

/// Where the fishing loop stands.
#[derive(Clone, Copy, PartialEq, Eq, Structural, Debug)]
pub enum BotState {
    /// Nothing done yet.
    Idle,
    /// A cast was made and the frame is being searched for the bobber.
    Searching,
    /// The cursor is on the bobber and the area is watched for a splash.
    Watching { bobber: Rect },
}

/// What the outside world reports back to the loop.
#[derive(Clone, Copy, PartialEq, Eq, Structural, Debug)]
pub enum BotEvent {
    /// The loop is started.
    Start,
    /// The captured frame was searched; the bobber's rectangle if found.
    Searched(Option<Rect>),
    /// Watching ended: whether a splash was seen before the timeout.
    Watched(bool),
}

/// What the loop asks the outside world to do, in order.
#[derive(Clone, Copy, PartialEq, Eq, Structural, Debug)]
pub enum BotAction {
    /// Tap a key on the keyboard gadget.
    Tap { key: u8 },
    /// Wait a fixed time.
    Wait { ms: u64 },
    /// Wait a random time in `min_ms..=max_ms`.
    Rest { min_ms: u64, max_ms: u64 },
    /// Capture a frame and search it for the bobber.
    Search,
    /// Tell the user that no reliable match was found.
    ReportNoBobber,
    /// Move the cursor to this point.
    MoveCursor { x: i32, y: i32 },
    /// Capture a frame, mark this rectangle and save it for inspection.
    SaveDebugFrame { mark: Rect },
    /// Watch this rectangle for a splash for at most `timeout_ms`.
    WatchForSplash { area: Rect, timeout_ms: u64 },
    /// Click a mouse button.
    Click { button: Button },
    /// Tell the user that no splash came in time.
    ReportTimeout,
}

/// Cast and look for the bobber once it has landed.
pub open spec fn cast_actions() -> Seq<BotAction> {
    seq![BotAction::Tap { key: CAST_KEY }, BotAction::Wait { ms: SETTLE_MS }, BotAction::Search]
}

/// The event fits the state: the loop expects it there.
pub open spec fn expected(state: BotState, event: BotEvent) -> bool {
    match (state, event) {
        (BotState::Idle, BotEvent::Start) => true,
        (BotState::Searching, BotEvent::Searched(_)) => true,
        (BotState::Watching { .. }, BotEvent::Watched(_)) => true,
        _ => false,
    }
}

/// The next state and the actions of one turn of the fishing loop. An event
/// that the state does not expect changes nothing and asks for nothing.
pub open spec fn bot_step_spec(state: BotState, event: BotEvent) -> (BotState, Seq<BotAction>) {
    match (state, event) {
        (BotState::Idle, BotEvent::Start) => (BotState::Searching, cast_actions()),
        (BotState::Searching, BotEvent::Searched(None)) => (
            BotState::Searching,
            seq![BotAction::ReportNoBobber, BotAction::Rest { min_ms: 1000, max_ms: 2000 }] + cast_actions(),
        ),
        (BotState::Searching, BotEvent::Searched(Some(bobber))) => (
            BotState::Watching { bobber },
            seq![
                BotAction::MoveCursor { x: center_of(bobber).0 as i32, y: center_of(bobber).1 as i32 },
                BotAction::Wait { ms: AIM_SETTLE_MS },
                BotAction::SaveDebugFrame { mark: bobber },
                BotAction::WatchForSplash { area: bobber, timeout_ms: SPLASH_TIMEOUT_MS },
            ],
        ),
        (BotState::Watching { bobber }, BotEvent::Watched(splash)) => (
            BotState::Searching,
            (if splash {
                seq![BotAction::Click { button: Button::Right }]
            } else {
                seq![BotAction::ReportTimeout]
            }) + seq![BotAction::SaveDebugFrame { mark: bobber }, BotAction::Rest { min_ms: 1000, max_ms: 8000 }]
                + cast_actions(),
        ),
        _ => (state, Seq::empty()),
    }
}

/// The bobber's center can be aimed at without overflow.
pub open spec fn aimable(event: BotEvent) -> bool {
    event matches BotEvent::Searched(Some(r)) ==> fits_i32(center_of(r).0) && fits_i32(center_of(r).1)
}

fn push_cast(actions: &mut Vec<BotAction>)
    ensures
        final(actions)@ == old(actions)@ + cast_actions(),
{
    actions.push(BotAction::Tap { key: CAST_KEY });
    actions.push(BotAction::Wait { ms: SETTLE_MS });
    actions.push(BotAction::Search);
    assert(actions@ =~= old(actions)@ + cast_actions());
}

/// One turn of the fishing loop: from the state and what just happened, the
/// next state and what to do next.
pub fn bot_step(state: BotState, event: BotEvent) -> (r: (BotState, Vec<BotAction>))
    requires
        aimable(event),
    ensures
        r.0 == bot_step_spec(state, event).0,
        r.1@ == bot_step_spec(state, event).1,
        (match (state, event) {
            (BotState::Watching { bobber }, BotEvent::Watched(splash)) => r.0 == BotState::Searching && r.1@ == seq![
                if splash { BotAction::Click { button: Button::Right } } else { BotAction::ReportTimeout },
                BotAction::SaveDebugFrame { mark: bobber },
                BotAction::Rest { min_ms: 1000, max_ms: 8000 },
                BotAction::Tap { key: 0x1f },
                BotAction::Wait { ms: 2500 },
                BotAction::Search,
            ],
            (BotState::Searching, BotEvent::Searched(Some(bobber))) => r.0 == (BotState::Watching { bobber })
                && r.1@ == seq![
                BotAction::MoveCursor {
                    x: (bobber.x + half_toward_zero(bobber.width as int)) as i32,
                    y: (bobber.y + half_toward_zero(bobber.height as int)) as i32,
                },
                BotAction::Wait { ms: 600 },
                BotAction::SaveDebugFrame { mark: bobber },
                BotAction::WatchForSplash { area: bobber, timeout_ms: 29_000 },
            ],
            _ => true,
        }),
        state == BotState::Searching && event == BotEvent::Searched(None) ==> r.0 == BotState::Searching && r.1@ == seq![
            BotAction::ReportNoBobber,
            BotAction::Rest { min_ms: 1000, max_ms: 2000 },
            BotAction::Tap { key: 0x1f },
            BotAction::Wait { ms: 2500 },
            BotAction::Search,
        ],
        state == BotState::Idle && event == BotEvent::Start ==> r.0 == BotState::Searching && r.1@ == seq![
            BotAction::Tap { key: 0x1f },
            BotAction::Wait { ms: 2500 },
            BotAction::Search,
        ],
{
    proof {
        match (state, event) {
            (BotState::Watching { bobber }, BotEvent::Watched(splash)) => lemma_bot_turns(bobber, splash),
            (_, BotEvent::Searched(Some(bobber))) => lemma_bot_turns(bobber, false),
            _ => lemma_bot_turns(Rect { x: 0, y: 0, width: 0, height: 0 }, false),
        }
    }
    let mut actions: Vec<BotAction> = Vec::new();
    match (state, event) {
        (BotState::Idle, BotEvent::Start) => {
            push_cast(&mut actions);
            proof {
                assert(actions@ =~= cast_actions());
            }
            (BotState::Searching, actions)
        },
        (BotState::Searching, BotEvent::Searched(None)) => {
            actions.push(BotAction::ReportNoBobber);
            actions.push(BotAction::Rest { min_ms: 1000, max_ms: 2000 });
            push_cast(&mut actions);
            proof {
                assert(actions@ =~= bot_step_spec(state, event).1);
            }
            (BotState::Searching, actions)
        },
        (BotState::Searching, BotEvent::Searched(Some(bobber))) => {
            let (x, y) = bobber.center();
            actions.push(BotAction::MoveCursor { x, y });
            actions.push(BotAction::Wait { ms: AIM_SETTLE_MS });
            actions.push(BotAction::SaveDebugFrame { mark: bobber });
            actions.push(BotAction::WatchForSplash { area: bobber, timeout_ms: SPLASH_TIMEOUT_MS });
            proof {
                assert(actions@ =~= bot_step_spec(state, event).1);
            }
            (BotState::Watching { bobber }, actions)
        },
        (BotState::Watching { bobber }, BotEvent::Watched(splash)) => {
            if splash {
                actions.push(BotAction::Click { button: Button::Right });
            } else {
                actions.push(BotAction::ReportTimeout);
            }
            actions.push(BotAction::SaveDebugFrame { mark: bobber });
            actions.push(BotAction::Rest { min_ms: 1000, max_ms: 8000 });
            push_cast(&mut actions);
            proof {
                assert(actions@ =~= bot_step_spec(state, event).1);
            }
            (BotState::Searching, actions)
        },
        _ => {
            proof {
                assert(actions@ =~= bot_step_spec(state, event).1);
            }
            (state, actions)
        },
    }
}

/// Whether the changed pixels around the bobber amount to a splash.
pub fn is_splash(changed_pixels: i32) -> (r: bool)
    ensures
        r == (changed_pixels > SPLASH_MIN_PIXELS),
{
    changed_pixels > SPLASH_MIN_PIXELS
}

/// Whether to take another look for a splash after `elapsed_ms` of watching.
pub fn keep_watching(elapsed_ms: u64, timeout_ms: u64) -> (r: bool)
    ensures
        r == (elapsed_ms < timeout_ms),
{
    elapsed_ms < timeout_ms
}

/// The line is reeled in (a click) only on a splash seen while watching the
/// bobber, and a splash seen then is always answered with a right click.
pub proof fn lemma_click_only_on_splash(state: BotState, event: BotEvent)
    ensures
        (exists|k: int| 0 <= k < bot_step_spec(state, event).1.len()
            && #[trigger] bot_step_spec(state, event).1[k] is Click) ==> (state is Watching && event == BotEvent::Watched(true)),
        (state is Watching && event == BotEvent::Watched(true)) ==> bot_step_spec(state, event).1[0] == (BotAction::Click { button: Button::Right }),
{
    let acts = bot_step_spec(state, event).1;
    if exists|k: int| 0 <= k < acts.len() && #[trigger] acts[k] is Click {
        let k = choose|k: int| 0 <= k < acts.len() && #[trigger] acts[k] is Click;
        match (state, event) {
            (BotState::Idle, BotEvent::Start) => {
                assert(acts[k] !is Click);
            },
            (BotState::Searching, BotEvent::Searched(None)) => {
                assert(acts[k] !is Click);
            },
            (BotState::Searching, BotEvent::Searched(Some(b))) => {
                assert(acts[k] !is Click);
            },
            (BotState::Watching { bobber }, BotEvent::Watched(splash)) => {
                if !splash {
                    assert(acts[k] !is Click);
                }
            },
            _ => {},
        }
    }
}

/// After every expected event the loop hands exactly one request for news to
/// the outside world as its last action, and waits in the state that expects
/// the answer: a search while searching, a splash watch while watching.
pub proof fn lemma_loop_never_stalls(state: BotState, event: BotEvent)
    requires
        expected(state, event),
    ensures
        bot_step_spec(state, event).1.len() > 0,
        bot_step_spec(state, event).1.last() == BotAction::Search ==> bot_step_spec(state, event).0 == BotState::Searching,
        bot_step_spec(state, event).1.last() is WatchForSplash ==> bot_step_spec(state, event).0 is Watching,
        bot_step_spec(state, event).1.last() == BotAction::Search || bot_step_spec(state, event).1.last() is WatchForSplash,
        forall|k: int| 0 <= k < bot_step_spec(state, event).1.len() - 1 ==>
            #[trigger] bot_step_spec(state, event).1[k] != BotAction::Search && bot_step_spec(state, event).1[k] !is WatchForSplash,
        forall|e: BotEvent| expected(bot_step_spec(state, event).0, e) <==> match bot_step_spec(state, event).0 {
            BotState::Searching => e is Searched,
            BotState::Watching { .. } => e is Watched,
            BotState::Idle => e is Start,
        },
{
}

/// Every search for the bobber comes right after a cast and the wait for the
/// bobber to land.
pub proof fn lemma_search_follows_cast(state: BotState, event: BotEvent)
    ensures
        forall|k: int| 0 <= k < bot_step_spec(state, event).1.len()
            && #[trigger] bot_step_spec(state, event).1[k] == BotAction::Search ==> k >= 2
            && bot_step_spec(state, event).1[k - 2] == (BotAction::Tap { key: CAST_KEY })
            && bot_step_spec(state, event).1[k - 1] == (BotAction::Wait { ms: SETTLE_MS }),
{
}

/// Once the bobber is found, the cursor goes to its center and the splash is
/// watched for in its rectangle.
pub proof fn lemma_aim_at_bobber(bobber: Rect)
    requires
        fits_i32(center_of(bobber).0),
        fits_i32(center_of(bobber).1),
    ensures
        bot_step_spec(BotState::Searching, BotEvent::Searched(Some(bobber))).1[0] == (BotAction::MoveCursor {
            x: center_of(bobber).0 as i32,
            y: center_of(bobber).1 as i32,
        }),
        bot_step_spec(BotState::Searching, BotEvent::Searched(Some(bobber))).1.last() == (BotAction::WatchForSplash {
            area: bobber,
            timeout_ms: SPLASH_TIMEOUT_MS,
        }),
        bot_step_spec(BotState::Searching, BotEvent::Searched(Some(bobber))).0 == (BotState::Watching { bobber }),
{
}

/// An event the state does not expect changes nothing and asks for nothing.
pub proof fn lemma_unexpected_event_ignored(state: BotState, event: BotEvent)
    requires
        !expected(state, event),
    ensures
        bot_step_spec(state, event).0 == state,
        bot_step_spec(state, event).1.len() == 0,
{
}

/// Each turn of the loop, spelled out action by action. Starting casts: tap
/// key 0x1f, wait 2500 ms, search. Without a bobber: report it, rest 1 to 2 s,
/// cast again. With a bobber found at `bobber`: move to its center, wait
/// 600 ms, save a marked frame, watch it for 29 s. After watching, with or
/// without a splash: click the right button or report the timeout, then save
/// a marked frame, rest 1 to 8 s and cast again.
pub proof fn lemma_bot_turns(bobber: Rect, splash: bool)
    ensures
        bot_step_spec(BotState::Idle, BotEvent::Start).0 == BotState::Searching,
        bot_step_spec(BotState::Idle, BotEvent::Start).1 == seq![
            BotAction::Tap { key: 0x1f },
            BotAction::Wait { ms: 2500 },
            BotAction::Search,
        ],
        bot_step_spec(BotState::Searching, BotEvent::Searched(None)).0 == BotState::Searching,
        bot_step_spec(BotState::Searching, BotEvent::Searched(None)).1 == seq![
            BotAction::ReportNoBobber,
            BotAction::Rest { min_ms: 1000, max_ms: 2000 },
            BotAction::Tap { key: 0x1f },
            BotAction::Wait { ms: 2500 },
            BotAction::Search,
        ],
        bot_step_spec(BotState::Searching, BotEvent::Searched(Some(bobber))).0 == (BotState::Watching { bobber }),
        bot_step_spec(BotState::Searching, BotEvent::Searched(Some(bobber))).1 == seq![
            BotAction::MoveCursor {
                x: (bobber.x + half_toward_zero(bobber.width as int)) as i32,
                y: (bobber.y + half_toward_zero(bobber.height as int)) as i32,
            },
            BotAction::Wait { ms: 600 },
            BotAction::SaveDebugFrame { mark: bobber },
            BotAction::WatchForSplash { area: bobber, timeout_ms: 29_000 },
        ],
        bot_step_spec(BotState::Watching { bobber }, BotEvent::Watched(splash)).0 == BotState::Searching,
        bot_step_spec(BotState::Watching { bobber }, BotEvent::Watched(splash)).1 == seq![
            if splash { BotAction::Click { button: Button::Right } } else { BotAction::ReportTimeout },
            BotAction::SaveDebugFrame { mark: bobber },
            BotAction::Rest { min_ms: 1000, max_ms: 8000 },
            BotAction::Tap { key: 0x1f },
            BotAction::Wait { ms: 2500 },
            BotAction::Search,
        ],
{
    assert(bot_step_spec(BotState::Idle, BotEvent::Start).1 =~= seq![
        BotAction::Tap { key: 0x1f },
        BotAction::Wait { ms: 2500 },
        BotAction::Search,
    ]);
    assert(bot_step_spec(BotState::Searching, BotEvent::Searched(None)).1 =~= seq![
        BotAction::ReportNoBobber,
        BotAction::Rest { min_ms: 1000, max_ms: 2000 },
        BotAction::Tap { key: 0x1f },
        BotAction::Wait { ms: 2500 },
        BotAction::Search,
    ]);
    assert(bot_step_spec(BotState::Watching { bobber }, BotEvent::Watched(splash)).1 =~= seq![
        if splash { BotAction::Click { button: Button::Right } } else { BotAction::ReportTimeout },
        BotAction::SaveDebugFrame { mark: bobber },
        BotAction::Rest { min_ms: 1000, max_ms: 8000 },
        BotAction::Tap { key: 0x1f },
        BotAction::Wait { ms: 2500 },
        BotAction::Search,
    ]);
}

} // verus!
