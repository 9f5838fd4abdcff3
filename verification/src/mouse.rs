use crate::pacing::{HidStep, is_report, is_pause_within, random_delay_ms};
use vstd::prelude::*;

verus! {

/// What to do with a mouse button.
#[derive(Clone, Copy, PartialEq, Eq, Structural, Debug)]
pub enum ButtonAction {
    Up,
    Down,
    Click,
}

/// A mouse button, identified in the report by its bit.
#[derive(Clone, Copy, PartialEq, Eq, Structural, Debug)]
pub enum Button {
    Left,
    Right,
    Middle,
}

/// The bit of the first report byte that holds this button down.
pub open spec fn button_bit(button: Button) -> u8 {
    match button {
        Button::Left => 1,
        Button::Right => 2,
        Button::Middle => 4,
    }
}

impl Button {
    /// The report's button byte with only this button pressed.
    pub fn mask(&self) -> (bit: u8)
        ensures
            bit == button_bit(*self),
    {
        match self {
            Button::Left => 1,
            Button::Right => 2,
            Button::Middle => 4,
        }
    }
}

/// Largest movement, in either direction, that one relative report carries.
pub const MAX_STEP: i32 = 127;

/// Number of full-speed reports that bring the cursor home from anywhere on screen.
pub const HOME_REPORTS: usize = 20;

/// The part of a remaining distance that the next report moves.
pub open spec fn clamp_step(d: int) -> int {
    if d > 127 {
        127
    } else if d < -127 {
        -127
    } else {
        d
    }
}

pub open spec fn abs(d: int) -> int {
    if d < 0 {
        -d
    } else {
        d
    }
}

/// The relative movements, in order, that bring the cursor across `(dx, dy)`:
/// each axis moves by at most 127 per report until both distances are zero.
pub open spec fn move_deltas(dx: int, dy: int) -> Seq<(int, int)>
    decreases abs(dx) + abs(dy),
{
    if dx == 0 && dy == 0 {
        Seq::empty()
    } else {
        seq![(clamp_step(dx), clamp_step(dy))] + move_deltas(dx - clamp_step(dx), dy - clamp_step(dy))
    }
}

/// Two's complement byte of a movement in `-128..=127`, as the report carries it.
pub open spec fn movement_byte(d: int) -> u8 {
    if d >= 0 {
        d as u8
    } else {
        (d + 256) as u8
    }
}

/// The signed movement that a report byte stands for.
pub open spec fn byte_movement(b: u8) -> int {
    if b < 128 {
        b as int
    } else {
        b - 256
    }
}

/// A four byte relative mouse report: buttons, x movement, y movement, wheel.
pub open spec fn mouse_report(buttons: u8, dx: int, dy: int) -> Seq<u8> {
    seq![buttons, movement_byte(dx), movement_byte(dy), 0u8]
}

/// The plan `plan` sends one report per movement in `deltas`, each followed by
/// a pause of 10 to 25 ms.
pub open spec fn is_move_plan(plan: Seq<HidStep>, deltas: Seq<(int, int)>) -> bool {
    &&& plan.len() == 2 * deltas.len()
    &&& forall|k: int|
        0 <= k < deltas.len() ==> #[trigger] is_report(plan[2 * k], mouse_report(0, deltas[k].0, deltas[k].1))
            && is_pause_within(plan[2 * k + 1], 10, 25)
}

proof fn lemma_extend_move_plan(before: Seq<HidStep>, after: Seq<HidStep>, deltas: Seq<(int, int)>, d: (int, int))
    requires
        is_move_plan(before, deltas),
        after.len() == before.len() + 2,
        forall|i: int| 0 <= i < before.len() ==> after[i] == before[i],
        is_report(after[before.len() as int], mouse_report(0, d.0, d.1)),
        is_pause_within(after[before.len() as int + 1], 10, 25),
    ensures
        is_move_plan(after, deltas.push(d)),
{
    let ext = deltas.push(d);
    assert forall|k: int| 0 <= k < ext.len() implies #[trigger] is_report(after[2 * k], mouse_report(0, ext[k].0, ext[k].1))
        && is_pause_within(after[2 * k + 1], 10, 25) by {
        if k < deltas.len() {
            assert(ext[k] == deltas[k]);
            assert(is_report(before[2 * k], mouse_report(0, deltas[k].0, deltas[k].1)));
            assert(after[2 * k] == before[2 * k]);
            assert(after[2 * k + 1] == before[2 * k + 1]);
        }
    }
}

/// Sum of the x parts of a sequence of movements.
pub open spec fn total_x(deltas: Seq<(int, int)>) -> int
    decreases deltas.len(),
{
    if deltas.len() == 0 {
        0
    } else {
        deltas[0].0 + total_x(deltas.drop_first())
    }
}

/// Sum of the y parts of a sequence of movements.
pub open spec fn total_y(deltas: Seq<(int, int)>) -> int
    decreases deltas.len(),
{
    if deltas.len() == 0 {
        0
    } else {
        deltas[0].1 + total_y(deltas.drop_first())
    }
}

/// How far a host moves its pointer on receiving `step`: the signed x and y
/// bytes of a four byte report; nothing for a pause.
pub open spec fn step_motion(step: HidStep) -> (int, int) {
    match step {
        HidStep::Report(r) => if r@.len() == 4 {
            (byte_movement(r@[1]), byte_movement(r@[2]))
        } else {
            (0, 0)
        },
        HidStep::Pause(_) => (0, 0),
    }
}

/// Total x movement that a host applies for a whole plan.
pub open spec fn plan_motion_x(plan: Seq<HidStep>) -> int
    decreases plan.len(),
{
    if plan.len() == 0 {
        0
    } else {
        step_motion(plan[0]).0 + plan_motion_x(plan.drop_first())
    }
}

/// Total y movement that a host applies for a whole plan.
pub open spec fn plan_motion_y(plan: Seq<HidStep>) -> int
    decreases plan.len(),
{
    if plan.len() == 0 {
        0
    } else {
        step_motion(plan[0]).1 + plan_motion_y(plan.drop_first())
    }
}

/// Number of reports needed for a distance `d` on one axis: `ceil(|d| / 127)`.
pub open spec fn reports_for(d: int) -> int {
    (abs(d) + 126) / 127
}

/// A movement in `-128..=127` survives the trip through its report byte.
pub proof fn lemma_movement_byte_roundtrip(d: int)
    requires
        -128 <= d <= 127,
    ensures
        byte_movement(movement_byte(d)) == d,
{
}

/// The movements that reach `(dx, dy)` add up to `(dx, dy)`, none exceeds
/// 127 on either axis, and there are as many as the longer axis needs at
/// full speed.
pub proof fn lemma_move_deltas(dx: int, dy: int)
    ensures
        total_x(move_deltas(dx, dy)) == dx,
        total_y(move_deltas(dx, dy)) == dy,
        forall|k: int| 0 <= k < move_deltas(dx, dy).len() ==>
            -127 <= #[trigger] move_deltas(dx, dy)[k].0 <= 127 && -127 <= move_deltas(dx, dy)[k].1 <= 127,
        move_deltas(dx, dy).len() == if reports_for(dx) >= reports_for(dy) { reports_for(dx) } else { reports_for(dy) },
    decreases abs(dx) + abs(dy),
{
    if dx == 0 && dy == 0 {
    } else {
        let sx = clamp_step(dx);
        let sy = clamp_step(dy);
        let rest = move_deltas(dx - sx, dy - sy);
        lemma_move_deltas(dx - sx, dy - sy);
        let all = move_deltas(dx, dy);
        assert(all.drop_first() =~= rest);
        assert(all[0] == (sx, sy));
        assert forall|k: int| 0 <= k < all.len() implies -127 <= #[trigger] all[k].0 <= 127 && -127 <= all[k].1 <= 127 by {
            if k > 0 {
                assert(all[k] == rest[k - 1]);
            }
        }
        assert(reports_for(dx) == if dx == 0 { 0 } else { reports_for(dx - sx) + 1 });
        assert(reports_for(dy) == if dy == 0 { 0 } else { reports_for(dy - sy) + 1 });
    }
}

/// A plan that carries `deltas` within one byte each moves the host's pointer
/// by their sums.
pub proof fn lemma_move_plan_motion(plan: Seq<HidStep>, deltas: Seq<(int, int)>)
    requires
        is_move_plan(plan, deltas),
        forall|k: int| 0 <= k < deltas.len() ==>
            -127 <= #[trigger] deltas[k].0 <= 127 && -127 <= deltas[k].1 <= 127,
    ensures
        plan_motion_x(plan) == total_x(deltas),
        plan_motion_y(plan) == total_y(deltas),
    decreases deltas.len(),
{
    if deltas.len() == 0 {
    } else {
        let rest_plan = plan.subrange(2, plan.len() as int);
        let rest = deltas.drop_first();
        assert forall|k: int| 0 <= k < rest.len() implies #[trigger] is_report(rest_plan[2 * k], mouse_report(0, rest[k].0, rest[k].1))
            && is_pause_within(rest_plan[2 * k + 1], 10, 25) by {
            assert(rest[k] == deltas[k + 1]);
            assert(is_report(plan[2 * (k + 1)], mouse_report(0, deltas[k + 1].0, deltas[k + 1].1)));
            assert(rest_plan[2 * k] == plan[2 * (k + 1)]);
            assert(rest_plan[2 * k + 1] == plan[2 * (k + 1) + 1]);
        }
        assert forall|k: int| 0 <= k < rest.len() implies -127 <= #[trigger] rest[k].0 <= 127 && -127 <= rest[k].1 <= 127 by {
            assert(rest[k] == deltas[k + 1]);
        }
        lemma_move_plan_motion(rest_plan, rest);
        let first: int = 0;
        assert(is_report(plan[2 * first], mouse_report(0, deltas[first].0, deltas[first].1)));
        assert(is_pause_within(plan[2 * first + 1], 10, 25));
        lemma_movement_byte_roundtrip(deltas[0].0);
        lemma_movement_byte_roundtrip(deltas[0].1);
        assert(plan.drop_first().drop_first() =~= rest_plan);
        assert(step_motion(plan[0]) == deltas[0]);
        assert(step_motion(plan[1]) == (0int, 0int));
        assert(plan.drop_first()[0] == plan[1]);
        assert(plan_motion_x(plan.drop_first()) == plan_motion_x(rest_plan));
        assert(plan_motion_y(plan.drop_first()) == plan_motion_y(rest_plan));
    }
}

proof fn lemma_full_back_totals(n: nat)
    ensures
        total_x(Seq::new(n, |k: int| (-127int, -127int))) == -127 * n,
        total_y(Seq::new(n, |k: int| (-127int, -127int))) == -127 * n,
    decreases n,
{
    if n > 0 {
        lemma_full_back_totals((n - 1) as nat);
        assert(Seq::new(n, |k: int| (-127int, -127int)).drop_first() =~= Seq::new((n - 1) as nat, |k: int| (-127int, -127int)));
    }
}

/// Moving back over the same distance sends the same steps with the opposite
/// sign.
pub proof fn lemma_move_back_mirrors(dx: int, dy: int)
    ensures
        move_deltas(-dx, -dy).len() == move_deltas(dx, dy).len(),
        forall|k: int| 0 <= k < move_deltas(dx, dy).len() ==> #[trigger] move_deltas(-dx, -dy)[k] == (
            -move_deltas(dx, dy)[k].0,
            -move_deltas(dx, dy)[k].1,
        ),
    decreases abs(dx) + abs(dy),
{
    if dx == 0 && dy == 0 {
    } else {
        let sx = clamp_step(dx);
        let sy = clamp_step(dy);
        assert(clamp_step(-dx) == -sx);
        assert(clamp_step(-dy) == -sy);
        lemma_move_back_mirrors(dx - sx, dy - sy);
        assert(-dx - (-sx) == -(dx - sx));
        assert(-dy - (-sy) == -(dy - sy));
        let fwd = move_deltas(dx, dy);
        let back = move_deltas(-dx, -dy);
        let fwd_rest = move_deltas(dx - sx, dy - sy);
        let back_rest = move_deltas(-(dx - sx), -(dy - sy));
        assert(back == seq![(-sx, -sy)] + back_rest);
        assert(fwd == seq![(sx, sy)] + fwd_rest);
        assert forall|k: int| 0 <= k < fwd.len() implies #[trigger] back[k] == (-fwd[k].0, -fwd[k].1) by {
            if k > 0 {
                assert(back[k] == back_rest[k - 1]);
                assert(fwd[k] == fwd_rest[k - 1]);
            }
        }
    }
}

fn movement_to_byte(d: i32) -> (b: u8)
    requires
        -128 <= d <= 127,
    ensures
        b == movement_byte(d as int),
{
    if d >= 0 {
        d as u8
    } else {
        (d + 256) as u8
    }
}

fn clamp_to_step(d: i32) -> (s: i32)
    ensures
        s == clamp_step(d as int),
{
    if d > MAX_STEP {
        MAX_STEP
    } else if d < -MAX_STEP {
        -MAX_STEP
    } else {
        d
    }
}

/// Cursor position that the bot believes the host's pointer is at; a relative
/// mouse cannot read it back, so it is tracked from the reports sent.
#[derive(Clone, Copy, PartialEq, Eq, Structural, Debug)]
pub struct HidMouse {
    cursor_x: i32,
    cursor_y: i32,
}

impl HidMouse {
    pub closed spec fn x(self) -> int {
        self.cursor_x as int
    }

    pub closed spec fn y(self) -> int {
        self.cursor_y as int
    }

    /// A mouse whose cursor is taken to be at the top left corner.
    pub fn new() -> (m: HidMouse)
        ensures
            m.x() == 0,
            m.y() == 0,
    {
        HidMouse { cursor_x: 0, cursor_y: 0 }
    }

    pub fn cursor_x(&self) -> (x: i32)
        ensures
            x == self.x(),
    {
        self.cursor_x
    }

    pub fn cursor_y(&self) -> (y: i32)
        ensures
            y == self.y(),
    {
        self.cursor_y
    }

    /// Plans the return of the cursor to the top left corner: twenty reports
    /// that each move by -127 on both axes, each followed by a pause of 10 to
    /// 25 ms. Afterwards the cursor is taken to be at `(0, 0)`.
    pub fn cursor_home(&mut self) -> (plan: Vec<HidStep>)
        ensures
            final(self).x() == 0,
            final(self).y() == 0,
            is_move_plan(plan@, Seq::new(HOME_REPORTS as nat, |k: int| (-127int, -127int))),
            plan_motion_x(plan@) == -127 * HOME_REPORTS,
            plan_motion_y(plan@) == -127 * HOME_REPORTS,
    {
        let ghost home = Seq::new(HOME_REPORTS as nat, |k: int| (-127int, -127int));
        let mut plan: Vec<HidStep> = Vec::new();
        let mut i: usize = 0;
        while i < HOME_REPORTS
            invariant
                i <= HOME_REPORTS,
                home == Seq::new(HOME_REPORTS as nat, |k: int| (-127int, -127int)),
                is_move_plan(plan@, home.take(i as int)),
            decreases HOME_REPORTS - i,
        {
            let full_back = movement_to_byte(-MAX_STEP);
            let report = vec![0u8, full_back, full_back, 0u8];
            assert(report@ == mouse_report(0, -127, -127));
            let ghost before = plan@;
            plan.push(HidStep::Report(report));
            plan.push(HidStep::Pause(random_delay_ms(10, 25)));
            proof {
                lemma_extend_move_plan(before, plan@, home.take(i as int), home[i as int]);
                assert(home.take(i as int).push(home[i as int]) =~= home.take(i + 1));
            }
            i = i + 1;
        }
        proof {
            assert(home.take(HOME_REPORTS as int) =~= home);
            lemma_full_back_totals(HOME_REPORTS as nat);
            lemma_move_plan_motion(plan@, home);
        }
        self.cursor_x = 0;
        self.cursor_y = 0;
        plan
    }

    /// Plans a button action. Down presses the button; Up releases every
    /// button; Click presses it, pauses 50 to 150 ms and releases every button.
    /// The cursor does not move.
    pub fn button(&self, button: Button, action: ButtonAction) -> (plan: Vec<HidStep>)
        ensures
            action == ButtonAction::Down ==> plan@.len() == 1 && is_report(plan@[0], mouse_report(button_bit(button), 0, 0)),
            action == ButtonAction::Up ==> plan@.len() == 1 && is_report(plan@[0], mouse_report(0, 0, 0)),
            action == ButtonAction::Click ==> plan@.len() == 3
                && is_report(plan@[0], mouse_report(button_bit(button), 0, 0))
                && is_pause_within(plan@[1], 50, 150)
                && is_report(plan@[2], mouse_report(0, 0, 0)),
    {
        let mut plan: Vec<HidStep> = Vec::new();
        match action {
            ButtonAction::Down => {
                plan.push(HidStep::Report(vec![button.mask(), 0u8, 0u8, 0u8]));
            },
            ButtonAction::Up => {
                plan.push(HidStep::Report(vec![0u8, 0u8, 0u8, 0u8]));
            },
            ButtonAction::Click => {
                plan.push(HidStep::Report(vec![button.mask(), 0u8, 0u8, 0u8]));
                plan.push(HidStep::Pause(random_delay_ms(50, 150)));
                plan.push(HidStep::Report(vec![0u8, 0u8, 0u8, 0u8]));
            },
        }
        plan
    }

    /// Plans the move of the cursor to `(target_x, target_y)` in reports of at
    /// most 127 per axis, and records the target as the new position.
    pub fn cursor_move(&mut self, target_x: i32, target_y: i32) -> (plan: Vec<HidStep>)
        requires
            i32::MIN <= target_x - old(self).x() <= i32::MAX,
            i32::MIN <= target_y - old(self).y() <= i32::MAX,
        ensures
            final(self).x() == target_x,
            final(self).y() == target_y,
            is_move_plan(plan@, move_deltas(target_x - old(self).x(), target_y - old(self).y())),
            plan_motion_x(plan@) == target_x - old(self).x(),
            plan_motion_y(plan@) == target_y - old(self).y(),
    {
        let mut remaining_x: i32 = target_x - self.cursor_x;
        let mut remaining_y: i32 = target_y - self.cursor_y;
        let ghost all = move_deltas(remaining_x as int, remaining_y as int);
        let ghost mut done: int = 0;
        let mut plan: Vec<HidStep> = Vec::new();
        while remaining_x != 0 || remaining_y != 0
            invariant
                0 <= done,
                all == move_deltas(target_x - old(self).x(), target_y - old(self).y()),
                all.subrange(done, all.len() as int) == move_deltas(remaining_x as int, remaining_y as int),
                done <= all.len(),
                is_move_plan(plan@, all.take(done)),
            decreases abs(remaining_x as int) + abs(remaining_y as int),
        {
            let step_x = clamp_to_step(remaining_x);
            let step_y = clamp_to_step(remaining_y);
            proof {
                let rest = move_deltas(remaining_x as int, remaining_y as int);
                assert(rest[0] == (step_x as int, step_y as int));
                assert(rest.len() > 0);
                assert(all.subrange(done, all.len() as int)[0] == all[done]);
            }
            let report = vec![0u8, movement_to_byte(step_x), movement_to_byte(step_y), 0u8];
            assert(report@ == mouse_report(0, step_x as int, step_y as int));
            let ghost before = plan@;
            plan.push(HidStep::Report(report));
            plan.push(HidStep::Pause(random_delay_ms(10, 25)));
            remaining_x = remaining_x - step_x;
            remaining_y = remaining_y - step_y;
            proof {
                assert(all.subrange(done + 1, all.len() as int) =~= all.subrange(done, all.len() as int).drop_first());
                lemma_extend_move_plan(before, plan@, all.take(done), all[done]);
                assert(all.take(done).push(all[done]) =~= all.take(done + 1));
                done = done + 1;
            }
        }
        proof {
            assert(all.take(done) =~= all);
            lemma_move_deltas(target_x - old(self).x(), target_y - old(self).y());
            lemma_move_plan_motion(plan@, all);
        }
        self.cursor_x = target_x;
        self.cursor_y = target_y;
        plan
    }
}

} // verus!
