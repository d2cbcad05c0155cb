use vstd::prelude::*;
use vstd::string::StringExecFns;
use crate::command::{AxisSet, Cmd, UnsignSet};
use crate::positions::{
    coord_le, lemma_remove_sorted, lemma_sort_sorted, sort_by_coords, sorted, with_duration,
    PositionList, WateringPosition, MAX_POSITIONS,
};
use crate::text::{append_padded, append_str, decimal, pad, signed_decimal};
use crate::stepper::{offset_target, planned_move, Motion, Stepper, StepperView};

verus! {

/// Pump time of a position added without one, in milliseconds.
pub const DEFAULT_DUR_MS: u32 = 1000;

/// Wait between two sweeps until it is set otherwise, in milliseconds.
pub const DEFAULT_REPEAT_MS: u32 = 1000;

/// The reply to `help`.
pub const HELP: &'static str = "goto x<n> y<n> z<n>       move to absolute steps (any axes, any order)
move x<n> y<n> z<n>       move by relative steps
speed min|max|acc x<n> y<n> z<n>
step_per_mm x<n> y<n> z<n>
add pos x<n> y<n> z<n> [ms]
del pos <index>
water duration [index] <ms>
repeat duration <ms>
list pos
pump on | pump off
start | stop
home
help
";

/// Which loop the controller runs.
#[derive(Debug, Clone, Copy, PartialEq, Eq, Structural)]
pub enum Mode {
    /// Sweeping the position list on its own.
    Scheduled,
    /// Waiting for operator commands.
    Manual,
}

/// What the controller holds.
pub struct ControllerView {
    pub mode: Mode,
    pub positions: Seq<WateringPosition>,
    pub x: StepperView,
    pub y: StepperView,
    pub z: StepperView,
    pub repeat_ms: u32,
    pub next: nat,
    pub pausing: bool,
}

/// One stop of a sweep: move x and y together, lower z, run the pump for
/// `dwell_ms`, stop it, raise z back to zero.
pub struct Visit {
    pub index: usize,
    pub x: Motion,
    pub y: Motion,
    pub z_down: Motion,
    pub dwell_ms: u32,
    pub z_up: Motion,
}

/// The next thing to do in Scheduled mode.
pub enum Step {
    /// Stop the pump and wait this many milliseconds before the next sweep.
    Pause(u32),
    /// Water one position.
    Visit(Visit),
    /// A stop was received: the controller is now in Manual mode.
    Halted,
}

/// What to do for a command in Manual mode, then the text to answer.
pub struct Reply {
    /// Moves of x, y and z, played together.
    pub motions: Option<(Motion, Motion, Motion)>,
    /// Switch the pump on (`true`) or off (`false`).
    pub pump: Option<bool>,
    /// Write the position list to the store.
    pub persist: bool,
    pub text: String,
}

/// The owner of the position list and the three axes; it alternates
/// between sweeping the list and serving operator commands.
pub struct Controller {
    mode: Mode,
    positions: PositionList,
    x: Stepper,
    y: Stepper,
    z: Stepper,
    repeat_ms: u32,
    next: usize,
    pausing: bool,
}

impl View for Controller {
    type V = ControllerView;

    closed spec fn view(&self) -> ControllerView {
        ControllerView {
            mode: self.mode,
            positions: self.positions@,
            x: self.x@,
            y: self.y@,
            z: self.z@,
            repeat_ms: self.repeat_ms,
            next: self.next as nat,
            pausing: self.pausing,
        }
    }
}

pub open spec fn or_i32(o: Option<i32>, d: i32) -> i32 {
    match o {
        Some(v) => v,
        None => d,
    }
}

pub open spec fn or_u32(o: Option<u32>, d: u32) -> u32 {
    match o {
        Some(v) => v,
        None => d,
    }
}

/// The controller after a command in Manual mode.
pub open spec fn after_command(v: ControllerView, cmd: Cmd) -> ControllerView {
    match cmd {
        Cmd::Goto(s) => ControllerView {
            x: StepperView { current_pos: or_i32(s.x, v.x.current_pos), ..v.x },
            y: StepperView { current_pos: or_i32(s.y, v.y.current_pos), ..v.y },
            z: StepperView { current_pos: or_i32(s.z, v.z.current_pos), ..v.z },
            ..v
        },
        Cmd::Move(s) => ControllerView {
            x: StepperView { current_pos: offset_target(v.x.current_pos, or_i32(s.x, 0)), ..v.x },
            y: StepperView { current_pos: offset_target(v.y.current_pos, or_i32(s.y, 0)), ..v.y },
            z: StepperView { current_pos: offset_target(v.z.current_pos, or_i32(s.z, 0)), ..v.z },
            ..v
        },
        Cmd::SpeedMin(u) => ControllerView {
            x: StepperView { speed_min: or_u32(u.x, v.x.speed_min), ..v.x },
            y: StepperView { speed_min: or_u32(u.y, v.y.speed_min), ..v.y },
            z: StepperView { speed_min: or_u32(u.z, v.z.speed_min), ..v.z },
            ..v
        },
        Cmd::SpeedMax(u) => ControllerView {
            x: StepperView { speed_max: or_u32(u.x, v.x.speed_max), ..v.x },
            y: StepperView { speed_max: or_u32(u.y, v.y.speed_max), ..v.y },
            z: StepperView { speed_max: or_u32(u.z, v.z.speed_max), ..v.z },
            ..v
        },
        Cmd::SpeedAccel(u) => ControllerView {
            x: StepperView { speed_accel: or_u32(u.x, v.x.speed_accel), ..v.x },
            y: StepperView { speed_accel: or_u32(u.y, v.y.speed_accel), ..v.y },
            z: StepperView { speed_accel: or_u32(u.z, v.z.speed_accel), ..v.z },
            ..v
        },
        Cmd::StepPerMM(u) => ControllerView {
            x: StepperView { step_per_mm: or_u32(u.x, v.x.step_per_mm), ..v.x },
            y: StepperView { step_per_mm: or_u32(u.y, v.y.step_per_mm), ..v.y },
            z: StepperView { step_per_mm: or_u32(u.z, v.z.step_per_mm), ..v.z },
            ..v
        },
        Cmd::AddPos(s, d) => match (s.x, s.y, s.z) {
            (Some(x), Some(y), Some(z)) => {
                let p = WateringPosition { x, y, z, dur_ms: or_u32(d, DEFAULT_DUR_MS) };
                if v.positions.len() < MAX_POSITIONS {
                    ControllerView { positions: sort_by_coords(v.positions.push(p)), ..v }
                } else {
                    v
                }
            },
            _ => v,
        },
        Cmd::WaterDuration(Some(i), d) => if i < v.positions.len() {
            ControllerView {
                positions: v.positions.update(i as int, with_duration(v.positions[i as int], d)),
                ..v
            }
        } else {
            v
        },
        Cmd::WaterDuration(None, d) => ControllerView {
            positions: Seq::new(v.positions.len(), |k: int| with_duration(v.positions[k], d)),
            ..v
        },
        Cmd::DelPos(i) => if i < v.positions.len() {
            ControllerView { positions: v.positions.remove(i as int), ..v }
        } else {
            v
        },
        Cmd::RepeatDur(ms) => ControllerView { repeat_ms: ms, ..v },
        Cmd::Start => ControllerView { mode: Mode::Scheduled, next: 0, pausing: true, ..v },
        Cmd::Home => ControllerView {
            x: StepperView { current_pos: 0, ..v.x },
            y: StepperView { current_pos: 0, ..v.y },
            z: StepperView { current_pos: 0, ..v.z },
            ..v
        },
        _ => v,
    }
}

/// Whether a command changes the list and the store must be written.
pub open spec fn persists(v: ControllerView, cmd: Cmd) -> bool {
    match cmd {
        Cmd::AddPos(s, _) => s.x is Some && s.y is Some && s.z is Some,
        Cmd::WaterDuration(_, _) => true,
        Cmd::DelPos(i) => i < v.positions.len(),
        _ => false,
    }
}

pub open spec fn pump_effect(cmd: Cmd) -> Option<bool> {
    match cmd {
        Cmd::PumpOn => Some(true),
        Cmd::PumpOff => Some(false),
        _ => None,
    }
}

/// One line of the position listing: `ii: (xxxx, yyyy, zzzz) ddddd ms`.
pub open spec fn position_line(i: nat, p: WateringPosition) -> Seq<char> {
    pad(decimal(i), 2) + seq![':', ' ', '('] + pad(signed_decimal(p.x as int), 4) + seq![',', ' ']
        + pad(signed_decimal(p.y as int), 4) + seq![',', ' '] + pad(signed_decimal(p.z as int), 4)
        + seq![')', ' '] + pad(decimal(p.dur_ms as nat), 5) + seq!['m', 's', '\n']
}

/// The listing of the first `n` positions, one line each.
pub open spec fn listing(s: Seq<WateringPosition>, n: nat) -> Seq<char>
    decreases n,
{
    if n == 0 || n > s.len() {
        Seq::empty()
    } else {
        listing(s, (n - 1) as nat) + position_line((n - 1) as nat, s[n - 1])
    }
}

/// The reply text of a command in Manual mode.
pub open spec fn reply_text(v: ControllerView, cmd: Cmd) -> Seq<char> {
    match cmd {
        Cmd::ListPos => listing(v.positions, v.positions.len()),
        Cmd::Help => HELP@,
        _ => Seq::empty(),
    }
}

/// No command breaks the order of a sorted position list or its bound, so
/// a sorted list stays sorted by `(x, y, z)` over any sequence of commands.
/// (`add pos` sorts the list whatever its order before.)
pub proof fn lemma_command_keeps_order(v: ControllerView, cmd: Cmd)
    requires
        sorted(v.positions),
        v.positions.len() <= MAX_POSITIONS,
    ensures
        sorted(after_command(v, cmd).positions),
        after_command(v, cmd).positions.len() <= MAX_POSITIONS,
{
    let s = v.positions;
    match cmd {
        Cmd::AddPos(a, d) => match (a.x, a.y, a.z) {
            (Some(x), Some(y), Some(z)) => {
                let p = WateringPosition { x, y, z, dur_ms: or_u32(d, DEFAULT_DUR_MS) };
                lemma_sort_sorted(s.push(p));
            },
            _ => {},
        },
        Cmd::WaterDuration(Some(i), d) => {
            if i < s.len() {
                let f = s.update(i as int, with_duration(s[i as int], d));
                assert forall|a: int, b: int| 0 <= a < b < f.len() implies coord_le(
                    #[trigger] f[a],
                    #[trigger] f[b],
                ) by {
                    assert(coord_le(s[a], s[b]));
                }
            }
        },
        Cmd::WaterDuration(None, d) => {
            let f = Seq::new(s.len(), |k: int| with_duration(s[k], d));
            assert forall|a: int, b: int| 0 <= a < b < f.len() implies coord_le(
                #[trigger] f[a],
                #[trigger] f[b],
            ) by {
                assert(coord_le(s[a], s[b]));
            }
        },
        Cmd::DelPos(i) => {
            if i < s.len() {
                lemma_remove_sorted(s, i as int);
            }
        },
        _ => {},
    }
}

/// The sweep ends: a stop was found waiting, or the controller is not
/// sweeping.
pub open spec fn halts(v: ControllerView, polled: Option<Cmd>) -> bool {
    polled == Some(Cmd::Stop) || v.mode == Mode::Manual
}

/// The next sweep step is the pause: at the start, or past the last position.
pub open spec fn pauses(v: ControllerView) -> bool {
    v.pausing || v.next >= v.positions.len()
}

/// The controller after one step in Scheduled mode, given the command
/// found waiting, if any.
pub open spec fn after_step(v: ControllerView, polled: Option<Cmd>) -> ControllerView {
    if halts(v, polled) {
        ControllerView { mode: Mode::Manual, ..v }
    } else if pauses(v) {
        ControllerView { next: 0, pausing: false, ..v }
    } else {
        let p = v.positions[v.next as int];
        ControllerView {
            x: StepperView { current_pos: p.x, ..v.x },
            y: StepperView { current_pos: p.y, ..v.y },
            z: StepperView { current_pos: 0, ..v.z },
            next: v.next + 1,
            ..v
        }
    }
}

/// A stop found waiting ends the sweep before any further move: the
/// controller switches to Manual mode and nothing else changes.
pub proof fn lemma_stop_halts_sweep(v: ControllerView)
    ensures
        after_step(v, Some(Cmd::Stop)) == (ControllerView { mode: Mode::Manual, ..v }),
{
}

/// Appends the listing line of position `p` at index `i`.
fn append_line(out: &mut String, i: usize, p: WateringPosition)
    requires
        i < MAX_POSITIONS,
    ensures
        final(out)@ == old(out)@ + position_line(i as nat, p),
{
    proof {
        reveal_strlit(": (");
        reveal_strlit(", ");
        reveal_strlit(") ");
        reveal_strlit("ms\n");
        assert(": ("@ =~= seq![':', ' ', '(']);
        assert(", "@ =~= seq![',', ' ']);
        assert(") "@ =~= seq![')', ' ']);
        assert("ms\n"@ =~= seq!['m', 's', '\n']);
    }
    let ghost s0 = out@;
    append_padded(out, i as i64, 2);
    append_str(out, ": (");
    append_padded(out, p.x as i64, 4);
    let ghost s1 = out@;
    assert(s1 =~= s0 + (pad(decimal(i as nat), 2) + seq![':', ' ', '('] + pad(
        signed_decimal(p.x as int),
        4,
    )));
    append_str(out, ", ");
    append_padded(out, p.y as i64, 4);
    append_str(out, ", ");
    let ghost s2 = out@;
    assert(s2 =~= s1 + (seq![',', ' '] + pad(signed_decimal(p.y as int), 4) + seq![',', ' ']));
    append_padded(out, p.z as i64, 4);
    append_str(out, ") ");
    append_padded(out, p.dur_ms as i64, 5);
    append_str(out, "ms\n");
    assert(out@ =~= s2 + (pad(signed_decimal(p.z as int), 4) + seq![')', ' '] + pad(
        decimal(p.dur_ms as nat),
        5,
    ) + seq!['m', 's', '\n']));
    assert(out@ =~= s0 + position_line(i as nat, p));
}

impl Controller {
    /// A controller over a restored list, in Scheduled mode, its first step
    /// being the pause between sweeps.
    pub fn new(positions: PositionList) -> (r: Controller)
        ensures
            r@.mode == Mode::Scheduled,
            r@.positions == positions@,
            r@.x == Stepper::new_view(),
            r@.y == Stepper::new_view(),
            r@.z == Stepper::new_view(),
            r@.repeat_ms == DEFAULT_REPEAT_MS,
            r@.next == 0,
            r@.pausing,
    {
        Controller {
            mode: Mode::Scheduled,
            positions,
            x: Stepper::new(),
            y: Stepper::new(),
            z: Stepper::new(),
            repeat_ms: DEFAULT_REPEAT_MS,
            next: 0,
            pausing: true,
        }
    }

    pub fn mode(&self) -> (r: Mode)
        ensures
            r == self@.mode,
    {
        self.mode
    }

    pub fn positions(&self) -> (r: &PositionList)
        ensures
            r@ == self@.positions,
    {
        &self.positions
    }

    pub fn x(&self) -> (r: &Stepper)
        ensures
            r@ == self@.x,
    {
        &self.x
    }

    pub fn y(&self) -> (r: &Stepper)
        ensures
            r@ == self@.y,
    {
        &self.y
    }

    pub fn z(&self) -> (r: &Stepper)
        ensures
            r@ == self@.z,
    {
        &self.z
    }

    pub fn repeat_ms(&self) -> (r: u32)
        ensures
            r == self@.repeat_ms,
    {
        self.repeat_ms
    }

    /// The position listing, one line per position.
    pub fn list_text(&self) -> (r: String)
        ensures
            r@ == listing(self@.positions, self@.positions.len()),
    {
        let n = self.positions.len();
        let mut out = String::new();
        let mut i: usize = 0;
        while i < n
            invariant
                n == self@.positions.len(),
                n <= MAX_POSITIONS,
                i <= n,
                out@ == listing(self@.positions, i as nat),
            decreases n - i,
        {
            let p = self.positions.get(i).unwrap();
            append_line(&mut out, i, p);
            i = i + 1;
        }
        out
    }

    /// One step of the sweep. A waiting `Stop` ends it and switches to
    /// Manual mode; any other waiting command is dropped. Otherwise the
    /// step is the pause at the start of a sweep or the visit of the next
    /// position, whose moves are planned here.
    pub fn sweep_step(&mut self, polled: Option<Cmd>) -> (r: Step)
        ensures
            final(self)@ == after_step(old(self)@, polled),
            halts(old(self)@, polled) ==> r is Halted,
            !halts(old(self)@, polled) && pauses(old(self)@) ==> r == Step::Pause(
                old(self)@.repeat_ms,
            ),
            !halts(old(self)@, polled) && !pauses(old(self)@) ==> visits(old(self)@, r),
    {
        let stop = match polled {
            Some(Cmd::Stop) => true,
            _ => false,
        };
        if stop || self.mode == Mode::Manual {
            self.mode = Mode::Manual;
            return Step::Halted;
        }
        if self.pausing || self.next >= self.positions.len() {
            self.next = 0;
            self.pausing = false;
            return Step::Pause(self.repeat_ms);
        }
        let index = self.next;
        let p = self.positions.get(index).unwrap();
        let x = self.x.goto(p.x);
        let y = self.y.goto(p.y);
        let z_down = self.z.goto(p.z);
        let z_up = self.z.goto(0);
        self.next = index + 1;
        Step::Visit(Visit { index, x, y, z_down, dwell_ms: p.dur_ms, z_up })
    }

    /// Carries out one command in Manual mode and says what the caller is
    /// to do for it: moves to play, the pump to switch, the list to persist,
    /// and the text of the one reply.
    pub fn dispatch(&mut self, cmd: Cmd) -> (r: Reply)
        ensures
            final(self)@ == after_command(old(self)@, cmd),
            r.text@ == reply_text(old(self)@, cmd),
            r.pump == pump_effect(cmd),
            r.persist == persists(old(self)@, cmd),
            r.motions is Some <==> (cmd is Goto || cmd is Move),
            r.motions matches Some((mx, my, mz)) ==> moves(old(self)@, final(self)@, mx, my, mz),
    {
        let mut reply = Reply { motions: None, pump: None, persist: false, text: String::new() };
        match cmd {
            Cmd::Goto(s) => {
                let tx = match s.x {
                    Some(v) => v,
                    None => self.x.current_pos(),
                };
                let ty = match s.y {
                    Some(v) => v,
                    None => self.y.current_pos(),
                };
                let tz = match s.z {
                    Some(v) => v,
                    None => self.z.current_pos(),
                };
                let mx = self.x.goto(tx);
                let my = self.y.goto(ty);
                let mz = self.z.goto(tz);
                reply.motions = Some((mx, my, mz));
            },
            Cmd::Move(s) => {
                let mx = self.x.move_by(unwrap_i32(s.x, 0));
                let my = self.y.move_by(unwrap_i32(s.y, 0));
                let mz = self.z.move_by(unwrap_i32(s.z, 0));
                reply.motions = Some((mx, my, mz));
            },
            Cmd::SpeedMin(u) => {
                let (a, b, c) = (self.x.speed_min(), self.y.speed_min(), self.z.speed_min());
                self.x.set_speed_min(unwrap_u32(u.x, a));
                self.y.set_speed_min(unwrap_u32(u.y, b));
                self.z.set_speed_min(unwrap_u32(u.z, c));
            },
            Cmd::SpeedMax(u) => {
                let (a, b, c) = (self.x.speed_max(), self.y.speed_max(), self.z.speed_max());
                self.x.set_speed_max(unwrap_u32(u.x, a));
                self.y.set_speed_max(unwrap_u32(u.y, b));
                self.z.set_speed_max(unwrap_u32(u.z, c));
            },
            Cmd::SpeedAccel(u) => {
                let (a, b, c) = (self.x.speed_accel(), self.y.speed_accel(), self.z.speed_accel());
                self.x.set_speed_accel(unwrap_u32(u.x, a));
                self.y.set_speed_accel(unwrap_u32(u.y, b));
                self.z.set_speed_accel(unwrap_u32(u.z, c));
            },
            Cmd::StepPerMM(u) => {
                let (a, b, c) = (self.x.step_per_mm(), self.y.step_per_mm(), self.z.step_per_mm());
                self.x.set_step_per_mm(unwrap_u32(u.x, a));
                self.y.set_step_per_mm(unwrap_u32(u.y, b));
                self.z.set_step_per_mm(unwrap_u32(u.z, c));
            },
            Cmd::AddPos(s, d) => {
                match (s.x, s.y, s.z) {
                    (Some(x), Some(y), Some(z)) => {
                        let p = WateringPosition { x, y, z, dur_ms: unwrap_u32(d, DEFAULT_DUR_MS) };
                        let _ = self.positions.add(p);
                        reply.persist = true;
                    },
                    _ => {},
                }
            },
            Cmd::WaterDuration(id, d) => {
                match id {
                    Some(i) => {
                        self.positions.set_duration(i as usize, d);
                    },
                    None => {
                        self.positions.set_all_durations(d);
                        assert(self.positions@ =~= Seq::new(
                            old(self)@.positions.len(),
                            |k: int| with_duration(old(self)@.positions[k], d),
                        ));
                    },
                }
                reply.persist = true;
            },
            Cmd::DelPos(i) => {
                if self.positions.remove(i as usize).is_some() {
                    reply.persist = true;
                }
            },
            Cmd::RepeatDur(ms) => {
                self.repeat_ms = ms;
            },
            Cmd::PumpOn => {
                reply.pump = Some(true);
            },
            Cmd::PumpOff => {
                reply.pump = Some(false);
            },
            Cmd::ListPos => {
                reply.text = self.list_text();
            },
            Cmd::Start => {
                self.mode = Mode::Scheduled;
                self.next = 0;
                self.pausing = true;
            },
            Cmd::Stop => {},
            Cmd::Home => {
                self.x.set_current_pos(0);
                self.y.set_current_pos(0);
                self.z.set_current_pos(0);
            },
            Cmd::Help => {
                reply.text = String::from_str(HELP);
            },
        }
        reply
    }
}

/// The planned moves of a `goto` or `move`: each axis from where it stood
/// to where it now stands, within its speed bound.
pub open spec fn moves(
    before: ControllerView,
    after: ControllerView,
    mx: Motion,
    my: Motion,
    mz: Motion,
) -> bool {
    &&& mx@ == planned_move(before.x, after.x.current_pos)
    &&& my@ == planned_move(before.y, after.y.current_pos)
    &&& mz@ == planned_move(before.z, after.z.current_pos)
}

/// The step visits position `next`: x and y to its coordinates, z down to
/// its depth and back to zero, the pump held for its duration.
pub open spec fn visits(v: ControllerView, r: Step) -> bool {
    let p = v.positions[v.next as int];
    match r {
        Step::Visit(t) => {
            &&& t.index == v.next
            &&& t.dwell_ms == p.dur_ms
            &&& t.x@ == planned_move(v.x, p.x)
            &&& t.y@ == planned_move(v.y, p.y)
            &&& t.z_down@ == planned_move(v.z, p.z)
            &&& t.z_up@ == planned_move(StepperView { current_pos: p.z, ..v.z }, 0)
        },
        _ => false,
    }
}

fn unwrap_i32(o: Option<i32>, d: i32) -> (r: i32)
    ensures
        r == or_i32(o, d),
{
    match o {
        Some(v) => v,
        None => d,
    }
}

fn unwrap_u32(o: Option<u32>, d: u32) -> (r: u32)
    ensures
        r == or_u32(o, d),
{
    match o {
        Some(v) => v,
        None => d,
    }
}

} // verus!
