use vstd::prelude::*;
use vstd::arithmetic::div_mod::{lemma_fundamental_div_mod, lemma_mod_pos_bound};

verus! {

/// Microseconds in one second.
pub const MICROS: u64 = 1_000_000;

/// Rates are kept in thousandths of a step per second.
pub const RATE_SCALE: u128 = 1000;

/// What the motion state of one axis holds.
pub struct StepperView {
    pub current_pos: i32,
    pub step_per_mm: u32,
    pub speed_min: u32,
    pub speed_max: u32,
    pub speed_accel: u32,
}

/// One axis: where it stands (in steps) and its motion parameters, speeds
/// in distance units per second, converted with `step_per_mm`.
pub struct Stepper {
    current_pos: i32,
    step_per_mm: u32,
    speed_min: u32,
    speed_max: u32,
    speed_accel: u32,
}

impl View for Stepper {
    type V = StepperView;

    closed spec fn view(&self) -> StepperView {
        StepperView {
            current_pos: self.current_pos,
            step_per_mm: self.step_per_mm,
            speed_min: self.speed_min,
            speed_max: self.speed_max,
            speed_accel: self.speed_accel,
        }
    }
}

/// The motion phase that the next pulse belongs to.
#[derive(Debug, Clone, Copy, PartialEq, Eq, Structural)]
pub enum Phase {
    Accelerate,
    Cruise,
    Decelerate,
}

/// What a pulse train holds; rates are in thousandths of a step per second.
pub struct MotionView {
    pub forward: bool,
    pub total: nat,
    pub emitted: nat,
    pub ramp: nat,
    pub phase: Phase,
    pub rate: nat,
    pub floor: nat,
    pub ceiling: nat,
    pub accel: nat,
    pub max_rate: nat,
}

/// An acceleration-bounded pulse train for one move: it speeds up from the
/// minimum rate while below the maximum and before half of the pulses,
/// cruises, then slows down over as many pulses as it took to speed up.
pub struct Motion {
    forward: bool,
    total: u64,
    emitted: u64,
    ramp: u64,
    phase: Phase,
    rate: u128,
    floor: u128,
    ceiling: u128,
    accel: u128,
    max_rate: u64,
}

impl View for Motion {
    type V = MotionView;

    closed spec fn view(&self) -> MotionView {
        MotionView {
            forward: self.forward,
            total: self.total as nat,
            emitted: self.emitted as nat,
            ramp: self.ramp as nat,
            phase: self.phase,
            rate: self.rate as nat,
            floor: self.floor as nat,
            ceiling: self.ceiling as nat,
            accel: self.accel as nat,
            max_rate: self.max_rate as nat,
        }
    }
}

/// The period in microseconds of a pulse at `rate` thousandths of a step
/// per second, rounded up.
pub open spec fn period_at(rate: nat) -> nat {
    ((MICROS as nat * RATE_SCALE as nat) + rate - 1) as nat / rate
}

/// The phase of the next pulse: speeding up ends at the maximum rate or at
/// half of the pulses; slowing down starts when as many pulses remain as
/// speeding up took.
pub open spec fn phase_of_next(m: MotionView) -> Phase {
    let ph = if m.phase == Phase::Accelerate && !(m.rate < m.ceiling && m.emitted < m.total / 2) {
        Phase::Cruise
    } else {
        m.phase
    };
    if ph == Phase::Cruise && m.emitted >= m.total - m.ramp {
        Phase::Decelerate
    } else {
        ph
    }
}

/// The pulse train after one more pulse: the rate rises (or falls) by the
/// acceleration times the pulse's period, held between floor and ceiling.
pub open spec fn advance(m: MotionView) -> MotionView {
    let ph = phase_of_next(m);
    let change = m.accel * period_at(m.rate) / RATE_SCALE as nat;
    let rate = if ph == Phase::Accelerate {
        if m.rate + change > m.ceiling {
            m.ceiling
        } else {
            m.rate + change
        }
    } else if ph == Phase::Decelerate {
        if m.rate < m.floor + change {
            m.floor
        } else {
            (m.rate - change) as nat
        }
    } else {
        m.rate
    };
    MotionView {
        emitted: m.emitted + 1,
        ramp: if ph == Phase::Accelerate {
            m.ramp + 1
        } else {
            m.ramp
        },
        phase: ph,
        rate,
        ..m
    }
}

/// A new pulse train: nothing emitted yet, speeding up from the minimum
/// rate, which is held to at least one step per second and at most the
/// maximum, itself at least one.
pub open spec fn initial_motion(
    forward: bool,
    total: nat,
    min_rate: nat,
    max_rate: nat,
    accel: nat,
) -> MotionView {
    let top = if max_rate >= 1 {
        max_rate
    } else {
        1
    };
    let low = if min_rate < 1 {
        1
    } else if min_rate > top {
        top
    } else {
        min_rate
    };
    MotionView {
        forward,
        total,
        emitted: 0,
        ramp: 0,
        phase: Phase::Accelerate,
        rate: low * RATE_SCALE as nat,
        floor: low * RATE_SCALE as nat,
        ceiling: top * RATE_SCALE as nat,
        accel,
        max_rate: top,
    }
}

/// The pulse train that moves an axis to `to`, its speeds converted to
/// steps with its steps per unit.
pub open spec fn planned_move(a: StepperView, to: i32) -> MotionView {
    initial_motion(
        to > a.current_pos,
        move_steps(a.current_pos, to, a.step_per_mm),
        a.speed_min as nat * a.step_per_mm as nat,
        a.speed_max as nat * a.step_per_mm as nat,
        a.speed_accel as nat * a.step_per_mm as nat,
    )
}

/// The rate lies between the train's floor and ceiling, and the ceiling is
/// its maximum rate, at least one step per second.
pub open spec fn rates_held(m: MotionView) -> bool {
    &&& RATE_SCALE <= m.floor <= m.rate <= m.ceiling
    &&& m.ceiling == m.max_rate * RATE_SCALE as nat
}

/// The pulse train after `k` more pulses.
pub open spec fn advance_by(m: MotionView, k: nat) -> MotionView
    decreases k,
{
    if k == 0 {
        m
    } else {
        advance(advance_by(m, (k - 1) as nat))
    }
}

proof fn lemma_period_bound(rate: nat, max_rate: nat)
    requires
        RATE_SCALE <= rate <= max_rate * RATE_SCALE as nat,
    ensures
        period_at(rate) * max_rate >= MICROS,
{
    let num = MICROS as nat * RATE_SCALE as nat;
    let n = (num + rate - 1) as int;
    let d = rate as int;
    lemma_fundamental_div_mod(n, d);
    lemma_mod_pos_bound(n, d);
    let p = period_at(rate);
    assert(p as int == n / d);
    assert(p * rate >= num);
    assert(p * max_rate >= MICROS) by (nonlinear_arith)
        requires
            p * rate >= num,
            rate <= max_rate * 1000,
            num == 1_000_000_000,
    ;
}

proof fn lemma_advance_held(m: MotionView)
    requires
        rates_held(m),
    ensures
        rates_held(advance(m)),
        advance(m).max_rate == m.max_rate,
        period_at(m.rate) * m.max_rate >= MICROS,
{
    lemma_period_bound(m.rate, m.max_rate);
}

/// Every pulse of a planned move is no faster than the axis' speed bound:
/// whichever pulse `k` it is, its period times the bound (in steps per
/// second) is at least one second.
pub proof fn lemma_every_pulse_within_bound(a: StepperView, to: i32, k: nat)
    ensures
        rates_held(advance_by(planned_move(a, to), k)),
        advance_by(planned_move(a, to), k).max_rate == rate_bound(a.speed_max, a.step_per_mm),
        period_at(advance_by(planned_move(a, to), k).rate) * rate_bound(a.speed_max, a.step_per_mm)
            >= MICROS,
    decreases k,
{
    if k > 0 {
        lemma_every_pulse_within_bound(a, to, (k - 1) as nat);
        lemma_advance_held(advance_by(planned_move(a, to), (k - 1) as nat));
    }
    lemma_advance_held(advance_by(planned_move(a, to), k));
}

/// The highest pulse rate, in steps per second, that a move may use: the
/// product of the speed bound and the steps per unit, and at least one.
pub open spec fn rate_bound(speed_max: u32, step_per_mm: u32) -> nat {
    if speed_max as nat * step_per_mm as nat >= 1 {
        speed_max as nat * step_per_mm as nat
    } else {
        1
    }
}

/// The step count of a move from `from` to `to`.
pub open spec fn move_steps(from: i32, to: i32, step_per_mm: u32) -> nat {
    let d = to as int - from as int;
    (if d >= 0 {
        d
    } else {
        -d
    }) as nat * step_per_mm as nat
}

/// A target `distance` away from `pos`, held to the `i32` range.
pub open spec fn offset_target(pos: i32, distance: i32) -> i32 {
    let t = pos as int + distance as int;
    if t > i32::MAX {
        i32::MAX
    } else if t < i32::MIN {
        i32::MIN
    } else {
        t as i32
    }
}

/// A pulse train of `total` pulses between the rates `min_rate` and
/// `max_rate` (steps per second), changing by `accel` steps per second
/// each second.
pub fn step_move(forward: bool, total: u64, min_rate: u64, max_rate: u64, accel: u64) -> (r: Motion)
    ensures
        r@ == initial_motion(forward, total as nat, min_rate as nat, max_rate as nat, accel as nat),
{
    let top: u64 = if max_rate >= 1 {
        max_rate
    } else {
        1
    };
    let low: u64 = if min_rate < 1 {
        1
    } else if min_rate > top {
        top
    } else {
        min_rate
    };
    Motion {
        forward,
        total,
        emitted: 0,
        ramp: 0,
        phase: Phase::Accelerate,
        rate: low as u128 * RATE_SCALE,
        floor: low as u128 * RATE_SCALE,
        ceiling: top as u128 * RATE_SCALE,
        accel: accel as u128,
        max_rate: top,
    }
}

impl Motion {
    #[verifier::type_invariant]
    closed spec fn inv(&self) -> bool {
        &&& self.emitted <= self.total
        &&& 2 * self.ramp <= self.total
        &&& self.phase == Phase::Accelerate ==> self.ramp == self.emitted
        &&& self.phase != Phase::Accelerate ==> self.ramp <= self.emitted
        &&& self.phase == Phase::Decelerate ==> self.total - self.ramp <= self.emitted
        &&& RATE_SCALE <= self.floor <= self.rate <= self.ceiling
        &&& self.ceiling == self.max_rate as u128 * RATE_SCALE
        &&& self.max_rate >= 1
        &&& self.accel <= u64::MAX as u128
    }

    /// Whether the pulses run towards higher positions.
    pub fn forward(&self) -> (r: bool)
        ensures
            r == self@.forward,
    {
        self.forward
    }

    /// Pulses still to come.
    pub fn remaining(&self) -> (r: u64)
        ensures
            r == self@.total - self@.emitted,
    {
        proof {
            use_type_invariant(self);
        }
        self.total - self.emitted
    }

    /// The period in microseconds of a pulse at `rate` thousandths of a
    /// step per second, rounded up so that the pulse is never faster.
    fn period_of(rate: u128) -> (p: u64)
        requires
            RATE_SCALE <= rate <= u64::MAX as u128 * RATE_SCALE,
        ensures
            p as nat == period_at(rate as nat),
            p >= 1,
            p as u128 * rate >= MICROS as u128 * RATE_SCALE,
            p <= MICROS,
    {
        let num: u128 = MICROS as u128 * RATE_SCALE;
        let p = (num + rate - 1) / rate;
        proof {
            let n = (num + rate - 1) as int;
            let d = rate as int;
            lemma_fundamental_div_mod(n, d);
            lemma_mod_pos_bound(n, d);
            assert(p as int == n / d);
            assert(p as int * d >= num as int);
            assert(p as int * d < num as int + d);
            assert(p >= 1) by (nonlinear_arith)
                requires
                    p as int * d >= num as int,
                    num >= 1,
                    d >= 1,
            ;
            assert(p <= MICROS) by (nonlinear_arith)
                requires
                    p as int * d < num as int + d,
                    d >= 1000,
                    num == 1_000_000_000,
            ;
        }
        p as u64
    }

    /// The period before the next pulse, or `None` once every pulse is out.
    /// No pulse is faster than the train's maximum rate.
    pub fn next_period(&mut self) -> (r: Option<u64>)
        ensures
            final(self)@.total == old(self)@.total,
            final(self)@.max_rate == old(self)@.max_rate,
            final(self)@.forward == old(self)@.forward,
            final(self)@.emitted <= final(self)@.total,
            old(self)@.emitted == old(self)@.total ==> r is None && final(self)@ == old(self)@,
            old(self)@.emitted < old(self)@.total ==> r is Some && r->0 as nat == period_at(
                old(self)@.rate,
            ) && final(self)@ == advance(old(self)@),
            r matches Some(p) ==> p >= 1 && p as nat * old(self)@.max_rate >= MICROS,
    {
        proof {
            use_type_invariant(&*self);
        }
        if self.emitted >= self.total {
            return None;
        }
        let mut phase = self.phase;
        if phase == Phase::Accelerate && !(self.rate < self.ceiling && self.emitted < self.total
            / 2) {
            phase = Phase::Cruise;
        }
        if phase == Phase::Cruise && self.emitted >= self.total - self.ramp {
            phase = Phase::Decelerate;
        }
        let rate = self.rate;
        let p = Motion::period_of(rate);
        proof {
            assert(p as u128 * self.ceiling >= MICROS as u128 * RATE_SCALE) by (nonlinear_arith)
                requires
                    p as u128 * rate >= MICROS as u128 * RATE_SCALE,
                    rate <= self.ceiling,
            ;
            assert(p as nat * self.max_rate as nat >= MICROS as nat) by (nonlinear_arith)
                requires
                    p as u128 * self.ceiling >= MICROS as u128 * RATE_SCALE,
                    self.ceiling == self.max_rate as u128 * RATE_SCALE,
            ;
            assert(self.accel * p as u128 <= u64::MAX as u128 * MICROS as u128) by (nonlinear_arith)
                requires
                    self.accel <= u64::MAX as u128,
                    p <= MICROS,
            ;
        }
        let step: u128 = self.accel * p as u128 / RATE_SCALE;
        let mut next_rate = rate;
        let mut ramp = self.ramp;
        if phase == Phase::Accelerate {
            next_rate = if self.ceiling - rate < step {
                self.ceiling
            } else {
                rate + step
            };
            ramp = ramp + 1;
        } else if phase == Phase::Decelerate {
            next_rate = if rate - self.floor < step {
                self.floor
            } else {
                rate - step
            };
        }
        *self = Motion { emitted: self.emitted + 1, ramp, phase, rate: next_rate, ..*self };
        Some(p)
    }
}

impl Stepper {
    /// The state of a new axis.
    pub open spec fn new_view() -> StepperView {
        StepperView { current_pos: 0, step_per_mm: 20, speed_min: 10, speed_max: 250, speed_accel: 50 }
    }

    /// An axis at position zero with the default parameters: 20 steps per
    /// unit, speeds from 10 to 250 units per second, acceleration 50.
    pub fn new() -> (r: Stepper)
        ensures
            r@ == Stepper::new_view(),
    {
        Stepper { current_pos: 0, step_per_mm: 20, speed_min: 10, speed_max: 250, speed_accel: 50 }
    }

    /// Plans the move to `pos` and records `pos` as the axis position; the
    /// caller plays the returned pulses to their end before the axis moves
    /// again. The pulse count is the distance in steps, and no pulse is
    /// faster than the maximum speed in steps per second.
    pub fn goto(&mut self, pos: i32) -> (m: Motion)
        ensures
            m@ == planned_move(old(self)@, pos),
            m@.total == move_steps(old(self)@.current_pos, pos, old(self)@.step_per_mm),
            m@.emitted == 0,
            m@.max_rate == rate_bound(old(self)@.speed_max, old(self)@.step_per_mm),
            m@.forward == (pos > old(self)@.current_pos),
            final(self)@ == (StepperView { current_pos: pos, ..old(self)@ }),
    {
        let diff: i64 = pos as i64 - self.current_pos as i64;
        let dist: u64 = if diff >= 0 {
            diff as u64
        } else {
            (0 - diff) as u64
        };
        let spm = self.step_per_mm as u64;
        proof {
            assert(dist * spm <= u64::MAX) by (nonlinear_arith)
                requires
                    dist <= u32::MAX as u64 + 1,
                    spm <= u32::MAX as u64,
            ;
            assert(self.speed_min as u64 * spm <= u64::MAX) by (nonlinear_arith)
                requires
                    spm <= u32::MAX as u64,
            ;
            assert(self.speed_max as u64 * spm <= u64::MAX) by (nonlinear_arith)
                requires
                    spm <= u32::MAX as u64,
            ;
            assert(self.speed_accel as u64 * spm <= u64::MAX) by (nonlinear_arith)
                requires
                    spm <= u32::MAX as u64,
            ;
        }
        let m = step_move(
            diff > 0,
            dist * spm,
            self.speed_min as u64 * spm,
            self.speed_max as u64 * spm,
            self.speed_accel as u64 * spm,
        );
        self.current_pos = pos;
        m
    }

    /// Plans the move by `distance` from the current position, held to the
    /// range of positions.
    pub fn move_by(&mut self, distance: i32) -> (m: Motion)
        ensures
            m@ == planned_move(old(self)@, offset_target(old(self)@.current_pos, distance)),
            m@.total == move_steps(
                old(self)@.current_pos,
                offset_target(old(self)@.current_pos, distance),
                old(self)@.step_per_mm,
            ),
            m@.emitted == 0,
            m@.max_rate == rate_bound(old(self)@.speed_max, old(self)@.step_per_mm),
            final(self)@ == (StepperView {
                current_pos: offset_target(old(self)@.current_pos, distance),
                ..old(self)@
            }),
    {
        let t: i64 = self.current_pos as i64 + distance as i64;
        let target: i32 = if t > i32::MAX as i64 {
            i32::MAX
        } else if t < i32::MIN as i64 {
            i32::MIN
        } else {
            t as i32
        };
        self.goto(target)
    }

    pub fn current_pos(&self) -> (r: i32)
        ensures
            r == self@.current_pos,
    {
        self.current_pos
    }

    /// Records a position without moving.
    pub fn set_current_pos(&mut self, current_pos: i32)
        ensures
            final(self)@ == (StepperView { current_pos, ..old(self)@ }),
    {
        self.current_pos = current_pos;
    }

    pub fn speed_max(&self) -> (r: u32)
        ensures
            r == self@.speed_max,
    {
        self.speed_max
    }

    pub fn set_speed_max(&mut self, speed_max: u32)
        ensures
            final(self)@ == (StepperView { speed_max, ..old(self)@ }),
    {
        self.speed_max = speed_max;
    }

    pub fn speed_min(&self) -> (r: u32)
        ensures
            r == self@.speed_min,
    {
        self.speed_min
    }

    pub fn set_speed_min(&mut self, speed_min: u32)
        ensures
            final(self)@ == (StepperView { speed_min, ..old(self)@ }),
    {
        self.speed_min = speed_min;
    }

    pub fn speed_accel(&self) -> (r: u32)
        ensures
            r == self@.speed_accel,
    {
        self.speed_accel
    }

    pub fn set_speed_accel(&mut self, speed_accel: u32)
        ensures
            final(self)@ == (StepperView { speed_accel, ..old(self)@ }),
    {
        self.speed_accel = speed_accel;
    }

    pub fn step_per_mm(&self) -> (r: u32)
        ensures
            r == self@.step_per_mm,
    {
        self.step_per_mm
    }

    pub fn set_step_per_mm(&mut self, step_per_mm: u32)
        ensures
            final(self)@ == (StepperView { step_per_mm, ..old(self)@ }),
    {
        self.step_per_mm = step_per_mm;
    }
}

} // verus!
