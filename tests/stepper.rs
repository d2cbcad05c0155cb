use dispenser::stepper::{Motion, Stepper};

fn play(m: &mut Motion) -> Vec<u64> {
    let mut periods = Vec::new();
    while let Some(p) = m.next_period() {
        periods.push(p);
    }
    periods
}

#[test]
fn goto_emits_exact_pulse_count_within_rate() {
    let mut s = Stepper::new();
    let mut m = s.goto(10);
    assert!(m.forward());
    assert_eq!(m.remaining(), 200);
    let periods = play(&mut m);
    assert_eq!(periods.len(), 200);
    let max_sps = (s.speed_max() * s.step_per_mm()) as u64;
    assert!(periods.iter().all(|p| p * max_sps >= 1_000_000));
    assert_eq!(s.current_pos(), 10);
    assert_eq!(m.next_period(), None);
}

#[test]
fn long_move_reaches_top_speed_and_slows_down() {
    let mut s = Stepper::new();
    let mut m = s.goto(-5000);
    assert!(!m.forward());
    let periods = play(&mut m);
    assert_eq!(periods.len(), 100_000);
    assert_eq!(periods[0], 5000);
    assert_eq!(periods[50_000], 200);
    assert!(*periods.last().unwrap() > 200);
    assert!(periods.iter().all(|p| *p >= 200));
}

#[test]
fn zero_move_emits_nothing() {
    let mut s = Stepper::new();
    s.set_current_pos(4);
    let mut m = s.goto(4);
    assert_eq!(play(&mut m).len(), 0);
    assert_eq!(s.current_pos(), 4);
}

#[test]
fn move_by_is_relative_and_saturates() {
    let mut s = Stepper::new();
    s.set_step_per_mm(2);
    s.set_current_pos(7);
    let mut m = s.move_by(-5);
    assert_eq!(play(&mut m).len(), 10);
    assert_eq!(s.current_pos(), 2);
    s.set_current_pos(i32::MAX - 1);
    let _ = s.move_by(10);
    assert_eq!(s.current_pos(), i32::MAX);
}

#[test]
fn zero_speed_still_completes() {
    let mut s = Stepper::new();
    s.set_speed_max(0);
    s.set_step_per_mm(1);
    let mut m = s.goto(3);
    let periods = play(&mut m);
    assert_eq!(periods, vec![1_000_000, 1_000_000, 1_000_000]);
}

#[test]
fn stepper_parameters() {
    let mut s = Stepper::new();
    assert_eq!((s.step_per_mm(), s.speed_min(), s.speed_max(), s.speed_accel()), (20, 10, 250, 50));
    s.set_speed_min(1);
    s.set_speed_max(2);
    s.set_speed_accel(3);
    s.set_step_per_mm(4);
    assert_eq!((s.step_per_mm(), s.speed_min(), s.speed_max(), s.speed_accel()), (4, 1, 2, 3));
}
