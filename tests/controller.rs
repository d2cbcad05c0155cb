use dispenser::command::{parse_cmd, AxisSet, Cmd, UnsignSet};
use dispenser::controller::{Controller, Mode, Step, HELP};
use dispenser::positions::{PositionList, WateringPosition};
use dispenser::storage::{backup_pages, restore};

fn wp(x: i32, y: i32, z: i32, dur_ms: u32) -> WateringPosition {
    WateringPosition { x, y, z, dur_ms }
}

fn controller_with(ps: &[WateringPosition]) -> Controller {
    let mut l = PositionList::new();
    for p in ps {
        l.add(*p).unwrap();
    }
    Controller::new(l)
}

fn manual(ps: &[WateringPosition]) -> Controller {
    let mut c = controller_with(ps);
    assert!(matches!(c.sweep_step(Some(Cmd::Stop)), Step::Halted));
    c
}

fn cmd(line: &str) -> Cmd {
    parse_cmd(line).unwrap()
}

fn positions(c: &Controller) -> Vec<WateringPosition> {
    (0..c.positions().len()).map(|i| c.positions().get(i).unwrap()).collect()
}

#[test]
fn sweep_visits_positions_in_order_then_repeats() {
    let mut c = controller_with(&[wp(0, 0, 0, 1000), wp(10, 0, 0, 500)]);
    assert_eq!(c.mode(), Mode::Scheduled);
    assert!(matches!(c.sweep_step(None), Step::Pause(1000)));
    match c.sweep_step(None) {
        Step::Visit(v) => {
            assert_eq!(v.index, 0);
            assert_eq!(v.dwell_ms, 1000);
            assert_eq!((v.x.remaining(), v.y.remaining()), (0, 0));
            assert_eq!((v.z_down.remaining(), v.z_up.remaining()), (0, 0));
        }
        _ => panic!("expected a visit"),
    }
    match c.sweep_step(None) {
        Step::Visit(v) => {
            assert_eq!(v.index, 1);
            assert_eq!(v.dwell_ms, 500);
            assert!(v.x.forward());
            assert_eq!(v.x.remaining(), 200);
            assert_eq!(v.y.remaining(), 0);
        }
        _ => panic!("expected a visit"),
    }
    assert_eq!(c.x().current_pos(), 10);
    assert_eq!(c.z().current_pos(), 0);
    assert!(matches!(c.sweep_step(None), Step::Pause(1000)));
    match c.sweep_step(None) {
        Step::Visit(v) => {
            assert_eq!(v.index, 0);
            assert!(!v.x.forward());
            assert_eq!(v.x.remaining(), 200);
        }
        _ => panic!("expected a visit"),
    }
}

#[test]
fn sweep_lowers_and_raises_z() {
    let mut c = controller_with(&[wp(1, 2, 3, 40)]);
    let _ = c.sweep_step(None);
    match c.sweep_step(None) {
        Step::Visit(v) => {
            assert_eq!(v.z_down.remaining(), 60);
            assert!(v.z_down.forward());
            assert_eq!(v.z_up.remaining(), 60);
            assert!(!v.z_up.forward());
        }
        _ => panic!("expected a visit"),
    }
    assert_eq!((c.x().current_pos(), c.y().current_pos(), c.z().current_pos()), (1, 2, 0));
}

#[test]
fn stop_mid_sweep_halts_before_next_move() {
    let mut c = controller_with(&[wp(0, 0, 0, 1000), wp(10, 0, 0, 500)]);
    let _ = c.sweep_step(None);
    assert!(matches!(c.sweep_step(None), Step::Visit(_)));
    assert!(matches!(c.sweep_step(Some(Cmd::Stop)), Step::Halted));
    assert_eq!(c.mode(), Mode::Manual);
    assert_eq!(c.x().current_pos(), 0);
    let r = c.dispatch(cmd("list pos"));
    assert_eq!(r.text, " 0: (   0,    0,    0)  1000ms\n 1: (  10,    0,    0)   500ms\n");
    assert_eq!(c.mode(), Mode::Manual);
    assert!(matches!(c.sweep_step(None), Step::Halted));
}

#[test]
fn other_commands_are_dropped_while_sweeping() {
    let mut c = controller_with(&[wp(3, 0, 0, 10)]);
    let _ = c.sweep_step(None);
    match c.sweep_step(Some(Cmd::Home)) {
        Step::Visit(v) => assert_eq!(v.index, 0),
        _ => panic!("expected a visit"),
    }
    assert_eq!(c.mode(), Mode::Scheduled);
    assert_eq!(c.x().current_pos(), 3);
}

#[test]
fn empty_list_only_pauses() {
    let mut c = controller_with(&[]);
    assert!(matches!(c.sweep_step(None), Step::Pause(1000)));
    assert!(matches!(c.sweep_step(None), Step::Pause(1000)));
}

#[test]
fn start_resumes_with_pause_and_new_delay() {
    let mut c = manual(&[wp(1, 1, 1, 1)]);
    let r = c.dispatch(Cmd::RepeatDur(2500));
    assert_eq!(r.text, "");
    assert_eq!(c.repeat_ms(), 2500);
    let _ = c.dispatch(Cmd::Start);
    assert_eq!(c.mode(), Mode::Scheduled);
    assert!(matches!(c.sweep_step(None), Step::Pause(2500)));
}

#[test]
fn goto_moves_given_axes_only() {
    let mut c = manual(&[]);
    let r = c.dispatch(cmd("goto x5 z-2"));
    let (mx, my, mz) = r.motions.unwrap();
    assert_eq!((mx.remaining(), my.remaining(), mz.remaining()), (100, 0, 40));
    assert_eq!((c.x().current_pos(), c.y().current_pos(), c.z().current_pos()), (5, 0, -2));
    assert_eq!(r.text, "");
    assert!(!r.persist);
}

#[test]
fn move_is_relative() {
    let mut c = manual(&[]);
    let _ = c.dispatch(cmd("goto x5 y5 z5"));
    let r = c.dispatch(cmd("move y-2"));
    let (mx, my, mz) = r.motions.unwrap();
    assert_eq!((mx.remaining(), my.remaining(), mz.remaining()), (0, 40, 0));
    assert_eq!((c.x().current_pos(), c.y().current_pos(), c.z().current_pos()), (5, 3, 5));
}

#[test]
fn parameter_commands_update_given_axes() {
    let mut c = manual(&[]);
    let _ = c.dispatch(Cmd::SpeedMax(UnsignSet { x: Some(100), y: None, z: Some(7) }));
    assert_eq!((c.x().speed_max(), c.y().speed_max(), c.z().speed_max()), (100, 250, 7));
    let _ = c.dispatch(cmd("speed min y3"));
    assert_eq!(c.y().speed_min(), 3);
    let _ = c.dispatch(cmd("speed acc x9"));
    assert_eq!(c.x().speed_accel(), 9);
    let r = c.dispatch(cmd("step_per_mm z8"));
    assert!(r.motions.is_none());
    assert_eq!((c.x().step_per_mm(), c.z().step_per_mm()), (20, 8));
}

#[test]
fn add_pos_uses_default_duration_and_persists() {
    let mut c = manual(&[]);
    let r = c.dispatch(cmd("add pos x4 y0 z0"));
    assert!(r.persist);
    let r = c.dispatch(cmd("add pos x1 y0 z0 250"));
    assert!(r.persist);
    assert_eq!(positions(&c), vec![wp(1, 0, 0, 250), wp(4, 0, 0, 1000)]);
    let r = c.dispatch(Cmd::AddPos(AxisSet { x: Some(1), y: None, z: Some(1) }, None));
    assert!(!r.persist);
    assert_eq!(positions(&c).len(), 2);
}

#[test]
fn add_pos_beyond_capacity_keeps_list() {
    let mut c = manual(&[]);
    for i in 0..100 {
        let _ = c.dispatch(Cmd::AddPos(AxisSet { x: Some(i), y: Some(0), z: Some(0) }, None));
    }
    let before = positions(&c);
    assert_eq!(before.len(), 100);
    let _ = c.dispatch(cmd("add pos x-1 y0 z0"));
    assert_eq!(positions(&c), before);
}

#[test]
fn water_duration_and_del_pos() {
    let mut c = manual(&[wp(1, 0, 0, 10), wp(2, 0, 0, 20)]);
    let r = c.dispatch(cmd("water duration 1 70"));
    assert!(r.persist);
    assert_eq!(positions(&c), vec![wp(1, 0, 0, 10), wp(2, 0, 0, 70)]);
    let r = c.dispatch(cmd("water duration 9 70"));
    assert!(r.persist);
    let _ = c.dispatch(cmd("water duration 5"));
    assert_eq!(positions(&c), vec![wp(1, 0, 0, 5), wp(2, 0, 0, 5)]);
    let r = c.dispatch(cmd("del pos 7"));
    assert!(!r.persist);
    let r = c.dispatch(cmd("del pos 0"));
    assert!(r.persist);
    assert_eq!(positions(&c), vec![wp(2, 0, 0, 5)]);
}

#[test]
fn pump_home_help_stop() {
    let mut c = manual(&[]);
    assert_eq!(c.dispatch(Cmd::PumpOn).pump, Some(true));
    assert_eq!(c.dispatch(Cmd::PumpOff).pump, Some(false));
    assert_eq!(c.dispatch(Cmd::ListPos).pump, None);
    let _ = c.dispatch(cmd("goto x1 y2 z3"));
    let _ = c.dispatch(Cmd::Home);
    assert_eq!((c.x().current_pos(), c.y().current_pos(), c.z().current_pos()), (0, 0, 0));
    assert_eq!(c.dispatch(Cmd::Help).text, HELP);
    let r = c.dispatch(Cmd::Stop);
    assert_eq!(r.text, "");
    assert_eq!(c.mode(), Mode::Manual);
}

#[test]
fn list_pos_pads_negative_numbers() {
    let mut c = manual(&[wp(-12, 3, -4567, 7)]);
    let r = c.dispatch(Cmd::ListPos);
    assert_eq!(r.text, " 0: ( -12,    3, -4567)     7ms\n");
}

#[test]
fn add_pos_sorts_a_restored_unsorted_list() {
    let mut pages = Vec::new();
    for p in [wp(9, 0, 0, 1), wp(3, 0, 0, 2)] {
        let mut l = PositionList::new();
        l.add(p).unwrap();
        pages.push(Some(backup_pages(&l)[1].clone()));
    }
    let mut c = Controller::new(restore(&pages));
    assert_eq!(positions(&c), vec![wp(9, 0, 0, 1), wp(3, 0, 0, 2)]);
    let _ = c.sweep_step(Some(Cmd::Stop));
    let _ = c.dispatch(cmd("add pos x5 y0 z0 4"));
    assert_eq!(positions(&c), vec![wp(3, 0, 0, 2), wp(5, 0, 0, 4), wp(9, 0, 0, 1)]);
}

#[test]
fn list_pos_wide_values_and_indexes() {
    let mut ps: Vec<WateringPosition> = (0..10).map(|i| wp(i, 0, 0, 1)).collect();
    ps.push(wp(i32::MAX, i32::MIN, 123456, u32::MAX));
    let mut c = manual(&ps);
    let text = c.dispatch(Cmd::ListPos).text;
    let lines: Vec<&str> = text.lines().collect();
    assert_eq!(lines.len(), 11);
    assert_eq!(lines[9], " 9: (   9,    0,    0)     1ms");
    assert_eq!(lines[10], "10: (2147483647, -2147483648, 123456) 4294967295ms");
}
