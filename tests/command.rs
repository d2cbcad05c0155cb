use dispenser::command::{parse_cmd, AxisSet, Cmd, ParseError, UnsignSet};

fn xyz(x: Option<i32>, y: Option<i32>, z: Option<i32>) -> AxisSet {
    AxisSet { x, y, z }
}

#[test]
fn goto_any_axis_order_gives_same_set() {
    let expected = Ok(Cmd::Goto(xyz(Some(5), Some(-3), Some(0))));
    for line in [
        "goto x5 y-3 z0",
        "goto x5 z0 y-3",
        "goto y-3 x5 z0",
        "goto y-3 z0 x5",
        "goto z0 x5 y-3",
        "goto z0 y-3 x5",
    ] {
        assert_eq!(parse_cmd(line), expected, "{}", line);
    }
}

#[test]
fn speed_max_rejects_negative() {
    assert_eq!(parse_cmd("speed max x-1"), Err(ParseError));
    assert_eq!(parse_cmd("speed max x1 y2 z-3"), Err(ParseError));
}

#[test]
fn speed_max_partial_set() {
    assert_eq!(
        parse_cmd("speed max x1 y2"),
        Ok(Cmd::SpeedMax(UnsignSet { x: Some(1), y: Some(2), z: None }))
    );
}

#[test]
fn add_pos_needs_all_axes() {
    assert_eq!(parse_cmd("add pos x1 y2"), Err(ParseError));
    assert_eq!(parse_cmd("add pos x1 y2 500"), Err(ParseError));
}

#[test]
fn add_pos_with_duration() {
    assert_eq!(
        parse_cmd("add pos x1 y2 z3 500"),
        Ok(Cmd::AddPos(xyz(Some(1), Some(2), Some(3)), Some(500)))
    );
}

#[test]
fn add_pos_without_duration() {
    assert_eq!(
        parse_cmd("add pos z3 x1 y2"),
        Ok(Cmd::AddPos(xyz(Some(1), Some(2), Some(3)), None))
    );
}

#[test]
fn keywords_ignore_case() {
    assert_eq!(parse_cmd("GoTo X7"), Ok(Cmd::Goto(xyz(Some(7), None, None))));
    assert_eq!(parse_cmd("PUMP ON"), Ok(Cmd::PumpOn));
    assert_eq!(
        parse_cmd("Speed Acc Z4"),
        Ok(Cmd::SpeedAccel(UnsignSet { x: None, y: None, z: Some(4) }))
    );
}

#[test]
fn bare_keywords() {
    assert_eq!(parse_cmd("list pos"), Ok(Cmd::ListPos));
    assert_eq!(parse_cmd("pump on"), Ok(Cmd::PumpOn));
    assert_eq!(parse_cmd("pump off"), Ok(Cmd::PumpOff));
    assert_eq!(parse_cmd("start"), Ok(Cmd::Start));
    assert_eq!(parse_cmd("stop  "), Ok(Cmd::Stop));
    assert_eq!(parse_cmd("home"), Ok(Cmd::Home));
    assert_eq!(parse_cmd("help"), Ok(Cmd::Help));
}

#[test]
fn trailing_text_fails() {
    assert_eq!(parse_cmd("stop now"), Err(ParseError));
    assert_eq!(parse_cmd("goto x1 foo"), Err(ParseError));
    assert_eq!(parse_cmd("del pos 3 4"), Err(ParseError));
}

#[test]
fn unknown_or_empty_line_fails() {
    assert_eq!(parse_cmd(""), Err(ParseError));
    assert_eq!(parse_cmd("jump x1"), Err(ParseError));
    assert_eq!(parse_cmd(" goto x1"), Err(ParseError));
}

#[test]
fn repeated_axis_fails() {
    assert_eq!(parse_cmd("goto x1 x2"), Err(ParseError));
}

#[test]
fn goto_without_axes_changes_nothing() {
    assert_eq!(parse_cmd("goto"), Ok(Cmd::Goto(xyz(None, None, None))));
}

#[test]
fn move_and_step_per_mm() {
    assert_eq!(parse_cmd("move x-10 z 4"), Ok(Cmd::Move(xyz(Some(-10), None, Some(4)))));
    assert_eq!(
        parse_cmd("step_per_mm y40"),
        Ok(Cmd::StepPerMM(UnsignSet { x: None, y: Some(40), z: None }))
    );
    assert_eq!(
        parse_cmd("speed min x0 y-0"),
        Ok(Cmd::SpeedMin(UnsignSet { x: Some(0), y: Some(0), z: None }))
    );
}

#[test]
fn plus_sign_only_in_unsigned_sets() {
    assert_eq!(
        parse_cmd("speed max x+5 z+0"),
        Ok(Cmd::SpeedMax(UnsignSet { x: Some(5), y: None, z: Some(0) }))
    );
    assert_eq!(parse_cmd("goto x+5"), Err(ParseError));
    assert_eq!(parse_cmd("add pos x+1 y2 z3"), Err(ParseError));
}

#[test]
fn axes_without_spaces() {
    assert_eq!(parse_cmd("gotox1y2z3"), Ok(Cmd::Goto(xyz(Some(1), Some(2), Some(3)))));
}

#[test]
fn number_limits() {
    assert_eq!(parse_cmd("goto x-2147483648"), Ok(Cmd::Goto(xyz(Some(i32::MIN), None, None))));
    assert_eq!(parse_cmd("goto x2147483647"), Ok(Cmd::Goto(xyz(Some(i32::MAX), None, None))));
    assert_eq!(parse_cmd("goto x2147483648"), Err(ParseError));
    assert_eq!(parse_cmd("goto x99999999999999999999"), Err(ParseError));
    assert_eq!(parse_cmd("del pos 4294967295"), Ok(Cmd::DelPos(u32::MAX)));
    assert_eq!(parse_cmd("del pos 4294967296"), Err(ParseError));
    assert_eq!(parse_cmd("goto x- 5"), Err(ParseError));
}

#[test]
fn water_duration_forms() {
    assert_eq!(parse_cmd("water duration 500"), Ok(Cmd::WaterDuration(None, 500)));
    assert_eq!(parse_cmd("water duration 2 500"), Ok(Cmd::WaterDuration(Some(2), 500)));
    assert_eq!(parse_cmd("water duration"), Err(ParseError));
    assert_eq!(parse_cmd("water duration 1 2 3"), Err(ParseError));
}

#[test]
fn single_number_commands() {
    assert_eq!(parse_cmd("del pos 3"), Ok(Cmd::DelPos(3)));
    assert_eq!(parse_cmd("del pos +4"), Ok(Cmd::DelPos(4)));
    assert_eq!(parse_cmd("repeat duration 2000"), Ok(Cmd::RepeatDur(2000)));
    assert_eq!(parse_cmd("del pos"), Err(ParseError));
    assert_eq!(parse_cmd("del pos -1"), Err(ParseError));
}
