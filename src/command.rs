use vstd::prelude::*;
use vstd::string::StringSliceAdditionalSpecFns;

verus! {

/// A sparse set of unsigned per-axis values; an absent axis is left unchanged.
#[derive(Debug, Clone, Copy, PartialEq, Eq, Structural)]
pub struct UnsignSet {
    pub x: Option<u32>,
    pub y: Option<u32>,
    pub z: Option<u32>,
}

/// A sparse set of signed per-axis values; an absent axis is left unchanged.
#[derive(Debug, Clone, Copy, PartialEq, Eq, Structural)]
pub struct AxisSet {
    pub x: Option<i32>,
    pub y: Option<i32>,
    pub z: Option<i32>,
}

/// One operator command.
#[derive(Debug, Clone, Copy, PartialEq, Eq, Structural)]
pub enum Cmd {
    Goto(AxisSet),
    Move(AxisSet),
    SpeedMin(UnsignSet),
    SpeedMax(UnsignSet),
    SpeedAccel(UnsignSet),
    StepPerMM(UnsignSet),
    AddPos(AxisSet, Option<u32>),
    WaterDuration(Option<u32>, u32),
    DelPos(u32),
    RepeatDur(u32),
    PumpOn,
    PumpOff,
    ListPos,
    Start,
    Stop,
    Home,
    Help,
}


/// The line did not match the command grammar.
#[derive(Debug, Clone, Copy, PartialEq, Eq, Structural)]
pub struct ParseError;

/// Number of command keywords.
pub const KEYWORD_COUNT: usize = 17;

/// Space, tab, line feed and carriage return.
pub open spec fn is_blank(b: u8) -> bool {
    b == 32 || b == 9 || b == 10 || b == 13
}

pub open spec fn is_digit(b: u8) -> bool {
    48 <= b <= 57
}

/// ASCII lower case of a byte; other bytes are left as they are.
pub open spec fn lower(b: u8) -> u8 {
    if 65 <= b <= 90 {
        (b + 32) as u8
    } else {
        b
    }
}

/// The first index at or after `i` that does not hold white space.
pub open spec fn skip_blank(s: Seq<u8>, i: int) -> int
    decreases s.len() - i,
{
    if 0 <= i < s.len() && is_blank(s[i]) {
        skip_blank(s, i + 1)
    } else {
        i
    }
}

/// Whether nothing but white space follows index `i`.
pub open spec fn rest_blank(s: Seq<u8>, i: int) -> bool {
    skip_blank(s, i) >= s.len()
}

/// The end of the run of decimal digits that starts at `i`.
pub open spec fn digits_end(s: Seq<u8>, i: int) -> int
    decreases s.len() - i,
{
    if 0 <= i < s.len() && is_digit(s[i]) {
        digits_end(s, i + 1)
    } else {
        i
    }
}

/// The decimal value of the digits `s[i..j]`.
pub open spec fn digits_value(s: Seq<u8>, i: int, j: int) -> nat
    decreases j - i,
{
    if j <= i {
        0
    } else {
        digits_value(s, i, j - 1) * 10 + (s[j - 1] - 48) as nat
    }
}

/// A decimal integer after optional white space, with an optional leading
/// `-` (or `+`, where `plus` allows it), that fits in `i32`: its value and
/// the index after its last digit.
pub open spec fn signed_at(s: Seq<u8>, i: int, plus: bool) -> Option<(i32, int)> {
    let k = skip_blank(s, i);
    let neg = k < s.len() && s[k] == 45;
    let pos = plus && k < s.len() && s[k] == 43;
    let d = if neg || pos { k + 1 } else { k };
    let e = digits_end(s, d);
    let m = digits_value(s, d, e) as int;
    let v = if neg { -m } else { m };
    if e > d && i32::MIN <= v <= i32::MAX {
        Some((v as i32, e))
    } else {
        None
    }
}

/// A decimal integer after optional white space, with an optional leading
/// `+`, that fits in `u32`: its value and the index after its last digit.
pub open spec fn unsigned_at(s: Seq<u8>, i: int) -> Option<(u32, int)> {
    let k = skip_blank(s, i);
    let d = if k < s.len() && s[k] == 43 { k + 1 } else { k };
    let e = digits_end(s, d);
    let m = digits_value(s, d, e);
    if e > d && m <= u32::MAX {
        Some((m as u32, e))
    } else {
        None
    }
}

/// The axis that a letter names, in either case: 0 for x, 1 for y, 2 for z.
pub open spec fn axis_of(b: u8) -> Option<nat> {
    if lower(b) == 120 {
        Some(0)
    } else if lower(b) == 121 {
        Some(1)
    } else if lower(b) == 122 {
        Some(2)
    } else {
        None
    }
}

/// An axis letter after optional white space, then a signed integer: the
/// axis, the value and the index after the value.
pub open spec fn axis_at(s: Seq<u8>, i: int, plus: bool) -> Option<(nat, i32, int)> {
    let k = skip_blank(s, i);
    if 0 <= k < s.len() && axis_of(s[k]) is Some {
        match signed_at(s, k + 1, plus) {
            Some((v, e)) => Some((axis_of(s[k])->0, v, e)),
            None => None,
        }
    } else {
        None
    }
}

pub open spec fn no_axes() -> AxisSet {
    AxisSet { x: None, y: None, z: None }
}

pub open spec fn has_axis(set: AxisSet, a: nat) -> bool {
    if a == 0 {
        set.x is Some
    } else if a == 1 {
        set.y is Some
    } else {
        set.z is Some
    }
}

pub open spec fn with_axis(set: AxisSet, a: nat, v: i32) -> AxisSet {
    if a == 0 {
        AxisSet { x: Some(v), ..set }
    } else if a == 1 {
        AxisSet { y: Some(v), ..set }
    } else {
        AxisSet { z: Some(v), ..set }
    }
}

/// How many axes the set holds.
pub open spec fn present(set: AxisSet) -> int {
    (if set.x is Some { 1int } else { 0 }) + (if set.y is Some { 1int } else { 0 }) + (if set.z is Some {
        1int
    } else {
        0
    })
}

/// The axis-tagged values from index `i` on, added to `acc` while each names
/// an axis not yet given: the set and the index where the arguments end.
/// `plus` lets a value carry a leading `+`, as in the unsigned sets.
pub open spec fn set_from(s: Seq<u8>, i: int, acc: AxisSet, plus: bool) -> (AxisSet, int)
    decreases 3 - present(acc),
{
    match axis_at(s, i, plus) {
        Some((a, v, e)) => if !has_axis(acc, a) && present(acc) < 3 {
            set_from(s, e, with_axis(acc, a, v), plus)
        } else {
            (acc, i)
        },
        None => (acc, i),
    }
}

/// The value given for axis `a` among three tagged values, if any.
pub open spec fn value_for(a: nat, t1: (nat, i32), t2: (nat, i32), t3: (nat, i32)) -> Option<i32> {
    if t1.0 == a {
        Some(t1.1)
    } else if t2.0 == a {
        Some(t2.1)
    } else if t3.0 == a {
        Some(t3.1)
    } else {
        None
    }
}

/// Three axis-tagged values naming the three axes, in any order, give the
/// set that holds each value at the axis it names: the order of the
/// arguments does not matter.
pub proof fn lemma_axis_order_irrelevant(
    s: Seq<u8>,
    i: int,
    plus: bool,
    a1: nat,
    v1: i32,
    e1: int,
    a2: nat,
    v2: i32,
    e2: int,
    a3: nat,
    v3: i32,
    e3: int,
)
    requires
        axis_at(s, i, plus) == Some((a1, v1, e1)),
        axis_at(s, e1, plus) == Some((a2, v2, e2)),
        axis_at(s, e2, plus) == Some((a3, v3, e3)),
        a1 <= 2 && a2 <= 2 && a3 <= 2,
        a1 != a2 && a1 != a3 && a2 != a3,
    ensures
        set_from(s, i, no_axes(), plus) == (
        AxisSet {
            x: value_for(0, (a1, v1), (a2, v2), (a3, v3)),
            y: value_for(1, (a1, v1), (a2, v2), (a3, v3)),
            z: value_for(2, (a1, v1), (a2, v2), (a3, v3)),
        },
        e3),
{
    let s1 = with_axis(no_axes(), a1, v1);
    let s2 = with_axis(s1, a2, v2);
    let s3 = with_axis(s2, a3, v3);
    assert(present(s3) == 3);
    assert(set_from(s, e3, s3, plus) == (s3, e3));
    assert(set_from(s, e2, s2, plus) == (s3, e3));
    assert(set_from(s, e1, s1, plus) == (s3, e3));
}

/// The unsigned form of a set, when none of its values is negative.
pub open spec fn unsigned_of(set: AxisSet) -> Option<UnsignSet> {
    if (set.x is Some && set.x->0 < 0) || (set.y is Some && set.y->0 < 0) || (set.z is Some
        && set.z->0 < 0) {
        None
    } else {
        Some(
            UnsignSet {
                x: match set.x {
                    Some(v) => Some(v as u32),
                    None => None,
                },
                y: match set.y {
                    Some(v) => Some(v as u32),
                    None => None,
                },
                z: match set.z {
                    Some(v) => Some(v as u32),
                    None => None,
                },
            },
        )
    }
}

/// The command keywords, in the order in which they are tried.
pub open spec fn keyword(n: int) -> Seq<u8> {
    if n == 0 {
        seq![103u8, 111, 116, 111] // "goto"
    } else if n == 1 {
        seq![109u8, 111, 118, 101] // "move"
    } else if n == 2 {
        seq![115u8, 112, 101, 101, 100, 32, 109, 97, 120] // "speed max"
    } else if n == 3 {
        seq![115u8, 112, 101, 101, 100, 32, 109, 105, 110] // "speed min"
    } else if n == 4 {
        seq![115u8, 112, 101, 101, 100, 32, 97, 99, 99] // "speed acc"
    } else if n == 5 {
        seq![115u8, 116, 101, 112, 95, 112, 101, 114, 95, 109, 109] // "step_per_mm"
    } else if n == 6 {
        seq![97u8, 100, 100, 32, 112, 111, 115] // "add pos"
    } else if n == 7 {
        seq![119u8, 97, 116, 101, 114, 32, 100, 117, 114, 97, 116, 105, 111, 110] // "water duration"
    } else if n == 8 {
        seq![100u8, 101, 108, 32, 112, 111, 115] // "del pos"
    } else if n == 9 {
        seq![114u8, 101, 112, 101, 97, 116, 32, 100, 117, 114, 97, 116, 105, 111, 110] // "repeat duration"
    } else if n == 10 {
        seq![108u8, 105, 115, 116, 32, 112, 111, 115] // "list pos"
    } else if n == 11 {
        seq![112u8, 117, 109, 112, 32, 111, 110] // "pump on"
    } else if n == 12 {
        seq![112u8, 117, 109, 112, 32, 111, 102, 102] // "pump off"
    } else if n == 13 {
        seq![115u8, 116, 97, 114, 116] // "start"
    } else if n == 14 {
        seq![115u8, 116, 111, 112] // "stop"
    } else if n == 15 {
        seq![104u8, 111, 109, 101] // "home"
    } else {
        seq![104u8, 101, 108, 112] // "help"
    }
}

/// Whether `s` starts with keyword `kw`, ignoring case.
pub open spec fn starts_with_keyword(s: Seq<u8>, kw: Seq<u8>) -> bool {
    kw.len() <= s.len() && forall|j: int| 0 <= j < kw.len() ==> lower(s[j]) == kw[j]
}

/// The command built from a set of axis values, for the keywords that take one.
pub open spec fn axes_command(n: int, set: AxisSet) -> Option<Cmd> {
    if n == 0 {
        Some(Cmd::Goto(set))
    } else if n == 1 {
        Some(Cmd::Move(set))
    } else {
        match unsigned_of(set) {
            Some(u) => Some(
                if n == 2 {
                    Cmd::SpeedMax(u)
                } else if n == 3 {
                    Cmd::SpeedMin(u)
                } else if n == 4 {
                    Cmd::SpeedAccel(u)
                } else {
                    Cmd::StepPerMM(u)
                },
            ),
            None => None,
        }
    }
}

/// `add pos`: all three axes, then an optional duration.
pub open spec fn add_pos_args(s: Seq<u8>, i: int) -> Option<Cmd> {
    let (set, e) = set_from(s, i, no_axes(), false);
    if present(set) == 3 {
        match unsigned_at(s, e) {
            Some((d, e2)) => if rest_blank(s, e2) {
                Some(Cmd::AddPos(set, Some(d)))
            } else {
                None
            },
            None => if rest_blank(s, e) {
                Some(Cmd::AddPos(set, None))
            } else {
                None
            },
        }
    } else {
        None
    }
}

/// `water duration`: an optional index, then the duration.
pub open spec fn water_args(s: Seq<u8>, i: int) -> Option<Cmd> {
    match unsigned_at(s, i) {
        Some((a, e1)) => match unsigned_at(s, e1) {
            Some((b, e2)) => if rest_blank(s, e2) {
                Some(Cmd::WaterDuration(Some(a), b))
            } else {
                None
            },
            None => if rest_blank(s, e1) {
                Some(Cmd::WaterDuration(None, a))
            } else {
                None
            },
        },
        None => None,
    }
}

/// The command that keyword `n` introduces, its arguments starting at `i`.
pub open spec fn args_of(n: int, s: Seq<u8>, i: int) -> Option<Cmd> {
    if 0 <= n <= 5 {
        let (set, e) = set_from(s, i, no_axes(), n >= 2);
        if rest_blank(s, e) {
            axes_command(n, set)
        } else {
            None
        }
    } else if n == 6 {
        add_pos_args(s, i)
    } else if n == 7 {
        water_args(s, i)
    } else if n == 8 || n == 9 {
        match unsigned_at(s, i) {
            Some((v, e)) => if rest_blank(s, e) {
                Some(if n == 8 { Cmd::DelPos(v) } else { Cmd::RepeatDur(v) })
            } else {
                None
            },
            None => None,
        }
    } else if rest_blank(s, i) {
        Some(
            if n == 10 {
                Cmd::ListPos
            } else if n == 11 {
                Cmd::PumpOn
            } else if n == 12 {
                Cmd::PumpOff
            } else if n == 13 {
                Cmd::Start
            } else if n == 14 {
                Cmd::Stop
            } else if n == 15 {
                Cmd::Home
            } else {
                Cmd::Help
            },
        )
    } else {
        None
    }
}

/// The command of a line, trying the keywords from `n` on.
pub open spec fn command_from(s: Seq<u8>, n: int) -> Option<Cmd>
    decreases KEYWORD_COUNT - n,
{
    if n < 0 || n >= KEYWORD_COUNT {
        None
    } else if starts_with_keyword(s, keyword(n)) {
        args_of(n, s, keyword(n).len() as int)
    } else {
        command_from(s, n + 1)
    }
}

/// The command that a line denotes, if it matches the grammar.
pub open spec fn command_of(s: Seq<u8>) -> Option<Cmd> {
    command_from(s, 0)
}

fn skip_blank_exec(s: &[u8], i: usize) -> (r: usize)
    requires
        i <= s@.len(),
    ensures
        r as int == skip_blank(s@, i as int),
        i <= r <= s@.len(),
{
    let mut j = i;
    while j < s.len() && (s[j] == 32 || s[j] == 9 || s[j] == 10 || s[j] == 13)
        invariant
            i <= j <= s@.len(),
            skip_blank(s@, j as int) == skip_blank(s@, i as int),
        decreases s@.len() - j,
    {
        j = j + 1;
    }
    j
}

fn rest_blank_exec(s: &[u8], i: usize) -> (r: bool)
    requires
        i <= s@.len(),
    ensures
        r == rest_blank(s@, i as int),
{
    skip_blank_exec(s, i) == s.len()
}

fn lower_exec(b: u8) -> (r: u8)
    ensures
        r == lower(b),
{
    if 65 <= b && b <= 90 {
        b + 32
    } else {
        b
    }
}

/// The run of digits from `d`: its end, and its value where that fits in `u32`.
fn digits_exec(s: &[u8], d: usize) -> (r: (usize, Option<u32>))
    requires
        d <= s@.len(),
    ensures
        r.0 as int == digits_end(s@, d as int),
        d <= r.0 <= s@.len(),
        match r.1 {
            Some(v) => v as nat == digits_value(s@, d as int, r.0 as int),
            None => digits_value(s@, d as int, r.0 as int) > u32::MAX,
        },
{
    let mut j = d;
    let mut v: u64 = 0;
    let mut over = false;
    while j < s.len() && 48 <= s[j] && s[j] <= 57
        invariant
            d <= j <= s@.len(),
            digits_end(s@, j as int) == digits_end(s@, d as int),
            over ==> digits_value(s@, d as int, j as int) > u32::MAX,
            !over ==> v as nat == digits_value(s@, d as int, j as int) && v <= u32::MAX,
        decreases s@.len() - j,
    {
        if !over {
            let next = v * 10 + (s[j] - 48) as u64;
            if next > 0xFFFF_FFFFu64 {
                over = true;
            } else {
                v = next;
            }
        }
        j = j + 1;
    }
    if over {
        (j, None)
    } else {
        (j, Some(v as u32))
    }
}

fn signed_at_exec(s: &[u8], i: usize, plus: bool) -> (r: Option<(i32, usize)>)
    requires
        i <= s@.len(),
    ensures
        match r {
            Some((v, e)) => signed_at(s@, i as int, plus) == Some((v, e as int)) && e <= s@.len(),
            None => signed_at(s@, i as int, plus) is None,
        },
{
    let k = skip_blank_exec(s, i);
    let neg = k < s.len() && s[k] == 45;
    let pos = plus && k < s.len() && s[k] == 43;
    let d = if neg || pos { k + 1 } else { k };
    let (e, m) = digits_exec(s, d);
    if e == d {
        return None;
    }
    match m {
        Some(m) => {
            if neg {
                if m <= 0x8000_0000u32 {
                    Some(((0 - m as i64) as i32, e))
                } else {
                    None
                }
            } else if m <= 0x7FFF_FFFFu32 {
                Some((m as i32, e))
            } else {
                None
            }
        },
        None => None,
    }
}

fn unsigned_at_exec(s: &[u8], i: usize) -> (r: Option<(u32, usize)>)
    requires
        i <= s@.len(),
    ensures
        match r {
            Some((v, e)) => unsigned_at(s@, i as int) == Some((v, e as int)) && e <= s@.len(),
            None => unsigned_at(s@, i as int) is None,
        },
{
    let k = skip_blank_exec(s, i);
    let d = if k < s.len() && s[k] == 43 { k + 1 } else { k };
    let (e, m) = digits_exec(s, d);
    if e == d {
        return None;
    }
    match m {
        Some(m) => Some((m, e)),
        None => None,
    }
}

fn axis_at_exec(s: &[u8], i: usize, plus: bool) -> (r: Option<(usize, i32, usize)>)
    requires
        i <= s@.len(),
    ensures
        match r {
            Some((a, v, e)) => axis_at(s@, i as int, plus) == Some((a as nat, v, e as int)) && e
                <= s@.len(),
            None => axis_at(s@, i as int, plus) is None,
        },
{
    let k = skip_blank_exec(s, i);
    if k >= s.len() {
        return None;
    }
    let c = lower_exec(s[k]);
    let a: usize = if c == 120 {
        0
    } else if c == 121 {
        1
    } else if c == 122 {
        2
    } else {
        return None;
    };
    match signed_at_exec(s, k + 1, plus) {
        Some((v, e)) => Some((a, v, e)),
        None => None,
    }
}

/// The axis-tagged values from `i` on, and the index where they end.
fn set_from_exec(s: &[u8], i: usize, plus: bool) -> (r: (AxisSet, usize))
    requires
        i <= s@.len(),
    ensures
        set_from(s@, i as int, no_axes(), plus) == (r.0, r.1 as int),
        r.1 <= s@.len(),
{
    let mut acc = AxisSet { x: None, y: None, z: None };
    let mut j = i;
    loop
        invariant
            j <= s@.len(),
            0 <= present(acc) <= 3,
            set_from(s@, j as int, acc, plus) == set_from(s@, i as int, no_axes(), plus),
        decreases 3 - present(acc),
    {
        match axis_at_exec(s, j, plus) {
            Some((a, v, e)) => {
                let fresh = if a == 0 {
                    acc.x.is_none()
                } else if a == 1 {
                    acc.y.is_none()
                } else {
                    acc.z.is_none()
                };
                if !fresh {
                    return (acc, j);
                }
                if a == 0 {
                    acc = AxisSet { x: Some(v), ..acc };
                } else if a == 1 {
                    acc = AxisSet { y: Some(v), ..acc };
                } else {
                    acc = AxisSet { z: Some(v), ..acc };
                }
                j = e;
            },
            None => {
                return (acc, j);
            },
        }
    }
}

fn unsigned_of_exec(set: AxisSet) -> (r: Option<UnsignSet>)
    ensures
        r == unsigned_of(set),
{
    let neg_x = match set.x {
        Some(v) => v < 0,
        None => false,
    };
    let neg_y = match set.y {
        Some(v) => v < 0,
        None => false,
    };
    let neg_z = match set.z {
        Some(v) => v < 0,
        None => false,
    };
    if neg_x || neg_y || neg_z {
        return None;
    }
    Some(
        UnsignSet {
            x: match set.x {
                Some(v) => Some(v as u32),
                None => None,
            },
            y: match set.y {
                Some(v) => Some(v as u32),
                None => None,
            },
            z: match set.z {
                Some(v) => Some(v as u32),
                None => None,
            },
        },
    )
}

fn keyword_bytes(n: usize) -> (r: Vec<u8>)
    requires
        n < KEYWORD_COUNT,
    ensures
        r@ == keyword(n as int),
{
    let v =     if n == 0 {
            vec![103u8, 111, 116, 111] // "goto"
        } else if n == 1 {
            vec![109u8, 111, 118, 101] // "move"
        } else if n == 2 {
            vec![115u8, 112, 101, 101, 100, 32, 109, 97, 120] // "speed max"
        } else if n == 3 {
            vec![115u8, 112, 101, 101, 100, 32, 109, 105, 110] // "speed min"
        } else if n == 4 {
            vec![115u8, 112, 101, 101, 100, 32, 97, 99, 99] // "speed acc"
        } else if n == 5 {
            vec![115u8, 116, 101, 112, 95, 112, 101, 114, 95, 109, 109] // "step_per_mm"
        } else if n == 6 {
            vec![97u8, 100, 100, 32, 112, 111, 115] // "add pos"
        } else if n == 7 {
            vec![119u8, 97, 116, 101, 114, 32, 100, 117, 114, 97, 116, 105, 111, 110] // "water duration"
        } else if n == 8 {
            vec![100u8, 101, 108, 32, 112, 111, 115] // "del pos"
        } else if n == 9 {
            vec![114u8, 101, 112, 101, 97, 116, 32, 100, 117, 114, 97, 116, 105, 111, 110] // "repeat duration"
        } else if n == 10 {
            vec![108u8, 105, 115, 116, 32, 112, 111, 115] // "list pos"
        } else if n == 11 {
            vec![112u8, 117, 109, 112, 32, 111, 110] // "pump on"
        } else if n == 12 {
            vec![112u8, 117, 109, 112, 32, 111, 102, 102] // "pump off"
        } else if n == 13 {
            vec![115u8, 116, 97, 114, 116] // "start"
        } else if n == 14 {
            vec![115u8, 116, 111, 112] // "stop"
        } else if n == 15 {
            vec![104u8, 111, 109, 101] // "home"
        } else {
            vec![104u8, 101, 108, 112] // "help"
        };
    assert(v@ =~= keyword(n as int));
    v
}

fn starts_with_keyword_exec(s: &[u8], kw: &[u8]) -> (r: bool)
    ensures
        r == starts_with_keyword(s@, kw@),
{
    if kw.len() > s.len() {
        return false;
    }
    let mut j: usize = 0;
    while j < kw.len()
        invariant
            kw@.len() <= s@.len(),
            j <= kw@.len(),
            forall|t: int| 0 <= t < j ==> lower(s@[t]) == kw@[t],
        decreases kw@.len() - j,
    {
        if lower_exec(s[j]) != kw[j] {
            return false;
        }
        j = j + 1;
    }
    true
}

fn axes_command_exec(n: usize, set: AxisSet) -> (r: Option<Cmd>)
    requires
        n <= 5,
    ensures
        r == axes_command(n as int, set),
{
    if n == 0 {
        Some(Cmd::Goto(set))
    } else if n == 1 {
        Some(Cmd::Move(set))
    } else {
        match unsigned_of_exec(set) {
            Some(u) => Some(
                if n == 2 {
                    Cmd::SpeedMax(u)
                } else if n == 3 {
                    Cmd::SpeedMin(u)
                } else if n == 4 {
                    Cmd::SpeedAccel(u)
                } else {
                    Cmd::StepPerMM(u)
                },
            ),
            None => None,
        }
    }
}

fn add_pos_exec(s: &[u8], i: usize) -> (r: Option<Cmd>)
    requires
        i <= s@.len(),
    ensures
        r == add_pos_args(s@, i as int),
{
    let (set, e) = set_from_exec(s, i, false);
    if set.x.is_none() || set.y.is_none() || set.z.is_none() {
        return None;
    }
    match unsigned_at_exec(s, e) {
        Some((d, e2)) => if rest_blank_exec(s, e2) {
            Some(Cmd::AddPos(set, Some(d)))
        } else {
            None
        },
        None => if rest_blank_exec(s, e) {
            Some(Cmd::AddPos(set, None))
        } else {
            None
        },
    }
}

fn water_exec(s: &[u8], i: usize) -> (r: Option<Cmd>)
    requires
        i <= s@.len(),
    ensures
        r == water_args(s@, i as int),
{
    match unsigned_at_exec(s, i) {
        Some((a, e1)) => match unsigned_at_exec(s, e1) {
            Some((b, e2)) => if rest_blank_exec(s, e2) {
                Some(Cmd::WaterDuration(Some(a), b))
            } else {
                None
            },
            None => if rest_blank_exec(s, e1) {
                Some(Cmd::WaterDuration(None, a))
            } else {
                None
            },
        },
        None => None,
    }
}

fn args_exec(n: usize, s: &[u8], i: usize) -> (r: Option<Cmd>)
    requires
        n < KEYWORD_COUNT,
        i <= s@.len(),
    ensures
        r == args_of(n as int, s@, i as int),
{
    if n <= 5 {
        let (set, e) = set_from_exec(s, i, n >= 2);
        if rest_blank_exec(s, e) {
            axes_command_exec(n, set)
        } else {
            None
        }
    } else if n == 6 {
        add_pos_exec(s, i)
    } else if n == 7 {
        water_exec(s, i)
    } else if n == 8 || n == 9 {
        match unsigned_at_exec(s, i) {
            Some((v, e)) => if rest_blank_exec(s, e) {
                Some(if n == 8 { Cmd::DelPos(v) } else { Cmd::RepeatDur(v) })
            } else {
                None
            },
            None => None,
        }
    } else if rest_blank_exec(s, i) {
        Some(
            if n == 10 {
                Cmd::ListPos
            } else if n == 11 {
                Cmd::PumpOn
            } else if n == 12 {
                Cmd::PumpOff
            } else if n == 13 {
                Cmd::Start
            } else if n == 14 {
                Cmd::Stop
            } else if n == 15 {
                Cmd::Home
            } else {
                Cmd::Help
            },
        )
    } else {
        None
    }
}

/// Parses one command line: a keyword, in any case, then its arguments,
/// then nothing but white space.
pub fn parse_cmd(input: &str) -> (r: Result<Cmd, ParseError>)
    ensures
        r == match command_of(input.spec_bytes()) {
            Some(c) => Ok(c),
            None => Err(ParseError),
        },
{
    let s = input.as_bytes();
    let mut n: usize = 0;
    while n < KEYWORD_COUNT
        invariant
            n <= KEYWORD_COUNT,
            s@ == input.spec_bytes(),
            command_from(s@, 0) == command_from(s@, n as int),
        decreases KEYWORD_COUNT - n,
    {
        let kw = keyword_bytes(n);
        if starts_with_keyword_exec(s, kw.as_slice()) {
            return match args_exec(n, s, kw.len()) {
                Some(c) => Ok(c),
                None => Err(ParseError),
            };
        }
        n = n + 1;
    }
    Err(ParseError)
}

} // verus!
