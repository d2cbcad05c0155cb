use dispenser::positions::{PositionList, WateringPosition, MAX_POSITIONS};

fn wp(x: i32, y: i32, z: i32, dur_ms: u32) -> WateringPosition {
    WateringPosition { x, y, z, dur_ms }
}

fn contents(l: &PositionList) -> Vec<WateringPosition> {
    (0..l.len()).map(|i| l.get(i).unwrap()).collect()
}

fn is_sorted(v: &[WateringPosition]) -> bool {
    v.windows(2).all(|w| (w[0].x, w[0].y, w[0].z) <= (w[1].x, w[1].y, w[1].z))
}

#[test]
fn hundred_and_first_position_is_rejected() {
    let mut l = PositionList::new();
    for i in 0..MAX_POSITIONS as i32 {
        assert_eq!(l.add(wp(i, -i, 2 * i, 100)), Ok(()));
    }
    let before = contents(&l);
    assert_eq!(before.len(), 100);
    let extra = wp(-5, 0, 0, 7);
    assert_eq!(l.add(extra), Err(extra));
    assert_eq!(contents(&l), before);
}

#[test]
fn adds_and_removes_keep_order() {
    let mut l = PositionList::new();
    let pts = [(5, 1, 0), (-3, 2, 2), (5, 0, 9), (5, 1, -1), (0, 0, 0), (-3, 2, 1), (5, 1, 0)];
    for (k, (x, y, z)) in pts.iter().enumerate() {
        l.add(wp(*x, *y, *z, k as u32)).unwrap();
        assert!(is_sorted(&contents(&l)));
    }
    assert_eq!(l.len(), 7);
    assert_eq!(l.remove(2).map(|p| (p.x, p.y, p.z)), Some((0, 0, 0)));
    assert!(is_sorted(&contents(&l)));
    l.add(wp(1, 1, 1, 1)).unwrap();
    assert_eq!(l.remove(0).map(|p| (p.x, p.y, p.z)), Some((-3, 2, 1)));
    let c = contents(&l);
    assert!(is_sorted(&c));
    assert_eq!(
        c.iter().map(|p| (p.x, p.y, p.z)).collect::<Vec<_>>(),
        vec![(-3, 2, 2), (1, 1, 1), (5, 0, 9), (5, 1, -1), (5, 1, 0), (5, 1, 0)]
    );
}

#[test]
fn equal_coordinates_keep_insertion_order() {
    let mut l = PositionList::new();
    l.add(wp(1, 1, 1, 10)).unwrap();
    l.add(wp(1, 1, 1, 20)).unwrap();
    l.add(wp(0, 0, 0, 30)).unwrap();
    assert_eq!(contents(&l), vec![wp(0, 0, 0, 30), wp(1, 1, 1, 10), wp(1, 1, 1, 20)]);
}

#[test]
fn remove_out_of_range_is_noop() {
    let mut l = PositionList::new();
    l.add(wp(1, 2, 3, 4)).unwrap();
    assert_eq!(l.remove(1), None);
    assert_eq!(contents(&l), vec![wp(1, 2, 3, 4)]);
}

#[test]
fn durations_change_one_or_all() {
    let mut l = PositionList::new();
    l.add(wp(1, 0, 0, 10)).unwrap();
    l.add(wp(2, 0, 0, 20)).unwrap();
    l.set_duration(1, 99);
    assert_eq!(contents(&l), vec![wp(1, 0, 0, 10), wp(2, 0, 0, 99)]);
    l.set_duration(5, 1);
    assert_eq!(contents(&l), vec![wp(1, 0, 0, 10), wp(2, 0, 0, 99)]);
    l.set_all_durations(7);
    assert_eq!(contents(&l), vec![wp(1, 0, 0, 7), wp(2, 0, 0, 7)]);
}

#[test]
fn push_appends_and_sort_orders() {
    let mut l = PositionList::new();
    l.push(wp(2, 0, 0, 1)).unwrap();
    l.push(wp(1, 5, 0, 2)).unwrap();
    l.push(wp(1, 5, 0, 3)).unwrap();
    assert_eq!(contents(&l), vec![wp(2, 0, 0, 1), wp(1, 5, 0, 2), wp(1, 5, 0, 3)]);
    l.sort();
    assert_eq!(contents(&l), vec![wp(1, 5, 0, 2), wp(1, 5, 0, 3), wp(2, 0, 0, 1)]);
}
