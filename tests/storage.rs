use dispenser::positions::{PositionList, WateringPosition};
use dispenser::storage::{backup_pages, header_count, page_address, restore, write_frame, PAGE_SIZE};

fn wp(x: i32, y: i32, z: i32, dur_ms: u32) -> WateringPosition {
    WateringPosition { x, y, z, dur_ms }
}

fn list_of(ps: &[WateringPosition]) -> PositionList {
    let mut l = PositionList::new();
    for p in ps {
        l.add(*p).unwrap();
    }
    l
}

fn contents(l: &PositionList) -> Vec<WateringPosition> {
    (0..l.len()).map(|i| l.get(i).unwrap()).collect()
}

#[test]
fn record_page_bytes() {
    let l = list_of(&[wp(1, -1, 64, 300)]);
    let pages = backup_pages(&l);
    assert_eq!(pages.len(), 2);
    let mut header = vec![0u8; PAGE_SIZE];
    header[0] = 1;
    assert_eq!(pages[0], header);
    let mut rec = vec![0u8; PAGE_SIZE];
    rec[..6].copy_from_slice(&[2, 1, 128, 1, 172, 2]);
    assert_eq!(pages[1], rec);
}

#[test]
fn backup_then_restore_gives_same_list() {
    let ps = [
        wp(0, 0, 0, 1000),
        wp(10, 0, 0, 500),
        wp(-2147483648, 2147483647, -1, 4294967295),
        wp(10, 0, 0, 7),
    ];
    let l = list_of(&ps);
    let pages = backup_pages(&l);
    assert_eq!(header_count(&Some(pages[0].clone())) as usize, l.len());
    let read: Vec<Option<Vec<u8>>> = pages[1..].iter().map(|p| Some(p.clone())).collect();
    let back = restore(&read);
    assert_eq!(contents(&back), contents(&l));
}

#[test]
fn corrupt_page_is_skipped() {
    let ps = [wp(1, 0, 0, 1), wp(2, 0, 0, 2), wp(3, 0, 0, 3), wp(4, 0, 0, 4), wp(5, 0, 0, 5)];
    let l = list_of(&ps);
    let pages = backup_pages(&l);
    let mut read: Vec<Option<Vec<u8>>> = pages[1..].iter().map(|p| Some(p.clone())).collect();
    read[2] = Some(vec![0xFF; PAGE_SIZE]);
    let back = restore(&read);
    assert_eq!(back.len(), 4);
    assert_eq!(contents(&back), vec![wp(1, 0, 0, 1), wp(2, 0, 0, 2), wp(4, 0, 0, 4), wp(5, 0, 0, 5)]);
}

#[test]
fn unreadable_page_is_skipped() {
    let l = list_of(&[wp(1, 2, 3, 4), wp(5, 6, 7, 8)]);
    let pages = backup_pages(&l);
    let read = vec![None, Some(pages[2].clone())];
    assert_eq!(contents(&restore(&read)), vec![wp(5, 6, 7, 8)]);
}

fn page_of(p: WateringPosition) -> Vec<u8> {
    backup_pages(&list_of(&[p]))[1].clone()
}

#[test]
fn restored_list_keeps_page_order_and_is_bounded() {
    let read: Vec<Option<Vec<u8>>> = (0..120i32).map(|i| Some(page_of(wp(200 - i, 0, 0, 1)))).collect();
    let back = restore(&read);
    assert_eq!(back.len(), 100);
    let c = contents(&back);
    assert_eq!(c[0].x, 200);
    assert_eq!(c[99].x, 101);
    assert!(c.windows(2).all(|w| w[0].x == w[1].x + 1));
}

#[test]
fn restore_does_not_reorder() {
    let read = vec![Some(page_of(wp(10, 0, 0, 1))), Some(vec![0xFF; PAGE_SIZE]), Some(page_of(wp(0, 0, 0, 2)))];
    assert_eq!(contents(&restore(&read)), vec![wp(10, 0, 0, 1), wp(0, 0, 0, 2)]);
}

#[test]
fn header_count_of_missing_header_is_zero() {
    assert_eq!(header_count(&None), 0);
    assert_eq!(header_count(&Some(vec![7, 0, 0])), 7);
}

#[test]
fn page_addresses() {
    assert_eq!(page_address(0), (0, 0));
    assert_eq!(page_address(3), (0, 96));
    assert_eq!(page_address(200), (25, 0));
    let frame = write_frame(1, &[9, 8, 7]);
    assert_eq!(frame, vec![0, 32, 9, 8, 7]);
}
