use vstd::prelude::*;
use crate::positions::{PositionList, WateringPosition, MAX_POSITIONS};

verus! {

/// Bytes in one page of the record store.
pub const PAGE_SIZE: usize = 32;

/// Variable-length little-endian base-128 encoding: seven bits per byte,
/// the high bit set on every byte but the last.
pub open spec fn varint(n: nat) -> Seq<u8>
    decreases n,
{
    if n < 128 {
        seq![n as u8]
    } else {
        seq![(n % 128 + 128) as u8] + varint(n / 128)
    }
}

/// Signed values interleaved onto the naturals: 0, -1, 1, -2, 2, ...
pub open spec fn zigzag(v: int) -> nat {
    if v >= 0 {
        (2 * v) as nat
    } else {
        (-2 * v - 1) as nat
    }
}

pub open spec fn unzigzag(n: nat) -> int {
    if n % 2 == 0 {
        (n / 2) as int
    } else {
        -((n / 2) as int) - 1
    }
}

/// The serialized form of a position: its four fields in order, each a
/// varint, the signed ones zigzag-mapped first.
pub open spec fn record_bytes(p: WateringPosition) -> Seq<u8> {
    varint(zigzag(p.x as int)) + varint(zigzag(p.y as int)) + varint(zigzag(p.z as int)) + varint(
        p.dur_ms as nat,
    )
}

/// A page holding a position: its record, then zero bytes up to the page size.
pub open spec fn record_page(p: WateringPosition) -> Seq<u8> {
    record_bytes(p) + Seq::new((PAGE_SIZE - record_bytes(p).len()) as nat, |_i: int| 0u8)
}

/// The header page: the element count, then zero bytes.
pub open spec fn header_page(count: u8) -> Seq<u8> {
    seq![count] + Seq::new((PAGE_SIZE - 1) as nat, |_i: int| 0u8)
}

/// A varint read from index `i`, where `k` of its bytes were read before:
/// at most five bytes in all, the fifth below 16. Its value and the index
/// after it.
pub open spec fn varint_at(b: Seq<u8>, i: int, k: nat) -> Option<(nat, int)>
    decreases 5 - k,
{
    if k >= 5 || i < 0 || i >= b.len() {
        None
    } else if b[i] < 128 {
        if k == 4 && b[i] > 15 {
            None
        } else {
            Some((b[i] as nat, i + 1))
        }
    } else {
        match varint_at(b, i + 1, k + 1) {
            Some((v, e)) => Some(((b[i] - 128) as nat + 128 * v, e)),
            None => None,
        }
    }
}

/// The position that a page's leading bytes decode to; later bytes are ignored.
pub open spec fn record_at(b: Seq<u8>) -> Option<WateringPosition> {
    match varint_at(b, 0, 0) {
        Some((x, e1)) => match varint_at(b, e1, 0) {
            Some((y, e2)) => match varint_at(b, e2, 0) {
                Some((z, e3)) => match varint_at(b, e3, 0) {
                    Some((d, _e4)) => Some(
                        WateringPosition {
                            x: unzigzag(x) as i32,
                            y: unzigzag(y) as i32,
                            z: unzigzag(z) as i32,
                            dur_ms: d as u32,
                        },
                    ),
                    None => None,
                },
                None => None,
            },
            None => None,
        },
        None => None,
    }
}

/// The largest value (exclusive) that a varint can still hold after `k` of
/// its bytes.
pub open spec fn varint_limit(k: nat) -> nat {
    if k == 0 {
        4294967296
    } else if k == 1 {
        33554432
    } else if k == 2 {
        262144
    } else if k == 3 {
        2048
    } else {
        16
    }
}

proof fn lemma_varint_len(n: nat, k: nat)
    requires
        k <= 4,
        n < varint_limit(k),
    ensures
        1 <= varint(n).len() <= 5 - k,
    decreases n,
{
    if n >= 128 {
        lemma_varint_len(n / 128, k + 1);
    }
}

proof fn lemma_varint_read(b: Seq<u8>, i: int, k: nat, n: nat)
    requires
        k <= 4,
        n < varint_limit(k),
        0 <= i,
        i + varint(n).len() <= b.len(),
        b.subrange(i, i + varint(n).len()) == varint(n),
    ensures
        varint_at(b, i, k) == Some((n, i + varint(n).len())),
    decreases n,
{
    lemma_varint_len(n, k);
    assert(b[i] == b.subrange(i, i + varint(n).len())[0]);
    if n >= 128 {
        let rest = varint(n / 128);
        assert(varint(n) == seq![(n % 128 + 128) as u8] + rest);
        assert(b.subrange(i + 1, i + 1 + rest.len()) =~= rest) by {
            assert forall|t: int| 0 <= t < rest.len() implies b.subrange(i + 1, i + 1 + rest.len())[t]
                == rest[t] by {
                assert(b.subrange(i, i + varint(n).len())[t + 1] == varint(n)[t + 1]);
            }
        }
        lemma_varint_read(b, i + 1, k + 1, n / 128);
    }
}

/// A page written for a position reads back as that position.
pub proof fn lemma_record_round_trip(p: WateringPosition)
    ensures
        record_bytes(p).len() <= PAGE_SIZE,
        record_at(record_page(p)) == Some(p),
{
    let v1 = varint(zigzag(p.x as int));
    let v2 = varint(zigzag(p.y as int));
    let v3 = varint(zigzag(p.z as int));
    let v4 = varint(p.dur_ms as nat);
    lemma_varint_len(zigzag(p.x as int), 0);
    lemma_varint_len(zigzag(p.y as int), 0);
    lemma_varint_len(zigzag(p.z as int), 0);
    lemma_varint_len(p.dur_ms as nat, 0);
    let b = record_page(p);
    let l1 = v1.len() as int;
    let l2 = l1 + v2.len();
    let l3 = l2 + v3.len();
    let l4 = l3 + v4.len();
    assert(b.subrange(0, l1) =~= v1);
    assert(b.subrange(l1, l2) =~= v2);
    assert(b.subrange(l2, l3) =~= v3);
    assert(b.subrange(l3, l4) =~= v4);
    lemma_varint_read(b, 0, 0, zigzag(p.x as int));
    lemma_varint_read(b, l1, 0, zigzag(p.y as int));
    lemma_varint_read(b, l2, 0, zigzag(p.z as int));
    lemma_varint_read(b, l3, 0, p.dur_ms as nat);
}

/// Relies on postcard::to_slice: the position, as the tuple of its fields,
/// serialized into a zeroed page.
#[verifier::external_body]
fn encode_record(p: WateringPosition) -> (r: Vec<u8>)
    requires
        record_bytes(p).len() <= PAGE_SIZE,
    ensures
        r@ == record_page(p),
{
    let mut buf = [0u8; PAGE_SIZE];
    let _ = postcard::to_slice(&(p.x, p.y, p.z, p.dur_ms), &mut buf);
    buf.to_vec()
}

/// Relies on postcard::from_bytes: the tuple of a position's fields read
/// from the page's leading bytes.
#[verifier::external_body]
fn decode_record(page: &[u8]) -> (r: Option<WateringPosition>)
    ensures
        r == record_at(page@),
{
    match postcard::from_bytes::<(i32, i32, i32, u32)>(page) {
        Ok((x, y, z, dur_ms)) => Some(WateringPosition { x, y, z, dur_ms }),
        Err(_) => None,
    }
}

/// The device address of a page, high byte first: the page index times the
/// page size.
pub fn page_address(idx: u8) -> (r: (u8, u8))
    ensures
        r.0 as int * 256 + r.1 as int == idx as int * PAGE_SIZE,
{
    let hi = idx / 8;
    let lo = (idx % 8) * 32;
    (hi, lo)
}

/// What goes over the bus to write a page: its address, then its bytes.
pub fn write_frame(idx: u8, page: &[u8]) -> (r: Vec<u8>)
    ensures
        r@ == seq![page_address_hi(idx), page_address_lo(idx)] + page@,
{
    let (hi, lo) = page_address(idx);
    let mut r: Vec<u8> = Vec::new();
    r.push(hi);
    r.push(lo);
    let mut j: usize = 0;
    while j < page.len()
        invariant
            j <= page@.len(),
            r@ == seq![hi, lo] + page@.subrange(0, j as int),
        decreases page@.len() - j,
    {
        r.push(page[j]);
        j = j + 1;
        assert(r@ =~= seq![hi, lo] + page@.subrange(0, j as int));
    }
    assert(page@.subrange(0, page@.len() as int) =~= page@);
    r
}

pub open spec fn page_address_hi(idx: u8) -> u8 {
    (idx as int / 8) as u8
}

pub open spec fn page_address_lo(idx: u8) -> u8 {
    ((idx as int % 8) * 32) as u8
}

/// The element count that a header page holds; zero when it could not be read.
pub fn header_count(header: &Option<Vec<u8>>) -> (r: u8)
    ensures
        r == (match header {
            Some(p) => if p@.len() > 0 {
                p@[0]
            } else {
                0
            },
            None => 0,
        }),
{
    match header {
        Some(p) => if p.len() > 0 {
            p[0]
        } else {
            0
        },
        None => 0,
    }
}

/// The pages that hold a list: the header with its length, then one record
/// page per position, in list order.
pub fn backup_pages(list: &PositionList) -> (r: Vec<Vec<u8>>)
    ensures
        r@.len() == list@.len() + 1,
        r@[0]@ == header_page(list@.len() as u8),
        forall|i: int| 0 <= i < list@.len() ==> #[trigger] r@[i + 1]@ == record_page(list@[i]),
{
    let n = list.len();
    let mut header: Vec<u8> = Vec::new();
    header.push(n as u8);
    let mut j: usize = 1;
    while j < PAGE_SIZE
        invariant
            1 <= j <= PAGE_SIZE,
            header@ =~= seq![n as u8] + Seq::new((j - 1) as nat, |_i: int| 0u8),
        decreases PAGE_SIZE - j,
    {
        header.push(0);
        j = j + 1;
        assert(header@ =~= seq![n as u8] + Seq::new((j - 1) as nat, |_i: int| 0u8));
    }
    let mut r: Vec<Vec<u8>> = Vec::new();
    r.push(header);
    let mut i: usize = 0;
    while i < n
        invariant
            n == list@.len(),
            i <= n,
            r@.len() == i + 1,
            r@[0]@ == header_page(n as u8),
            forall|t: int| 0 <= t < i ==> #[trigger] r@[t + 1]@ == record_page(list@[t]),
        decreases n - i,
    {
        let p = list.get(i).unwrap();
        proof {
            lemma_record_round_trip(p);
        }
        r.push(encode_record(p));
        i = i + 1;
    }
    r
}

/// The byte views of pages as read back, `None` where a read failed.
pub open spec fn page_views(pages: Seq<Option<Vec<u8>>>) -> Seq<Option<Seq<u8>>> {
    pages.map_values(
        |o: Option<Vec<u8>>|
            match o {
                Some(v) => Some(v@),
                None => None,
            },
    )
}

/// The positions that the pages decode to, in page order; pages that could
/// not be read or do not decode are left out.
pub open spec fn decoded(pages: Seq<Option<Seq<u8>>>) -> Seq<WateringPosition>
    decreases pages.len(),
{
    if pages.len() == 0 {
        Seq::empty()
    } else {
        let acc = decoded(pages.drop_last());
        match pages.last() {
            Some(b) => match record_at(b) {
                Some(p) => acc.push(p),
                None => acc,
            },
            None => acc,
        }
    }
}

/// The list restored from pages: the decoded positions in page order, the
/// first `MAX_POSITIONS` of them.
pub open spec fn restored(pages: Seq<Option<Seq<u8>>>) -> Seq<WateringPosition> {
    let d = decoded(pages);
    if d.len() <= MAX_POSITIONS {
        d
    } else {
        d.take(MAX_POSITIONS as int)
    }
}

/// Rebuilds the list from the record pages `1..=count` as read back, in
/// page order; pages that could not be read or do not decode are left out.
pub fn restore(pages: &Vec<Option<Vec<u8>>>) -> (r: PositionList)
    ensures
        r@ == restored(page_views(pages@)),
{
    let mut list = PositionList::new();
    let mut i: usize = 0;
    while i < pages.len()
        invariant
            i <= pages@.len(),
            list@ == restored(page_views(pages@).subrange(0, i as int)),
        decreases pages@.len() - i,
    {
        let ghost pre = page_views(pages@).subrange(0, i as int);
        let ghost next = page_views(pages@).subrange(0, i + 1);
        proof {
            assert(next.drop_last() =~= pre);
        }
        match &pages[i] {
            Some(b) => match decode_record(b.as_slice()) {
                Some(p) => {
                    let _ = list.push(p);
                    proof {
                        let d = decoded(pre);
                        if d.len() > MAX_POSITIONS {
                            assert(d.push(p).take(MAX_POSITIONS as int) =~= d.take(
                                MAX_POSITIONS as int,
                            ));
                        } else if d.len() == MAX_POSITIONS {
                            assert(d.push(p).take(MAX_POSITIONS as int) =~= d);
                        }
                    }
                },
                None => {},
            },
            None => {},
        }
        i = i + 1;
    }
    assert(page_views(pages@).subrange(0, pages@.len() as int) =~= page_views(pages@));
    list
}

/// How many of the pages were read and decode to a position.
pub open spec fn decodable_count(pages: Seq<Option<Seq<u8>>>) -> nat
    decreases pages.len(),
{
    if pages.len() == 0 {
        0
    } else {
        decodable_count(pages.drop_last()) + match pages.last() {
            Some(b) => if record_at(b) is Some {
                1nat
            } else {
                0nat
            },
            None => 0nat,
        }
    }
}

/// The record pages of a list, as read back without fault.
pub open spec fn pages_of(s: Seq<WateringPosition>) -> Seq<Option<Seq<u8>>> {
    Seq::new(s.len(), |i: int| Some(record_page(s[i])))
}

proof fn lemma_decoded_of_backup(s: Seq<WateringPosition>)
    ensures
        decoded(pages_of(s)) == s,
    decreases s.len(),
{
    if s.len() > 0 {
        let init = s.drop_last();
        assert(pages_of(s).drop_last() =~= pages_of(init));
        lemma_decoded_of_backup(init);
        lemma_record_round_trip(s.last());
        assert(init.push(s.last()) =~= s);
    }
}

/// Restoring the record pages that a backup writes for a list gives back
/// the same positions in the same order.
pub proof fn lemma_restore_of_backup(s: Seq<WateringPosition>)
    requires
        s.len() <= MAX_POSITIONS,
    ensures
        restored(pages_of(s)) == s,
{
    lemma_decoded_of_backup(s);
}

proof fn lemma_decoded_len(pages: Seq<Option<Seq<u8>>>)
    ensures
        decoded(pages).len() == decodable_count(pages),
    decreases pages.len(),
{
    if pages.len() > 0 {
        lemma_decoded_len(pages.drop_last());
    }
}

/// Pages that cannot be read or decoded are skipped: the restored list holds
/// one position per page that decodes, up to the list's capacity.
pub proof fn lemma_restore_skips_bad_pages(pages: Seq<Option<Seq<u8>>>)
    ensures
        restored(pages).len() == if decodable_count(pages) <= MAX_POSITIONS {
            decodable_count(pages)
        } else {
            MAX_POSITIONS as nat
        },
{
    lemma_decoded_len(pages);
}

} // verus!
