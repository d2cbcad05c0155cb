use vstd::prelude::*;

verus! {

/// Capacity of the position list.
pub const MAX_POSITIONS: usize = 100;

/// One place to water: step coordinates and how long the pump runs there.
#[derive(Debug, Clone, Copy, PartialEq, Eq, Structural)]
pub struct WateringPosition {
    pub x: i32,
    pub y: i32,
    pub z: i32,
    pub dur_ms: u32,
}

/// `a` comes no later than `b`: lexicographic order on `(x, y, z)`.
pub open spec fn coord_le(a: WateringPosition, b: WateringPosition) -> bool {
    a.x < b.x || (a.x == b.x && (a.y < b.y || (a.y == b.y && a.z <= b.z)))
}

/// The sequence is ordered by `(x, y, z)`, non-decreasing.
pub open spec fn sorted(s: Seq<WateringPosition>) -> bool {
    forall|i: int, j: int| 0 <= i < j < s.len() ==> coord_le(#[trigger] s[i], #[trigger] s[j])
}

/// The first index from `j` on whose position orders strictly after `p`, or
/// the length when there is none.
pub open spec fn first_after(s: Seq<WateringPosition>, p: WateringPosition, j: int) -> int
    decreases s.len() - j,
{
    if j < 0 || j >= s.len() {
        s.len() as int
    } else if !coord_le(s[j], p) {
        j
    } else {
        first_after(s, p, j + 1)
    }
}

/// Where a new position goes: after every position that orders no later.
pub open spec fn insert_index(s: Seq<WateringPosition>, p: WateringPosition) -> int {
    first_after(s, p, 0)
}

/// The position with another pump duration.
pub open spec fn with_duration(p: WateringPosition, d: u32) -> WateringPosition {
    WateringPosition { dur_ms: d, ..p }
}

#[verifier::external_type_specification]
#[verifier::external_body]
#[verifier::reject_recursive_types(T)]
pub struct ExHeaplessVec<T, const N: usize>(heapless::Vec<T, N>);

/// The positions that a bounded list holds, in order.
pub uninterp spec fn held(v: heapless::Vec<WateringPosition, 100>) -> Seq<WateringPosition>;

/// Relies on heapless::Vec::new: a new vector is empty.
#[verifier::external_body]
fn hv_new() -> (r: heapless::Vec<WateringPosition, 100>)
    ensures
        held(r) == Seq::<WateringPosition>::empty(),
{
    heapless::Vec::new()
}

/// Relies on the length of a heapless::Vec, which never exceeds its capacity.
#[verifier::external_body]
fn hv_len(v: &heapless::Vec<WateringPosition, 100>) -> (r: usize)
    ensures
        r == held(*v).len(),
        r <= MAX_POSITIONS,
{
    v.len()
}

/// Relies on heapless::Vec::as_slice: indexing it reads the element at `i`.
#[verifier::external_body]
fn hv_get(v: &heapless::Vec<WateringPosition, 100>, i: usize) -> (r: WateringPosition)
    requires
        i < held(*v).len(),
    ensures
        r == held(*v)[i as int],
{
    v.as_slice()[i]
}

/// Relies on heapless::Vec::insert: it shifts later elements right, or
/// hands the element back when the vector is full.
#[verifier::external_body]
fn hv_insert(
    v: &mut heapless::Vec<WateringPosition, 100>,
    i: usize,
    p: WateringPosition,
) -> (r: Result<(), WateringPosition>)
    requires
        i <= held(*old(v)).len(),
    ensures
        r == (if held(*old(v)).len() < MAX_POSITIONS {
            Ok::<(), WateringPosition>(())
        } else {
            Err(p)
        }),
        held(*final(v)) == (if held(*old(v)).len() < MAX_POSITIONS {
            held(*old(v)).insert(i as int, p)
        } else {
            held(*old(v))
        }),
    no_unwind
{
    v.insert(i, p)
}

/// Relies on heapless::Vec::remove: it takes out the element at `i` and
/// shifts later elements left.
#[verifier::external_body]
fn hv_remove(v: &mut heapless::Vec<WateringPosition, 100>, i: usize) -> (r: WateringPosition)
    requires
        i < held(*old(v)).len(),
    ensures
        r == held(*old(v))[i as int],
        held(*final(v)) == held(*old(v)).remove(i as int),
    no_unwind
{
    v.remove(i)
}

/// Relies on heapless::Vec::as_mut_slice: writing through it replaces the
/// element at `i`.
#[verifier::external_body]
fn hv_set(v: &mut heapless::Vec<WateringPosition, 100>, i: usize, p: WateringPosition)
    requires
        i < held(*old(v)).len(),
    ensures
        held(*final(v)) == held(*old(v)).update(i as int, p),
    no_unwind
{
    v.as_mut_slice()[i] = p;
}

/// The insertion scan stops within the sequence, past every position that
/// orders no later than `p`, at one that orders after it.
pub proof fn lemma_first_after_bounds(s: Seq<WateringPosition>, p: WateringPosition, j: int)
    requires
        0 <= j <= s.len(),
        forall|t: int| 0 <= t < j ==> coord_le(#[trigger] s[t], p),
    ensures
        j <= first_after(s, p, j) <= s.len(),
        forall|t: int| 0 <= t < first_after(s, p, j) ==> coord_le(#[trigger] s[t], p),
        first_after(s, p, j) < s.len() ==> !coord_le(s[first_after(s, p, j)], p),
    decreases s.len() - j,
{
    if j < s.len() && coord_le(s[j], p) {
        lemma_first_after_bounds(s, p, j + 1);
    }
}

/// Inserting a position where `insert_index` says keeps a sorted sequence
/// sorted.
pub proof fn lemma_insert_sorted(s: Seq<WateringPosition>, p: WateringPosition)
    requires
        sorted(s),
    ensures
        0 <= insert_index(s, p) <= s.len(),
        sorted(s.insert(insert_index(s, p), p)),
{
    lemma_first_after_bounds(s, p, 0);
    let j = insert_index(s, p);
    let n = s.len();
    let f = s.insert(j, p);
    assert forall|a: int, b: int| 0 <= a < b < f.len() implies coord_le(
        #[trigger] f[a],
        #[trigger] f[b],
    ) by {
        if b < j {
            assert(f[a] == s[a] && f[b] == s[b]);
        } else if b == j {
            assert(f[a] == s[a]);
        } else if a < j {
            assert(coord_le(s[a], p));
            assert(f[b] == s[b - 1]);
            assert(f[a] == s[a]);
            assert(coord_le(s[j], s[b - 1]) || j == b - 1);
        } else if a == j {
            assert(f[b] == s[b - 1]);
            assert(coord_le(s[j], s[b - 1]) || j == b - 1);
        } else {
            assert(f[a] == s[a - 1]);
            assert(f[b] == s[b - 1]);
        }
    }
}

/// Removing any position keeps a sorted sequence sorted.
pub proof fn lemma_remove_sorted(s: Seq<WateringPosition>, i: int)
    requires
        sorted(s),
        0 <= i < s.len(),
    ensures
        sorted(s.remove(i)),
{
    let f = s.remove(i);
    assert forall|a: int, b: int| 0 <= a < b < f.len() implies coord_le(
        #[trigger] f[a],
        #[trigger] f[b],
    ) by {
        let a0 = if a < i { a } else { a + 1 };
        let b0 = if b < i { b } else { b + 1 };
        assert(f[a] == s[a0] && f[b] == s[b0]);
    }
}

/// A sequence sorted by `(x, y, z)`: each position in turn is placed after
/// every earlier one that orders no later, so equal coordinates keep their
/// order.
pub open spec fn sort_by_coords(s: Seq<WateringPosition>) -> Seq<WateringPosition>
    decreases s.len(),
{
    if s.len() == 0 {
        s
    } else {
        let acc = sort_by_coords(s.drop_last());
        acc.insert(insert_index(acc, s.last()), s.last())
    }
}

/// When every position orders no later than `p`, the scan for `p` runs to
/// the end.
pub proof fn lemma_first_after_end(s: Seq<WateringPosition>, p: WateringPosition, j: int)
    requires
        0 <= j <= s.len(),
        forall|t: int| j <= t < s.len() ==> coord_le(#[trigger] s[t], p),
    ensures
        first_after(s, p, j) == s.len(),
    decreases s.len() - j,
{
    if j < s.len() {
        lemma_first_after_end(s, p, j + 1);
    }
}

/// Sorting gives a sorted sequence of the same length.
pub proof fn lemma_sort_sorted(s: Seq<WateringPosition>)
    ensures
        sorted(sort_by_coords(s)),
        sort_by_coords(s).len() == s.len(),
    decreases s.len(),
{
    if s.len() > 0 {
        lemma_sort_sorted(s.drop_last());
        lemma_insert_sorted(sort_by_coords(s.drop_last()), s.last());
    }
}

/// Sorting leaves a sorted sequence as it is.
pub proof fn lemma_sort_of_sorted(s: Seq<WateringPosition>)
    requires
        sorted(s),
    ensures
        sort_by_coords(s) == s,
    decreases s.len(),
{
    if s.len() > 0 {
        let init = s.drop_last();
        let p = s.last();
        assert(sorted(init));
        lemma_sort_of_sorted(init);
        assert forall|t: int| 0 <= t < init.len() implies coord_le(#[trigger] init[t], p) by {
            assert(coord_le(s[t], s[s.len() - 1]));
        }
        lemma_first_after_end(init, p, 0);
        assert(init.insert(init.len() as int, p) =~= s);
    }
}

/// The watering positions, bounded by `MAX_POSITIONS`. Adding a position
/// sorts the list by `(x, y, z)`.
pub struct PositionList {
    items: heapless::Vec<WateringPosition, 100>,
}

impl View for PositionList {
    type V = Seq<WateringPosition>;

    closed spec fn view(&self) -> Seq<WateringPosition> {
        held(self.items)
    }
}

impl PositionList {
    /// Every list is within its capacity.
    #[verifier::type_invariant]
    pub open spec fn inv(&self) -> bool {
        self@.len() <= MAX_POSITIONS
    }

    /// An empty list.
    pub fn new() -> (r: Self)
        ensures
            r@ == Seq::<WateringPosition>::empty(),
    {
        PositionList { items: hv_new() }
    }

    pub fn len(&self) -> (r: usize)
        ensures
            r == self@.len(),
            r <= MAX_POSITIONS,
    {
        proof {
            use_type_invariant(self);
        }
        hv_len(&self.items)
    }

    /// The position at index `i`, if there is one.
    pub fn get(&self, i: usize) -> (r: Option<WateringPosition>)
        ensures
            r == (if i < self@.len() {
                Some(self@[i as int])
            } else {
                None
            }),
    {
        if i < hv_len(&self.items) {
            Some(hv_get(&self.items, i))
        } else {
            None
        }
    }

    /// Appends `p`; a full list is left unchanged and `p` is handed back.
    pub fn push(&mut self, p: WateringPosition) -> (r: Result<(), WateringPosition>)
        ensures
            old(self)@.len() < MAX_POSITIONS ==> r is Ok && final(self)@ == old(self)@.push(p),
            old(self)@.len() >= MAX_POSITIONS ==> r == Err::<(), WateringPosition>(p)
                && final(self)@ == old(self)@,
    {
        proof {
            use_type_invariant(&*self);
        }
        let n = hv_len(&self.items);
        if n >= MAX_POSITIONS {
            return Err(p);
        }
        let r = hv_insert(&mut self.items, n, p);
        assert(held(self.items) =~= held(old(self).items).push(p));
        r
    }

    /// Inserts `p` after every position that orders no later than it.
    fn insert_in_order(&mut self, p: WateringPosition)
        requires
            old(self)@.len() < MAX_POSITIONS,
        ensures
            final(self)@ == old(self)@.insert(insert_index(old(self)@, p), p),
    {
        let n = hv_len(&self.items);
        let ghost s = held(self.items);
        let mut j: usize = 0;
        let mut found = false;
        while j < n && !found
            invariant
                n == s.len(),
                j <= n,
                s == held(self.items),
                first_after(s, p, j as int) == insert_index(s, p),
                found ==> j < n && !coord_le(s[j as int], p),
            decreases n - j, if found { 0int } else { 1int },
        {
            let q = hv_get(&self.items, j);
            if q.x > p.x || (q.x == p.x && (q.y > p.y || (q.y == p.y && q.z > p.z))) {
                found = true;
            } else {
                j = j + 1;
            }
        }
        assert(insert_index(s, p) == j as int);
        let _ = hv_insert(&mut self.items, j, p);
    }

    /// Sorts the list by `(x, y, z)`, equal coordinates keeping their order.
    pub fn sort(&mut self)
        ensures
            final(self)@ == sort_by_coords(old(self)@),
            sorted(final(self)@),
    {
        proof {
            use_type_invariant(&*self);
        }
        let n = hv_len(&self.items);
        let ghost s = self@;
        let mut out = PositionList::new();
        let mut i: usize = 0;
        while i < n
            invariant
                n == s.len(),
                n <= MAX_POSITIONS,
                s == self@,
                i <= n,
                out@ == sort_by_coords(s.subrange(0, i as int)),
                out@.len() == i,
            decreases n - i,
        {
            proof {
                assert(s.subrange(0, i + 1).drop_last() =~= s.subrange(0, i as int));
                lemma_sort_sorted(s.subrange(0, i + 1));
            }
            out.insert_in_order(hv_get(&self.items, i));
            i = i + 1;
        }
        proof {
            assert(s.subrange(0, n as int) =~= s);
            lemma_sort_sorted(s);
        }
        *self = out;
    }

    /// Appends `p`, then sorts the list; a full list is left unchanged and
    /// `p` is handed back. On a sorted list this places `p` after every
    /// position that orders no later than it.
    pub fn add(&mut self, p: WateringPosition) -> (r: Result<(), WateringPosition>)
        ensures
            old(self)@.len() < MAX_POSITIONS ==> r is Ok && final(self)@ == sort_by_coords(
                old(self)@.push(p),
            ),
            old(self)@.len() >= MAX_POSITIONS ==> r == Err::<(), WateringPosition>(p)
                && final(self)@ == old(self)@,
            old(self)@.len() < MAX_POSITIONS && sorted(old(self)@) ==> final(self)@ == old(
                self,
            )@.insert(insert_index(old(self)@, p), p),
            old(self)@.len() < MAX_POSITIONS ==> sorted(final(self)@),
    {
        let r = self.push(p);
        if r.is_ok() {
            self.sort();
            proof {
                assert(old(self)@.push(p).drop_last() =~= old(self)@);
                if sorted(old(self)@) {
                    lemma_sort_of_sorted(old(self)@);
                }
            }
        }
        r
    }

    /// Removes the position at index `i`; an index out of range changes
    /// nothing. The others keep their order.
    pub fn remove(&mut self, i: usize) -> (r: Option<WateringPosition>)
        ensures
            i < old(self)@.len() ==> r == Some(old(self)@[i as int]) && final(self)@ == old(
                self,
            )@.remove(i as int),
            i >= old(self)@.len() ==> r is None && final(self)@ == old(self)@,
            sorted(old(self)@) ==> sorted(final(self)@),
    {
        if i >= hv_len(&self.items) {
            return None;
        }
        proof {
            if sorted(self@) {
                lemma_remove_sorted(self@, i as int);
            }
        }
        let p = hv_remove(&mut self.items, i);
        Some(p)
    }

    /// Sets the pump duration of the position at index `i`; an index out of
    /// range changes nothing.
    pub fn set_duration(&mut self, i: usize, d: u32)
        ensures
            i < old(self)@.len() ==> final(self)@ == old(self)@.update(
                i as int,
                with_duration(old(self)@[i as int], d),
            ),
            i >= old(self)@.len() ==> final(self)@ == old(self)@,
    {
        if i < hv_len(&self.items) {
            let p = hv_get(&self.items, i);
            hv_set(&mut self.items, i, WateringPosition { dur_ms: d, ..p });
        }
    }

    /// Sets the pump duration of every position.
    pub fn set_all_durations(&mut self, d: u32)
        ensures
            final(self)@.len() == old(self)@.len(),
            forall|i: int|
                0 <= i < old(self)@.len() ==> #[trigger] final(self)@[i] == with_duration(
                    old(self)@[i],
                    d,
                ),
    {
        let n = self.len();
        let mut j: usize = 0;
        while j < n
            invariant
                n == old(self)@.len(),
                j <= n,
                self@.len() == n,
                forall|i: int| 0 <= i < j ==> #[trigger] self@[i] == with_duration(old(self)@[i], d),
                forall|i: int| j <= i < n ==> #[trigger] self@[i] == old(self)@[i],
            decreases n - j,
        {
            self.set_duration(j, d);
            j = j + 1;
        }
    }
}

} // verus!
