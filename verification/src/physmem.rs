//! The physical frame allocator: usable firmware regions laid out as one
//! run of frame indices, and a bitmap of granted frames.
use vstd::prelude::*;
use crate::abi::{MemoryRegion, MemoryRegionKind};

verus! {

pub const PAGE_SIZE: u64 = 4096;
pub const MAX_USABLE_REGIONS: usize = 64;
/// One bit per managed page: 32,768 words cover 8 GiB of usable frames.
pub const KERNEL_BITMAP_WORDS: usize = 32768;
/// The largest bitmap an allocator is made with.
pub const MAX_BITMAP_WORDS: usize = 0x100_0000;

#[derive(Clone, Copy, Debug, PartialEq, Eq, Structural)]
struct FrameRegion {
    start: u64,
    end: u64,
    first: usize,
}

spec fn region_frames(r: FrameRegion) -> int {
    (r.end - r.start) / 4096
}

spec fn region_ok(r: FrameRegion) -> bool {
    &&& r.start % 4096 == 0
    &&& r.end % 4096 == 0
    &&& 4096 <= r.start < r.end
}

/// The frames of the regions before `k`.
spec fn frames_before(rs: Seq<FrameRegion>, k: int) -> int
    decreases k,
{
    if k <= 0 {
        0
    } else {
        frames_before(rs, k - 1) + region_frames(rs[k - 1])
    }
}


spec fn frame_in(rs: Seq<FrameRegion>, i: int) -> u64 {
    let k = choose|k: int| 0 <= k < rs.len() && #[trigger] rs[k].first <= i < rs[k].first + region_frames(rs[k]);
    (rs[k].start + (i - rs[k].first) * 4096) as u64
}

spec fn index_in(rs: Seq<FrameRegion>, frame: u64) -> Option<int> {
    if exists|k: int| 0 <= k < rs.len() && #[trigger] rs[k].start <= frame < rs[k].end {
        let k = choose|k: int| 0 <= k < rs.len() && #[trigger] rs[k].start <= frame < rs[k].end;
        Some(rs[k].first + (frame - rs[k].start) / 4096)
    } else {
        None
    }
}

proof fn lemma_roundtrip_in(rs: Seq<FrameRegion>, i: int, k: int)
    requires
        forall|j: int| 0 <= j < rs.len() ==> region_ok(#[trigger] rs[j]),
        forall|a: int, b: int| 0 <= a < b < rs.len() ==> #[trigger] rs[a].end <= #[trigger] rs[b].start,
        forall|a: int, b: int| 0 <= a < rs.len() && 0 <= b < rs.len() && a != b ==> !(#[trigger] rs[a].first <= i < rs[a].first + region_frames(rs[a])
            && #[trigger] rs[b].first <= i < rs[b].first + region_frames(rs[b])),
        0 <= k < rs.len(),
        rs[k].first <= i < rs[k].first + region_frames(rs[k]),
    ensures
        frame_in(rs, i) % 4096 == 0,
        frame_in(rs, i) >= 4096,
        index_in(rs, frame_in(rs, i)) == Some(i),
{
    let c = choose|c: int| 0 <= c < rs.len() && #[trigger] rs[c].first <= i < rs[c].first + region_frames(rs[c]);
    assert(c == k);
    let r = rs[k];
    assert(region_ok(r));
    let off = i - r.first;
    let q = (r.end - r.start) / 4096;
    assert(r.end - r.start == q * 4096);
    assert(off * 4096 + 4096 <= q * 4096) by (nonlinear_arith)
        requires
            0 <= off < q,
    ;
    let f = (r.start + off * 4096) as u64;
    assert(f == r.start + off * 4096);
    assert(f % 4096 == 0) by (nonlinear_arith)
        requires
            f == r.start + off * 4096,
            r.start % 4096 == 0,
    ;
    assert((f - r.start) / 4096 == off) by (nonlinear_arith)
        requires
            f - r.start == off * 4096,
    ;
    assert(r.start <= f < r.end);
    let d = choose|d: int| 0 <= d < rs.len() && #[trigger] rs[d].start <= f < rs[d].end;
    if d != k {
        if d < k {
            assert(rs[d].end <= rs[k].start);
        } else {
            assert(rs[k].end <= rs[d].start);
        }
    }
}

/// Whether bit `j` of `w` is set.
pub open spec fn bit(w: u64, j: u64) -> bool {
    (w >> j) & 1u64 == 1u64
}

/// Whether frame index `i` is marked in the bitmap `words`.
pub open spec fn marked(words: Seq<u64>, i: int) -> bool {
    bit(words[i / 64], (i % 64) as u64)
}

/// How many of the first `n` frame indices are marked.
pub open spec fn count_marked(words: Seq<u64>, n: int) -> int
    decreases n,
{
    if n <= 0 {
        0
    } else {
        count_marked(words, n - 1) + if marked(words, n - 1) {
            1int
        } else {
            0int
        }
    }
}

/// The number of set bits of `w`.
pub open spec fn popcount(w: u64) -> nat
    decreases w,
{
    if w == 0 {
        0
    } else {
        (w % 2) as nat + popcount(w / 2)
    }
}

/// The set bits of the first `k` words.
pub open spec fn popcount_words(words: Seq<u64>, k: int) -> nat
    decreases k,
{
    if k <= 0 {
        0
    } else {
        popcount_words(words, k - 1) + popcount(words[k - 1])
    }
}

pub open spec fn spec_align_down(v: u64) -> u64 {
    (v - v % 4096) as u64
}

/// `v` rounded up to a page, the last page when that overflows.
pub open spec fn spec_align_up(v: u64) -> u64 {
    if v + 4095 > u64::MAX {
        spec_align_down(u64::MAX)
    } else {
        spec_align_down((v + 4095) as u64)
    }
}

/// The lowest index from `from` below `count` not marked in `words`.
pub open spec fn unused_from(words: Seq<u64>, count: int, from: int) -> Option<int>
    decreases count - from,
{
    if from >= count {
        None
    } else if !marked(words, from) {
        Some(from)
    } else {
        unused_from(words, count, from + 1)
    }
}

proof fn lemma_unused_found(words: Seq<u64>, count: int, from: int)
    requires
        0 <= from,
    ensures
        unused_from(words, count, from) matches Some(i) ==> from <= i < count && !marked(words, i),
    decreases count - from,
{
    if from < count && marked(words, from) {
        lemma_unused_found(words, count, from + 1);
    }
}

proof fn lemma_unused_none(words: Seq<u64>, count: int, from: int)
    requires
        0 <= from,
    ensures
        unused_from(words, count, from) is None ==> forall|i: int| from <= i < count ==> #[trigger] marked(words, i),
    decreases count - from,
{
    if from < count && marked(words, from) {
        lemma_unused_none(words, count, from + 1);
    }
}

pub struct FrameAllocator<const WORDS: usize> {
    regions: Vec<FrameRegion>,
    allocated: Vec<u64>,
    frame_count: usize,
    next_word: usize,
    high_water: usize,
    allocated_frames: u64,
    started: bool,
}

/// A usable firmware region trimmed to whole pages above the null page:
/// `None` when its end overflows; `Some(None)` when no whole page is left.
pub open spec fn trimmed(region: MemoryRegion) -> Option<Option<(u64, u64)>> {
    let start = spec_align_up(if region.start < 4096 { 4096 } else { region.start });
    if region.start + region.size > u64::MAX {
        None
    } else {
        let end = spec_align_down((region.start + region.size) as u64);
        if start >= end {
            Some(None)
        } else {
            Some(Some((start, end)))
        }
    }
}

/// Where a range starting at `start` goes among ranges sorted by start.
pub open spec fn insert_position(s: Seq<(u64, u64)>, start: u64) -> int
    decreases s.len(),
{
    if s.len() == 0 {
        0
    } else if s.last().0 > start {
        insert_position(s.drop_last(), start)
    } else {
        s.len() as int
    }
}


proof fn lemma_bit_set(w: u64, b: u64, j: u64)
    by (bit_vector)
    requires
        b < 64,
        j < 64,
    ensures
        bit(w | (1u64 << b), j) == (j == b || bit(w, j)),
{
}

proof fn lemma_bit_clear(w: u64, b: u64, j: u64)
    by (bit_vector)
    requires
        b < 64,
        j < 64,
    ensures
        bit(w & !(1u64 << b), j) == (j != b && bit(w, j)),
{
}

proof fn lemma_bit_test(w: u64, b: u64)
    by (bit_vector)
    requires
        b < 64,
    ensures
        (w & (1u64 << b) == 0) == !bit(w, b),
{
}

proof fn lemma_bit_zero(j: u64)
    by (bit_vector)
    ensures
        !bit(0u64, j),
{
}

/// The free bits of a word whose first `rem` bits hold frames.
proof fn lemma_free_bits(w: u64, rem: u64, j: u64)
    by (bit_vector)
    requires
        0 < rem <= 64,
        j < 64,
    ensures
        bit(!w & (if rem == 64 { 0xffff_ffff_ffff_ffffu64 } else { ((1u64 << rem) - 1u64) as u64 }), j) == (j < rem && !bit(w, j)),
{
}

proof fn lemma_index_split(w: int, t: int)
    requires
        0 <= w,
        0 <= t < 64,
    ensures
        (w * 64 + t) / 64 == w,
        (w * 64 + t) % 64 == t,
{
    vstd::arithmetic::div_mod::lemma_fundamental_div_mod_converse(w * 64 + t, 64, w, t);
}

proof fn lemma_count_bound(words: Seq<u64>, n: int)
    requires
        0 <= n,
    ensures
        0 <= count_marked(words, n) <= n,
    decreases n,
{
    if n > 0 {
        lemma_count_bound(words, n - 1);
    }
}

/// Changing the bitmap at one index changes the count by that index alone.
proof fn lemma_count_update(before: Seq<u64>, after: Seq<u64>, i: int, n: int)
    requires
        0 <= i,
        0 <= n,
        forall|j: int| 0 <= j < n && j != i ==> marked(after, j) == marked(before, j),
    ensures
        count_marked(after, n) == count_marked(before, n) + if i < n {
            (if marked(after, i) { 1int } else { 0int }) - (if marked(before, i) { 1int } else { 0int })
        } else {
            0int
        },
    decreases n,
{
    if n > 0 {
        lemma_count_update(before, after, i, n - 1);
    }
}

/// All marks below `h` bound the count by `h`.
proof fn lemma_count_below(words: Seq<u64>, n: int, h: int)
    requires
        0 <= n,
        0 <= h,
        forall|j: int| 0 <= j < n && marked(words, j) ==> j < h,
    ensures
        count_marked(words, n) <= h,
    decreases n,
{
    if n > 0 {
        lemma_count_below(words, n - 1, h);
        lemma_count_bound(words, n - 1);
    }
}

/// Skips marked indices.
proof fn lemma_unused_skip(words: Seq<u64>, count: int, a: int, b: int)
    requires
        a <= b <= count,
        forall|j: int| a <= j < b ==> #[trigger] marked(words, j),
    ensures
        unused_from(words, count, a) == unused_from(words, count, b),
    decreases b - a,
{
    if a < b {
        lemma_unused_skip(words, count, a + 1, b);
    }
}

/// The region, from `k` on, whose frame indices hold `i`.
proof fn region_holding(rs: Seq<FrameRegion>, i: int, k: int) -> (r: int)
    requires
        0 <= k <= rs.len(),
        frames_before(rs, k) <= i < frames_before(rs, rs.len() as int),
        forall|j: int| 0 <= j < rs.len() ==> rs[j].first == frames_before(rs, j),
    ensures
        k <= r < rs.len(),
        rs[r].first <= i < rs[r].first + region_frames(rs[r]),
    decreases rs.len() - k,
{
    if k == rs.len() {
        assert(false);
        k
    } else if i < frames_before(rs, k + 1) {
        k
    } else {
        region_holding(rs, i, k + 1)
    }
}


/// Setting one bit marks exactly one more frame index.
proof fn lemma_set_mark(before: Seq<u64>, after: Seq<u64>, index: int)
    requires
        0 <= index < before.len() * 64,
        after == before.update(index / 64, before[index / 64] | (1u64 << (index % 64) as u64)),
    ensures
        forall|j: int| 0 <= j < before.len() * 64 ==> #[trigger] marked(after, j) == (marked(before, j) || j == index),
{
    assert forall|j: int| 0 <= j < before.len() * 64 implies #[trigger] marked(after, j) == (marked(before, j) || j == index) by {
        if j / 64 == index / 64 {
            lemma_bit_set(before[index / 64], (index % 64) as u64, (j % 64) as u64);
        }
    }
}

/// Clearing one bit unmarks exactly one frame index.
proof fn lemma_clear_mark(before: Seq<u64>, after: Seq<u64>, index: int)
    requires
        0 <= index < before.len() * 64,
        after == before.update(index / 64, before[index / 64] & !(1u64 << (index % 64) as u64)),
    ensures
        forall|j: int| 0 <= j < before.len() * 64 ==> #[trigger] marked(after, j) == (marked(before, j) && j != index),
{
    assert forall|j: int| 0 <= j < before.len() * 64 implies #[trigger] marked(after, j) == (marked(before, j) && j != index) by {
        if j / 64 == index / 64 {
            lemma_bit_clear(before[index / 64], (index % 64) as u64, (j % 64) as u64);
        }
    }
}


/// How many of the first `n` bits of `w` are set.
spec fn bits_below(w: u64, n: int) -> int
    decreases n,
{
    if n <= 0 {
        0
    } else {
        bits_below(w, n - 1) + if bit(w, (n - 1) as u64) {
            1int
        } else {
            0int
        }
    }
}

proof fn lemma_shift_step(w: u64, n: u64)
    by (bit_vector)
    requires
        n < 63,
    ensures
        ((w >> n) % 2 == 1) == bit(w, n),
        (w >> n) / 2 == w >> ((n + 1) as u64),
{
}

proof fn lemma_shift_last(w: u64)
    by (bit_vector)
    ensures
        (w >> 63u64) == (if bit(w, 63u64) { 1u64 } else { 0u64 }),
{
}

proof fn lemma_popcount_split(w: u64, n: int)
    requires
        0 <= n <= 63,
    ensures
        popcount(w) == bits_below(w, n) + popcount(w >> (n as u64)),
    decreases n,
{
    if n == 0 {
        assert(w >> 0u64 == w) by (bit_vector);
    } else {
        lemma_popcount_split(w, n - 1);
        let m = (n - 1) as u64;
        lemma_shift_step(w, m);
        let x = w >> m;
        assert(popcount(x) == (x % 2) as nat + popcount(x / 2));
    }
}

/// The set bits of a word are counted by `popcount`.
proof fn lemma_popcount_bits(w: u64)
    ensures
        popcount(w) == bits_below(w, 64),
{
    lemma_popcount_split(w, 63);
    lemma_shift_last(w);
    let x = w >> 63u64;
    assert(popcount(x) == if bit(w, 63u64) { 1nat } else { 0nat }) by {
        if x == 1 {
            assert(popcount(1u64) == 1nat + popcount(0u64));
        }
    }
}

/// Marks counted a word at a time.
proof fn lemma_count_words(words: Seq<u64>, k: int, n: int)
    requires
        0 <= k < words.len(),
        0 <= n <= 64,
    ensures
        count_marked(words, k * 64 + n) == popcount_words(words, k) + bits_below(words[k], n),
    decreases k, n,
{
    if n == 0 {
        if k > 0 {
            lemma_count_words(words, k - 1, 64);
            lemma_popcount_bits(words[k - 1]);
            assert((k - 1) * 64 + 64 == k * 64);
        }
    } else {
        lemma_count_words(words, k, n - 1);
        lemma_index_split(k, n - 1);
    }
}

/// Without marks in `[a, b)`, the count up to `b` is the count up to `a`.
proof fn lemma_count_flat(words: Seq<u64>, a: int, b: int)
    requires
        0 <= a <= b,
        forall|j: int| a <= j < b ==> !#[trigger] marked(words, j),
    ensures
        count_marked(words, b) == count_marked(words, a),
    decreases b - a,
{
    if a < b {
        lemma_count_flat(words, a, b - 1);
    }
}

proof fn lemma_frames_before_monotone(rs: Seq<FrameRegion>, a: int, b: int)
    requires
        0 <= a <= b <= rs.len(),
        forall|k: int| 0 <= k < rs.len() ==> region_ok(#[trigger] rs[k]),
    ensures
        frames_before(rs, a) <= frames_before(rs, b),
    decreases b - a,
{
    if a < b {
        lemma_frames_before_monotone(rs, a, b - 1);
        assert(region_ok(rs[b - 1]));
    }
}

proof fn lemma_popcount_le(x: u64)
    ensures
        popcount(x) <= x,
    decreases x,
{
    if x != 0 {
        lemma_popcount_le(x / 2);
    }
}


/// Whether `[start, end)` meets one of the ranges of `layout`.
pub open spec fn overlaps(layout: Seq<(u64, u64)>, start: u64, end: u64) -> bool {
    exists|k: int| 0 <= k < layout.len() && start < #[trigger] layout[k].1 && layout[k].0 < end
}

/// What adding a firmware region does to a layout of `frames` frames with
/// room for `capacity`: whether it is accepted, the new layout and the new
/// number of frames. Other kinds than usable memory are accepted and
/// ignored, as are usable regions without a whole page; a region is
/// refused once the layout is frozen, when its end overflows, when it
/// overlaps a region already there, or when the regions or the bitmap are
/// full.
pub open spec fn spec_add_region(layout: Seq<(u64, u64)>, frames: int, capacity: int, frozen: bool, region: MemoryRegion) -> (bool, Seq<(u64, u64)>, int) {
    if region.kind != MemoryRegionKind::Usable {
        (true, layout, frames)
    } else if frozen {
        (false, layout, frames)
    } else {
        match trimmed(region) {
            None => (false, layout, frames),
            Some(None) => (true, layout, frames),
            Some(Some((start, end))) => {
                let n = (end - start) / 4096;
                if n > usize::MAX || frames + n > usize::MAX || layout.len() == MAX_USABLE_REGIONS || frames + n
                    > capacity || overlaps(layout, start, end) {
                    (false, layout, frames)
                } else {
                    (true, layout.insert(insert_position(layout, start), (start, end)), frames + n)
                }
            },
        }
    }
}

proof fn lemma_frames_before_monotone_any(rs: Seq<FrameRegion>, a: int, b: int)
    requires
        0 <= a <= b <= rs.len(),
        forall|k: int| 0 <= k < rs.len() ==> region_frames(#[trigger] rs[k]) >= 0,
    ensures
        frames_before(rs, a) <= frames_before(rs, b),
    decreases b - a,
{
    if a < b {
        lemma_frames_before_monotone_any(rs, a, b - 1);
    }
}


/// A region inserted where it keeps the order, overlapping none, leaves a
/// well-formed layout once the first indices are recomputed.
proof fn lemma_insert_keeps_layout(rs: Seq<FrameRegion>, inserted: Seq<FrameRegion>, fin: Seq<FrameRegion>, slot: int, x: FrameRegion)
    requires
        forall|k: int| 0 <= k < rs.len() ==> region_ok(#[trigger] rs[k]),
        forall|k: int, l: int| 0 <= k < l < rs.len() ==> #[trigger] rs[k].end <= #[trigger] rs[l].start,
        region_ok(x),
        0 <= slot <= rs.len(),
        forall|j: int| slot <= j < rs.len() ==> #[trigger] rs[j].start > x.start,
        slot > 0 ==> rs[slot - 1].start <= x.start,
        forall|k: int| 0 <= k < rs.len() ==> !(x.start < #[trigger] rs[k].end && rs[k].start < x.end),
        inserted == rs.insert(slot, x),
        fin.len() == inserted.len(),
        forall|j: int| 0 <= j < inserted.len() ==> (#[trigger] fin[j]).start == inserted[j].start && fin[j].end
            == inserted[j].end,
        forall|j: int| 0 <= j < inserted.len() ==> (#[trigger] fin[j]).first == frames_before(inserted, j),
    ensures
        forall|k: int| 0 <= k < fin.len() ==> region_ok(#[trigger] fin[k]) && fin[k].first == frames_before(fin, k),
        forall|k: int, l: int| 0 <= k < l < fin.len() ==> #[trigger] fin[k].end <= #[trigger] fin[l].start,
{
    assert forall|k: int| 0 <= k < fin.len() implies region_ok(#[trigger] fin[k]) && fin[k].first == frames_before(fin, k) by {
        assert forall|j: int| 0 <= j < k implies region_frames(#[trigger] fin[j]) == region_frames(inserted[j]) by {}
        lemma_frames_before_ext(fin, inserted, k);
        if k < slot {
            assert(region_ok(rs[k]));
        } else if k > slot {
            assert(region_ok(rs[k - 1]));
        }
    }
    assert forall|k: int, l: int| 0 <= k < l < fin.len() implies #[trigger] fin[k].end <= #[trigger] fin[l].start by {
        if k != slot && l != slot {
            let ok = if k < slot { k } else { k - 1 };
            let ol = if l < slot { l } else { l - 1 };
            assert(rs[ok].end <= rs[ol].start);
        } else if k == slot {
            let ol = l - 1;
            assert(!(x.start < rs[ol].end && rs[ol].start < x.end));
            assert(rs[ol].start > x.start);
            assert(region_ok(rs[ol]));
        } else {
            assert(!(x.start < rs[k].end && rs[k].start < x.end));
            assert(region_ok(rs[k]));
            if k < slot - 1 {
                assert(rs[k].end <= rs[slot - 1].start);
            }
        }
    }
}

proof fn lemma_frames_before_ext(a: Seq<FrameRegion>, b: Seq<FrameRegion>, k: int)
    requires
        0 <= k <= a.len(),
        k <= b.len(),
        forall|j: int| 0 <= j < k ==> region_frames(#[trigger] a[j]) == region_frames(b[j]),
    ensures
        frames_before(a, k) == frames_before(b, k),
    decreases k,
{
    if k > 0 {
        lemma_frames_before_ext(a, b, k - 1);
    }
}

proof fn lemma_frames_before_insert(rs: Seq<FrameRegion>, p: int, x: FrameRegion, k: int)
    requires
        0 <= p <= rs.len(),
        0 <= k <= rs.len() + 1,
    ensures
        frames_before(rs.insert(p, x), k) == if k <= p {
            frames_before(rs, k)
        } else {
            frames_before(rs, k - 1) + region_frames(x)
        },
    decreases k,
{
    if k > 0 {
        lemma_frames_before_insert(rs, p, x, k - 1);
    }
}

fn align_up(v: u64) -> (r: u64)
    ensures
        r == spec_align_up(v),
{
    let s = v.saturating_add(4095);
    s - s % PAGE_SIZE
}

fn align_down(v: u64) -> (r: u64)
    ensures
        r == spec_align_down(v),
{
    v - v % PAGE_SIZE
}

/// The number of set bits of `w`.
pub fn count_ones(w: u64) -> (r: u64)
    ensures
        r == popcount(w),
{
    proof {
        lemma_popcount_le(w);
    }
    let mut x = w;
    let mut c: u64 = 0;
    while x != 0
        invariant
            c + popcount(x) == popcount(w),
            popcount(w) <= w,
        decreases x,
    {
        c = c + x % 2;
        x = x / 2;
    }
    c
}

impl<const WORDS: usize> FrameAllocator<WORDS> {
    /// Frame indices of distinct regions do not overlap.
    proof fn lemma_region_of_index_unique(&self, k: int, l: int, i: int)
        requires
            self.wf(),
            0 <= k < self.regions@.len(),
            0 <= l < self.regions@.len(),
            self.regions@[k].first <= i < self.regions@[k].first + region_frames(self.regions@[k]),
            self.regions@[l].first <= i < self.regions@[l].first + region_frames(self.regions@[l]),
        ensures
            k == l,
    {
        let rs = self.regions@;
        if k < l {
            lemma_frames_before_monotone(rs, k + 1, l);
        } else if l < k {
            lemma_frames_before_monotone(rs, l + 1, k);
        }
    }

    /// An aligned address inside a region names a frame index below the
    /// count, and that index names the address back.
    proof fn lemma_index_roundtrip(&self, frame: u64)
        requires
            self.wf(),
            frame % 4096 == 0,
            self.index_of(frame) is Some,
        ensures
            0 <= self.index_of(frame)->0 < self.frame_count,
            self.frame_of(self.index_of(frame)->0) == frame,
    {
        let rs = self.regions@;
        let kr = choose|k: int| 0 <= k < rs.len() && #[trigger] rs[k].start <= frame < rs[k].end;
        let r = rs[kr];
        assert(region_ok(r));
        let off = (frame - r.start) / 4096;
        assert(frame - r.start == off * 4096) by (nonlinear_arith)
            requires
                frame % 4096 == 0,
                r.start % 4096 == 0,
                frame >= r.start,
                off == (frame - r.start) / 4096,
        ;
        assert(off < region_frames(r)) by (nonlinear_arith)
            requires
                frame - r.start == off * 4096,
                frame < r.end,
                r.end % 4096 == 0,
                r.start % 4096 == 0,
                r.start < r.end,
        ;
        let k = r.first + off;
        assert(self.index_of(frame) == Some(k));
        lemma_frames_before_monotone(rs, kr + 1, rs.len() as int);
        assert(k < self.frame_count);
        let c = choose|c: int| 0 <= c < rs.len() && #[trigger] rs[c].first <= k < rs[c].first + region_frames(rs[c]);
        assert(rs[kr].first <= k < rs[kr].first + region_frames(rs[kr]));
        self.lemma_region_of_index_unique(c, kr, k);
    }

    /// Every frame index below the count lies in a region.
    proof fn lemma_index_has_region(&self, i: int) -> (k: int)
        requires
            self.wf(),
            0 <= i < self.frame_count,
        ensures
            0 <= k < self.regions@.len(),
            self.regions@[k].first <= i < self.regions@[k].first + region_frames(self.regions@[k]),
    {
        region_holding(self.regions@, i, 0)
    }

    /// Whether frame index `i` is granted.
    pub closed spec fn used(&self, i: int) -> bool {
        marked(self.allocated@, i)
    }

    /// The number of frames the regions hold.
    pub closed spec fn frames(&self) -> int {
        self.frame_count as int
    }

    /// The regions as page-aligned ranges, sorted by start.
    pub closed spec fn layout(&self) -> Seq<(u64, u64)> {
        self.regions@.map_values(|r: FrameRegion| (r.start, r.end))
    }

    /// Whether the layout is frozen by a first grant.
    pub closed spec fn frozen(&self) -> bool {
        self.started
    }

    pub closed spec fn granted(&self) -> u64 {
        self.allocated_frames
    }

    pub closed spec fn high_water_mark(&self) -> int {
        self.high_water as int
    }

    /// The physical address of frame index `i`.
    pub closed spec fn frame_of(&self, i: int) -> u64 {
        frame_in(self.regions@, i)
    }

    /// The frame index of the physical address `frame`, if a region holds it.
    pub closed spec fn index_of(&self, frame: u64) -> Option<int> {
        index_in(self.regions@, frame)
    }

    /// The lowest frame index from `from` on that is not granted.
    pub closed spec fn first_unused(&self, from: int) -> Option<int> {
        unused_from(self.allocated@, self.frame_count as int, from)
    }

    pub closed spec fn wf(&self) -> bool {
        let rs = self.regions@;
        &&& self.allocated@.len() == WORDS
        &&& WORDS <= MAX_BITMAP_WORDS
        &&& rs.len() <= MAX_USABLE_REGIONS
        &&& forall|k: int| 0 <= k < rs.len() ==> region_ok(#[trigger] rs[k]) && rs[k].first == frames_before(rs, k)
        &&& forall|k: int, l: int| 0 <= k < l < rs.len() ==> #[trigger] rs[k].end <= #[trigger] rs[l].start
        &&& self.frame_count == frames_before(rs, rs.len() as int)
        &&& self.frame_count <= WORDS * 64
        &&& forall|i: int| 0 <= i < WORDS * 64 && #[trigger] marked(self.allocated@, i) ==> i < self.high_water
        &&& self.high_water <= self.frame_count
        &&& self.next_word * 64 <= self.frame_count + 63
        &&& forall|i: int| 0 <= i < self.next_word * 64 && i < self.frame_count ==> #[trigger] marked(self.allocated@, i)
        &&& self.allocated_frames == count_marked(self.allocated@, self.frame_count as int)
        &&& self.allocated_frames <= self.high_water
        &&& !self.started ==> self.high_water == 0
    }

    pub fn new() -> (a: Self)
        requires
            WORDS <= MAX_BITMAP_WORDS,
        ensures
            a.wf(),
            a.frames() == 0,
            a.layout() == Seq::<(u64, u64)>::empty(),
            !a.frozen(),
            a.granted() == 0,
            a.high_water_mark() == 0,
    {
        let mut allocated: Vec<u64> = Vec::new();
        let mut k: usize = 0;
        while k < WORDS
            invariant
                k <= WORDS,
                allocated@.len() == k,
                forall|j: int| 0 <= j < k ==> allocated@[j] == 0u64,
            decreases WORDS - k,
        {
            allocated.push(0);
            k += 1;
        }
        let a = FrameAllocator {
            regions: Vec::new(),
            allocated,
            frame_count: 0,
            next_word: 0,
            high_water: 0,
            allocated_frames: 0,
            started: false,
        };
        assert forall|i: int| 0 <= i < WORDS * 64 && #[trigger] marked(a.allocated@, i) implies i < a.high_water by {
            assert(0 <= i / 64 < WORDS);
            lemma_bit_zero((i % 64) as u64);
        }
        assert(a.layout() =~= Seq::<(u64, u64)>::empty());
        a
    }

    /// The region whose frame indices hold `index`.
    fn region_index(&self, index: usize) -> (k: usize)
        requires
            self.wf(),
            index < self.frame_count,
        ensures
            k < self.regions@.len(),
            self.regions@[k as int].first <= index < self.regions@[k as int].first + region_frames(self.regions@[k as int]),
    {
        let ghost target = self.lemma_index_has_region(index as int);
        let ghost rs = self.regions@;
        assert(region_ok(rs[target]));
        let mut k: usize = 0;
        while k < self.regions.len()
            invariant
                rs == self.regions@,
                0 <= target < rs.len(),
                region_ok(rs[target]),
                rs[target].first <= index < rs[target].first + region_frames(rs[target]),
                forall|j: int| 0 <= j < rs.len() ==> region_ok(#[trigger] rs[j]),
                k <= target,
            decreases rs.len() - k,
        {
            let r = self.regions[k];
            assert(region_ok(rs[k as int]));
            if index >= r.first && ((index - r.first) as u64) < (r.end - r.start) / PAGE_SIZE {
                return k;
            }
            proof {
                if k == target {
                    assert(false);
                }
            }
            k += 1;
        }
        k
    }

    /// The lowest free bit of word `nw`, among the bits that hold frames.
    fn free_in_word(&self, nw: usize) -> (r: Option<usize>)
        requires
            self.allocated@.len() == WORDS,
            self.frame_count <= WORDS * 64,
            WORDS <= MAX_BITMAP_WORDS,
            nw * 64 < self.frame_count,
        ensures
            r is None ==> forall|i: int| nw * 64 <= i < nw * 64 + 64 && i < self.frame_count ==> #[trigger] marked(self.allocated@, i),
            r is Some ==> r->0 < 64 && nw * 64 + r->0 < self.frame_count && !marked(self.allocated@, nw * 64 + r->0)
                && forall|i: int| nw * 64 <= i < nw * 64 + r->0 ==> #[trigger] marked(self.allocated@, i),
    {
        let base = nw * 64;
        let left = self.frame_count - base;
        let remaining: usize = if left < 64 {
            left
        } else {
            64
        };
        let mask: u64 = if remaining == 64 {
            0xffff_ffff_ffff_ffff
        } else {
            let rem = remaining as u64;
            assert(1u64 << rem >= 1u64) by (bit_vector)
                requires
                    rem < 64,
            ;
            (1u64 << rem) - 1
        };
        let w = self.allocated[nw];
        let free = !w & mask;
        proof {
            assert forall|j: u64| j < 64 implies #[trigger] bit(free, j) == (j < remaining && !bit(w, j)) by {
                lemma_free_bits(w, remaining as u64, j);
            }
        }
        if free == 0 {
            proof {
                assert forall|i: int| base <= i < base + 64 && i < self.frame_count implies #[trigger] marked(self.allocated@, i) by {
                    lemma_index_split(nw as int, i - base);
                    lemma_bit_zero((i - base) as u64);
                    assert(!bit(free, (i - base) as u64));
                }
            }
            None
        } else {
            let t = free.trailing_zeros();
            proof {
                vstd::std_specs::bits::axiom_u64_trailing_zeros(free);
                assert(bit(free, t as u64));
                assert forall|i: int| base <= i < base + t implies #[trigger] marked(self.allocated@, i) by {
                    lemma_index_split(nw as int, i - base);
                    assert(!bit(free, (i - base) as u64));
                }
                lemma_index_split(nw as int, t as int);
            }
            Some(t as usize)
        }
    }

    /// The physical address of frame index `index`.
    #[verifier::rlimit(100)]
    #[verifier::spinoff_prover]
    fn frame_at(&self, index: usize) -> (frame: u64)
        requires
            self.wf(),
            index < self.frame_count,
        ensures
            frame == self.frame_of(index as int),
    {
        let k = self.region_index(index);
        let region = self.regions[k];
        proof {
            assert(region_ok(self.regions@[k as int]));
            let q = (region.end - region.start) / 4096;
            assert((region.end - region.start) == q * 4096);
            assert((index - region.first) * 4096 + 4096 <= q * 4096) by (nonlinear_arith)
                requires
                    index - region.first < q,
            ;
            let c = choose|c: int| 0 <= c < self.regions@.len() && #[trigger] self.regions@[c].first <= index < self.regions@[c].first + region_frames(self.regions@[c]);
            self.lemma_region_of_index_unique(k as int, c, index as int);
        }
        region.start + (index - region.first) as u64 * PAGE_SIZE
    }

    /// Marks the free frame index `index` granted and returns its address.
    #[verifier::rlimit(100)]
    #[verifier::spinoff_prover]
    fn grant(&mut self, index: usize) -> (frame: u64)
        requires
            old(self).wf(),
            index < old(self).frame_count,
            !marked(old(self).allocated@, index as int),
        ensures
            final(self).wf(),
            frame == old(self).frame_of(index as int),
            final(self).regions@ == old(self).regions@,
            final(self).frame_count == old(self).frame_count,
            final(self).next_word == old(self).next_word,
            final(self).allocated_frames == old(self).allocated_frames + 1,
            final(self).started,
            final(self).high_water == (if old(self).high_water < index + 1 {
                index + 1
            } else {
                old(self).high_water as int
            }),
            forall|j: int| 0 <= j < WORDS * 64 ==> #[trigger] marked(final(self).allocated@, j) == (marked(old(self).allocated@, j) || j == index),
    {
        let frame = self.frame_at(index);
        let nw = index / 64;
        let t = index % 64;
        let w = self.allocated[nw];
        let ghost before = self.allocated@;
        let updated = w | (1u64 << t as u64);
        self.allocated.set(nw, updated);
        proof {
            lemma_set_mark(before, self.allocated@, index as int);
            assert forall|j: int| 0 <= j < self.frame_count && j != index implies marked(self.allocated@, j) == marked(before, j) by {
                assert(marked(self.allocated@, j) == (marked(before, j) || j == index));
            }
            lemma_count_update(before, self.allocated@, index as int, self.frame_count as int);
        }
        if self.high_water < index + 1 {
            self.high_water = index + 1;
        }
        proof {
            assert forall|j: int| 0 <= j < self.frame_count && marked(self.allocated@, j) implies j < self.high_water by {
                assert(marked(self.allocated@, j) == (marked(before, j) || j == index));
            }
            lemma_count_below(self.allocated@, self.frame_count as int, self.high_water as int);
        }
        self.allocated_frames = self.allocated_frames + 1;
        self.started = true;
        frame
    }

    /// The frames granted and not yet returned.
    pub closed spec fn live_frames(&self) -> Set<u64> {
        Set::new(|f: u64| exists|i: int| 0 <= i < self.frames() && self.used(i) && self.frame_of(i) == f)
    }

    /// Grants the lowest free frame. A granted frame is a page-aligned page
    /// above the null page inside a usable region, and no live frame: the
    /// live frames gain exactly it. Nothing is granted only when every
    /// frame is live.
    pub fn alloc_frame(&mut self) -> (r: Option<u64>)
        requires
            old(self).wf(),
        ensures
            final(self).wf(),
            final(self).layout() == old(self).layout(),
            final(self).frames() == old(self).frames(),
            match old(self).first_unused(0) {
                None => r is None && final(self).granted() == old(self).granted() && final(self).frozen()
                    == old(self).frozen() && final(self).high_water_mark() == old(self).high_water_mark()
                    && forall|j: int| 0 <= j < old(self).frames() ==> #[trigger] final(self).used(j) == old(self).used(j),
                Some(i) => r == Some(old(self).frame_of(i)) && final(self).granted() == old(self).granted() + 1
                    && final(self).frozen() && final(self).high_water_mark() == (if old(self).high_water_mark() < i + 1 {
                    i + 1
                } else {
                    old(self).high_water_mark()
                }) && forall|j: int| 0 <= j < old(self).frames() ==> #[trigger] final(self).used(j) == (old(self).used(j) || j == i),
            },
            r matches Some(f) ==> {
                &&& f % 4096 == 0 && f >= 4096
                &&& old(self).index_of(f) is Some
                &&& !old(self).live_frames().contains(f)
                &&& final(self).live_frames() == old(self).live_frames().insert(f)
            },
            r is None ==> final(self).live_frames() == old(self).live_frames()
                && forall|j: int| 0 <= j < old(self).frames() ==> #[trigger] old(self).used(j),
    {
        let ghost a0 = *self;
        let r = self.alloc_lowest();
        proof {
            Self::lemma_alloc_live(a0, *self, r);
        }
        r
    }

    /// What a grant of the lowest free frame does to the live frames.
    #[verifier::spinoff_prover]
    proof fn lemma_alloc_live(a0: Self, a1: Self, r: Option<u64>)
        requires
            a0.wf(),
            a1.regions@ == a0.regions@,
            a1.frame_count == a0.frame_count,
            match a0.first_unused(0) {
                None => r is None && forall|j: int| 0 <= j < a0.frames() ==> #[trigger] a1.used(j) == a0.used(j),
                Some(i) => r == Some(a0.frame_of(i)) && forall|j: int|
                    0 <= j < a0.frames() ==> #[trigger] a1.used(j) == (a0.used(j) || j == i),
            },
        ensures
            r matches Some(f) ==> {
                &&& f % 4096 == 0 && f >= 4096
                &&& a0.index_of(f) is Some
                &&& !a0.live_frames().contains(f)
                &&& a1.live_frames() == a0.live_frames().insert(f)
            },
            r is None ==> a1.live_frames() == a0.live_frames()
                && forall|j: int| 0 <= j < a0.frames() ==> #[trigger] a0.used(j),
    {
        assert forall|j: int| #[trigger] a1.frame_of(j) == a0.frame_of(j) by {}
        match a0.first_unused(0) {
            Some(i) => {
                lemma_unused_found(a0.allocated@, a0.frame_count as int, 0);
                a0.lemma_frame_roundtrip(i);
                let f = a0.frame_of(i);
                if a0.live_frames().contains(f) {
                    let j = choose|j: int| 0 <= j < a0.frames() && a0.used(j) && a0.frame_of(j) == f;
                    a0.lemma_frames_never_alias(i, j);
                }
                assert forall|g: u64| #[trigger] a1.live_frames().contains(g) == a0.live_frames().insert(f).contains(g) by {
                    if a1.live_frames().contains(g) {
                        let j = choose|j: int| 0 <= j < a1.frames() && a1.used(j) && a1.frame_of(j) == g;
                        if j != i {
                            assert(0 <= j < a0.frames() && a0.used(j) && a0.frame_of(j) == g);
                        }
                    }
                    if a0.live_frames().contains(g) {
                        let j = choose|j: int| 0 <= j < a0.frames() && a0.used(j) && a0.frame_of(j) == g;
                        assert(0 <= j < a1.frames() && a1.used(j) && a1.frame_of(j) == g);
                    }
                    if g == f {
                        assert(0 <= i < a1.frames() && a1.used(i) && a1.frame_of(i) == g);
                    }
                }
                assert(a1.live_frames() =~= a0.live_frames().insert(f));
            },
            None => {
                lemma_unused_none(a0.allocated@, a0.frame_count as int, 0);
                assert forall|g: u64| #[trigger] a1.live_frames().contains(g) == a0.live_frames().contains(g) by {
                    if a1.live_frames().contains(g) {
                        let j = choose|j: int| 0 <= j < a1.frames() && a1.used(j) && a1.frame_of(j) == g;
                        assert(0 <= j < a0.frames() && a0.used(j) && a0.frame_of(j) == g);
                    }
                    if a0.live_frames().contains(g) {
                        let j = choose|j: int| 0 <= j < a0.frames() && a0.used(j) && a0.frame_of(j) == g;
                        assert(0 <= j < a1.frames() && a1.used(j) && a1.frame_of(j) == g);
                    }
                }
                assert(a1.live_frames() =~= a0.live_frames());
            },
        }
    }

    /// Grants the lowest free frame.
    fn alloc_lowest(&mut self) -> (r: Option<u64>)
        requires
            old(self).wf(),
        ensures
            final(self).wf(),
            final(self).regions@ == old(self).regions@,
            final(self).layout() == old(self).layout(),
            final(self).frames() == old(self).frames(),
            match old(self).first_unused(0) {
                None => r is None && final(self).granted() == old(self).granted() && final(self).frozen()
                    == old(self).frozen() && final(self).high_water_mark() == old(self).high_water_mark()
                    && forall|j: int| 0 <= j < old(self).frames() ==> #[trigger] final(self).used(j) == old(self).used(j),
                Some(i) => r == Some(old(self).frame_of(i)) && final(self).granted() == old(self).granted() + 1
                    && final(self).frozen() && final(self).high_water_mark() == (if old(self).high_water_mark() < i + 1 {
                    i + 1
                } else {
                    old(self).high_water_mark()
                }) && forall|j: int| 0 <= j < old(self).frames() ==> #[trigger] final(self).used(j) == (old(self).used(j) || j == i),
            },
    {
        let words = (self.frame_count + 63) / 64;
        proof {
            let start = if self.next_word * 64 < self.frame_count {
                self.next_word * 64
            } else {
                self.frame_count as int
            };
            lemma_unused_skip(self.allocated@, self.frame_count as int, 0, start);
        }
        while self.next_word < words
            invariant
                self.wf(),
                words == (self.frame_count + 63) / 64,
                self.regions@ == old(self).regions@,
                self.allocated@ == old(self).allocated@,
                self.frame_count == old(self).frame_count,
                self.high_water == old(self).high_water,
                self.allocated_frames == old(self).allocated_frames,
                self.started == old(self).started,
                old(self).first_unused(0) == unused_from(self.allocated@, self.frame_count as int, if self.next_word * 64 < self.frame_count {
                    self.next_word * 64
                } else {
                    self.frame_count as int
                }),
            decreases words - self.next_word,
        {
            let nw = self.next_word;
            assert(nw * 64 < self.frame_count) by (nonlinear_arith)
                requires
                    nw < words,
                    words == (self.frame_count + 63) / 64,
            ;
            match self.free_in_word(nw) {
                None => {
                    proof {
                        let end = if nw * 64 + 64 < self.frame_count {
                            nw * 64 + 64
                        } else {
                            self.frame_count as int
                        };
                        lemma_unused_skip(self.allocated@, self.frame_count as int, nw * 64, end);
                    }
                    self.next_word = nw + 1;
                },
                Some(t) => {
                    let index = nw * 64 + t;
                    proof {
                        lemma_unused_skip(self.allocated@, self.frame_count as int, nw * 64, index as int);
                    }
                    return Some(self.grant(index));
                },
            }
        }
        None
    }

    /// The region holding the physical address `frame`, if any.
    fn region_of_frame(&self, frame: u64) -> (r: Option<usize>)
        requires
            self.wf(),
        ensures
            r is None ==> self.index_of(frame) is None,
            r is Some ==> r->0 < self.regions@.len() && self.regions@[r->0 as int].start <= frame < self.regions@[r->0 as int].end
                && self.index_of(frame) == Some(self.regions@[r->0 as int].first + (frame - self.regions@[r->0 as int].start) / 4096),
    {
        let ghost rs = self.regions@;
        let mut k: usize = 0;
        while k < self.regions.len() && !(self.regions[k].start <= frame && frame < self.regions[k].end)
            invariant
                rs == self.regions@,
                k <= rs.len(),
                forall|j: int| 0 <= j < k ==> !(#[trigger] rs[j].start <= frame < rs[j].end),
            decreases rs.len() - k,
        {
            k += 1;
        }
        if k == self.regions.len() {
            return None;
        }
        proof {
            let c = choose|c: int| 0 <= c < rs.len() && #[trigger] rs[c].start <= frame < rs[c].end;
            if c != k {
                if c < k {
                    assert(rs[c].end <= rs[k as int].start);
                } else {
                    assert(rs[k as int].end <= rs[c].start);
                }
            }
        }
        Some(k)
    }

    /// Returns a granted frame; refuses an address that is null, unaligned,
    /// outside every region or not granted. A returned frame leaves the
    /// live frames.
    pub fn free_frame(&mut self, frame: u64) -> (r: bool)
        requires
            old(self).wf(),
        ensures
            final(self).wf(),
            final(self).layout() == old(self).layout(),
            final(self).frames() == old(self).frames(),
            final(self).frozen() == old(self).frozen(),
            final(self).high_water_mark() == old(self).high_water_mark(),
            r == (frame != 0 && frame % 4096 == 0 && old(self).index_of(frame) is Some && old(self).used(
                old(self).index_of(frame)->0,
            )),
            r ==> final(self).granted() == old(self).granted() - 1 && forall|j: int| 0 <= j < old(self).frames()
                ==> #[trigger] final(self).used(j) == (old(self).used(j) && j != old(self).index_of(frame)->0),
            !r ==> final(self).granted() == old(self).granted() && forall|j: int| 0 <= j < old(self).frames()
                ==> #[trigger] final(self).used(j) == old(self).used(j),
            r ==> old(self).live_frames().contains(frame) && final(self).live_frames() == old(self).live_frames().remove(frame),
            !r ==> final(self).live_frames() == old(self).live_frames(),
    {
        let ghost a0 = *self;
        let r = self.release(frame);
        proof {
            Self::lemma_release_live(a0, *self, frame, r);
        }
        r
    }

    #[verifier::spinoff_prover]
    proof fn lemma_release_live(a0: Self, a1: Self, frame: u64, r: bool)
        requires
            a0.wf(),
            a1.regions@ == a0.regions@,
            a1.frame_count == a0.frame_count,
            r == (frame != 0 && frame % 4096 == 0 && a0.index_of(frame) is Some && a0.used(a0.index_of(frame)->0)),
            r ==> forall|j: int| 0 <= j < a0.frames() ==> #[trigger] a1.used(j) == (a0.used(j) && j != a0.index_of(frame)->0),
            !r ==> forall|j: int| 0 <= j < a0.frames() ==> #[trigger] a1.used(j) == a0.used(j),
        ensures
            r ==> a0.live_frames().contains(frame) && a1.live_frames() == a0.live_frames().remove(frame),
            !r ==> a1.live_frames() == a0.live_frames(),
    {
        assert forall|j: int| #[trigger] a1.frame_of(j) == a0.frame_of(j) by {}
        if r {
            let k = a0.index_of(frame)->0;
            a0.lemma_index_roundtrip(frame);
            assert(0 <= k < a0.frames() && a0.used(k) && a0.frame_of(k) == frame);
            assert forall|g: u64| #[trigger] a1.live_frames().contains(g) == a0.live_frames().remove(frame).contains(g) by {
                if a1.live_frames().contains(g) {
                    let j = choose|j: int| 0 <= j < a1.frames() && a1.used(j) && a1.frame_of(j) == g;
                    assert(0 <= j < a0.frames() && a0.used(j) && a0.frame_of(j) == g);
                    a0.lemma_frame_roundtrip(j);
                }
                if a0.live_frames().contains(g) && g != frame {
                    let j = choose|j: int| 0 <= j < a0.frames() && a0.used(j) && a0.frame_of(j) == g;
                    a0.lemma_frame_roundtrip(j);
                    assert(0 <= j < a1.frames() && a1.used(j) && a1.frame_of(j) == g);
                }
            }
            assert(a1.live_frames() =~= a0.live_frames().remove(frame));
        } else {
            assert forall|g: u64| #[trigger] a1.live_frames().contains(g) == a0.live_frames().contains(g) by {
                if a1.live_frames().contains(g) {
                    let j = choose|j: int| 0 <= j < a1.frames() && a1.used(j) && a1.frame_of(j) == g;
                    assert(0 <= j < a0.frames() && a0.used(j) && a0.frame_of(j) == g);
                }
                if a0.live_frames().contains(g) {
                    let j = choose|j: int| 0 <= j < a0.frames() && a0.used(j) && a0.frame_of(j) == g;
                    assert(0 <= j < a1.frames() && a1.used(j) && a1.frame_of(j) == g);
                }
            }
            assert(a1.live_frames() =~= a0.live_frames());
        }
    }

    /// Returns a granted frame; refuses an address that is null, unaligned,
    /// outside every region or not granted.
    #[verifier::rlimit(100)]
    #[verifier::spinoff_prover]
    fn release(&mut self, frame: u64) -> (r: bool)
        requires
            old(self).wf(),
        ensures
            final(self).wf(),
            final(self).regions@ == old(self).regions@,
            final(self).frame_count == old(self).frame_count,
            final(self).layout() == old(self).layout(),
            final(self).frames() == old(self).frames(),
            final(self).frozen() == old(self).frozen(),
            final(self).high_water_mark() == old(self).high_water_mark(),
            r == (frame != 0 && frame % 4096 == 0 && old(self).index_of(frame) is Some && old(self).used(
                old(self).index_of(frame)->0,
            )),
            r ==> final(self).granted() == old(self).granted() - 1 && forall|j: int| 0 <= j < old(self).frames()
                ==> #[trigger] final(self).used(j) == (old(self).used(j) && j != old(self).index_of(frame)->0),
            !r ==> final(self).granted() == old(self).granted() && forall|j: int| 0 <= j < old(self).frames()
                ==> #[trigger] final(self).used(j) == old(self).used(j),
    {
        if frame == 0 || frame % PAGE_SIZE != 0 {
            return false;
        }
        let k = match self.region_of_frame(frame) {
            None => return false,
            Some(k) => k,
        };
        let region = self.regions[k];
        proof {
            let rs = self.regions@;
            assert(region_ok(rs[k as int]));
            lemma_frames_before_monotone(rs, k + 1, rs.len() as int);
            assert((frame - region.start) / 4096 < (region.end - region.start) / 4096) by (nonlinear_arith)
                requires
                    region.start <= frame < region.end,
                    frame % 4096 == 0,
                    region.start % 4096 == 0,
                    region.end % 4096 == 0,
            ;
        }
        let index = region.first + ((frame - region.start) / PAGE_SIZE) as usize;
        let word = index / 64;
        let b = index % 64;
        let w = self.allocated[word];
        let mask = 1u64 << b as u64;
        proof {
            lemma_bit_test(w, b as u64);
            lemma_index_split(word as int, b as int);
            assert(index == word * 64 + b);
        }
        if w & mask == 0 {
            return false;
        }
        let ghost before = self.allocated@;
        self.allocated.set(word, w & !mask);
        proof {
            lemma_clear_mark(before, self.allocated@, index as int);
            assert forall|j: int| 0 <= j < self.frame_count && j != index implies marked(self.allocated@, j) == marked(before, j) by {
                assert(marked(self.allocated@, j) == (marked(before, j) && j != index));
            }
            lemma_count_update(before, self.allocated@, index as int, self.frame_count as int);
            lemma_count_bound(self.allocated@, self.frame_count as int);
            assert forall|i: int| 0 <= i < WORDS * 64 && #[trigger] marked(self.allocated@, i) implies i < self.high_water by {
                assert(marked(before, i));
            }
        }
        self.allocated_frames = self.allocated_frames - 1;
        if word < self.next_word {
            self.next_word = word;
        }
        proof {
            assert forall|i: int| 0 <= i < self.next_word * 64 && i < self.frame_count implies #[trigger] marked(self.allocated@, i) by {
                assert(i < word * 64);
                assert(marked(before, i));
            }
        }
        true
    }

    pub fn usable_bytes(&self) -> (r: u64)
        requires
            self.wf(),
        ensures
            r == self.frames() * 4096,
    {
        self.frame_count as u64 * PAGE_SIZE
    }

    pub fn allocated_frames(&self) -> (r: u64)
        ensures
            r == self.granted(),
    {
        self.allocated_frames
    }

    pub fn region_count(&self) -> (r: usize)
        ensures
            r == self.layout().len(),
    {
        self.regions.len()
    }

    /// Frames granted once and since returned: the high-water mark less
    /// the frames granted now.
    pub fn recycled_frames(&self) -> (r: usize)
        requires
            self.wf(),
        ensures
            r == self.high_water_mark() - self.granted(),
    {
        self.high_water - self.allocated_frames as usize
    }

    /// The bitmap, the grant count and the high-water mark agree.
    pub closed spec fn consistent(&self) -> bool {
        &&& popcount_words(self.allocated@, WORDS as int) == self.allocated_frames
        &&& self.high_water <= self.frame_count
        &&& self.allocated_frames <= self.high_water
    }

    pub fn is_consistent(&self) -> (r: bool)
        requires
            self.wf(),
        ensures
            r == self.consistent(),
    {
        let mut total: u64 = 0;
        let mut k: usize = 0;
        let mut over = false;
        while k < WORDS
            invariant
                k <= WORDS,
                self.allocated@.len() == WORDS,
                !over ==> total == popcount_words(self.allocated@, k as int),
                over ==> popcount_words(self.allocated@, k as int) > u64::MAX,
            decreases WORDS - k,
        {
            let c = count_ones(self.allocated[k]);
            if !over {
                if total > u64::MAX - c {
                    over = true;
                } else {
                    total = total + c;
                }
            }
            k += 1;
        }
        !over && total == self.allocated_frames && self.high_water <= self.frame_count
            && self.allocated_frames <= self.high_water as u64
    }

    fn overlaps_any(&self, start: u64, end: u64) -> (r: bool)
        ensures
            r == overlaps(self.layout(), start, end),
    {
        let mut k: usize = 0;
        while k < self.regions.len()
            invariant
                k <= self.regions@.len(),
                forall|j: int| 0 <= j < k ==> !(start < #[trigger] self.layout()[j].1 && self.layout()[j].0 < end),
            decreases self.regions@.len() - k,
        {
            let r = self.regions[k];
            if start < r.end && r.start < end {
                assert(start < self.layout()[k as int].1 && self.layout()[k as int].0 < end);
                return true;
            }
            k += 1;
        }
        false
    }


    /// Inserts the region `[start, end)` where it keeps the layout sorted.
    #[verifier::rlimit(100)]
    #[verifier::spinoff_prover]
    fn insert_region(&mut self, start: u64, end: u64, total: usize)
        requires
            old(self).wf(),
            !old(self).started,
            region_ok(FrameRegion { start, end, first: 0 }),
            total == old(self).frame_count + (end - start) / 4096,
            total <= WORDS * 64,
            old(self).regions@.len() < MAX_USABLE_REGIONS,
            !overlaps(old(self).layout(), start, end),
        ensures
            final(self).wf(),
            final(self).layout() == old(self).layout().insert(insert_position(old(self).layout(), start), (start, end)),
            final(self).frame_count == total,
            final(self).allocated@ == old(self).allocated@,
            final(self).started == old(self).started,
            final(self).allocated_frames == old(self).allocated_frames,
            final(self).high_water == old(self).high_water,
    {
        let ghost layout = self.layout();
        let ghost rs = self.regions@;
        let mut slot = self.regions.len();
        assert(layout.subrange(0, slot as int) =~= layout);
        while slot > 0 && self.regions[slot - 1].start > start
            invariant
                rs == self.regions@,
                layout == self.layout(),
                slot <= rs.len(),
                insert_position(layout, start) == insert_position(layout.subrange(0, slot as int), start),
                forall|j: int| slot <= j < rs.len() ==> #[trigger] rs[j].start > start,
            decreases slot,
        {
            assert(layout.subrange(0, slot as int).drop_last() =~= layout.subrange(0, slot - 1));
            slot -= 1;
        }
        proof {
            if slot > 0 {
                assert(layout.subrange(0, slot as int).last().0 <= start);
            }
            assert(insert_position(layout, start) == slot);
        }
        let x = FrameRegion { start, end, first: 0 };
        assert(region_frames(x) == (end - start) / 4096);
        self.regions.insert(slot, x);
        let ghost inserted = self.regions@;
        proof {
            assert(inserted == rs.insert(slot as int, x));
            lemma_frames_before_insert(rs, slot as int, x, rs.len() as int + 1);
        }
        let mut i: usize = 0;
        let mut first: usize = 0;
        while i < self.regions.len()
            invariant
                self.allocated@ == old(self).allocated@,
                self.frame_count == old(self).frame_count,
                self.high_water == old(self).high_water,
                self.allocated_frames == old(self).allocated_frames,
                self.started == old(self).started,
                self.next_word == old(self).next_word,
                self.regions@.len() == inserted.len(),
                inserted.len() <= MAX_USABLE_REGIONS,
                i <= inserted.len(),
                forall|j: int| 0 <= j < inserted.len() ==> (#[trigger] self.regions@[j]).start == inserted[j].start
                    && self.regions@[j].end == inserted[j].end,
                forall|j: int| 0 <= j < i ==> (#[trigger] self.regions@[j]).first == frames_before(inserted, j),
                first == frames_before(inserted, i as int),
                frames_before(inserted, inserted.len() as int) == total,
                forall|j: int| 0 <= j < inserted.len() ==> region_frames(#[trigger] inserted[j]) >= 0,
            decreases inserted.len() - i,
        {
            let mut r = self.regions[i];
            r.first = first;
            self.regions.set(i, r);
            proof {
                lemma_frames_before_monotone_any(inserted, i + 1, inserted.len() as int);
            }
            first = first + ((r.end - r.start) / PAGE_SIZE) as usize;
            i += 1;
        }
        self.frame_count = total;
        self.next_word = 0;
        proof {
            let fin = self.regions@;
            lemma_frames_before_ext(fin, inserted, fin.len() as int);
            assert forall|k: int| 0 <= k < layout.len() implies !(start < #[trigger] rs[k].end && rs[k].start < end) by {
                assert(!(start < layout[k].1 && layout[k].0 < end));
            }
            lemma_insert_keeps_layout(rs, inserted, fin, slot as int, x);
            assert(self.layout() =~= layout.insert(slot as int, (start, end)));
            assert forall|j: int| 0 <= j < self.frame_count && marked(self.allocated@, j) implies j < 0 by {
                assert(self.allocated@ == old(self).allocated@);
                assert(j < old(self).high_water);
            }
            lemma_count_below(self.allocated@, self.frame_count as int, 0);
            lemma_count_bound(self.allocated@, self.frame_count as int);
        }
    }

    /// Adds a firmware region before the first grant; see `spec_add_region`.
    #[verifier::rlimit(100)]
    #[verifier::spinoff_prover]
    pub fn add_region(&mut self, region: MemoryRegion) -> (r: bool)
        requires
            old(self).wf(),
        ensures
            final(self).wf(),
            (r, final(self).layout(), final(self).frames()) == spec_add_region(
                old(self).layout(),
                old(self).frames(),
                WORDS * 64,
                old(self).frozen(),
                region,
            ),
            final(self).frozen() == old(self).frozen(),
            final(self).granted() == old(self).granted(),
            final(self).high_water_mark() == old(self).high_water_mark(),
            forall|j: int| 0 <= j < final(self).frames() ==> #[trigger] final(self).used(j) == old(self).used(j),
    {
        if region.kind != MemoryRegionKind::Usable {
            return true;
        }
        if self.started {
            return false;
        }
        let low = if region.start < PAGE_SIZE {
            PAGE_SIZE
        } else {
            region.start
        };
        let start = align_up(low);
        let raw_end = match region.start.checked_add(region.size) {
            None => return false,
            Some(e) => e,
        };
        let end = align_down(raw_end);
        if start >= end {
            return true;
        }
        let frames64 = (end - start) / PAGE_SIZE;
        if frames64 > usize::MAX as u64 {
            return false;
        }
        let frames = frames64 as usize;
        let total = match self.frame_count.checked_add(frames) {
            None => return false,
            Some(t) => t,
        };
        if self.regions.len() == MAX_USABLE_REGIONS || total > WORDS * 64 || self.overlaps_any(start, end) {
            return false;
        }
        proof {
            assert(start % 4096 == 0 && end % 4096 == 0 && 4096 <= start);
        }
        self.insert_region(start, end, total);
        true
    }

    /// The lowest unused frame from `from` on is just that: unused, with
    /// every frame between `from` and it in use; when there is none, every
    /// frame from `from` on is in use.
    pub proof fn lemma_first_unused(&self, from: int)
        requires
            self.wf(),
            0 <= from,
        ensures
            self.first_unused(from) matches Some(i) ==> from <= i < self.frames() && !self.used(i)
                && forall|j: int| from <= j < i ==> #[trigger] self.used(j),
            self.first_unused(from) is None ==> forall|j: int| from <= j < self.frames() ==> #[trigger] self.used(j),
        decreases self.frames() - from,
    {
        if from < self.frames() && self.used(from) {
            self.lemma_first_unused(from + 1);
        }
    }

    /// The frames before region `k` of the layout.
    pub open spec fn layout_frames_before(l: Seq<(u64, u64)>, k: int) -> int
        decreases k,
    {
        if k <= 0 {
            0
        } else {
            Self::layout_frames_before(l, k - 1) + (l[k - 1].1 - l[k - 1].0) / 4096
        }
    }

    proof fn lemma_layout_counts(&self, k: int)
        requires
            self.wf(),
            0 <= k <= self.regions@.len(),
        ensures
            Self::layout_frames_before(self.layout(), k) == frames_before(self.regions@, k),
        decreases k,
    {
        if k > 0 {
            self.lemma_layout_counts(k - 1);
        }
    }

    /// The frames are numbered through the regions of the layout in order:
    /// frame `i` is the page `i - before` of the region that holds it, where
    /// `before` counts the frames of the regions ahead of it; and there are
    /// as many frames as the regions hold.
    pub proof fn lemma_frame_of_layout(&self, i: int)
        requires
            self.wf(),
            0 <= i < self.frames(),
        ensures
            self.frames() == Self::layout_frames_before(self.layout(), self.layout().len() as int),
            exists|k: int|
                0 <= k < self.layout().len() && Self::layout_frames_before(self.layout(), k) <= i
                    < Self::layout_frames_before(self.layout(), k + 1) && self.frame_of(i) == self.layout()[k].0
                    + (i - Self::layout_frames_before(self.layout(), k)) * 4096,
    {
        let rs = self.regions@;
        self.lemma_layout_counts(rs.len() as int);
        let k = self.lemma_index_has_region(i);
        self.lemma_layout_counts(k);
        self.lemma_layout_counts(k + 1);
        let c = choose|c: int| 0 <= c < rs.len() && #[trigger] rs[c].first <= i < rs[c].first + region_frames(rs[c]);
        self.lemma_region_of_index_unique(c, k, i);
        assert(self.layout()[k] == (rs[k].start, rs[k].end));
    }

    /// Every frame index names one page-aligned frame above the null page
    /// inside a usable region, and the frame names the index back: distinct
    /// grants never alias, and a returned frame is found again.
    pub proof fn lemma_frame_roundtrip(&self, i: int)
        requires
            self.wf(),
            0 <= i < self.frames(),
        ensures
            self.frame_of(i) % 4096 == 0,
            self.frame_of(i) >= 4096,
            self.index_of(self.frame_of(i)) == Some(i),
    {
        let rs = self.regions@;
        let k = self.lemma_index_has_region(i);
        assert forall|a: int, b: int| 0 <= a < rs.len() && 0 <= b < rs.len() && a != b implies !(#[trigger] rs[a].first <= i < rs[a].first + region_frames(rs[a])
            && #[trigger] rs[b].first <= i < rs[b].first + region_frames(rs[b])) by {
            if rs[a].first <= i < rs[a].first + region_frames(rs[a]) && rs[b].first <= i < rs[b].first + region_frames(rs[b]) {
                self.lemma_region_of_index_unique(a, b, i);
            }
        }
        lemma_roundtrip_in(rs, i, k);
    }

    /// Two distinct frame indices never share a frame.
    pub proof fn lemma_frames_never_alias(&self, i: int, j: int)
        requires
            self.wf(),
            0 <= i < self.frames(),
            0 <= j < self.frames(),
            i != j,
        ensures
            self.frame_of(i) != self.frame_of(j),
    {
        self.lemma_frame_roundtrip(i);
        self.lemma_frame_roundtrip(j);
    }

    /// The allocator stays consistent: the set bits of the bitmap are the
    /// frames granted, and no more are granted than ever were.
    pub proof fn lemma_always_consistent(&self)
        requires
            self.wf(),
        ensures
            self.consistent(),
    {
        let words = self.allocated@;
        if WORDS > 0 {
            lemma_count_words(words, WORDS - 1, 64);
            lemma_popcount_bits(words[WORDS - 1]);
            assert((WORDS - 1) * 64 + 64 == WORDS * 64);
            assert(popcount_words(words, WORDS as int) == popcount_words(words, WORDS - 1) + popcount(words[WORDS - 1]));
        }
        assert forall|j: int| self.frame_count <= j < WORDS * 64 implies !#[trigger] marked(words, j) by {
            if marked(words, j) {
                assert(j < self.high_water);
            }
        }
        lemma_count_flat(words, self.frame_count as int, WORDS * 64);
    }
}

} // verus!
