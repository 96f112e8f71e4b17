//! Transactional supervisor page-table cloning. Leaf frames stay owned by
//! their original subsystem; only newly allocated table pages are rolled
//! back when a clone cannot be finished.
use vstd::prelude::*;

verus! {

pub const PRESENT: u64 = 1;
pub const USER: u64 = 4;
pub const HUGE: u64 = 128;
pub const ADDRESS_MASK: u64 = 0x000f_ffff_ffff_f000;
/// Entries of one table.
pub const TABLE_ENTRIES: usize = 512;

/// Storage of page-table pages, named by their physical addresses. A
/// table that this instance allocated is owned by it until released.
pub trait TableMemory {
    /// The live tables and their entries.
    spec fn tables(&self) -> Map<u64, Seq<u64>>;

    /// The tables this instance allocated and has not released.
    spec fn owned(&self) -> Set<u64>;

    /// How many more tables an allocation is sure to find.
    spec fn free_tables(&self) -> nat;

    /// A new zeroed table at a page address, owned from now on; nothing
    /// changes when none is left.
    fn allocate(&mut self) -> (r: Option<u64>)
        ensures
            old(self).free_tables() > 0 ==> r is Some,
            match r {
                None => final(self).tables() == old(self).tables() && final(self).owned() == old(self).owned()
                    && final(self).free_tables() == old(self).free_tables(),
                Some(t) => {
                    &&& !old(self).tables().contains_key(t)
                    &&& t & !ADDRESS_MASK == 0
                    &&& final(self).tables() == old(self).tables().insert(t, Seq::new(512, |i: int| 0u64))
                    &&& final(self).owned() == old(self).owned().insert(t)
                    &&& final(self).free_tables() + 1 == old(self).free_tables()
                },
            },
    ;

    fn read(&self, table: u64, slot: usize) -> (r: u64)
        requires
            self.tables().contains_key(table),
            slot < self.tables()[table].len(),
        ensures
            r == self.tables()[table][slot as int],
    ;

    fn write(&mut self, table: u64, slot: usize, entry: u64)
        requires
            old(self).tables().contains_key(table),
            slot < old(self).tables()[table].len(),
        ensures
            final(self).tables() == old(self).tables().insert(table, old(self).tables()[table].update(slot as int, entry)),
            final(self).owned() == old(self).owned(),
            final(self).free_tables() == old(self).free_tables(),
    ;

    fn release(&mut self, table: u64)
        requires
            old(self).owned().contains(table),
        ensures
            final(self).tables() == old(self).tables().remove(table),
            final(self).owned() == old(self).owned().remove(table),
            final(self).free_tables() >= old(self).free_tables(),
    ;
}

/// Every table has its entries, and every owned table is live.
pub open spec fn memory_ok(t: Map<u64, Seq<u64>>, owned: Set<u64>) -> bool {
    &&& forall|k: u64| #[trigger] t.contains_key(k) ==> t[k].len() == 512
    &&& forall|k: u64| #[trigger] owned.contains(k) ==> t.contains_key(k)
}

/// An entry at `level` that points to a table of the level below: present,
/// and neither in the last level nor a huge page of levels three to one.
pub open spec fn descends(e: u64, level: int) -> bool {
    e & PRESENT != 0 && !(level == 1 || (level <= 3 && e & HUGE != 0))
}

pub open spec fn child(e: u64) -> u64 {
    e & ADDRESS_MASK
}

/// The tables of the tree rooted at `d` of depth `level`, when it is a
/// tree: every table live, and no table reached twice.
pub open spec fn tree_tables(t: Map<u64, Seq<u64>>, d: u64, level: int) -> Option<Set<u64>>
    decreases level, 513int,
{
    if level < 1 || !t.contains_key(d) || t[d].len() != 512 {
        None
    } else if level == 1 {
        Some(Set::empty().insert(d))
    } else {
        match slot_tables(t, d, level, 512) {
            None => None,
            Some(s) => if s.contains(d) {
                None
            } else {
                Some(s.insert(d))
            },
        }
    }
}

/// The tables below the first `n` entries of table `d` at `level`.
pub open spec fn slot_tables(t: Map<u64, Seq<u64>>, d: u64, level: int, n: int) -> Option<Set<u64>>
    decreases level, n,
{
    if n <= 0 || level < 2 || n > 512 {
        Some(Set::empty())
    } else {
        match slot_tables(t, d, level, n - 1) {
            None => None,
            Some(s) => {
                let e = t[d][n - 1];
                if !descends(e, level) {
                    Some(s)
                } else {
                    match tree_tables(t, child(e), level - 1) {
                        None => None,
                        Some(c) => if c.disjoint(s) {
                            Some(s.union(c))
                        } else {
                            None
                        },
                    }
                }
            },
        }
    }
}

/// A source tree: every table reached from `s` within `level` levels is
/// live. Tables may be shared.
pub open spec fn source_ok(t: Map<u64, Seq<u64>>, s: u64, level: int) -> bool
    decreases level,
{
    &&& t.contains_key(s)
    &&& t[s].len() == 512
    &&& (level > 1 ==> forall|i: int|
        0 <= i < 512 && #[trigger] descends(t[s][i], level) ==> source_ok(t, child(t[s][i]), level - 1))
}

/// The tables of a tree are live.
proof fn lemma_tree_live(t: Map<u64, Seq<u64>>, d: u64, level: int)
    requires
        tree_tables(t, d, level) is Some,
    ensures
        forall|k: u64| #[trigger] tree_tables(t, d, level)->0.contains(k) ==> t.contains_key(k),
    decreases level, 513int,
{
    if level >= 2 {
        lemma_slots_live(t, d, level, 512);
    }
}

proof fn lemma_slots_live(t: Map<u64, Seq<u64>>, d: u64, level: int, n: int)
    requires
        slot_tables(t, d, level, n) is Some,
        level >= 2,
    ensures
        forall|k: u64| #[trigger] slot_tables(t, d, level, n)->0.contains(k) ==> t.contains_key(k),
    decreases level, n,
{
    if 0 < n <= 512 {
        lemma_slots_live(t, d, level, n - 1);
        let e = t[d][n - 1];
        if descends(e, level) {
            lemma_tree_live(t, child(e), level - 1);
        }
    }
}

/// A tree reads only its own tables: another map that agrees on them has
/// the same tree.
proof fn lemma_frame_tree(t1: Map<u64, Seq<u64>>, t2: Map<u64, Seq<u64>>, d: u64, level: int)
    requires
        tree_tables(t1, d, level) is Some,
        forall|k: u64|
            #[trigger] tree_tables(t1, d, level)->0.contains(k) ==> t2.contains_key(k) && t2[k] == t1[k],
    ensures
        tree_tables(t2, d, level) == tree_tables(t1, d, level),
    decreases level, 513int,
{
    let s = tree_tables(t1, d, level)->0;
    assert(s.contains(d));
    if level >= 2 {
        let inner = slot_tables(t1, d, level, 512)->0;
        assert forall|k: u64| #[trigger] inner.contains(k) implies t2.contains_key(k) && t2[k] == t1[k] by {
            assert(s.contains(k));
        }
        lemma_frame_slots(t1, t2, d, level, 512);
    }
}

proof fn lemma_frame_slots(t1: Map<u64, Seq<u64>>, t2: Map<u64, Seq<u64>>, d: u64, level: int, n: int)
    requires
        slot_tables(t1, d, level, n) is Some,
        level >= 2,
        t1.contains_key(d) && t2.contains_key(d),
        forall|i: int| 0 <= i < n ==> t2[d][i] == t1[d][i],
        forall|k: u64|
            #[trigger] slot_tables(t1, d, level, n)->0.contains(k) ==> t2.contains_key(k) && t2[k] == t1[k],
    ensures
        slot_tables(t2, d, level, n) == slot_tables(t1, d, level, n),
    decreases level, n,
{
    if 0 < n <= 512 {
        let s = slot_tables(t1, d, level, n - 1)->0;
        let full = slot_tables(t1, d, level, n)->0;
        let e = t1[d][n - 1];
        if descends(e, level) {
            let c = tree_tables(t1, child(e), level - 1)->0;
            assert(s.subset_of(full));
            assert(c.subset_of(full));
            lemma_frame_slots(t1, t2, d, level, n - 1);
            lemma_frame_tree(t1, t2, child(e), level - 1);
        } else {
            lemma_frame_slots(t1, t2, d, level, n - 1);
        }
    }
}

/// The tables below a prefix of the entries are among those below a
/// longer one.
proof fn lemma_slots_prefix(t: Map<u64, Seq<u64>>, d: u64, level: int, m: int, n: int)
    requires
        slot_tables(t, d, level, n) is Some,
        0 <= m <= n <= 512,
        level >= 2,
    ensures
        slot_tables(t, d, level, m) is Some,
        slot_tables(t, d, level, m)->0.subset_of(slot_tables(t, d, level, n)->0),
    decreases n - m,
{
    if m < n {
        lemma_slots_prefix(t, d, level, m, n - 1);
    }
}

/// Entries that are not present add no tables.
proof fn lemma_slots_absent(t: Map<u64, Seq<u64>>, d: u64, level: int, m: int, n: int)
    requires
        0 <= m <= n <= 512,
        level >= 2,
        forall|i: int| m <= i < n ==> t[d][i] & PRESENT == 0,
    ensures
        slot_tables(t, d, level, n) == slot_tables(t, d, level, m),
    decreases n - m,
{
    if m < n {
        lemma_slots_absent(t, d, level, m, n - 1);
    }
}

/// A source tree stays one in a map that keeps every table of the first.
proof fn lemma_frame_source(t1: Map<u64, Seq<u64>>, t2: Map<u64, Seq<u64>>, s: u64, level: int)
    requires
        source_ok(t1, s, level),
        forall|k: u64| #[trigger] t1.contains_key(k) ==> t2.contains_key(k) && t2[k] == t1[k],
    ensures
        source_ok(t2, s, level),
    decreases level,
{
    if level > 1 {
        assert forall|i: int| 0 <= i < 512 && #[trigger] descends(t2[s][i], level) implies source_ok(
            t2,
            child(t2[s][i]),
            level - 1,
        ) by {
            lemma_frame_source(t1, t2, child(t1[s][i]), level - 1);
        }
    }
}

/// Releases a private tree built by `clone_supervisor`: every table of it,
/// and nothing else. The leaf frames it points to are borrowed and stay.
pub fn release_clone<M: TableMemory>(memory: &mut M, root: u64, level: u8)
    requires
        memory_ok(old(memory).tables(), old(memory).owned()),
        tree_tables(old(memory).tables(), root, level as int) is Some,
        tree_tables(old(memory).tables(), root, level as int)->0.subset_of(old(memory).owned()),
    ensures
        memory_ok(final(memory).tables(), final(memory).owned()),
        final(memory).tables() == old(memory).tables().remove_keys(
            tree_tables(old(memory).tables(), root, level as int)->0,
        ),
        final(memory).owned() == old(memory).owned().difference(
            tree_tables(old(memory).tables(), root, level as int)->0,
        ),
    decreases level,
{
    let ghost t0 = memory.tables();
    let ghost o0 = memory.owned();
    let ghost all = tree_tables(t0, root, level as int)->0;
    let ghost released: Set<u64> = Set::empty();
    if level > 1 {
        let ghost below = slot_tables(t0, root, level as int, 512)->0;
        let mut slot: usize = 0;
        while slot < TABLE_ENTRIES
            invariant
                1 < level,
                t0.contains_key(root) && t0[root].len() == 512,
                memory_ok(t0, o0),
                all == below.insert(root),
                !below.contains(root),
                all.subset_of(o0),
                slot_tables(t0, root, level as int, 512) == Some(below),
                slot <= 512,
                slot_tables(t0, root, level as int, slot as int) == Some(released),
                released.subset_of(below),
                memory.tables() == t0.remove_keys(released),
                memory.owned() == o0.difference(released),
            decreases 512 - slot,
        {
            proof {
                lemma_slots_prefix(t0, root, level as int, slot as int + 1, 512);
            }
            let entry = memory.read(root, slot);
            assert(entry == t0[root][slot as int]);
            if entry & PRESENT != 0 && !(level <= 3 && entry & HUGE != 0) {
                let ghost c = tree_tables(t0, child(entry), level - 1)->0;
                proof {
                    assert(descends(entry, level as int));
                    assert(slot_tables(t0, root, level as int, slot as int + 1) == Some(released.union(c)));
                    lemma_tree_live(t0, child(entry), level - 1);
                    lemma_frame_tree(t0, memory.tables(), child(entry), level - 1);
                    assert(c.subset_of(below));
                }
                release_clone(memory, entry & ADDRESS_MASK, level - 1);
                proof {
                    assert(memory.tables() =~= t0.remove_keys(released.union(c)));
                    assert(memory.owned() =~= o0.difference(released.union(c)));
                    released = released.union(c);
                }
            } else {
                proof {
                    assert(!descends(entry, level as int));
                }
            }
            slot += 1;
        }
        proof {
            assert(released == below);
        }
    }
    memory.release(root);
    proof {
        if level <= 1 {
            assert(all =~= Set::empty().insert(root));
        }
        assert(memory.tables() =~= t0.remove_keys(all));
        assert(memory.owned() =~= o0.difference(all));
    }
}

/// `t1`/`o1` extend `t0`/`o0` by new owned tables only: every table of
/// `t0` is kept as it was, and every other table of `t1` is new and owned.
pub open spec fn grown(t0: Map<u64, Seq<u64>>, o0: Set<u64>, t1: Map<u64, Seq<u64>>, o1: Set<u64>) -> bool {
    &&& o0.subset_of(o1)
    &&& forall|k: u64| #[trigger] t0.contains_key(k) ==> t1.contains_key(k) && t1[k] == t0[k]
    &&& forall|k: u64| #[trigger] t1.contains_key(k) ==> t0.contains_key(k) || (o1.contains(k) && !o0.contains(k))
    &&& forall|k: u64| #[trigger] o1.contains(k) && !o0.contains(k) ==> !t0.contains_key(k)
}

/// No entry of the tables in `set` grants user access.
pub open spec fn user_clear(t: Map<u64, Seq<u64>>, set: Set<u64>) -> bool {
    forall|k: u64, i: int| #[trigger] set.contains(k) && 0 <= i < t[k].len() ==> #[trigger] t[k][i] & USER == 0
}

proof fn lemma_entry_bits(entry: u64, c: u64)
    requires
        c & !ADDRESS_MASK == 0,
    ensures
        (c | (entry & !ADDRESS_MASK & !USER)) & PRESENT == entry & PRESENT,
        (c | (entry & !ADDRESS_MASK & !USER)) & HUGE == entry & HUGE,
        (c | (entry & !ADDRESS_MASK & !USER)) & ADDRESS_MASK == c,
        (c | (entry & !ADDRESS_MASK & !USER)) & USER == 0,
        (entry & !USER) & PRESENT == entry & PRESENT,
        (entry & !USER) & HUGE == entry & HUGE,
        0u64 & PRESENT == 0,
{
    assert((c | (entry & !0x000f_ffff_ffff_f000u64 & !4u64)) & 1u64 == entry & 1u64
        && (c | (entry & !0x000f_ffff_ffff_f000u64 & !4u64)) & 128u64 == entry & 128u64
        && (c | (entry & !0x000f_ffff_ffff_f000u64 & !4u64)) & 0x000f_ffff_ffff_f000u64 == c
        && (c | (entry & !0x000f_ffff_ffff_f000u64 & !4u64)) & 4u64 == 0u64) by (bit_vector)
        requires
            c & !0x000f_ffff_ffff_f000u64 == 0u64;
    lemma_leaf_bits(entry);
}

proof fn lemma_leaf_bits(entry: u64)
    ensures
        (entry & !USER) & PRESENT == entry & PRESENT,
        (entry & !USER) & HUGE == entry & HUGE,
        (entry & !USER) & USER == 0,
        0u64 & PRESENT == 0,
        0u64 & USER == 0,
{
    assert((entry & !4u64) & 4u64 == 0u64 && 0u64 & 4u64 == 0u64 && (entry & !4u64) & 1u64 == entry & 1u64
        && (entry & !4u64) & 128u64 == entry & 128u64 && 0u64 & 1u64 == 0u64) by (bit_vector);
}

/// Entry `f` of a copy matches source entry `e` at `level`: an absent
/// entry stays zero, a leaf keeps its frame with the user bit cleared, and a
/// directory entry keeps its flags but the user bit, with a new address.
pub open spec fn entry_copied(f: u64, e: u64, level: int) -> bool {
    if e & PRESENT == 0 {
        f == 0
    } else if !descends(e, level) {
        f == e & !USER
    } else {
        f == child(f) | (e & !ADDRESS_MASK & !USER)
    }
}

/// Table `d` of `t1` is a copy of the tree rooted at source table `s` of
/// `t0`, of depth `level`: every entry is copied, and every directory entry
/// points to a copy of the source's child table.
pub open spec fn clone_of(t1: Map<u64, Seq<u64>>, d: u64, t0: Map<u64, Seq<u64>>, s: u64, level: int) -> bool
    decreases level,
{
    &&& level >= 1
    &&& t1.contains_key(d) && t1[d].len() == 512
    &&& t0.contains_key(s) && t0[s].len() == 512
    &&& forall|i: int|
        0 <= i < 512 ==> #[trigger] entry_copied(t1[d][i], t0[s][i], level) && (level >= 2 && descends(
            t0[s][i],
            level,
        ) ==> clone_of(t1, child(t1[d][i]), t0, child(t0[s][i]), level - 1))
}

/// The child tables below the first `n` entries are among those the
/// entries reach.
proof fn lemma_child_in_slots(t: Map<u64, Seq<u64>>, d: u64, level: int, n: int, i: int)
    requires
        slot_tables(t, d, level, n) is Some,
        level >= 2,
        0 <= i < n <= 512,
        descends(t[d][i], level),
    ensures
        tree_tables(t, child(t[d][i]), level - 1) is Some,
        tree_tables(t, child(t[d][i]), level - 1)->0.subset_of(slot_tables(t, d, level, n)->0),
{
    lemma_slots_prefix(t, d, level, i + 1, n);
}

proof fn lemma_copy_bits(f: u64, e: u64)
    requires
        f == (f & ADDRESS_MASK) | (e & !ADDRESS_MASK & !USER),
    ensures
        f & PRESENT == e & PRESENT,
        f & HUGE == e & HUGE,
{
    assert(f & 1u64 == e & 1u64 && f & 128u64 == e & 128u64) by (bit_vector)
        requires
            f == (f & 0x000f_ffff_ffff_f000u64) | (e & !0x000f_ffff_ffff_f000u64 & !4u64);
}

/// A copy reads only the tables of its own tree: another map that agrees on
/// them holds the same copy.
proof fn lemma_frame_clone(
    t1: Map<u64, Seq<u64>>,
    t2: Map<u64, Seq<u64>>,
    d: u64,
    t0: Map<u64, Seq<u64>>,
    s: u64,
    level: int,
)
    requires
        clone_of(t1, d, t0, s, level),
        tree_tables(t1, d, level) is Some,
        forall|k: u64| #[trigger] tree_tables(t1, d, level)->0.contains(k) ==> t2.contains_key(k) && t2[k] == t1[k],
    ensures
        clone_of(t2, d, t0, s, level),
    decreases level,
{
    let set = tree_tables(t1, d, level)->0;
    assert(set.contains(d));
    assert forall|i: int| 0 <= i < 512 implies #[trigger] entry_copied(t2[d][i], t0[s][i], level) && (level >= 2
        && descends(t0[s][i], level) ==> clone_of(t2, child(t2[d][i]), t0, child(t0[s][i]), level - 1)) by {
        let e = t0[s][i];
        let f = t1[d][i];
        assert(entry_copied(f, e, level));
        if level >= 2 && descends(e, level) {
            lemma_copy_bits(f, e);
            assert(descends(f, level));
            lemma_child_in_slots(t1, d, level, 512, i);
            let sub = tree_tables(t1, child(f), level - 1)->0;
            assert forall|k: u64| #[trigger] sub.contains(k) implies t2.contains_key(k) && t2[k] == t1[k] by {
                assert(set.contains(k));
            }
            lemma_frame_clone(t1, t2, child(f), t0, child(e), level - 1);
        }
    }
}

/// A copy of a source tree stays one against a source map that keeps every
/// table of the first.
#[verifier::spinoff_prover]
proof fn lemma_frame_clone_source(
    t1: Map<u64, Seq<u64>>,
    d: u64,
    ta: Map<u64, Seq<u64>>,
    tb: Map<u64, Seq<u64>>,
    s: u64,
    level: int,
)
    requires
        clone_of(t1, d, ta, s, level),
        source_ok(tb, s, level),
        forall|k: u64| #[trigger] tb.contains_key(k) ==> ta.contains_key(k) && ta[k] == tb[k],
    ensures
        clone_of(t1, d, tb, s, level),
    decreases level,
{
    assert(tb.contains_key(s) && ta[s] == tb[s]);
    assert forall|i: int| 0 <= i < 512 && level >= 2 && descends(tb[s][i], level) implies clone_of(
        t1,
        child(t1[d][i]),
        tb,
        child(tb[s][i]),
        level - 1,
    ) by {
        let e = tb[s][i];
        assert(entry_copied(t1[d][i], ta[s][i], level));
        if level >= 2 && descends(e, level) {
            assert(source_ok(tb, child(e), level - 1));
            lemma_frame_clone_source(t1, child(t1[d][i]), ta, tb, child(e), level - 1);
        }
    }
    assert forall|i: int| 0 <= i < 512 implies #[trigger] entry_copied(t1[d][i], tb[s][i], level) by {
        assert(entry_copied(t1[d][i], ta[s][i], level));
    }
    assert(level >= 1);
    assert(t1.contains_key(d) && t1[d].len() == 512);
    assert(tb.contains_key(s) && tb[s].len() == 512);
}

/// The first `n` entries of table `d` of `t1` are copies of those of source
/// table `s` of `t0`.
pub open spec fn copied_upto(t1: Map<u64, Seq<u64>>, d: u64, t0: Map<u64, Seq<u64>>, s: u64, level: int, n: int) -> bool {
    forall|i: int|
        0 <= i < n ==> #[trigger] entry_copied(t1[d][i], t0[s][i], level) && (level >= 2 && descends(
            t0[s][i],
            level,
        ) ==> clone_of(t1, child(t1[d][i]), t0, child(t0[s][i]), level - 1))
}

/// Copies already made stay copies while the table being filled changes
/// only past them and no table below them changes.
proof fn lemma_copies_kept(
    t1: Map<u64, Seq<u64>>,
    t2: Map<u64, Seq<u64>>,
    d: u64,
    t0: Map<u64, Seq<u64>>,
    s: u64,
    level: int,
    n: int,
)
    requires
        copied_upto(t1, d, t0, s, level, n),
        0 <= n <= 512,
        t1.contains_key(d) && t2.contains_key(d),
        forall|i: int| 0 <= i < n ==> t2[d][i] == t1[d][i],
        level >= 2 ==> slot_tables(t1, d, level, n) is Some,
        level >= 2 ==> forall|k: u64|
            #[trigger] slot_tables(t1, d, level, n)->0.contains(k) ==> t2.contains_key(k) && t2[k] == t1[k],
    ensures
        copied_upto(t2, d, t0, s, level, n),
{
    assert forall|i: int| 0 <= i < n && level >= 2 && descends(t0[s][i], level) implies clone_of(
        t2,
        child(t2[d][i]),
        t0,
        child(t0[s][i]),
        level - 1,
    ) by {
        let e = t0[s][i];
        let f = t1[d][i];
        assert(entry_copied(f, e, level));
        if level >= 2 && descends(e, level) {
            lemma_copy_bits(f, e);
            assert(descends(f, level));
            lemma_child_in_slots(t1, d, level, n, i);
            lemma_frame_clone(t1, t2, child(f), t0, child(e), level - 1);
        }
    }
    assert forall|i: int| 0 <= i < n implies #[trigger] entry_copied(t2[d][i], t0[s][i], level) by {
        assert(entry_copied(t1[d][i], t0[s][i], level));
    }
}

/// How many tables a copy of the source tree rooted at `s` of depth
/// `level` takes: one for the root and, for each directory entry, those of
/// its child.
pub open spec fn needed(t: Map<u64, Seq<u64>>, s: u64, level: int) -> nat
    decreases level, 513int,
{
    if level < 1 {
        0
    } else {
        1 + needed_upto(t, s, level, 512)
    }
}

/// The tables the copies of the children below the first `n` entries take.
pub open spec fn needed_upto(t: Map<u64, Seq<u64>>, s: u64, level: int, n: int) -> nat
    decreases level, n,
{
    if n <= 0 || level < 2 || n > 512 {
        0
    } else {
        needed_upto(t, s, level, n - 1) + if descends(t[s][n - 1], level) {
            needed(t, child(t[s][n - 1]), level - 1)
        } else {
            0
        }
    }
}

proof fn lemma_needed_upto_grows(t: Map<u64, Seq<u64>>, s: u64, level: int, m: int, n: int)
    requires
        0 <= m <= n <= 512,
    ensures
        needed_upto(t, s, level, m) <= needed_upto(t, s, level, n),
    decreases n - m,
{
    if m < n {
        lemma_needed_upto_grows(t, s, level, m, n - 1);
    }
}

/// The count reads only the source tree.
proof fn lemma_frame_needed(ta: Map<u64, Seq<u64>>, tb: Map<u64, Seq<u64>>, s: u64, level: int)
    requires
        source_ok(tb, s, level),
        forall|k: u64| #[trigger] tb.contains_key(k) ==> ta.contains_key(k) && ta[k] == tb[k],
    ensures
        needed(ta, s, level) == needed(tb, s, level),
    decreases level, 513int,
{
    if level >= 1 {
        lemma_frame_needed_upto(ta, tb, s, level, 512);
    }
}

proof fn lemma_frame_needed_upto(ta: Map<u64, Seq<u64>>, tb: Map<u64, Seq<u64>>, s: u64, level: int, n: int)
    requires
        source_ok(tb, s, level),
        forall|k: u64| #[trigger] tb.contains_key(k) ==> ta.contains_key(k) && ta[k] == tb[k],
    ensures
        needed_upto(ta, s, level, n) == needed_upto(tb, s, level, n),
    decreases level, n,
{
    if 0 < n <= 512 && level >= 2 {
        lemma_frame_needed_upto(ta, tb, s, level, n - 1);
        assert(ta[s] == tb[s]);
        let e = tb[s][n - 1];
        if descends(e, level) {
            assert(source_ok(tb, child(e), level - 1));
            lemma_frame_needed(ta, tb, child(e), level - 1);
        }
    }
}

/// Releasing a finished clone gives back exactly the memory the clone
/// started from: the tables it added are the tree it returned.
pub proof fn lemma_release_undoes_clone(
    t0: Map<u64, Seq<u64>>,
    o0: Set<u64>,
    t1: Map<u64, Seq<u64>>,
    o1: Set<u64>,
)
    requires
        grown(t0, o0, t1, o1),
    ensures
        t1.remove_keys(o1.difference(o0)) == t0,
        o1.difference(o1.difference(o0)) == o0,
{
    assert(t1.remove_keys(o1.difference(o0)) =~= t0);
    assert(o1.difference(o1.difference(o0)) =~= o0);
}

/// Copies the page-table tree rooted at `source`, of depth `level`, into
/// new tables of `memory`, clearing the user bit of every entry it copies
/// as a leaf; leaf frames are shared, not copied. When a table cannot be
/// allocated, every table the call allocated is released again and
/// `memory` is as it was. A depth outside one to four is refused.
pub fn clone_supervisor<M: TableMemory>(memory: &mut M, source: u64, level: u8) -> (r: Option<u64>)
    requires
        memory_ok(old(memory).tables(), old(memory).owned()),
        1 <= level <= 4 ==> source_ok(old(memory).tables(), source, level as int),
    ensures
        memory_ok(final(memory).tables(), final(memory).owned()),
        r is None ==> final(memory).tables() == old(memory).tables() && final(memory).owned() == old(memory).owned(),
        !(1 <= level <= 4) ==> r is None,
        1 <= level <= 4 && old(memory).free_tables() >= needed(old(memory).tables(), source, level as int) ==> r is Some,
        r matches Some(d) ==> {
            &&& d & !ADDRESS_MASK == 0
            &&& grown(old(memory).tables(), old(memory).owned(), final(memory).tables(), final(memory).owned())
            &&& tree_tables(final(memory).tables(), d, level as int) == Some(
                final(memory).owned().difference(old(memory).owned()),
            )
            &&& user_clear(final(memory).tables(), final(memory).owned().difference(old(memory).owned()))
            &&& clone_of(final(memory).tables(), d, old(memory).tables(), source, level as int)
            &&& final(memory).free_tables() + needed(old(memory).tables(), source, level as int) == old(memory).free_tables()
        },
    decreases level,
{
    if !(1 <= level && level <= 4) {
        return None;
    }
    let ghost t0 = memory.tables();
    let ghost o0 = memory.owned();
    let destination = match memory.allocate() {
        None => return None,
        Some(d) => d,
    };
    proof {
        assert(memory.owned().difference(o0) =~= Set::empty().insert(destination));
        lemma_leaf_bits(0);
        assert(user_clear(memory.tables(), memory.owned().difference(o0)));
        if level >= 2 {
            lemma_slots_absent(memory.tables(), destination, level as int, 0, 512);
        }
    }
    let mut slot: usize = 0;
    while slot < TABLE_ENTRIES
        invariant
            1 <= level <= 4,
            t0 == old(memory).tables(),
            o0 == old(memory).owned(),
            memory_ok(t0, o0),
            source_ok(t0, source, level as int),
            memory_ok(memory.tables(), memory.owned()),
            grown(t0, o0, memory.tables(), memory.owned()),
            memory.owned().difference(o0).contains(destination),
            destination & !ADDRESS_MASK == 0,
            memory.tables().contains_key(destination),
            slot <= 512,
            forall|i: int| slot <= i < 512 ==> #[trigger] memory.tables()[destination][i] == 0,
            level >= 2 ==> slot_tables(memory.tables(), destination, level as int, slot as int) == Some(
                memory.owned().difference(o0).remove(destination),
            ),
            level == 1 ==> memory.owned().difference(o0) == Set::empty().insert(destination),
            user_clear(memory.tables(), memory.owned().difference(o0)),
            memory.tables()[destination].len() == 512,
            copied_upto(memory.tables(), destination, t0, source, level as int, slot as int),
            memory.free_tables() + 1 + needed_upto(t0, source, level as int, slot as int) == old(memory).free_tables(),
        decreases 512 - slot,
    {
        let ghost t1 = memory.tables();
        let ghost o1 = memory.owned();
        let ghost fresh = o1.difference(o0);
        assert(t0.contains_key(source));
        let entry = memory.read(source, slot);
        assert(entry == t0[source][slot as int]);
        if entry & PRESENT == 0 {
            proof {
                lemma_leaf_bits(0);
                if level >= 2 {
                    lemma_slots_absent(t1, destination, level as int, slot as int, slot as int + 1);
                }
                assert(entry_copied(t1[destination][slot as int], t0[source][slot as int], level as int));
                assert(copied_upto(t1, destination, t0, source, level as int, slot as int + 1));
            }
        } else if level == 1 || (level <= 3 && entry & HUGE != 0) {
            memory.write(destination, slot, entry & !USER);
            proof {
                lemma_leaf_bits(entry);
                let t2 = memory.tables();
                assert(memory.owned().difference(o0) == fresh);
                assert forall|k: u64, i: int| #[trigger] fresh.contains(k) && 0 <= i < t2[k].len() implies #[trigger] t2[k][i] & USER == 0 by {
                    if k != destination || i != slot {
                        assert(t2[k][i] == t1[k][i]);
                    }
                }
                if level >= 2 {
                    let below = fresh.remove(destination);
                    lemma_slots_live(t1, destination, level as int, slot as int);
                    lemma_frame_slots(t1, t2, destination, level as int, slot as int);
                    assert(!descends(t2[destination][slot as int], level as int));
                }
                lemma_copies_kept(t1, t2, destination, t0, source, level as int, slot as int);
                assert(entry_copied(t2[destination][slot as int], t0[source][slot as int], level as int));
                assert(copied_upto(t2, destination, t0, source, level as int, slot as int + 1));
            }
        } else {
            proof {
                assert(descends(entry, level as int));
                lemma_frame_source(t0, t1, child(entry), level as int - 1);
                assert(source_ok(t0, child(entry), level as int - 1));
                lemma_frame_needed(t1, t0, child(entry), level as int - 1);
                lemma_needed_upto_grows(t0, source, level as int, slot as int + 1, 512);
            }
            match clone_supervisor(memory, entry & ADDRESS_MASK, level - 1) {
                None => {
                    proof {
                        lemma_leaf_bits(0);
                        lemma_slots_absent(t1, destination, level as int, slot as int, 512);
                        assert(tree_tables(t1, destination, level as int) == Some(fresh.remove(destination).insert(destination)));
                        assert(fresh.remove(destination).insert(destination) =~= fresh);
                    }
                    release_clone(memory, destination, level);
                    proof {
                        assert(memory.tables() =~= t0);
                        assert(memory.owned() =~= o0);
                    }
                    return None;
                },
                Some(c) => {
                    let ghost t2 = memory.tables();
                    let ghost o2 = memory.owned();
                    let ghost sub = o2.difference(o1);
                    memory.write(destination, slot, c | (entry & !ADDRESS_MASK & !USER));
                    proof {
                        let t3 = memory.tables();
                        lemma_entry_bits(entry, c);
                        let e2 = c | (entry & !ADDRESS_MASK & !USER);
                        assert(t3[destination][slot as int] == e2);
                        assert(descends(e2, level as int) && child(e2) == c);
                        assert(!sub.contains(destination));
                        lemma_tree_live(t2, c, level as int - 1);
                        lemma_frame_tree(t2, t3, c, level as int - 1);
                        let below = fresh.remove(destination);
                        lemma_slots_live(t1, destination, level as int, slot as int);
                        lemma_frame_slots(t1, t3, destination, level as int, slot as int);
                        assert(sub.disjoint(below));
                        assert(memory.owned().difference(o0).remove(destination) =~= below.union(sub));
                        lemma_copies_kept(t1, t3, destination, t0, source, level as int, slot as int);
                        lemma_frame_clone_source(t2, c, t1, t0, child(entry), level as int - 1);
                        lemma_frame_clone(t2, t3, c, t0, child(entry), level as int - 1);
                        assert(entry_copied(t3[destination][slot as int], t0[source][slot as int], level as int));
                        assert(copied_upto(t3, destination, t0, source, level as int, slot as int + 1));
                        let all = memory.owned().difference(o0);
                        assert forall|k: u64, i: int| #[trigger] all.contains(k) && 0 <= i < t3[k].len() implies #[trigger] t3[k][i] & USER == 0 by {
                            if sub.contains(k) {
                                assert(t3[k] == t2[k]);
                                assert(user_clear(t2, sub));
                            } else if k != destination || i != slot {
                                assert(fresh.contains(k));
                                assert(t3[k][i] == t2[k][i]);
                                assert(t2[k] == t1[k]);
                            }
                        }
                    }
                },
            }
        }
        slot += 1;
    }
    proof {
        let fresh = memory.owned().difference(o0);
        if level >= 2 {
            assert(fresh.remove(destination).insert(destination) =~= fresh);
        }
        assert(copied_upto(memory.tables(), destination, t0, source, level as int, 512));
        assert(clone_of(memory.tables(), destination, t0, source, level as int));
    }
    Some(destination)
}

} // verus!

verus! {

/// One page of a `TableStore`.
pub struct StoredTable {
    pub entries: Vec<u64>,
    pub owned: bool,
}

/// Table memory held in a vector of pages: the table at address `a` is
/// page `a / 4096`. New tables go after the last page, while the
/// allocation budget lasts.
pub struct TableStore {
    pub pages: Vec<Option<StoredTable>>,
    pub budget: usize,
}

/// The most pages a store holds: their addresses stay within the address
/// bits of an entry.
pub const STORE_PAGE_LIMIT: usize = 0x100_0000;

pub open spec fn page_of(a: u64) -> int {
    (a / 4096) as int
}

impl TableStore {
    pub open spec fn has(&self, a: u64) -> bool {
        a % 4096 == 0 && page_of(a) < self.pages@.len() && self.pages@[page_of(a)] is Some
    }

    /// A store with no tables.
    pub fn new(budget: usize) -> (r: Self)
        ensures
            r.pages@.len() == 0,
            r.budget == budget,
            r.tables() == Map::<u64, Seq<u64>>::empty(),
            r.owned() == Set::<u64>::empty(),
    {
        let r = TableStore { pages: Vec::new(), budget };
        assert(r.tables() =~= Map::<u64, Seq<u64>>::empty());
        assert(r.owned() =~= Set::<u64>::empty());
        r
    }

    /// Places a table that the store does not own at page address
    /// `address`, replacing what was there.
    pub fn place(&mut self, address: u64, entries: Vec<u64>)
        requires
            address % 4096 == 0,
            address / 4096 < STORE_PAGE_LIMIT,
        ensures
            final(self).tables() == old(self).tables().insert(address, entries@),
            final(self).owned() == old(self).owned().remove(address),
            final(self).budget == old(self).budget,
    {
        let page = (address / 4096) as usize;
        while self.pages.len() <= page
            invariant
                page < STORE_PAGE_LIMIT,
                self.tables() == old(self).tables(),
                self.owned() == old(self).owned(),
                self.budget == old(self).budget,
                forall|i: int| old(self).pages@.len() <= i < self.pages@.len() ==> self.pages@[i] is None,
                self.pages@.len() >= old(self).pages@.len(),
                forall|i: int| 0 <= i < old(self).pages@.len() ==> self.pages@[i] == old(self).pages@[i],
            decreases page + 1 - self.pages@.len(),
        {
            let ghost before = self.pages@;
            self.pages.push(None);
            proof {
                assert forall|a: u64| self.has(a) == old(self).has(a) by {
                    if self.has(a) {
                        assert(page_of(a) < before.len());
                    }
                }
                assert(self.tables() =~= old(self).tables());
                assert(self.owned() =~= old(self).owned());
            }
        }
        let ghost before = self.pages@;
        self.pages.set(page, Some(StoredTable { entries, owned: false }));
        proof {
            assert(page_of(address) == page);
            assert forall|a: u64| #[trigger] self.has(a) implies a == address || old(self).has(a) by {
                if page_of(a) != page {
                    assert(self.pages@[page_of(a)] == before[page_of(a)]);
                } else {
                    assert(a == address) by (nonlinear_arith)
                        requires
                            a % 4096 == 0,
                            address % 4096 == 0,
                            a / 4096 == address / 4096;
                }
            }
            assert forall|a: u64| a != address && old(self).has(a) implies #[trigger] self.has(a) && page_of(a) != page by {
                if page_of(a) == page {
                    assert(a == address) by (nonlinear_arith)
                        requires
                            a % 4096 == 0,
                            address % 4096 == 0,
                            a / 4096 == address / 4096;
                }
            }
            assert(self.tables() =~= old(self).tables().insert(address, entries@));
            assert(self.owned() =~= old(self).owned().remove(address));
        }
    }
}

impl TableMemory for TableStore {
    open spec fn tables(&self) -> Map<u64, Seq<u64>> {
        Map::new(|a: u64| self.has(a), |a: u64| self.pages@[page_of(a)]->0.entries@)
    }

    open spec fn owned(&self) -> Set<u64> {
        Set::new(|a: u64| self.has(a) && self.pages@[page_of(a)]->0.owned)
    }

    /// The budget, as far as the page limit leaves room for it.
    open spec fn free_tables(&self) -> nat {
        if self.pages@.len() >= STORE_PAGE_LIMIT {
            0
        } else if self.budget <= STORE_PAGE_LIMIT - self.pages@.len() {
            self.budget as nat
        } else {
            (STORE_PAGE_LIMIT - self.pages@.len()) as nat
        }
    }

    fn allocate(&mut self) -> (r: Option<u64>) {
        if self.budget == 0 || self.pages.len() >= STORE_PAGE_LIMIT {
            return None;
        }
        self.budget = self.budget - 1;
        let page = self.pages.len();
        let address = (page as u64) * 4096;
        let mut entries: Vec<u64> = Vec::new();
        while entries.len() < TABLE_ENTRIES
            invariant
                entries@.len() <= 512,
                forall|i: int| 0 <= i < entries@.len() ==> entries@[i] == 0,
            decreases 512 - entries@.len(),
        {
            entries.push(0);
        }
        let ghost before = self.pages@;
        self.pages.push(Some(StoredTable { entries, owned: true }));
        proof {
            assert(address / 4096 == page && address % 4096 == 0);
            assert(address < 0x10_0000_0000u64);
            assert(address & !0x000f_ffff_ffff_f000u64 == 0u64) by (bit_vector)
                requires
                    address % 4096 == 0,
                    address < 0x10_0000_0000u64;
            assert(!old(self).has(address));
            assert forall|a: u64| #[trigger] self.has(a) == (old(self).has(a) || a == address) by {
                if self.has(a) && page_of(a) == page {
                    assert(a == address) by (nonlinear_arith)
                        requires
                            a % 4096 == 0,
                            a / 4096 == page,
                            address == page * 4096;
                }
                if old(self).has(a) {
                    assert(self.pages@[page_of(a)] == before[page_of(a)]);
                }
            }
            assert(entries@ =~= Seq::new(512, |i: int| 0u64));
            assert(self.tables() =~= old(self).tables().insert(address, Seq::new(512, |i: int| 0u64)));
            assert(self.owned() =~= old(self).owned().insert(address));
        }
        Some(address)
    }

    fn read(&self, table: u64, slot: usize) -> (r: u64) {
        assert(self.has(table));
        let count = self.pages.len();
        let q: u64 = table / 4096;
        assert(q < count);
        let page = q as usize;
        assert(page as int == page_of(table));
        match &self.pages[page] {
            Some(stored) => stored.entries[slot],
            None => 0,
        }
    }

    fn write(&mut self, table: u64, slot: usize, entry: u64) {
        assert(self.has(table));
        let count = self.pages.len();
        let q: u64 = table / 4096;
        assert(q < count);
        let page = q as usize;
        assert(page as int == page_of(table));
        let ghost before = self.pages@;
        let current = self.pages.remove(page);
        let ghost removed = self.pages@;
        let mut stored = match current {
            Some(stored) => stored,
            None => StoredTable { entries: Vec::new(), owned: false },
        };
        if slot < stored.entries.len() {
            stored.entries.set(slot, entry);
        }
        self.pages.insert(page, Some(stored));
        proof {
            assert(self.pages@ =~= before.update(page as int, self.pages@[page as int]));
            assert forall|a: u64| #[trigger] self.has(a) == old(self).has(a) by {}
            assert(self.tables() =~= old(self).tables().insert(table, old(self).tables()[table].update(slot as int, entry)));
            assert(self.owned() =~= old(self).owned());
        }
    }

    fn release(&mut self, table: u64) {
        assert(self.has(table));
        let count = self.pages.len();
        let q: u64 = table / 4096;
        assert(q < count);
        let page = q as usize;
        assert(page as int == page_of(table));
        let ghost before = self.pages@;
        self.pages.set(page, None);
        proof {
            assert forall|a: u64| #[trigger] self.has(a) == (old(self).has(a) && a != table) by {
                if old(self).has(a) && page_of(a) == page {
                    assert(a == table) by (nonlinear_arith)
                        requires
                            a % 4096 == 0,
                            table % 4096 == 0,
                            a / 4096 == table / 4096;
                }
            }
            assert(self.tables() =~= old(self).tables().remove(table));
            assert(self.owned() =~= old(self).owned().remove(table));
        }
    }
}

} // verus!
