//! Per-process authority: a handle is usable only while the owner's table
//! holds the exact value with the expected kind and the required rights.
use vstd::prelude::*;

verus! {

#[derive(Clone, Copy, Debug, PartialEq, Eq, Structural)]
pub enum HandleKind {
    File,
    EndpointReceive,
    EndpointSend,
    Console,
    Lifecycle,
    Process,
    Socket,
}

#[derive(Clone, Copy, Debug, PartialEq, Eq, Structural)]
pub struct HandleEntry {
    pub handle: u64,
    pub kind: HandleKind,
    pub rights: u64,
}

/// The single authority registry owned by one process.
pub struct HandleTable<const N: usize> {
    entries: Vec<Option<HandleEntry>>,
}

/// Some slot of `s` holds `handle`.
pub open spec fn holds_handle(s: Seq<Option<HandleEntry>>, handle: u64) -> bool {
    exists|i: int| 0 <= i < s.len() && s[i] is Some && #[trigger] s[i]->0.handle == handle
}

/// Whether `entry` grants `kind` with every bit of `rights`.
pub open spec fn grants(entry: HandleEntry, handle: u64, kind: HandleKind, rights: u64) -> bool {
    entry.handle == handle && entry.kind == kind && entry.rights & rights == rights
}

/// Some slot of `s` grants the request.
pub open spec fn table_allows(
    s: Seq<Option<HandleEntry>>,
    handle: u64,
    kind: HandleKind,
    rights: u64,
) -> bool {
    exists|i: int| 0 <= i < s.len() && #[trigger] s[i] is Some && grants(s[i]->0, handle, kind, rights)
}

/// `i` is the lowest free slot of `s`.
pub open spec fn first_free(s: Seq<Option<HandleEntry>>, i: int) -> bool {
    &&& 0 <= i < s.len()
    &&& s[i] is None
    &&& forall|j: int| 0 <= j < i ==> #[trigger] s[j] is Some
}

/// `i` is the lowest slot of `s` holding `handle` with `kind`.
pub open spec fn first_match(s: Seq<Option<HandleEntry>>, handle: u64, kind: HandleKind, i: int) -> bool {
    &&& 0 <= i < s.len()
    &&& s[i] == Some(HandleEntry { handle, kind, rights: s[i]->0.rights })
    &&& forall|j: int|
        0 <= j < i ==> !(#[trigger] s[j] is Some && s[j]->0.handle == handle && s[j]->0.kind
            == kind)
}

/// Number of occupied slots.
pub open spec fn occupied(s: Seq<Option<HandleEntry>>) -> nat
    decreases s.len(),
{
    if s.len() == 0 {
        0
    } else {
        occupied(s.drop_last()) + if s.last() is Some {
            1nat
        } else {
            0nat
        }
    }
}

impl<const N: usize> HandleTable<N> {
    pub closed spec fn view(&self) -> Seq<Option<HandleEntry>> {
        self.entries@
    }

    /// The table has exactly `N` slots.
    pub closed spec fn wf(&self) -> bool {
        self.entries@.len() == N
    }

    pub fn new() -> (r: Self)
        ensures
            r.wf(),
            r@ == Seq::new(N as nat, |i: int| None::<HandleEntry>),
    {
        let mut entries: Vec<Option<HandleEntry>> = Vec::new();
        let mut i: usize = 0;
        while i < N
            invariant
                i <= N,
                entries@ == Seq::new(i as nat, |j: int| None::<HandleEntry>),
            decreases N - i,
        {
            entries.push(None);
            i += 1;
            assert(entries@ =~= Seq::new(i as nat, |j: int| None::<HandleEntry>));
        }
        Self { entries }
    }

    /// Registers a fresh nonzero handle in the lowest free slot. Fails, leaving
    /// the table unchanged, for handle zero, a handle already present under any
    /// kind, or a full table.
    pub fn register(&mut self, handle: u64, kind: HandleKind, rights: u64) -> (ok: bool)
        requires
            old(self).wf(),
        ensures
            final(self).wf(),
            ok == (handle != 0 && !holds_handle(old(self)@, handle) && exists|i: int|
                first_free(old(self)@, i)),
            ok ==> exists|i: int|
                first_free(old(self)@, i) && final(self)@ == old(self)@.update(
                    i,
                    Some(HandleEntry { handle, kind, rights }),
                ),
            !ok ==> final(self)@ == old(self)@,
    {
        if handle == 0 {
            return false;
        }
        let mut i: usize = 0;
        while i < self.entries.len()
            invariant
                self.wf(),
                self@ == old(self)@,
                handle != 0,
                i <= self.entries@.len(),
                forall|j: int|
                    0 <= j < i ==> !(#[trigger] self.entries@[j] is Some
                        && self.entries@[j]->0.handle == handle),
            decreases self.entries@.len() - i,
        {
            match self.entries[i] {
                Some(entry) => {
                    if entry.handle == handle {
                        assert(self@[i as int]->0.handle == handle);
                        return false;
                    }
                },
                None => {},
            }
            i += 1;
        }
        let mut slot: usize = 0;
        while slot < self.entries.len()
            invariant
                self.wf(),
                self@ == old(self)@,
                handle != 0,
                !holds_handle(self@, handle),
                slot <= self.entries@.len(),
                forall|j: int| 0 <= j < slot ==> #[trigger] self.entries@[j] is Some,
            decreases self.entries@.len() - slot,
        {
            if self.entries[slot].is_none() {
                let ghost before = self@;
                self.entries.set(slot, Some(HandleEntry { handle, kind, rights }));
                assert(first_free(before, slot as int));
                return true;
            }
            slot += 1;
        }
        assert forall|i: int| !first_free(self@, i) by {
            if 0 <= i < self@.len() && self@[i] is None {
                assert(self.entries@[i] is Some);
            }
        }
        false
    }

    /// Whether some entry holds `handle` with `kind` and every bit of `required_rights`.
    pub fn allows(&self, handle: u64, kind: HandleKind, required_rights: u64) -> (r: bool)
        ensures
            r == table_allows(self@, handle, kind, required_rights),
    {
        let mut i: usize = 0;
        while i < self.entries.len()
            invariant
                i <= self.entries@.len(),
                forall|j: int|
                    0 <= j < i ==> !(#[trigger] self.entries@[j] is Some && grants(
                        self.entries@[j]->0,
                        handle,
                        kind,
                        required_rights,
                    )),
            decreases self.entries@.len() - i,
        {
            match self.entries[i] {
                Some(entry) => {
                    if entry.handle == handle && entry.kind == kind && entry.rights
                        & required_rights == required_rights {
                        return true;
                    }
                },
                None => {},
            }
            i += 1;
        }
        false
    }

    /// Revokes the lowest entry holding `handle` with `kind`.
    pub fn unregister(&mut self, handle: u64, kind: HandleKind) -> (ok: bool)
        requires
            old(self).wf(),
        ensures
            final(self).wf(),
            ok == exists|i: int| first_match(old(self)@, handle, kind, i),
            ok ==> exists|i: int|
                first_match(old(self)@, handle, kind, i) && final(self)@ == old(self)@.update(
                    i,
                    None,
                ),
            !ok ==> final(self)@ == old(self)@,
    {
        let mut i: usize = 0;
        while i < self.entries.len()
            invariant
                self.wf(),
                self@ == old(self)@,
                i <= self.entries@.len(),
                forall|j: int|
                    0 <= j < i ==> !(#[trigger] self.entries@[j] is Some
                        && self.entries@[j]->0.handle == handle && self.entries@[j]->0.kind
                        == kind),
            decreases self.entries@.len() - i,
        {
            match self.entries[i] {
                Some(entry) => {
                    if entry.handle == handle && entry.kind == kind {
                        assert(first_match(old(self)@, handle, kind, i as int));
                        self.entries.set(i, None);
                        return true;
                    }
                },
                None => {},
            }
            i += 1;
        }
        false
    }

    /// Number of live entries.
    pub fn len(&self) -> (n: usize)
        ensures
            n == occupied(self@),
    {
        let mut n: usize = 0;
        let mut i: usize = 0;
        while i < self.entries.len()
            invariant
                i <= self.entries@.len(),
                n == occupied(self.entries@.subrange(0, i as int)),
                n <= i,
            decreases self.entries@.len() - i,
        {
            assert(self.entries@.subrange(0, i as int + 1).drop_last() =~= self.entries@.subrange(
                0,
                i as int,
            ));
            if self.entries[i].is_some() {
                n += 1;
            }
            i += 1;
        }
        assert(self.entries@.subrange(0, i as int) =~= self.entries@);
        n
    }

    pub fn is_empty(&self) -> (r: bool)
        ensures
            r == (occupied(self@) == 0),
    {
        self.len() == 0
    }

    /// Revokes every entry.
    pub fn clear(&mut self)
        requires
            old(self).wf(),
        ensures
            final(self).wf(),
            final(self)@ == Seq::new(N as nat, |i: int| None::<HandleEntry>),
    {
        let mut i: usize = 0;
        while i < self.entries.len()
            invariant
                self.wf(),
                i <= N,
                forall|j: int| 0 <= j < i ==> #[trigger] self.entries@[j] is None,
            decreases N - i,
        {
            self.entries.set(i, None);
            i += 1;
        }
        assert(self@ =~= Seq::new(N as nat, |i: int| None::<HandleEntry>));
    }
}

/// A revoked or cleared handle no longer grants anything.
pub proof fn lemma_cleared_table_allows_nothing(
    s: Seq<Option<HandleEntry>>,
    handle: u64,
    kind: HandleKind,
    rights: u64,
)
    requires
        forall|i: int| 0 <= i < s.len() ==> #[trigger] s[i] is None,
    ensures
        !table_allows(s, handle, kind, rights),
        occupied(s) == 0,
    decreases s.len(),
{
    if s.len() > 0 {
        lemma_cleared_table_allows_nothing(s.drop_last(), handle, kind, rights);
    }
}

/// Every held handle is nonzero and held by one slot only.
pub open spec fn handles_ok(s: Seq<Option<HandleEntry>>) -> bool {
    &&& forall|i: int| 0 <= i < s.len() && #[trigger] s[i] is Some ==> s[i]->0.handle != 0
    &&& forall|i: int, j: int|
        0 <= i < s.len() && 0 <= j < s.len() && #[trigger] s[i] is Some && #[trigger] s[j] is Some
            && s[i]->0.handle == s[j]->0.handle ==> i == j
}

/// A table with some free slot has a lowest one.
pub proof fn lemma_free_slot_has_lowest(s: Seq<Option<HandleEntry>>, j: int)
    requires
        0 <= j < s.len(),
        s[j] is None,
    ensures
        exists|i: int| first_free(s, i),
    decreases j,
{
    if exists|k: int| 0 <= k < j && s[k] is None {
        let k = choose|k: int| 0 <= k < j && s[k] is None;
        lemma_free_slot_has_lowest(s, k);
    } else {
        assert(first_free(s, j));
    }
}

proof fn lemma_occupied_fill(s: Seq<Option<HandleEntry>>, i: int, e: HandleEntry)
    requires
        0 <= i < s.len(),
        s[i] is None,
    ensures
        occupied(s.update(i, Some(e))) == occupied(s) + 1,
    decreases s.len(),
{
    let s2 = s.update(i, Some(e));
    if i == s.len() - 1 {
        assert(s2.drop_last() =~= s.drop_last());
    } else {
        lemma_occupied_fill(s.drop_last(), i, e);
        assert(s2.drop_last() =~= s.drop_last().update(i, Some(e)));
    }
}

/// Registering a fresh nonzero handle in a free slot adds exactly that
/// entry: one more slot is held, the handle grants its kind with any part
/// of its rights, and handles stay nonzero and unique.
pub proof fn lemma_register_law(
    s: Seq<Option<HandleEntry>>,
    i: int,
    handle: u64,
    kind: HandleKind,
    rights: u64,
)
    requires
        first_free(s, i),
        handle != 0,
        !holds_handle(s, handle),
        handles_ok(s),
    ensures
        occupied(s.update(i, Some(HandleEntry { handle, kind, rights }))) == occupied(s) + 1,
        forall|x: u64| x & rights == x ==> table_allows(s.update(i, Some(HandleEntry { handle, kind, rights })), handle, kind, x),
        handles_ok(s.update(i, Some(HandleEntry { handle, kind, rights }))),
{
    let e = HandleEntry { handle, kind, rights };
    let s2 = s.update(i, Some(e));
    lemma_occupied_fill(s, i, e);
    assert forall|x: u64| x & rights == x implies table_allows(s2, handle, kind, x) by {
        assert(rights & x == x) by (bit_vector)
            requires
                x & rights == x;
        assert(s2[i] is Some && grants(s2[i]->0, handle, kind, x));
    }
    assert forall|a: int, b: int|
        0 <= a < s2.len() && 0 <= b < s2.len() && #[trigger] s2[a] is Some && #[trigger] s2[b] is Some
            && s2[a]->0.handle == s2[b]->0.handle implies a == b by {
        if a != i && b != i {
            assert(s[a] is Some && s[b] is Some);
        } else if a == i && b != i {
            assert(s[b] is Some && s[b]->0.handle == handle);
        } else if b == i && a != i {
            assert(s[a] is Some && s[a]->0.handle == handle);
        }
    }
}

} // verus!
