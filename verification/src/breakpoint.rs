//! Software breakpoint (INT3) bookkeeping.

use vstd::prelude::*;
use crate::types::{BreakpointId, DebugError, RegisterContext};

verus! {

/// A software breakpoint (INT3 / 0xCC).
#[derive(Debug, Clone, Copy)]
pub struct Breakpoint {
    pub id: BreakpointId,
    pub address: u64,
    pub original_byte: u8,
    pub state: BreakpointState,
    pub hit_count: u64,
}

/// Whether a breakpoint is armed.
#[derive(Debug, Clone, Copy, PartialEq, Eq, Structural)]
pub enum BreakpointState {
    Enabled,
    Disabled,
    Pending,
}


/// The map that a list of `(id, breakpoint)` entries stands for.
pub open spec fn entries_map(s: Seq<(BreakpointId, Breakpoint)>) -> Map<BreakpointId, Breakpoint>
    decreases s.len(),
{
    if s.len() == 0 {
        Map::empty()
    } else {
        entries_map(s.drop_last()).insert(s.last().0, s.last().1)
    }
}

/// Entries whose ids strictly increase.
pub open spec fn ids_increasing(s: Seq<(BreakpointId, Breakpoint)>) -> bool {
    forall|i: int, j: int| 0 <= i < j < s.len() ==> #[trigger] s[i].0 < #[trigger] s[j].0
}

proof fn lemma_entries_dom(s: Seq<(BreakpointId, Breakpoint)>, k: BreakpointId)
    ensures
        entries_map(s).dom().contains(k) <==> exists|i: int| 0 <= i < s.len() && #[trigger] s[i].0 == k,
    decreases s.len(),
{
    if s.len() > 0 {
        lemma_entries_dom(s.drop_last(), k);
        if entries_map(s).dom().contains(k) && k != s.last().0 {
            let i = choose|i: int| 0 <= i < s.drop_last().len() && #[trigger] s.drop_last()[i].0 == k;
            assert(s[i].0 == k);
        }
        if exists|i: int| 0 <= i < s.len() && #[trigger] s[i].0 == k {
            let i = choose|i: int| 0 <= i < s.len() && #[trigger] s[i].0 == k;
            if i < s.len() - 1 {
                assert(s.drop_last()[i].0 == k);
            }
        }
    }
}

proof fn lemma_entries_value(s: Seq<(BreakpointId, Breakpoint)>, i: int)
    requires
        ids_increasing(s),
        0 <= i < s.len(),
    ensures
        entries_map(s).dom().contains(s[i].0),
        entries_map(s)[s[i].0] == s[i].1,
    decreases s.len(),
{
    if i < s.len() - 1 {
        assert(s[i].0 < s[s.len() - 1].0);
        lemma_entries_value(s.drop_last(), i);
    }
}

proof fn lemma_entries_finite(s: Seq<(BreakpointId, Breakpoint)>)
    requires
        ids_increasing(s),
    ensures
        entries_map(s).dom().finite(),
        entries_map(s).dom().len() == s.len(),
    decreases s.len(),
{
    if s.len() > 0 {
        lemma_entries_finite(s.drop_last());
        lemma_entries_dom(s.drop_last(), s.last().0);
        if entries_map(s.drop_last()).dom().contains(s.last().0) {
            let i = choose|i: int| 0 <= i < s.drop_last().len() && #[trigger] s.drop_last()[i].0 == s.last().0;
            assert(s[i].0 < s[s.len() - 1].0);
        }
    }
}

proof fn lemma_entries_remove(s: Seq<(BreakpointId, Breakpoint)>, i: int)
    requires
        ids_increasing(s),
        0 <= i < s.len(),
    ensures
        entries_map(s.remove(i)) == entries_map(s).remove(s[i].0),
        ids_increasing(s.remove(i)),
    decreases s.len(),
{
    let k = s[i].0;
    if i == s.len() - 1 {
        assert(s.remove(i) =~= s.drop_last());
        lemma_entries_dom(s.drop_last(), k);
        if entries_map(s.drop_last()).dom().contains(k) {
            let j = choose|j: int| 0 <= j < s.drop_last().len() && #[trigger] s.drop_last()[j].0 == k;
            assert(s[j].0 < s[i].0);
        }
        assert(entries_map(s.remove(i)) =~= entries_map(s).remove(k));
    } else {
        let t = s.drop_last();
        lemma_entries_remove(t, i);
        assert(s.remove(i) =~= t.remove(i).push(s.last()));
        assert(s.remove(i).drop_last() =~= t.remove(i));
        assert(s[i].0 < s.last().0);
        assert(entries_map(s.remove(i)) =~= entries_map(s).remove(k));
    }
    assert forall|a: int, b: int| 0 <= a < b < s.remove(i).len() implies #[trigger] s.remove(i)[a].0
        < #[trigger] s.remove(i)[b].0 by {
        let a2 = if a < i { a } else { a + 1 };
        let b2 = if b < i { b } else { b + 1 };
        assert(s[a2].0 < s[b2].0);
    }
}

proof fn lemma_entries_update(s: Seq<(BreakpointId, Breakpoint)>, i: int, v: Breakpoint)
    requires
        ids_increasing(s),
        0 <= i < s.len(),
    ensures
        entries_map(s.update(i, (s[i].0, v))) == entries_map(s).insert(s[i].0, v),
        ids_increasing(s.update(i, (s[i].0, v))),
    decreases s.len(),
{
    let k = s[i].0;
    let u = s.update(i, (k, v));
    if i == s.len() - 1 {
        assert(u.drop_last() =~= s.drop_last());
        assert(entries_map(u) =~= entries_map(s).insert(k, v));
    } else {
        let t = s.drop_last();
        lemma_entries_update(t, i, v);
        assert(u.drop_last() =~= t.update(i, (k, v)));
        assert(s[i].0 < s.last().0);
        assert(entries_map(u) =~= entries_map(s).insert(k, v));
    }
    assert forall|a: int, b: int| 0 <= a < b < u.len() implies #[trigger] u[a].0 < #[trigger] u[b].0 by {
        assert(s[a].0 < s[b].0);
    }
}

/// Manages software breakpoints for a debug session.
#[derive(Debug)]
pub struct BreakpointManager {
    breakpoints: Vec<(BreakpointId, Breakpoint)>,
    next_id: BreakpointId,
}

impl View for BreakpointManager {
    type V = Map<BreakpointId, Breakpoint>;

    /// The breakpoints by id.
    closed spec fn view(&self) -> Map<BreakpointId, Breakpoint> {
        entries_map(self.breakpoints@)
    }
}

impl BreakpointManager {
    /// The manager's internal consistency: ids in increasing order, all below
    /// the next id to hand out.
    pub closed spec fn wf(&self) -> bool {
        &&& ids_increasing(self.breakpoints@)
        &&& forall|i: int| 0 <= i < self.breakpoints@.len() ==> #[trigger] self.breakpoints@[i].0
            < self.next_id
    }

    /// The id the next `set` hands out.
    pub closed spec fn next_id(&self) -> BreakpointId {
        self.next_id
    }

    /// The ids of the breakpoints, in increasing order.
    pub closed spec fn ids(&self) -> Seq<BreakpointId> {
        self.breakpoints@.map_values(|e: (BreakpointId, Breakpoint)| e.0)
    }

    /// Facts every well-formed manager has: its ids increase, are exactly
    /// the keys of its map, and are all below `next_id`.
    pub proof fn lemma_wf(&self)
        requires
            self.wf(),
        ensures
            forall|i: int, j: int| 0 <= i < j < self.ids().len() ==> #[trigger] self.ids()[i]
                < #[trigger] self.ids()[j],
            forall|k: BreakpointId| #[trigger] self@.dom().contains(k) <==> self.ids().contains(k),
            forall|k: BreakpointId| #[trigger] self@.dom().contains(k) ==> k < self.next_id(),
            self@.dom().finite(),
            self@.dom().len() == self.ids().len(),
            forall|i: int| 0 <= i < self.ids().len() ==> #[trigger] self@[self.ids()[i]].id
                == self@[self.ids()[i]].id,
    {
        let s = self.breakpoints@;
        assert forall|i: int, j: int| 0 <= i < j < self.ids().len() implies #[trigger] self.ids()[i]
            < #[trigger] self.ids()[j] by {
            assert(s[i].0 < s[j].0);
        }
        assert forall|k: BreakpointId| #[trigger] self@.dom().contains(k) <==> self.ids().contains(k) by {
            lemma_entries_dom(s, k);
            if self.ids().contains(k) {
                let i = choose|i: int| 0 <= i < self.ids().len() && self.ids()[i] == k;
                assert(s[i].0 == k);
            }
            if self@.dom().contains(k) {
                let i = choose|i: int| 0 <= i < s.len() && #[trigger] s[i].0 == k;
                assert(self.ids()[i] == k);
            }
        }
        assert forall|k: BreakpointId| #[trigger] self@.dom().contains(k) implies k < self.next_id() by {
            lemma_entries_dom(s, k);
            let i = choose|i: int| 0 <= i < s.len() && #[trigger] s[i].0 == k;
        }
        lemma_entries_finite(s);
    }

    /// An empty manager whose first breakpoint gets id 0.
    pub fn new() -> (r: Self)
        ensures
            r.wf(),
            r@ == Map::<BreakpointId, Breakpoint>::empty(),
            r.next_id() == 0,
            r.ids() == Seq::<BreakpointId>::empty(),
    {
        let r = BreakpointManager { breakpoints: Vec::new(), next_id: 0 };
        assert(r.ids() =~= Seq::<BreakpointId>::empty());
        r
    }

    /// Whether every id has been handed out, so that no breakpoint can be
    /// set any more.
    pub fn ids_exhausted(&self) -> (r: bool)
        ensures
            r == (self.next_id() == u64::MAX),
    {
        self.next_id == u64::MAX
    }

    /// Set a breakpoint at the given address; it starts enabled with no hits.
    pub fn set(&mut self, address: u64, original_byte: u8) -> (id: BreakpointId)
        requires
            old(self).wf(),
            old(self).next_id() < u64::MAX,
        ensures
            final(self).wf(),
            id == old(self).next_id(),
            !old(self)@.dom().contains(id),
            final(self).next_id() == id + 1,
            final(self)@ == old(self)@.insert(
                id,
                (Breakpoint {
                    id,
                    address,
                    original_byte,
                    state: BreakpointState::Enabled,
                    hit_count: 0,
                }),
            ),
            final(self).ids() == old(self).ids().push(id),
    {
        proof {
            lemma_entries_dom(self.breakpoints@, self.next_id);
        }
        let id = self.next_id;
        self.next_id = self.next_id + 1;
        let bp = Breakpoint {
            id,
            address,
            original_byte,
            state: BreakpointState::Enabled,
            hit_count: 0,
        };
        let ghost before = self.breakpoints@;
        self.breakpoints.push((id, bp));
        assert(self.breakpoints@.drop_last() =~= before);
        assert(self.ids() =~= old(self).ids().push(id));
        id
    }

    fn position(&self, id: BreakpointId) -> (r: Option<usize>)
        requires
            self.wf(),
        ensures
            r matches Some(i) ==> i < self.breakpoints@.len() && self.breakpoints@[i as int].0 == id,
            r is None ==> !self@.dom().contains(id),
    {
        let mut i: usize = 0;
        while i < self.breakpoints.len()
            invariant
                i <= self.breakpoints@.len(),
                forall|j: int| 0 <= j < i ==> #[trigger] self.breakpoints@[j].0 != id,
            decreases self.breakpoints@.len() - i,
        {
            if self.breakpoints[i].0 == id {
                return Some(i);
            }
            i = i + 1;
        }
        proof {
            lemma_entries_dom(self.breakpoints@, id);
        }
        None
    }

    /// Remove a breakpoint by id, returning it.
    pub fn remove(&mut self, id: BreakpointId) -> (r: Result<Breakpoint, DebugError>)
        requires
            old(self).wf(),
        ensures
            final(self).wf(),
            final(self).next_id() == old(self).next_id(),
            old(self)@.dom().contains(id) ==> r == Ok::<Breakpoint, DebugError>(old(self)@[id])
                && final(self)@ == old(self)@.remove(id),
            !old(self)@.dom().contains(id) ==> r == Err::<Breakpoint, DebugError>(
                (DebugError::BreakpointNotFound { id }),
            ) && final(self)@ == old(self)@ && *final(self) == *old(self),
            forall|k: BreakpointId| #[trigger] final(self).ids().contains(k) <==> old(self).ids().contains(k) && k != id,
    {
        proof {
            self.lemma_wf();
        }
        match self.position(id) {
            Some(i) => {
                proof {
                    lemma_entries_value(self.breakpoints@, i as int);
                    lemma_entries_remove(self.breakpoints@, i as int);
                }
                let ghost before = self.breakpoints@;
                let (_, bp) = self.breakpoints.remove(i);
                proof {
                    assert(self.breakpoints@ == before.remove(i as int));
                    assert forall|j: int| 0 <= j < self.breakpoints@.len() implies #[trigger] self.breakpoints@[j].0
                        < self.next_id by {
                        if j < i {
                            assert(self.breakpoints@[j] == before[j]);
                        } else {
                            assert(self.breakpoints@[j] == before[j + 1]);
                        }
                    }
                    self.lemma_wf();
                    assert forall|k: BreakpointId| #[trigger] self.ids().contains(k) <==> old(self).ids().contains(k)
                        && k != id by {
                        assert(self@.dom().contains(k) <==> self.ids().contains(k));
                        assert(old(self)@.dom().contains(k) <==> old(self).ids().contains(k));
                    }
                }
                Ok(bp)
            },
            None => {
                proof {
                    self.lemma_wf();
                }
                Err(DebugError::BreakpointNotFound { id })
            },
        }
    }

    /// Get a breakpoint by id.
    pub fn get(&self, id: BreakpointId) -> (r: Option<&Breakpoint>)
        requires
            self.wf(),
        ensures
            self@.dom().contains(id) ==> r == Some(&self@[id]),
            !self@.dom().contains(id) ==> r is None,
    {
        match self.position(id) {
            Some(i) => {
                proof {
                    lemma_entries_value(self.breakpoints@, i as int);
                }
                Some(&self.breakpoints[i].1)
            },
            None => None,
        }
    }

    /// Get a mutable breakpoint by id; what the caller writes through it
    /// becomes the breakpoint stored under `id`.
    pub fn get_mut(&mut self, id: BreakpointId) -> (r: Option<&mut Breakpoint>)
        requires
            old(self).wf(),
        ensures
            final(self).wf(),
            final(self).next_id() == old(self).next_id(),
            final(self).ids() == old(self).ids(),
            old(self)@.dom().contains(id) ==> (r matches Some(b) && *b == old(self)@[id]
                && final(self)@ == old(self)@.insert(id, *final(b))),
            !old(self)@.dom().contains(id) ==> r is None && final(self)@ == old(self)@,
    {
        match self.position(id) {
            Some(i) => {
                proof {
                    lemma_entries_value(self.breakpoints@, i as int);
                }
                let ghost before = self.breakpoints@;
                let entry = &mut self.breakpoints[i];
                let b = &mut entry.1;
                proof {
                    lemma_entries_update(before, i as int, *final(b));
                }
                Some(b)
            },
            None => None,
        }
    }

    /// Find a breakpoint by address: the one with the smallest id among those
    /// at `address`.
    pub fn find_by_address(&self, address: u64) -> (r: Option<&Breakpoint>)
        requires
            self.wf(),
        ensures
            r matches Some(b) ==> b.address == address && exists|k: BreakpointId|
                #[trigger] self@.dom().contains(k) && self@[k] == *b && forall|k2: BreakpointId|
                    #[trigger] self@.dom().contains(k2) && k2 < k ==> self@[k2].address != address,
            r is None ==> forall|k: BreakpointId| #[trigger] self@.dom().contains(k)
                ==> self@[k].address != address,
    {
        let mut i: usize = 0;
        while i < self.breakpoints.len()
            invariant
                self.wf(),
                i <= self.breakpoints@.len(),
                forall|j: int| 0 <= j < i ==> #[trigger] self.breakpoints@[j].1.address != address,
            decreases self.breakpoints@.len() - i,
        {
            if self.breakpoints[i].1.address == address {
                proof {
                    let s = self.breakpoints@;
                    lemma_entries_value(s, i as int);
                    assert forall|k2: BreakpointId| #[trigger] self@.dom().contains(k2) && k2 < s[i as int].0
                        implies self@[k2].address != address by {
                        lemma_entries_dom(s, k2);
                        let j = choose|j: int| 0 <= j < s.len() && #[trigger] s[j].0 == k2;
                        if j >= i {
                            if j > i {
                                assert(s[i as int].0 < s[j].0);
                            }
                        }
                        lemma_entries_value(s, j);
                    }
                }
                return Some(&self.breakpoints[i].1);
            }
            i = i + 1;
        }
        proof {
            let s = self.breakpoints@;
            assert forall|k: BreakpointId| #[trigger] self@.dom().contains(k) implies self@[k].address
                != address by {
                lemma_entries_dom(s, k);
                let j = choose|j: int| 0 <= j < s.len() && #[trigger] s[j].0 == k;
                lemma_entries_value(s, j);
            }
        }
        None
    }

    /// List all breakpoints, in increasing id order.
    pub fn list(&self) -> (r: Vec<&Breakpoint>)
        requires
            self.wf(),
        ensures
            r@.len() == self.ids().len(),
            forall|i: int| 0 <= i < r@.len() ==> *#[trigger] r@[i] == self@[self.ids()[i]],
    {
        let mut out: Vec<&Breakpoint> = Vec::new();
        let mut i: usize = 0;
        while i < self.breakpoints.len()
            invariant
                self.wf(),
                i <= self.breakpoints@.len(),
                out@.len() == i,
                forall|j: int| 0 <= j < i ==> *#[trigger] out@[j] == self@[self.ids()[j]],
            decreases self.breakpoints@.len() - i,
        {
            proof {
                lemma_entries_value(self.breakpoints@, i as int);
            }
            out.push(&self.breakpoints[i].1);
            i = i + 1;
        }
        out
    }

    /// Handle a breakpoint hit: increment its counter and return it.
    pub fn hit(&mut self, id: BreakpointId) -> (r: Result<&Breakpoint, DebugError>)
        requires
            old(self).wf(),
            old(self)@.dom().contains(id) ==> old(self)@[id].hit_count < u64::MAX,
        ensures
            final(self).wf(),
            final(self).next_id() == old(self).next_id(),
            final(self).ids() == old(self).ids(),
            old(self)@.dom().contains(id) ==> final(self)@ == old(self)@.insert(
                id,
                (Breakpoint { hit_count: (old(self)@[id].hit_count + 1) as u64, ..old(self)@[id] }),
            ) && (r matches Ok(b) && *b == final(self)@[id]),
            !old(self)@.dom().contains(id) ==> r == Err::<&Breakpoint, DebugError>(
                (DebugError::BreakpointNotFound { id }),
            ) && final(self)@ == old(self)@,
    {
        match self.position(id) {
            Some(i) => {
                proof {
                    lemma_entries_value(self.breakpoints@, i as int);
                }
                let mut bp = self.breakpoints[i].1;
                bp.hit_count = bp.hit_count + 1;
                let ghost before = self.breakpoints@;
                self.breakpoints.set(i, (id, bp));
                proof {
                    lemma_entries_update(before, i as int, bp);
                    assert(self.breakpoints@ == before.update(i as int, (id, bp)));
                    assert(self.ids() =~= old(self).ids());
                    assert forall|j: int| 0 <= j < self.breakpoints@.len() implies #[trigger] self.breakpoints@[j].0
                        < self.next_id by {
                        assert(self.breakpoints@[j].0 == before[j].0);
                    }
                    lemma_entries_value(self.breakpoints@, i as int);
                }
                Ok(&self.breakpoints[i].1)
            },
            None => Err(DebugError::BreakpointNotFound { id }),
        }
    }
}

/// Restore-step-reinstall hook for a breakpoint hit. The engine carries out
/// the protocol itself; this hook accepts every hit and leaves the register
/// context as it is.
pub fn handle_hit(original_byte: u8, address: u64, ctx: &mut RegisterContext) -> (r: Result<
    (),
    DebugError,
>)
    ensures
        r == Ok::<(), DebugError>(()),
        *final(ctx) == *old(ctx),
{
    Ok(())
}

/// Ids are never handed out twice: every id in use is below `next_id`, the
/// id that `set` returns, so a new breakpoint never shares an id with one
/// that is or was in use, and ids come out in increasing order.
pub proof fn law_ids_fresh(m: BreakpointManager, k: BreakpointId)
    requires
        m.wf(),
        m@.dom().contains(k),
    ensures
        k < m.next_id(),
{
    m.lemma_wf();
}

/// Removing the breakpoint that `set` just added gives back the breakpoints
/// there were before.
pub proof fn law_set_then_remove(m: Map<BreakpointId, Breakpoint>, id: BreakpointId, bp: Breakpoint)
    requires
        !m.dom().contains(id),
    ensures
        m.insert(id, bp).remove(id) == m,
        m.insert(id, bp)[id] == bp,
{
    assert(m.insert(id, bp).remove(id) =~= m);
}

/// A hit changes the hit counter of that one breakpoint, by one, and nothing
/// else.
pub proof fn law_hit_counts_once(m: Map<BreakpointId, Breakpoint>, id: BreakpointId, k: BreakpointId)
    requires
        m.dom().contains(id),
        m[id].hit_count < u64::MAX,
    ensures
        ({
            let after = m.insert(
                id,
                (Breakpoint { hit_count: (m[id].hit_count + 1) as u64, ..m[id] }),
            );
            &&& after.dom() == m.dom()
            &&& after[id].hit_count == m[id].hit_count + 1
            &&& after[id].address == m[id].address
            &&& after[id].original_byte == m[id].original_byte
            &&& after[id].state == m[id].state
            &&& (k != id ==> after[k] == m[k])
        }),
{
    let after = m.insert(id, (Breakpoint { hit_count: (m[id].hit_count + 1) as u64, ..m[id] }));
    assert(after.dom() =~= m.dom());
}

} // verus!

verus! {

/// Every breakpoint is stored under its own id.
pub open spec fn stored_under_own_id(m: Map<BreakpointId, Breakpoint>) -> bool {
    forall|k: BreakpointId| #[trigger] m.dom().contains(k) ==> m[k].id == k
}

/// `set`, `remove` and `hit` keep every breakpoint stored under its own id:
/// `set` stores the new breakpoint under the id it gives it, `remove` takes
/// one out, and `hit` changes only a hit counter. So over any sequence of
/// these calls from an empty manager, the list shows each breakpoint with
/// the id it is found by.
pub proof fn law_ids_match_keys(
    m: Map<BreakpointId, Breakpoint>,
    id: BreakpointId,
    address: u64,
    original_byte: u8,
)
    requires
        stored_under_own_id(m),
    ensures
        stored_under_own_id(Map::<BreakpointId, Breakpoint>::empty()),
        stored_under_own_id(
            m.insert(
                id,
                (Breakpoint { id, address, original_byte, state: BreakpointState::Enabled, hit_count: 0 }),
            ),
        ),
        stored_under_own_id(m.remove(id)),
        m.dom().contains(id) && m[id].hit_count < u64::MAX ==> stored_under_own_id(
            m.insert(id, (Breakpoint { hit_count: (m[id].hit_count + 1) as u64, ..m[id] })),
        ),
{
}

} // verus!

verus! {

/// A call that changes a breakpoint manager: `set` (placing a breakpoint),
/// `remove` or `hit`.
pub enum BreakpointCall {
    Place { address: u64, original_byte: u8 },
    Remove { id: BreakpointId },
    Hit { id: BreakpointId },
}

/// The breakpoints and the next id after one call, as the call's contract
/// states: `set` adds an enabled breakpoint under the next id, `remove`
/// takes one out, `hit` counts one more hit of a known breakpoint.
pub open spec fn after_call(m: Map<BreakpointId, Breakpoint>, next: BreakpointId, c: BreakpointCall) -> (
    Map<BreakpointId, Breakpoint>,
    BreakpointId,
) {
    match c {
        BreakpointCall::Place { address, original_byte } => (
            m.insert(
                next,
                (Breakpoint { id: next, address, original_byte, state: BreakpointState::Enabled, hit_count: 0 }),
            ),
            (next + 1) as u64,
        ),
        BreakpointCall::Remove { id } => (m.remove(id), next),
        BreakpointCall::Hit { id } => if m.dom().contains(id) && m[id].hit_count < u64::MAX {
            (m.insert(id, (Breakpoint { hit_count: (m[id].hit_count + 1) as u64, ..m[id] })), next)
        } else {
            (m, next)
        },
    }
}

/// The breakpoints and the next id after a sequence of calls on a new
/// manager.
pub open spec fn after_calls(calls: Seq<BreakpointCall>) -> (Map<BreakpointId, Breakpoint>, BreakpointId)
    decreases calls.len(),
{
    if calls.len() == 0 {
        (Map::empty(), 0)
    } else {
        let before = after_calls(calls.drop_last());
        after_call(before.0, before.1, calls.last())
    }
}

/// How many of the calls are `set` (`Place`).
pub open spec fn set_calls(calls: Seq<BreakpointCall>) -> nat
    decreases calls.len(),
{
    if calls.len() == 0 {
        0
    } else {
        set_calls(calls.drop_last()) + if calls.last() is Place {
            1nat
        } else {
            0nat
        }
    }
}

/// How many of the calls are a `remove` that found its breakpoint.
pub open spec fn removals(calls: Seq<BreakpointCall>) -> nat
    decreases calls.len(),
{
    if calls.len() == 0 {
        0
    } else {
        removals(calls.drop_last()) + match calls.last() {
            BreakpointCall::Remove { id } => if after_calls(calls.drop_last()).0.dom().contains(id) {
                1nat
            } else {
                0nat
            },
            _ => 0nat,
        }
    }
}

/// After any sequence of `set`, `remove` and `hit` calls on a new manager:
/// the next id is the number of `set` calls, every breakpoint is stored
/// under its own id, below the next id, and there are as many as `set`
/// calls less the removals that found their breakpoint.
pub proof fn law_breakpoints_after_calls(calls: Seq<BreakpointCall>)
    requires
        set_calls(calls) < u64::MAX,
    ensures
        after_calls(calls).1 == set_calls(calls),
        after_calls(calls).0.dom().finite(),
        stored_under_own_id(after_calls(calls).0),
        forall|k: BreakpointId| #[trigger] after_calls(calls).0.dom().contains(k) ==> k < after_calls(calls).1,
        after_calls(calls).0.dom().len() + removals(calls) == set_calls(calls),
    decreases calls.len(),
{
    if calls.len() > 0 {
        let init = calls.drop_last();
        assert(set_calls(init) <= set_calls(calls));
        law_breakpoints_after_calls(init);
        let (m, next) = after_calls(init);
        match calls.last() {
            BreakpointCall::Place { address, original_byte } => {
                assert(!m.dom().contains(next));
                let bp = Breakpoint { id: next, address, original_byte, state: BreakpointState::Enabled, hit_count: 0 };
                assert(m.insert(next, bp).dom() == m.dom().insert(next));
            },
            BreakpointCall::Remove { id } => {
                if m.dom().contains(id) {
                    assert(m.remove(id).dom() == m.dom().remove(id));
                }
            },
            BreakpointCall::Hit { id } => {
                if m.dom().contains(id) && m[id].hit_count < u64::MAX {
                    let bp = Breakpoint { hit_count: (m[id].hit_count + 1) as u64, ..m[id] };
                    assert(m.insert(id, bp).dom() =~= m.dom());
                }
            },
        }
    }
}

/// A well-formed manager whose breakpoints are stored under their own ids
/// (as after any sequence of calls, see `law_breakpoints_after_calls`)
/// lists each of them once: the list follows `ids()`, whose ids are
/// distinct and exactly the manager's, and each listed breakpoint carries
/// the id it is found by.
pub proof fn law_list_holds_each_once(m: BreakpointManager)
    requires
        m.wf(),
        stored_under_own_id(m@),
    ensures
        forall|i: int, j: int| 0 <= i < j < m.ids().len() ==> #[trigger] m.ids()[i] != #[trigger] m.ids()[j],
        m.ids().len() == m@.dom().len(),
        forall|k: BreakpointId| #[trigger] m@.dom().contains(k) <==> m.ids().contains(k),
        forall|i: int| 0 <= i < m.ids().len() ==> #[trigger] m@[m.ids()[i]].id == m.ids()[i],
{
    m.lemma_wf();
    assert forall|i: int| 0 <= i < m.ids().len() implies #[trigger] m@[m.ids()[i]].id == m.ids()[i] by {
        let k = m.ids()[i];
        assert(m.ids().contains(k));
        assert(m@.dom().contains(k));
        assert(m@[k].id == k);
    }
}

} // verus!
