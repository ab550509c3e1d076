//! Per-tunnel bookkeeping: the table of live child connection ids and the
//! monotonic id generator the server draws from.
//!
//! Each peer keeps one table per tunnel; the id is the key under which the
//! unverified shell finds the matching socket write half. The table is a
//! set of ids: inserting an id that is present and removing one that is
//! absent both leave it unchanged, which is what makes close notifications
//! idempotent.

use vstd::prelude::*;

use crate::CONNECTION_ID_START;

verus! {

broadcast use vstd::seq_lib::group_seq_properties;

/// The set of child connection ids a tunnel currently knows.
pub struct ConnTable {
    ids: Vec<u32>,
}

impl View for ConnTable {
    type V = Set<u32>;

    closed spec fn view(&self) -> Set<u32> {
        Set::new(|x: u32| self.ids@.contains(x))
    }
}

impl ConnTable {
    /// A fresh table knows no children.
    pub fn new() -> (t: Self)
        ensures
            t@ == Set::<u32>::empty(),
    {
        let t = ConnTable { ids: Vec::new() };
        proof {
            assert(t@ =~= Set::<u32>::empty());
        }
        t
    }

    /// Whether child `id` is in the table.
    pub fn contains(&self, id: u32) -> (r: bool)
        ensures
            r == self@.contains(id),
    {
        let mut i: usize = 0;
        while i < self.ids.len()
            invariant
                i <= self.ids@.len(),
                forall|j: int| 0 <= j < i ==> self.ids@[j] != id,
            decreases self.ids@.len() - i,
        {
            if self.ids[i] == id {
                return true;
            }
            i += 1;
        }
        false
    }

    /// Adds child `id`; a second insertion of the same id changes nothing.
    pub fn insert(&mut self, id: u32)
        ensures
            final(self)@ == old(self)@.insert(id),
    {
        if !self.contains(id) {
            self.ids.push(id);
        }
        proof {
            assert(self@ =~= old(self)@.insert(id));
        }
    }

    /// Removes child `id` and says whether it was there; removing an absent
    /// id changes nothing and is not an error.
    pub fn remove(&mut self, id: u32) -> (was: bool)
        ensures
            was == old(self)@.contains(id),
            final(self)@ == old(self)@.remove(id),
    {
        let ghost orig = self.ids@;
        let mut kept: Vec<u32> = Vec::new();
        let mut found: bool = false;
        let mut i: usize = 0;
        while i < self.ids.len()
            invariant
                self.ids@ == orig,
                i <= orig.len(),
                found == orig.subrange(0, i as int).contains(id),
                forall|x: u32|
                    #[trigger] kept@.contains(x) == (orig.subrange(0, i as int).contains(x) && x
                        != id),
            decreases orig.len() - i,
        {
            let v: u32 = self.ids[i];
            let ghost kept0 = kept@;
            if v == id {
                found = true;
            } else {
                kept.push(v);
            }
            proof {
                assert(orig.subrange(0, i + 1) =~= orig.subrange(0, i as int).push(orig[i as int]));
                assert forall|x: u32|
                    #[trigger] kept@.contains(x) == (orig.subrange(0, i + 1).contains(x) && x
                        != id) by {
                    if v != id {
                        assert(kept@ == kept0.push(v));
                    }
                }
            }
            i += 1;
        }
        proof {
            assert(orig.subrange(0, orig.len() as int) =~= orig);
        }
        self.ids = kept;
        proof {
            assert(self@ =~= old(self)@.remove(id));
        }
        found
    }
}

/// Close idempotence: removing the same id twice leaves the table exactly
/// as removing it once does, and the second removal finds nothing there.
pub proof fn lemma_close_idempotent(t: Set<u32>, id: u32)
    ensures
        t.remove(id).remove(id) == t.remove(id),
        !t.remove(id).contains(id),
{
    assert(t.remove(id).remove(id) =~= t.remove(id));
}

/// Hands out child connection ids, one per accepted external connection.
pub struct IdGen {
    last: u32,
}

impl IdGen {
    /// The most recently handed-out id, or the value just below the first
    /// child id when none has been handed out yet.
    pub closed spec fn last_id(&self) -> u32 {
        self.last
    }

    /// The generator never sits below the end of the reserved range.
    pub open spec fn wf(&self) -> bool {
        self.last_id() >= CONNECTION_ID_START - 1
    }

    /// A fresh generator, ready to hand out the first child id.
    pub fn new() -> (g: Self)
        ensures
            g.wf(),
            g.last_id() == CONNECTION_ID_START - 1,
    {
        IdGen { last: CONNECTION_ID_START - 1 }
    }

    /// The most recently handed-out id, as a value a caller can test
    /// before asking for another.
    pub fn last_value(&self) -> (r: u32)
        ensures
            r == self.last_id(),
    {
        self.last
    }

    /// Hands out the next id: strictly above every id handed out before,
    /// and never inside the reserved range below `CONNECTION_ID_START`.
    pub fn next_id(&mut self) -> (id: u32)
        requires
            old(self).wf(),
            old(self).last_id() < u32::MAX,
        ensures
            final(self).wf(),
            id == old(self).last_id() + 1,
            final(self).last_id() == id,
            id >= CONNECTION_ID_START,
    {
        self.last = self.last + 1;
        self.last
    }
}

/// Id monotonicity: ids handed out later are strictly greater, and every
/// id handed out lies at or above the first child id, outside the reserved
/// range.
pub proof fn lemma_id_monotonic(last: u32, n1: u32, n2: u32)
    requires
        last >= CONNECTION_ID_START - 1,
        n1 > last,
        n2 > n1,
    ensures
        CONNECTION_ID_START <= n1 < n2,
{
}

} // verus!
