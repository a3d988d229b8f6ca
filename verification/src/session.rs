use vstd::prelude::*;

use crate::send_buffer::SendBuffer;
use crate::traits::{ParseRequest, Serialize};

verus! {

/// One outstanding request of a client session: its transaction id, the
/// addressed unit, the deadline after which it times out, and the send
/// buffer whose promise the caller awaits.
pub struct PendingRequest<T: Serialize + ParseRequest> {
    pub tx_id: u16,
    pub unit_id: u8,
    pub deadline: u64,
    pub buffer: SendBuffer<T>,
}

/// Whether a sequence of outstanding requests uses each transaction id at
/// most once.
pub open spec fn spec_unique_tx_ids<T: Serialize + ParseRequest>(
    entries: Seq<PendingRequest<T>>,
) -> bool {
    forall|i: int, j: int|
        0 <= i < j < entries.len() ==> #[trigger] entries[i].tx_id != #[trigger] entries[j].tx_id
}

/// The first position holding a transaction id, if any.
pub open spec fn spec_find_tx_id<T: Serialize + ParseRequest>(
    entries: Seq<PendingRequest<T>>,
    tx_id: u16,
) -> Option<int> {
    if exists|i: int| 0 <= i < entries.len() && #[trigger] entries[i].tx_id == tx_id {
        Some(choose|i: int| 0 <= i < entries.len() && #[trigger] entries[i].tx_id == tx_id)
    } else {
        None
    }
}

/// Whether any outstanding request's deadline has passed at `now`.
pub open spec fn spec_find_expired<T: Serialize + ParseRequest>(
    entries: Seq<PendingRequest<T>>,
    now: u64,
) -> bool {
    exists|i: int| 0 <= i < entries.len() && #[trigger] entries[i].deadline < now
}

/// Removing one entry keeps the remaining transaction ids unique.
pub proof fn lemma_unique_after_remove<T: Serialize + ParseRequest>(
    entries: Seq<PendingRequest<T>>,
    i: int,
)
    requires
        spec_unique_tx_ids(entries),
        0 <= i < entries.len(),
    ensures
        spec_unique_tx_ids(entries.remove(i)),
{
    let removed = entries.remove(i);
    assert forall|a: int, b: int|
        0 <= a < b < removed.len() implies #[trigger] removed[a].tx_id != #[trigger] removed[b].tx_id by {
        let a0: int = if a < i { a } else { a + 1 };
        let b0: int = if b < i { b } else { b + 1 };
        assert(removed[a] == entries[a0]);
        assert(removed[b] == entries[b0]);
    }
}

/// The task-local registry of outstanding requests on one session, keyed by
/// transaction id. A new request takes the next id of a monotonic counter
/// (wrapping), and the registry is bounded: while it is full, intake pauses.
pub struct SessionMap<T: Serialize + ParseRequest> {
    entries: Vec<PendingRequest<T>>,
    next_tx_id: u16,
    capacity: usize,
}

impl<T: Serialize + ParseRequest> SessionMap<T> {
    pub closed spec fn spec_entries(self) -> Seq<PendingRequest<T>> {
        self.entries@
    }

    pub closed spec fn spec_next_tx_id(self) -> u16 {
        self.next_tx_id
    }

    pub closed spec fn spec_capacity(self) -> usize {
        self.capacity
    }

    /// Law: transaction ids of outstanding requests on one session are
    /// unique, and the registry never exceeds its bound; established at
    /// construction and preserved by every operation.
    pub open spec fn wf(self) -> bool {
        spec_unique_tx_ids(self.spec_entries()) && self.spec_entries().len()
            <= self.spec_capacity()
    }

    pub fn new(capacity: usize) -> (r: SessionMap<T>)
        ensures
            r.wf(),
            r.spec_entries() =~= Seq::<PendingRequest<T>>::empty(),
            r.spec_next_tx_id() == 0,
            r.spec_capacity() == capacity,
    {
        SessionMap { entries: Vec::new(), next_tx_id: 0, capacity }
    }

    pub fn len(&self) -> (r: usize)
        ensures
            r == self.spec_entries().len(),
    {
        self.entries.len()
    }

    /// Whether intake must pause (backpressure).
    pub fn is_full(&self) -> (r: bool)
        ensures
            r == (self.spec_entries().len() >= self.spec_capacity()),
    {
        self.entries.len() >= self.capacity
    }

    /// Admits one request: it takes the next transaction id, the counter
    /// advances (wrapping), and the entry joins the registry. While the
    /// registry is full, or the next id still collides with an outstanding
    /// one, nothing is admitted and the send buffer comes back to wait.
    pub fn insert(&mut self, unit_id: u8, deadline: u64, buffer: SendBuffer<T>) -> (r: Result<
        u16,
        SendBuffer<T>,
    >)
        requires
            old(self).wf(),
        ensures
            final(self).wf(),
            old(self).spec_entries().len() >= old(self).spec_capacity() ==> (r matches Err(b) && b
                == buffer && *final(self) == *old(self)),
            old(self).spec_entries().len() < old(self).spec_capacity() && spec_find_tx_id(
                old(self).spec_entries(),
                old(self).spec_next_tx_id(),
            ) is Some ==> (r matches Err(b) && b == buffer && *final(self) == *old(self)),
            old(self).spec_entries().len() < old(self).spec_capacity() && spec_find_tx_id(
                old(self).spec_entries(),
                old(self).spec_next_tx_id(),
            ) is None ==> (r matches Ok(tx_id) && tx_id == old(self).spec_next_tx_id()
                && final(self).spec_entries() =~= old(self).spec_entries().push(
                (PendingRequest { tx_id, unit_id, deadline, buffer }),
            ) && final(self).spec_next_tx_id() == ((old(self).spec_next_tx_id() + 1) % 0x10000)
                && final(self).spec_capacity() == old(self).spec_capacity()),
    {
        if self.entries.len() >= self.capacity {
            return Err(buffer);
        }
        let tx_id = self.next_tx_id;
        let mut i: usize = 0;
        while i < self.entries.len()
            invariant
                self.entries@ == old(self).spec_entries(),
                self.next_tx_id == old(self).spec_next_tx_id(),
                self.capacity == old(self).spec_capacity(),
                self.entries@.len() < self.capacity,
                spec_unique_tx_ids(self.entries@),
                tx_id == self.next_tx_id,
                i <= self.entries@.len(),
                forall|j: int| 0 <= j < i ==> #[trigger] self.entries@[j].tx_id != tx_id,
            decreases self.entries@.len() - i,
        {
            if self.entries[i].tx_id == tx_id {
                proof {
                    assert(spec_find_tx_id(self.entries@, tx_id) is Some);
                }
                return Err(buffer);
            }
            i = i + 1;
        }
        proof {
            assert(forall|j: int|
                0 <= j < self.entries@.len() ==> #[trigger] self.entries@[j].tx_id != tx_id);
            assert(spec_find_tx_id(self.entries@, tx_id) is None);
        }
        self.entries.push(PendingRequest { tx_id, unit_id, deadline, buffer });
        self.next_tx_id = if self.next_tx_id == 0xFFFF {
            0
        } else {
            self.next_tx_id + 1
        };
        Ok(tx_id)
    }

    /// Takes the outstanding request that a response frame answers: the one
    /// whose transaction id and unit id both match. A frame with an unknown
    /// transaction id, or the wrong unit, is a stray: it is ignored and no
    /// other outstanding request is touched.
    pub fn remove(&mut self, tx_id: u16, unit_id: u8) -> (r: Option<PendingRequest<T>>)
        requires
            old(self).wf(),
        ensures
            final(self).wf(),
            final(self).spec_next_tx_id() == old(self).spec_next_tx_id(),
            final(self).spec_capacity() == old(self).spec_capacity(),
            match spec_find_tx_id(old(self).spec_entries(), tx_id) {
                Some(i) => if old(self).spec_entries()[i].unit_id == unit_id {
                    r matches Some(entry) && entry == old(self).spec_entries()[i] && final(self).spec_entries() =~= old(self).spec_entries().remove(i)
                } else {
                    r is None && final(self).spec_entries() =~= old(self).spec_entries()
                },
                None => r is None && final(self).spec_entries() =~= old(self).spec_entries(),
            },
    {
        let mut i: usize = 0;
        while i < self.entries.len()
            invariant
                self.entries@ == old(self).spec_entries(),
                self.next_tx_id == old(self).spec_next_tx_id(),
                self.capacity == old(self).spec_capacity(),
                spec_unique_tx_ids(self.entries@),
                self.entries@.len() <= self.capacity,
                i <= self.entries@.len(),
                forall|j: int| 0 <= j < i ==> #[trigger] self.entries@[j].tx_id != tx_id,
            decreases self.entries@.len() - i,
        {
            if self.entries[i].tx_id == tx_id {
                proof {
                    assert(spec_find_tx_id(self.entries@, tx_id) matches Some(k) && k == i);
                    lemma_unique_after_remove(self.entries@, i as int);
                }
                if self.entries[i].unit_id == unit_id {
                    return Some(self.entries.remove(i));
                } else {
                    return None;
                }
            }
            i = i + 1;
        }
        proof {
            assert(spec_find_tx_id(self.entries@, tx_id) is None);
        }
        None
    }

    /// Takes one outstanding request whose deadline has passed at `now`, for
    /// the session to fail with ResponseTimeout; the expired entry leaves the
    /// registry and the others are untouched. None is left expired once this
    /// returns None.
    pub fn pop_expired(&mut self, now: u64) -> (r: Option<PendingRequest<T>>)
        requires
            old(self).wf(),
        ensures
            final(self).wf(),
            final(self).spec_next_tx_id() == old(self).spec_next_tx_id(),
            final(self).spec_capacity() == old(self).spec_capacity(),
            spec_find_expired(old(self).spec_entries(), now) ==> (r matches Some(entry)
                && entry.deadline < now && (exists|i: int|
                0 <= i < old(self).spec_entries().len() && old(self).spec_entries()[i] == entry
                    && final(self).spec_entries() =~= old(self).spec_entries().remove(i))),
            !spec_find_expired(old(self).spec_entries(), now) ==> r is None && final(self).spec_entries() =~= old(self).spec_entries(),
    {
        let mut i: usize = 0;
        while i < self.entries.len()
            invariant
                self.entries@ == old(self).spec_entries(),
                self.next_tx_id == old(self).spec_next_tx_id(),
                self.capacity == old(self).spec_capacity(),
                spec_unique_tx_ids(self.entries@),
                self.entries@.len() <= self.capacity,
                i <= self.entries@.len(),
                forall|j: int| 0 <= j < i ==> #[trigger] self.entries@[j].deadline >= now,
            decreases self.entries@.len() - i,
        {
            if self.entries[i].deadline < now {
                proof {
                    lemma_unique_after_remove(self.entries@, i as int);
                }
                return Some(self.entries.remove(i));
            }
            i = i + 1;
        }
        None
    }
}

} // verus!
