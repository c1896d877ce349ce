//! The table that matches reply frames to the callers waiting for them.
//!
//! A caller registers a waiter under a fresh id before its request leaves;
//! the reader takes the waiter out of the table before it hands over a
//! frame; a caller that gives up takes its own id out. Whoever takes a
//! waiter out owns the wake-up, so no caller is woken twice.

use vstd::prelude::*;
use std::collections::HashMap;
use crate::errors::Error;
use crate::frame::Frame;

verus! {

broadcast use vstd::std_specs::hash::group_hash_axioms;

/// Waiters keyed by request id.
pub struct WaitReqMap<T> {
    map: HashMap<u64, T>,
}

impl<T> View for WaitReqMap<T> {
    type V = Map<u64, T>;

    closed spec fn view(&self) -> Map<u64, T> {
        self.map@
    }
}

/// What taking `id` out of a table holding `m` leaves and returns.
pub open spec fn take_spec<T>(m: Map<u64, T>, id: u64) -> (Map<u64, T>, Option<T>) {
    (m.remove(id), if m.contains_key(id) { Some(m[id]) } else { None })
}

impl<T> WaitReqMap<T> {
    /// An empty table.
    pub fn new() -> (r: Self)
        ensures
            r@ == Map::<u64, T>::empty(),
    {
        WaitReqMap { map: HashMap::new() }
    }

    /// Registers `req` under `id`, which no waiter may hold yet.
    pub fn add(&mut self, id: u64, req: T)
        requires
            !old(self)@.contains_key(id),
        ensures
            final(self)@ == old(self)@.insert(id, req),
    {
        self.map.insert(id, req);
    }

    /// Takes the waiter registered under `id` out of the table, if any.
    pub fn get(&mut self, id: u64) -> (r: Option<T>)
        ensures
            (final(self)@, r) == take_spec(old(self)@, id),
    {
        self.map.remove(&id)
    }

    /// Whether a waiter is registered under `id`.
    pub fn contains(&self, id: u64) -> (r: bool)
        ensures
            r == self@.contains_key(id),
    {
        self.map.contains_key(&id)
    }
}

/// How a caller's wait on its waiter ended.
#[derive(Debug, Clone, Copy, PartialEq, Eq)]
pub enum Parked {
    /// The reader woke the caller.
    Woken,
    /// The deadline passed first.
    TimedOut,
    /// The caller's task was canceled.
    Canceled,
}

/// The waiters of one multiplexed connection, with the allocator of their
/// ids. Ids start at 1 and only grow, so an id is never handed out twice and
/// 0 is never used.
pub struct WaiterTable<T> {
    next: u64,
    waiters: WaitReqMap<T>,
}

impl<T> WaiterTable<T> {
    /// The waiters, by id.
    pub closed spec fn waiters(&self) -> Map<u64, T> {
        self.waiters@
    }

    /// The id the next registration receives.
    pub closed spec fn next_id(&self) -> u64 {
        self.next
    }

    /// Every registered id is non-zero and below the next one.
    pub closed spec fn wf(&self) -> bool {
        &&& self.next >= 1
        &&& forall|k: u64| #[trigger] self.waiters@.contains_key(k) ==> 1 <= k < self.next
    }

    /// An empty table whose first id is 1.
    pub fn new() -> (r: Self)
        ensures
            r.wf(),
            r.waiters() == Map::<u64, T>::empty(),
            r.next_id() == 1,
    {
        WaiterTable { next: 1, waiters: WaitReqMap::new() }
    }

    /// Registers `w` under a fresh id and returns the id; `None` once every
    /// id has been used.
    pub fn register(&mut self, w: T) -> (r: Option<u64>)
        requires
            old(self).wf(),
        ensures
            final(self).wf(),
            r is None <==> old(self).next_id() == u64::MAX,
            r is None ==> final(self).waiters() == old(self).waiters(),
            r matches Some(id) ==> {
                &&& id == old(self).next_id()
                &&& id != 0
                &&& !old(self).waiters().contains_key(id)
                &&& final(self).waiters() == old(self).waiters().insert(id, w)
                &&& final(self).next_id() == id + 1
            },
    {
        if self.next == u64::MAX {
            return None;
        }
        let id = self.next;
        self.waiters.add(id, w);
        self.next = id + 1;
        Some(id)
    }

    /// Takes the waiter of `id` out of the table, if it is still there.
    pub fn take(&mut self, id: u64) -> (r: Option<T>)
        requires
            old(self).wf(),
        ensures
            final(self).wf(),
            final(self).next_id() == old(self).next_id(),
            (final(self).waiters(), r) == take_spec(old(self).waiters(), id),
    {
        self.waiters.get(id)
    }

    /// The reader's step for one reply frame: the waiter registered under the
    /// frame's id is taken out and returned with the frame to wake; with no
    /// such waiter the frame is dropped.
    pub fn deliver(&mut self, frame: Frame) -> (r: Option<(T, Frame)>)
        requires
            old(self).wf(),
        ensures
            final(self).wf(),
            final(self).next_id() == old(self).next_id(),
            final(self).waiters() == old(self).waiters().remove(frame.id),
            r is Some <==> old(self).waiters().contains_key(frame.id),
            r matches Some((w, f)) ==> w == old(self).waiters()[frame.id] && f == frame,
    {
        match self.waiters.get(frame.id) {
            Some(w) => Some((w, frame)),
            None => None,
        }
    }
}

/// The caller's step once its wait ends: a woken caller with a frame in its
/// slot gets that frame; otherwise it takes its id out of the table, so the
/// reader can no longer reach it, and the call ends in `Timeout`.
pub fn wait_rsp<T>(req_map: &mut WaiterTable<T>, id: u64, parked: Parked, rsp: Option<Frame>) -> (r:
    Result<Frame, Error>)
    requires
        old(req_map).wf(),
    ensures
        final(req_map).wf(),
        final(req_map).next_id() == old(req_map).next_id(),
        parked == Parked::Woken && rsp is Some ==> {
            &&& r matches Ok(f) && f == rsp->Some_0
            &&& final(req_map).waiters() == old(req_map).waiters()
        },
        !(parked == Parked::Woken && rsp is Some) ==> {
            &&& r matches Err(Error::Timeout)
            &&& final(req_map).waiters() == old(req_map).waiters().remove(id)
        },
{
    match (parked, rsp) {
        (Parked::Woken, Some(f)) => Ok(f),
        _ => {
            let _ = req_map.take(id);
            Err(Error::Timeout)
        },
    }
}

/// A fresh id is held by no waiter, and differs from every registered id.
pub proof fn lemma_fresh_id_unused<T>(t: WaiterTable<T>, k: u64)
    requires
        t.wf(),
        t.waiters().contains_key(k),
    ensures
        !t.waiters().contains_key(t.next_id()),
        k != t.next_id(),
        k != 0,
{
}

/// A frame reaches at most one caller: once a waiter has been taken out for
/// an id, taking that id again finds nothing, and the other waiters stay.
pub proof fn lemma_single_delivery<T>(m: Map<u64, T>, id: u64, other: u64)
    requires
        other != id,
    ensures
        take_spec(take_spec(m, id).0, id).1 is None,
        take_spec(m, id).0.contains_key(other) == m.contains_key(other),
        m.contains_key(other) ==> take_spec(m, id).0[other] == m[other],
{
}

} // verus!
