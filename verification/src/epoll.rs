//! epoll: the items an instance watches, the events they emit, and which of
//! those a wait delivers.
use vstd::prelude::*;
use crate::opened_file::Fd;
use crate::result::Error;

verus! {

pub const POLLIN: i16 = 0x001;
pub const POLLPRI: i16 = 0x002;
pub const POLLOUT: i16 = 0x004;
pub const POLLERR: i16 = 0x008;
pub const POLLHUP: i16 = 0x010;
pub const POLLNVAL: i16 = 0x020;
pub const POLLRDNORM: i16 = 0x040;
pub const POLLRDBAND: i16 = 0x080;
pub const POLLWRNORM: i16 = 0x100;
pub const POLLWRBAND: i16 = 0x200;

/// Every defined poll flag.
pub const POLL_ALL: i16 = 0x3ff;

/// The readiness of a file (`POLL*` flags).
#[derive(Clone, Copy, Debug, PartialEq, Eq, Structural)]
pub struct PollStatus {
    bits: i16,
}

impl PollStatus {
    pub closed spec fn view(self) -> i16 {
        self.bits
    }

    /// The flags of `bits` that are defined; the others are dropped.
    pub fn from_bits_truncate(bits: i16) -> (r: PollStatus)
        ensures
            r@ == bits & POLL_ALL,
    {
        PollStatus { bits: bits & POLL_ALL }
    }

    /// No flag.
    pub fn empty() -> (r: PollStatus)
        ensures
            r@ == 0,
    {
        PollStatus { bits: 0 }
    }

    pub fn bits(&self) -> (r: i16)
        ensures
            r == self@,
    {
        self.bits
    }

    pub fn is_empty(&self) -> (r: bool)
        ensures
            r == (self@ == 0),
    {
        self.bits == 0
    }

    /// Whether every flag of `other` is set here.
    pub fn contains(&self, other: PollStatus) -> (r: bool)
        ensures
            r == (self@ & other@ == other@),
    {
        self.bits & other.bits == other.bits
    }

    /// The flags set in both.
    pub fn bitand(self, other: PollStatus) -> (r: PollStatus)
        ensures
            r@ == self@ & other@,
    {
        PollStatus { bits: self.bits & other.bits }
    }
}

/// What identifies an item: the descriptor, and the opened file behind it
/// (a descriptor can be reused for another file).
#[derive(Clone, Copy, Debug, PartialEq, Eq, Structural)]
pub struct EPollItemKey {
    pub fd: Fd,
    pub file: usize,
}

/// A file watched by an instance (added and deleted by `epoll_ctl(2)`):
/// the events listened to, and whether they are edge-triggered.
#[derive(Clone, Copy, Debug, PartialEq, Eq, Structural)]
pub struct EPollItem {
    pub key: EPollItemKey,
    pub events: PollStatus,
    pub edge_triggered: bool,
}

/// An event an item emitted, waiting to be delivered.
#[derive(Clone, Copy, Debug, PartialEq, Eq, Structural)]
pub struct EmittedEvent {
    pub fd: Fd,
    pub file: usize,
    pub listened_events: PollStatus,
    pub edge_triggered: bool,
}

/// Whether an event listening to `listened` fires on a file whose status is
/// `current`.
pub open spec fn fires(listened: i16, current: i16) -> bool {
    listened & current != 0
}

/// The events a wait delivers, in order: the descriptor of each pending
/// event that fires, with the flags both listened to and set.
pub open spec fn delivered(pending: Seq<EmittedEvent>, current: Seq<i16>) -> Seq<(Fd, i16)>
    decreases pending.len(),
{
    if pending.len() == 0 {
        Seq::empty()
    } else {
        let n = pending.len() - 1;
        let prev = delivered(pending.take(n), current.take(n));
        let e = pending[n];
        if fires(e.listened_events@, current[n]) {
            prev.push((e.fd, e.listened_events@ & current[n]))
        } else {
            prev
        }
    }
}

/// The events still pending after a wait: those delivered that are
/// level-triggered, in order.
pub open spec fn kept(pending: Seq<EmittedEvent>, current: Seq<i16>) -> Seq<EmittedEvent>
    decreases pending.len(),
{
    if pending.len() == 0 {
        Seq::empty()
    } else {
        let n = pending.len() - 1;
        let prev = kept(pending.take(n), current.take(n));
        let e = pending[n];
        if fires(e.listened_events@, current[n]) && !e.edge_triggered {
            prev.push(e)
        } else {
            prev
        }
    }
}

/// An epoll instance (`epoll_create(2)`): the items it watches and the
/// events emitted and not yet delivered.
pub struct EPollInstance {
    items: Vec<EPollItem>,
    pending_events: Vec<EmittedEvent>,
}

impl EPollInstance {
    pub closed spec fn spec_items(&self) -> Seq<EPollItem> {
        self.items@
    }

    pub closed spec fn spec_pending(&self) -> Seq<EmittedEvent> {
        self.pending_events@
    }

    pub fn new() -> (r: EPollInstance)
        ensures
            r.spec_items() == Seq::<EPollItem>::empty(),
            r.spec_pending() == Seq::<EmittedEvent>::empty(),
    {
        EPollInstance { items: Vec::new(), pending_events: Vec::new() }
    }

    pub fn items(&self) -> (r: &Vec<EPollItem>)
        ensures
            r@ == self.spec_items(),
    {
        &self.items
    }

    pub fn pending_events(&self) -> (r: &Vec<EmittedEvent>)
        ensures
            r@ == self.spec_pending(),
    {
        &self.pending_events
    }

    /// Watches `fd`, opened on `file`, for `events`.
    pub fn add(&mut self, file: usize, fd: Fd, events: PollStatus, edge_triggered: bool) -> (r:
        Result<(), Error>)
        ensures
            r is Ok,
            final(self).spec_items() == old(self).spec_items().push(
                EPollItem { key: EPollItemKey { fd, file }, events, edge_triggered },
            ),
            final(self).spec_pending() == old(self).spec_pending(),
    {
        let item = EPollItem { key: EPollItemKey { fd, file }, events, edge_triggered };
        self.items.push(item);
        Ok(())
    }

    /// Stops watching `fd` opened on `file`: every item with that key goes.
    pub fn del(&mut self, file: usize, fd: Fd) -> (r: Result<(), Error>)
        ensures
            r is Ok,
            final(self).spec_items() == old(self).spec_items().filter(
                |item: EPollItem| item.key != (EPollItemKey { fd, file }),
            ),
            final(self).spec_pending() == old(self).spec_pending(),
    {
        let key = EPollItemKey { fd, file };
        let ghost keep = |item: EPollItem| item.key != key;
        let mut kept_items: Vec<EPollItem> = Vec::new();
        let mut i: usize = 0;
        while i < self.items.len()
            invariant
                i <= self.items.len(),
                self.items@ == old(self).items@,
                kept_items@ == self.items@.take(i as int).filter(keep),
                forall|it: EPollItem| #[trigger] keep(it) == (it.key != key),
            decreases self.items.len() - i,
        {
            let item = self.items[i];
            proof {
                self.items@.take(i as int).lemma_filter_push(item, keep);
                assert(self.items@.take(i + 1) =~= self.items@.take(i as int).push(item));
            }
            if item.key != key {
                assert(keep(item));
                kept_items.push(item);
            } else {
                assert(!keep(item));
            }
            i += 1;
            assert(self.items@.take(i as int) =~= self.items@.take(i - 1).push(item));
        }
        assert(self.items@.take(self.items.len() as int) =~= self.items@);
        self.items = kept_items;
        Ok(())
    }

    /// The `index`-th item's file now has status `status`: when the item
    /// listens to one of its flags, an event is emitted (and waiters are to
    /// be woken). Returns whether one was.
    pub fn notify_if_satisfied(&mut self, index: usize, status: PollStatus) -> (r: bool)
        requires
            index < old(self).spec_items().len(),
        ensures
            final(self).spec_items() == old(self).spec_items(),
            ({
                let item = old(self).spec_items()[index as int];
                &&& r == fires(item.events@, status@)
                &&& r ==> final(self).spec_pending() == old(self).spec_pending().push(
                    EmittedEvent {
                        fd: item.key.fd,
                        file: item.key.file,
                        listened_events: item.events,
                        edge_triggered: item.edge_triggered,
                    },
                )
                &&& !r ==> final(self).spec_pending() == old(self).spec_pending()
            }),
    {
        let item = self.items[index];
        let events = item.events.bitand(status);
        if !events.is_empty() {
            self.pending_events.push(
                EmittedEvent {
                    fd: item.key.fd,
                    file: item.key.file,
                    listened_events: item.events,
                    edge_triggered: item.edge_triggered,
                },
            );
            true
        } else {
            false
        }
    }

    /// One round of `epoll_wait(2)`: `current[i]` is the status of the file
    /// of the `i`-th pending event. Returns the events delivered (see
    /// `delivered`); the level-triggered ones among them stay pending, the
    /// others are dropped.
    pub fn take_ready_events(&mut self, current: &[PollStatus]) -> (r: Vec<(Fd, PollStatus)>)
        requires
            current.len() == old(self).spec_pending().len(),
        ensures
            final(self).spec_items() == old(self).spec_items(),
            ({
                let cur = current@.map_values(|s: PollStatus| s@);
                let d = delivered(old(self).spec_pending(), cur);
                &&& r@.len() == d.len()
                &&& forall|k: int| 0 <= k < d.len() ==> (#[trigger] r@[k]).0 == d[k].0 && r@[k].1@ == d[k].1
                &&& final(self).spec_pending() == kept(old(self).spec_pending(), cur)
            }),
            forall|k: int|
                0 <= k < r@.len() ==> exists|p: int|
                    0 <= p < current.len() && (#[trigger] r@[k]).0 == old(self).spec_pending()[p].fd
                        && r@[k].1@ == (old(self).spec_pending()[p].listened_events@ & current@[p]@)
                        && r@[k].1@ != 0,
    {
        let ghost cur = current@.map_values(|s: PollStatus| s@);
        let ghost pending = self.pending_events@;
        let mut out: Vec<(Fd, PollStatus)> = Vec::new();
        let mut new_events: Vec<EmittedEvent> = Vec::new();
        let mut i: usize = 0;
        while i < self.pending_events.len()
            invariant
                i <= self.pending_events.len() == current.len(),
                self.pending_events@ == pending,
                self.items@ == old(self).items@,
                cur == current@.map_values(|s: PollStatus| s@),
                ({
                    let d = delivered(pending.take(i as int), cur.take(i as int));
                    &&& out@.len() == d.len()
                    &&& forall|k: int| 0 <= k < d.len() ==> (#[trigger] out@[k]).0 == d[k].0 && out@[k].1@ == d[k].1
                }),
                new_events@ == kept(pending.take(i as int), cur.take(i as int)),
            decreases self.pending_events.len() - i,
        {
            let e = self.pending_events[i];
            let actual = e.listened_events.bitand(current[i]);
            proof {
                assert(pending.take(i + 1).take(i as int) =~= pending.take(i as int));
                assert(cur.take(i + 1).take(i as int) =~= cur.take(i as int));
                assert(pending.take(i + 1)[i as int] == e);
                assert(cur.take(i + 1)[i as int] == current@[i as int]@);
            }
            if !actual.is_empty() {
                out.push((e.fd, actual));
                if !e.edge_triggered {
                    new_events.push(e);
                }
            }
            i += 1;
        }
        proof {
            assert(pending.take(i as int) =~= pending);
            assert(cur.take(i as int) =~= cur);
        }
        self.pending_events = new_events;
        proof {
            let d = delivered(pending, cur);
            lemma_delivered_flags(pending, cur);
            assert forall|k: int| 0 <= k < out@.len() implies exists|p: int|
                0 <= p < current.len() && (#[trigger] out@[k]).0 == pending[p].fd
                    && out@[k].1@ == (pending[p].listened_events@ & current@[p]@)
                    && out@[k].1@ != 0 by {
                let p = choose|p: int|
                    0 <= p < pending.len() && #[trigger] d[k] == (
                        pending[p].fd,
                        pending[p].listened_events@ & cur[p],
                    ) && (pending[p].listened_events@ & cur[p]) != 0;
                assert(cur[p] == current@[p]@);
            }
        }
        out
    }
}

/// After a wait, every event left pending is level-triggered and fired in
/// that wait; edge-triggered events are delivered at most once.
pub proof fn lemma_kept_level_triggered(pending: Seq<EmittedEvent>, current: Seq<i16>)
    requires
        current.len() == pending.len(),
    ensures
        forall|k: int|
            0 <= k < kept(pending, current).len() ==> !(#[trigger] kept(pending, current)[k]).edge_triggered,
        kept(pending, current).len() <= delivered(pending, current).len(),
    decreases pending.len(),
{
    if pending.len() > 0 {
        let n = pending.len() - 1;
        lemma_kept_level_triggered(pending.take(n), current.take(n));
    }
}

/// A wait delivers, for some pending event, exactly the flags that event
/// listens to and the file has set now, and never an empty set of flags:
/// no flag the file has not set is reported. Each delivered event comes
/// from a pending event, and every pending event whose file has a flag it
/// listens to set is delivered.
pub proof fn lemma_delivered_flags(pending: Seq<EmittedEvent>, current: Seq<i16>)
    requires
        current.len() == pending.len(),
    ensures
        delivered(pending, current).len() <= pending.len(),
        forall|k: int|
            0 <= k < delivered(pending, current).len() ==> exists|p: int|
                0 <= p < pending.len() && #[trigger] delivered(pending, current)[k] == (
                    pending[p].fd,
                    pending[p].listened_events@ & current[p],
                ) && (pending[p].listened_events@ & current[p]) != 0,
        forall|p: int|
            0 <= p < pending.len() && (#[trigger] pending[p].listened_events@ & current[p]) != 0
                ==> exists|k: int|
                0 <= k < delivered(pending, current).len() && delivered(pending, current)[k] == (
                    pending[p].fd,
                    pending[p].listened_events@ & current[p],
                ),
    decreases pending.len(),
{
    if pending.len() > 0 {
        let n = pending.len() - 1;
        let pt = pending.take(n);
        let ct = current.take(n);
        lemma_delivered_flags(pt, ct);
        let prev = delivered(pt, ct);
        let d = delivered(pending, current);
        assert forall|k: int| 0 <= k < d.len() implies exists|p: int|
            0 <= p < pending.len() && #[trigger] d[k] == (
                pending[p].fd,
                pending[p].listened_events@ & current[p],
            ) && (pending[p].listened_events@ & current[p]) != 0 by {
            if k < prev.len() {
                assert(d[k] == prev[k]);
                let p = choose|p: int|
                    0 <= p < pt.len() && #[trigger] prev[k] == (
                        pt[p].fd,
                        pt[p].listened_events@ & ct[p],
                    ) && (pt[p].listened_events@ & ct[p]) != 0;
                assert(pt[p] == pending[p] && ct[p] == current[p]);
            } else {
                assert(d[k] == (pending[n].fd, pending[n].listened_events@ & current[n]));
            }
        }
        assert forall|p: int|
            0 <= p < pending.len() && (#[trigger] pending[p].listened_events@ & current[p]) != 0
                implies exists|k: int|
                0 <= k < d.len() && d[k] == (pending[p].fd, pending[p].listened_events@ & current[p]) by {
            if p < n {
                assert(pt[p] == pending[p] && ct[p] == current[p]);
                assert((pt[p].listened_events@ & ct[p]) != 0);
                let k = choose|k: int|
                    0 <= k < prev.len() && prev[k] == (pt[p].fd, pt[p].listened_events@ & ct[p]);
                assert(d[k] == prev[k]);
            } else {
                assert(d[prev.len() as int] == (pending[n].fd, pending[n].listened_events@ & current[n]));
            }
        }
    }
}

/// `struct epoll_data`, held as its 64 bits.
#[derive(Clone, Copy, Debug, PartialEq, Eq, Structural)]
pub struct EPollData {
    pub u64: u64,
}

impl EPollData {
    /// The data as a descriptor: its low 32 bits.
    pub fn fd(&self) -> (r: i32)
        ensures
            r == self.u64 as u32 as i32,
    {
        self.u64 as u32 as i32
    }

    /// The data as a 32-bit integer: its low 32 bits.
    pub fn as_u32(&self) -> (r: u32)
        ensures
            r == self.u64 as u32,
    {
        self.u64 as u32
    }
}

/// `struct epoll_event`.
#[derive(Clone, Copy, Debug, PartialEq, Eq, Structural)]
pub struct EPollEvent {
    pub events: u32,
    pub data: EPollData,
}

} // verus!
