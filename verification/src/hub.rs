//! The broadcast hub: accepts published payloads and fans them out to every
//! currently registered subscriber, each of which owns an independent bounded
//! backlog. A subscriber that fails to drain fast enough loses its oldest
//! unread payloads (never the newest), is told how many were dropped, and is
//! never disconnected for being slow.

use vstd::prelude::*;

verus! {

/// Most payloads one subscriber may have queued; beyond this the oldest are
/// dropped and counted as a gap.
pub const BACKLOG_CAPACITY: usize = 128;

/// One item handed to a subscriber's drain loop.
pub enum Delivery {
    /// This many payloads were dropped for this subscriber since it last
    /// drained; delivery then resumes with the newest payloads.
    Gap(u64),
    /// The next payload, in publish order.
    Payload(Vec<u8>),
}

/// Mathematical state of one subscription: its handle, its queued payloads
/// (oldest first), and how many payloads were dropped since its last drain.
#[verifier::ext_equal]
pub struct SubscriberView {
    pub id: u64,
    pub backlog: Seq<Seq<u8>>,
    pub skipped: u64,
}

struct Subscriber {
    id: u64,
    backlog: Vec<Vec<u8>>,
    skipped: u64,
}

impl View for Subscriber {
    type V = SubscriberView;

    closed spec fn view(&self) -> SubscriberView {
        SubscriberView {
            id: self.id,
            backlog: self.backlog@.map_values(|p: Vec<u8>| p@),
            skipped: self.skipped,
        }
    }
}

/// `skipped` counters saturate rather than wrap.
pub open spec fn bump_skipped(n: u64) -> u64 {
    if n == u64::MAX {
        n
    } else {
        (n + 1) as u64
    }
}

/// What publishing `p` does to one subscriber: append it, or, when the
/// backlog is full, drop the oldest payload, count it, and append.
pub open spec fn push_payload(s: SubscriberView, p: Seq<u8>) -> SubscriberView {
    if s.backlog.len() < BACKLOG_CAPACITY {
        SubscriberView { id: s.id, backlog: s.backlog.push(p), skipped: s.skipped }
    } else {
        SubscriberView {
            id: s.id,
            backlog: s.backlog.drop_first().push(p),
            skipped: bump_skipped(s.skipped),
        }
    }
}

/// Whether some subscriber in `v` carries the handle `id`.
pub open spec fn has_subscriber(v: Seq<SubscriberView>, id: u64) -> bool {
    exists|i: int| 0 <= i < v.len() && v[i].id == id
}

/// The position of the subscriber carrying `id` (meaningful when ids are
/// distinct and `has_subscriber` holds).
pub open spec fn subscriber_index(v: Seq<SubscriberView>, id: u64) -> int {
    choose|i: int| 0 <= i < v.len() && v[i].id == id
}

/// Payloads queue in publish order: while a subscriber has room for both,
/// publishing `p1` and then `p2` appends them in that order behind whatever
/// was already queued, and nothing is dropped or counted as skipped.
pub proof fn lemma_publish_order(s: SubscriberView, p1: Seq<u8>, p2: Seq<u8>)
    requires
        s.backlog.len() + 2 <= BACKLOG_CAPACITY,
    ensures
        push_payload(push_payload(s, p1), p2).backlog == s.backlog.push(p1).push(p2),
        push_payload(push_payload(s, p1), p2).skipped == s.skipped,
        push_payload(push_payload(s, p1), p2).id == s.id,
{
}

/// A backlog never grows past its capacity, and the newest payload is
/// always kept: publishing appends it at the tail whatever else happens.
pub proof fn lemma_backlog_bounded(s: SubscriberView, p: Seq<u8>)
    requires
        s.backlog.len() <= BACKLOG_CAPACITY,
    ensures
        push_payload(s, p).backlog.len() <= BACKLOG_CAPACITY,
        push_payload(s, p).backlog.last() == p,
        push_payload(s, p).id == s.id,
{
}

/// A full backlog loses exactly its oldest payload: the rest keep their
/// order, the new payload joins at the tail, the count of dropped payloads
/// grows, and the subscriber itself stays (publishing never changes which
/// subscribers are registered).
pub proof fn lemma_overflow_drops_oldest(s: SubscriberView, p: Seq<u8>)
    requires
        s.backlog.len() == BACKLOG_CAPACITY,
    ensures
        push_payload(s, p).backlog.len() == BACKLOG_CAPACITY,
        push_payload(s, p).backlog == s.backlog.drop_first().push(p),
        push_payload(s, p).skipped == bump_skipped(s.skipped),
        push_payload(s, p).id == s.id,
{
}

/// What a run of publishes does to one subscriber, oldest payload first.
pub open spec fn push_payloads(s: SubscriberView, ps: Seq<Seq<u8>>) -> SubscriberView
    decreases ps.len(),
{
    if ps.len() == 0 {
        s
    } else {
        push_payloads(push_payload(s, ps[0]), ps.drop_first())
    }
}

proof fn lemma_push_payloads_app(s: SubscriberView, ps1: Seq<Seq<u8>>, ps2: Seq<Seq<u8>>)
    ensures
        push_payloads(s, ps1 + ps2) == push_payloads(push_payloads(s, ps1), ps2),
    decreases ps1.len(),
{
    if ps1.len() == 0 {
        assert(ps1 + ps2 =~= ps2);
    } else {
        assert((ps1 + ps2)[0] == ps1[0]);
        assert((ps1 + ps2).drop_first() =~= ps1.drop_first() + ps2);
        lemma_push_payloads_app(push_payload(s, ps1[0]), ps1.drop_first(), ps2);
    }
}

proof fn lemma_push_payloads_fill(s: SubscriberView, ps: Seq<Seq<u8>>)
    requires
        s.backlog.len() + ps.len() <= BACKLOG_CAPACITY,
    ensures
        push_payloads(s, ps).backlog =~= s.backlog + ps,
        push_payloads(s, ps).skipped == s.skipped,
        push_payloads(s, ps).id == s.id,
    decreases ps.len(),
{
    if ps.len() == 0 {
        assert(s.backlog + ps =~= s.backlog);
    } else {
        let s1 = push_payload(s, ps[0]);
        assert(s1.backlog =~= s.backlog.push(ps[0]));
        lemma_push_payloads_fill(s1, ps.drop_first());
        assert(s.backlog.push(ps[0]) + ps.drop_first() =~= s.backlog + ps);
    }
}

proof fn lemma_push_payloads_slide(s: SubscriberView, ps: Seq<Seq<u8>>)
    requires
        s.backlog.len() == BACKLOG_CAPACITY,
        s.skipped + ps.len() <= u64::MAX,
    ensures
        push_payloads(s, ps).backlog =~= (s.backlog + ps).skip(ps.len() as int),
        push_payloads(s, ps).skipped == s.skipped + ps.len(),
        push_payloads(s, ps).id == s.id,
    decreases ps.len(),
{
    if ps.len() == 0 {
        assert((s.backlog + ps).skip(0) =~= s.backlog);
    } else {
        let s1 = push_payload(s, ps[0]);
        assert(s1.backlog =~= s.backlog.drop_first().push(ps[0]));
        lemma_push_payloads_slide(s1, ps.drop_first());
        assert(s1.backlog + ps.drop_first() =~= (s.backlog + ps).skip(1));
        assert((s.backlog + ps).skip(1).skip(ps.len() - 1) =~= (s.backlog + ps).skip(
            ps.len() as int,
        ));
    }
}

/// A subscriber that stalls completely while a long burst is published is
/// not disconnected and does not keep it all: afterwards exactly the newest
/// `BACKLOG_CAPACITY` payloads are queued, in publish order, and the skip
/// count says precisely how many older ones were dropped.
pub proof fn lemma_stalled_subscriber_keeps_newest(id: u64, ps: Seq<Seq<u8>>)
    requires
        BACKLOG_CAPACITY <= ps.len(),
        ps.len() - BACKLOG_CAPACITY <= u64::MAX,
    ensures
        ({
            let stalled = push_payloads(
                SubscriberView { id, backlog: Seq::empty(), skipped: 0 },
                ps,
            );
            &&& stalled.id == id
            &&& stalled.backlog =~= ps.skip(ps.len() - BACKLOG_CAPACITY)
            &&& stalled.skipped == ps.len() - BACKLOG_CAPACITY
        }),
{
    let start = SubscriberView { id, backlog: Seq::empty(), skipped: 0 };
    let fill = ps.take(BACKLOG_CAPACITY as int);
    let rest = ps.skip(BACKLOG_CAPACITY as int);
    assert(fill + rest =~= ps);
    lemma_push_payloads_app(start, fill, rest);
    lemma_push_payloads_fill(start, fill);
    let full = push_payloads(start, fill);
    assert(full.backlog =~= fill);
    lemma_push_payloads_slide(full, rest);
    assert(full.backlog + rest =~= ps);
    assert((full.backlog + rest).skip(rest.len() as int) =~= ps.skip(
        ps.len() - BACKLOG_CAPACITY,
    ));
}

/// Removing one subscriber leaves every other untouched: the count drops by
/// exactly one, any other handle is still registered, and the state behind
/// it is unchanged.
pub proof fn lemma_unsubscribe_isolates(v: Seq<SubscriberView>, id: u64, other: u64)
    requires
        forall|i: int, j: int| 0 <= i < j < v.len() ==> #[trigger] v[i].id != #[trigger] v[j].id,
        has_subscriber(v, id),
        has_subscriber(v, other),
        other != id,
    ensures
        v.remove(subscriber_index(v, id)).len() == v.len() - 1,
        has_subscriber(v.remove(subscriber_index(v, id)), other),
        v.remove(subscriber_index(v, id))[subscriber_index(
            v.remove(subscriber_index(v, id)),
            other,
        )] == v[subscriber_index(v, other)],
{
    let i = subscriber_index(v, id);
    let k = subscriber_index(v, other);
    assert(0 <= i < v.len() && v[i].id == id);
    assert(0 <= k < v.len() && v[k].id == other);
    let w = v.remove(i);
    let k2: int = if k < i {
        k
    } else {
        k - 1
    };
    assert(w[k2] == v[k]);
    assert(has_subscriber(w, other));
    assert forall|i2: int, j2: int| 0 <= i2 < j2 < w.len() implies #[trigger] w[i2].id
        != #[trigger] w[j2].id by {
        let a: int = if i2 < i {
            i2
        } else {
            i2 + 1
        };
        let b: int = if j2 < i {
            j2
        } else {
            j2 + 1
        };
        assert(w[i2] == v[a]);
        assert(w[j2] == v[b]);
    }
    let k3 = subscriber_index(w, other);
    assert(0 <= k3 < w.len() && w[k3].id == other);
    if k3 != k2 {
        assert(w[k3].id == w[k2].id);
        assert(false);
    }
}

/// The fan-out core. One hub is shared (behind the caller's synchronization)
/// by the ingress side, which publishes, and by the sessions, which each
/// subscribe once and then drain their own backlog.
pub struct Hub {
    subscribers: Vec<Subscriber>,
    next_id: u64,
}

impl View for Hub {
    type V = Seq<SubscriberView>;

    closed spec fn view(&self) -> Seq<SubscriberView> {
        self.subscribers@.map_values(|s: Subscriber| s@)
    }
}

impl Hub {
    /// The handle the next subscription will receive; handles are never
    /// reused, so a hub can hand out at most `u64::MAX` of them.
    pub closed spec fn spec_next_id(self) -> u64 {
        self.next_id
    }

    /// Subscriber handles are distinct and below `spec_next_id`, and no
    /// backlog exceeds its capacity.
    pub open spec fn wf(self) -> bool {
        &&& forall|i: int, j: int|
            0 <= i < j < self@.len() ==> #[trigger] self@[i].id != #[trigger] self@[j].id
        &&& forall|i: int| 0 <= i < self@.len() ==> #[trigger] self@[i].id < self.spec_next_id()
        &&& forall|i: int|
            0 <= i < self@.len() ==> #[trigger] self@[i].backlog.len() <= BACKLOG_CAPACITY
    }

    /// A hub with no subscribers.
    pub fn new() -> (h: Hub)
        ensures
            h.wf(),
            h@ =~= Seq::<SubscriberView>::empty(),
            h.spec_next_id() == 0,
    {
        Hub { subscribers: Vec::new(), next_id: 0 }
    }

    /// How many subscribers are currently registered.
    pub fn subscriber_count(&self) -> (n: usize)
        ensures
            n == self@.len(),
    {
        self.subscribers.len()
    }

    /// Whether the handle `id` is currently registered.
    pub fn is_subscribed(&self, id: u64) -> (b: bool)
        ensures
            b == has_subscriber(self@, id),
    {
        let n = self.subscribers.len();
        let mut i: usize = 0;
        while i < n
            invariant
                i <= n,
                n == self.subscribers.len(),
                forall|k: int| 0 <= k < i ==> #[trigger] self@[k].id != id,
            decreases n - i,
        {
            if self.subscribers[i].id == id {
                assert(self@[i as int].id == id);
                return true;
            }
            i = i + 1;
        }
        false
    }

    /// Whether a fresh handle is still available (only `u64::MAX`
    /// subscriptions can ever be opened over a hub's lifetime).
    pub fn can_subscribe(&self) -> (b: bool)
        ensures
            b == (self.spec_next_id() < u64::MAX),
    {
        self.next_id < u64::MAX
    }

    /// Register a new consumption point with an empty backlog and a fresh
    /// handle.
    pub fn subscribe(&mut self) -> (id: u64)
        requires
            old(self).wf(),
            old(self).spec_next_id() < u64::MAX,
        ensures
            final(self).wf(),
            id == old(self).spec_next_id(),
            final(self).spec_next_id() == id + 1,
            !has_subscriber(old(self)@, id),
            final(self)@ == old(self)@.push(
                SubscriberView { id, backlog: Seq::empty(), skipped: 0 },
            ),
    {
        let id = self.next_id;
        self.next_id = self.next_id + 1;
        let sub = Subscriber { id, backlog: Vec::new(), skipped: 0 };
        self.subscribers.push(sub);
        proof {
            let sv = SubscriberView { id, backlog: Seq::empty(), skipped: 0 };
            assert(self@ =~~= old(self)@.push(sv));
            assert forall|k: int| 0 <= k < old(self)@.len() implies #[trigger] old(
                self,
            )@[k].id != id by {}
        }
        id
    }

    /// Remove the subscriber carrying `id`, if present; every other
    /// subscriber is untouched. Returns whether one was removed.
    pub fn unsubscribe(&mut self, id: u64) -> (was: bool)
        requires
            old(self).wf(),
        ensures
            final(self).wf(),
            final(self).spec_next_id() == old(self).spec_next_id(),
            was == has_subscriber(old(self)@, id),
            was ==> final(self)@ == old(self)@.remove(subscriber_index(old(self)@, id)),
            !was ==> final(self)@ == old(self)@,
    {
        let ghost horig = *self;
        let n = self.subscribers.len();
        let mut i: usize = 0;
        while i < n
            invariant
                i <= n,
                horig.wf(),
                horig == *old(self),
                *self == horig,
                n == self.subscribers.len(),
                forall|k: int| 0 <= k < i ==> #[trigger] self@[k].id != id,
            decreases n - i,
        {
            if self.subscribers[i].id == id {
                assert(self@[i as int].id == id);
                assert(has_subscriber(self@, id));
                proof {
                    let j = subscriber_index(horig@, id);
                    assert(horig@[j].id == id);
                    assert(j == i);
                }
                self.subscribers.remove(i);
                proof {
                    assert(self@ =~~= horig@.remove(i as int));
                }
                return true;
            }
            i = i + 1;
        }
        assert(!has_subscriber(self@, id));
        false
    }

    /// Enqueue `payload` for every subscriber registered at the time of the
    /// call, dropping the oldest payload of any backlog already at capacity.
    /// Returns the number of subscribers the payload was enqueued for; zero
    /// subscribers is a normal outcome, not an error.
    pub fn publish(&mut self, payload: &Vec<u8>) -> (n: usize)
        requires
            old(self).wf(),
        ensures
            final(self).wf(),
            final(self).spec_next_id() == old(self).spec_next_id(),
            n == old(self)@.len(),
            final(self)@.len() == old(self)@.len(),
            forall|k: int|
                0 <= k < old(self)@.len() ==> #[trigger] final(self)@[k] == push_payload(
                    old(self)@[k],
                    payload@,
                ),
    {
        let ghost horig = *self;
        let n = self.subscribers.len();
        let mut i: usize = 0;
        while i < n
            invariant
                i <= n,
                horig.wf(),
                n == horig@.len(),
                self@.len() == horig@.len(),
                self.spec_next_id() == horig.spec_next_id(),
                n == self.subscribers.len(),
                forall|k: int| i <= k < n ==> #[trigger] self@[k] == horig@[k],
                forall|k: int|
                    0 <= k < i ==> #[trigger] self@[k] == push_payload(horig@[k], payload@),
            decreases n - i,
        {
            let body = payload.clone();
            proof {
                assert(body@ =~= payload@);
                assert(self@[i as int] == horig@[i as int]);
                assert(horig@[i as int].backlog.len() <= BACKLOG_CAPACITY);
            }
            let ghost prev = self@;
            let sub = &mut self.subscribers[i];
            if sub.backlog.len() == BACKLOG_CAPACITY {
                sub.backlog.remove(0);
                if sub.skipped < u64::MAX {
                    sub.skipped = sub.skipped + 1;
                }
            }
            sub.backlog.push(body);
            proof {
                assert(self@[i as int] =~~= push_payload(horig@[i as int], payload@));
                assert forall|k: int| 0 <= k < n && k != i implies #[trigger] self@[k] == prev[k] by {}
            }
            i = i + 1;
        }
        n
    }

    /// Hand the subscriber carrying `id` its next item: first any pending gap
    /// notice, then the oldest queued payload; `None` when nothing is pending
    /// or no such subscriber exists.
    pub fn next(&mut self, id: u64) -> (d: Option<Delivery>)
        requires
            old(self).wf(),
        ensures
            final(self).wf(),
            final(self).spec_next_id() == old(self).spec_next_id(),
            !has_subscriber(old(self)@, id) ==> d is None && final(self)@ == old(self)@,
            has_subscriber(old(self)@, id) ==> {
                let i = subscriber_index(old(self)@, id);
                let s = old(self)@[i];
                if s.skipped > 0 {
                    &&& d == Some(Delivery::Gap(s.skipped))
                    &&& final(self)@ == old(self)@.update(
                        i,
                        SubscriberView { id: s.id, backlog: s.backlog, skipped: 0 },
                    )
                } else if s.backlog.len() > 0 {
                    &&& d matches Some(Delivery::Payload(p)) && p@ == s.backlog[0]
                    &&& final(self)@ == old(self)@.update(
                        i,
                        SubscriberView { id: s.id, backlog: s.backlog.drop_first(), skipped: 0 },
                    )
                } else {
                    d is None && final(self)@ == old(self)@
                }
            },
    {
        let ghost horig = *self;
        let n = self.subscribers.len();
        let mut i: usize = 0;
        while i < n
            invariant
                i <= n,
                horig.wf(),
                horig == *old(self),
                *self == horig,
                n == self.subscribers.len(),
                forall|k: int| 0 <= k < i ==> #[trigger] self@[k].id != id,
            decreases n - i,
        {
            if self.subscribers[i].id == id {
                assert(self@[i as int].id == id);
                assert(has_subscriber(self@, id));
                proof {
                    let j = subscriber_index(horig@, id);
                    assert(horig@[j].id == id);
                    assert(j == i);
                }
                let ghost s = horig@[i as int];
                if self.subscribers[i].skipped > 0 {
                    let sub = &mut self.subscribers[i];
                    let gap = sub.skipped;
                    sub.skipped = 0;
                    proof {
                        assert(self@ =~~= horig@.update(
                            i as int,
                            SubscriberView { id: s.id, backlog: s.backlog, skipped: 0 },
                        ));
                    }
                    return Some(Delivery::Gap(gap));
                } else if self.subscribers[i].backlog.len() > 0 {
                    let sub = &mut self.subscribers[i];
                    let body = sub.backlog.remove(0);
                    proof {
                        assert(body@ == s.backlog[0]);
                        assert(self@ =~~= horig@.update(
                            i as int,
                            SubscriberView { id: s.id, backlog: s.backlog.drop_first(), skipped: 0 },
                        ));
                    }
                    return Some(Delivery::Payload(body));
                } else {
                    return None;
                }
            }
            i = i + 1;
        }
        assert(!has_subscriber(self@, id));
        None
    }
}

} // verus!
