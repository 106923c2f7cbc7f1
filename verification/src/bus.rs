//! Change bus: a bounded multi-consumer broadcast channel.
//!
//! A service publishes a fresh snapshot on a channel after every real change.
//! Publishing never blocks, never fails and never panics, whether or not
//! anyone is subscribed.  A subscription taken after `n` publishes sees none
//! of them: it only yields publishes made after it was taken.  When a
//! subscriber lags more than the channel's capacity behind, the oldest
//! notifications it has not consumed are dropped for that subscriber alone,
//! so a slow consumer loses intermediate states but always converges on the
//! latest one.

use vstd::prelude::*;

verus! {

/// Mathematical model of a channel: the retained window of values, the count
/// of values already evicted from the window, and the capacity.
pub ghost struct ChannelModel<T> {
    pub window: Seq<T>,
    pub dropped: int,
    pub capacity: int,
}

impl<T> ChannelModel<T> {
    /// Total number of values ever published on the channel.
    pub open spec fn published(self) -> int {
        self.dropped + self.window.len()
    }

    /// Well-formedness: a positive capacity bounds the window, and the
    /// publish counter cannot overflow its machine representation.
    pub open spec fn wf(self) -> bool {
        &&& self.capacity >= 1
        &&& self.window.len() <= self.capacity
        &&& self.dropped >= 0
        &&& self.published() <= u64::MAX
        &&& self.dropped > 0 ==> self.window.len() >= 1
    }

    /// The value of publish number `i` (zero-based), while it is retained.
    pub open spec fn entry(self, i: int) -> T {
        self.window[i - self.dropped]
    }
}

/// One publish applied to the model: append the value; when the window is
/// full, evict the oldest retained value first.
pub open spec fn spec_publish<T>(m: ChannelModel<T>, v: T) -> ChannelModel<T> {
    if m.window.len() >= m.capacity {
        ChannelModel { window: m.window.drop_first().push(v), dropped: m.dropped + 1, ..m }
    } else {
        ChannelModel { window: m.window.push(v), ..m }
    }
}

/// A fresh subscription starts at the current end of the channel: it replays
/// nothing that was published before it was taken.
pub open spec fn spec_subscribe<T>(m: ChannelModel<T>) -> int {
    m.published()
}

/// One receive applied to the model, for a subscription whose cursor is
/// `cur`: nothing to yield at the end of the channel; otherwise the next
/// retained value, skipping anything already evicted.
pub open spec fn spec_recv<T>(m: ChannelModel<T>, cur: int) -> (Option<T>, int) {
    if cur >= m.published() {
        (None, cur)
    } else {
        let k = if cur >= m.dropped {
            cur
        } else {
            m.dropped
        };
        (Some(m.entry(k)), k + 1)
    }
}

/// A bounded broadcast channel of snapshot values.
pub struct Channel<T> {
    window: Vec<T>,
    dropped: u64,
    capacity: usize,
}

/// A subscriber's cursor into one channel.
pub struct Subscription {
    next: u64,
}

impl Subscription {
    /// The number of the next publish this subscription will yield.
    pub closed spec fn cursor(self) -> int {
        self.next as int
    }
}

impl<T> View for Channel<T> {
    type V = ChannelModel<T>;

    closed spec fn view(&self) -> ChannelModel<T> {
        ChannelModel {
            window: self.window@,
            dropped: self.dropped as int,
            capacity: self.capacity as int,
        }
    }
}

impl<T> Channel<T> {
    /// A channel that retains at most `capacity` unconsumed notifications
    /// per subscriber.
    pub fn new(capacity: usize) -> (r: Channel<T>)
        requires
            capacity >= 1,
        ensures
            r@.wf(),
            r@.window == Seq::<T>::empty(),
            r@.dropped == 0,
            r@.capacity == capacity,
    {
        Channel { window: Vec::new(), dropped: 0, capacity }
    }

    /// Total number of values ever published on this channel.
    pub fn published_count(&self) -> (r: u64)
        requires
            self@.wf(),
        ensures
            r == self@.published(),
    {
        self.dropped + self.window.len() as u64
    }

    /// Publish a value: total, non-blocking, indifferent to subscribers.
    /// When the window is full the oldest retained value is evicted, so a
    /// lagging subscriber loses it while everyone else is unaffected.
    pub fn publish(&mut self, v: T)
        requires
            old(self)@.wf(),
            old(self)@.published() < u64::MAX,
        ensures
            final(self)@.wf(),
            final(self)@ == spec_publish(old(self)@, v),
            final(self)@.published() == old(self)@.published() + 1,
            final(self)@.entry(old(self)@.published()) == v,
    {
        if self.window.len() >= self.capacity {
            self.window.remove(0);
            self.dropped = self.dropped + 1;
        }
        self.window.push(v);
        proof {
            assert(old(self)@.window.len() >= old(self)@.capacity ==> self@.window
                =~= old(self)@.window.drop_first().push(v));
        }
    }

    /// Subscribe: never blocks, never yields past publishes.
    pub fn subscribe(&self) -> (s: Subscription)
        requires
            self@.wf(),
        ensures
            s.cursor() == spec_subscribe(self@),
    {
        Subscription { next: self.published_count() }
    }

    /// Pull the next notification for subscription `s`, if one is pending.
    /// A subscriber that lagged behind the window skips to the oldest value
    /// still retained.
    pub fn recv<'a>(&'a self, s: &mut Subscription) -> (r: Option<&'a T>)
        requires
            self@.wf(),
            old(s).cursor() <= self@.published(),
        ensures
            final(s).cursor() == spec_recv(self@, old(s).cursor()).1,
            final(s).cursor() <= self@.published(),
            match r {
                None => spec_recv(self@, old(s).cursor()).0 is None,
                Some(x) => spec_recv(self@, old(s).cursor()).0 == Some(*x),
            },
    {
        let have: u64 = self.published_count();
        if s.next >= have {
            return None;
        }
        let k: u64 = if s.next >= self.dropped {
            s.next
        } else {
            self.dropped
        };
        let idx: usize = (k - self.dropped) as usize;
        s.next = k + 1;
        Some(&self.window[idx])
    }
}

/// Late-subscriber law: a subscription taken after `n` publishes yields
/// nothing until the next publish, and then yields exactly that next
/// publish.  `recv`, `subscribe` and `publish` are each pinned to the
/// model transitions this law is stated over.
pub proof fn lemma_late_subscriber<T>(m: ChannelModel<T>, v: T)
    requires
        m.wf(),
        m.published() < u64::MAX,
    ensures
        spec_recv(m, spec_subscribe(m)).0 is None,
        spec_recv(m, spec_subscribe(m)).1 == spec_subscribe(m),
        spec_recv(spec_publish(m, v), spec_subscribe(m)).0 == Some(v),
        spec_recv(spec_publish(m, v), spec_subscribe(m)).1 == spec_subscribe(m) + 1,
{
    let m1 = spec_publish(m, v);
    assert(m1.published() == m.published() + 1);
    assert(m1.dropped <= m.published());
    assert(m1.entry(m.published()) == v);
}

/// Lagging-subscriber law: when a subscriber has fallen behind the retained
/// window, receiving drops the oldest unconsumed notifications for that
/// subscriber only and yields the oldest value still retained; fresher
/// notifications are untouched.
pub proof fn lemma_lagging_subscriber<T>(m: ChannelModel<T>, cur: int)
    requires
        m.wf(),
        0 <= cur < m.dropped,
    ensures
        spec_recv(m, cur).0 == Some(m.entry(m.dropped)),
        spec_recv(m, cur).1 == m.dropped + 1,
{
}

} // verus!
