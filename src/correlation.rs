use vstd::prelude::*;

verus! {

/// Timeout applied to a request when the caller picks none: 5 seconds.
pub const REQUEST_TIMEOUT_MILLIS: u64 = 5000;

/// One request that has been handed to the device and whose reply is still expected.
///
/// The device replies to commands in the order it received them, so every request
/// stays in the queue until its reply arrives, also after its caller stopped waiting:
/// a reply that comes too late is then dropped instead of being routed to a later
/// request.
#[derive(Clone, Copy, Debug, PartialEq, Eq)]
pub struct Pending {
    /// Correlation key: the request's position among all requests of the session.
    pub key: u64,
    /// Instant (in milliseconds) from which the caller may be told that time is up.
    pub deadline: u64,
    /// Whether a caller still waits for the reply (false once it timed out).
    pub waiting: bool,
}

/// What a caller learns when it asks whether its request has timed out.
#[derive(Clone, Copy, Debug, PartialEq, Eq)]
pub enum Expiry {
    /// The deadline passed: the caller stops waiting, and a late reply is dropped.
    Expired,
    /// The deadline lies ahead: nothing changed.
    NotYet,
    /// No caller waits under this key any more (its reply came, or the session closed).
    Resolved,
}

/// `a + b`, or the largest `u64` where that does not fit.
pub open spec fn saturating_sum(a: u64, b: u64) -> u64 {
    if a + b > u64::MAX {
        u64::MAX
    } else {
        (a + b) as u64
    }
}

/// The keys of the requests whose callers still wait, in submission order.
pub open spec fn waiting_keys(q: Seq<Pending>) -> Seq<u64>
    decreases q.len(),
{
    if q.len() == 0 {
        Seq::empty()
    } else if q.last().waiting {
        waiting_keys(q.drop_last()).push(q.last().key)
    } else {
        waiting_keys(q.drop_last())
    }
}

/// Keys grow along the queue and all lie below `next`.
pub open spec fn keys_ordered(q: Seq<Pending>, next: u64) -> bool {
    &&& forall|i: int, j: int| 0 <= i < j < q.len() ==> q[i].key < q[j].key
    &&& forall|i: int| 0 <= i < q.len() ==> q[i].key < next
}

/// Whether, at instant `now`, the caller of the request under `key` still waits
/// and its deadline has come.
pub open spec fn expired_at(q: Seq<Pending>, key: u64, now: u64) -> bool {
    exists|i: int| 0 <= i < q.len() && q[i].key == key && q[i].waiting && q[i].deadline <= now
}

/// Where the reply that arrives on queue `q` goes: to the oldest request, if its
/// caller still waits; nowhere otherwise.
pub open spec fn route_of(q: Seq<Pending>) -> Option<u64> {
    if q.len() > 0 && q[0].waiting {
        Some(q[0].key)
    } else {
        None
    }
}

/// The queue after one reply arrived: the oldest request is answered.
pub open spec fn after_reply(q: Seq<Pending>) -> Seq<Pending> {
    if q.len() > 0 {
        q.subrange(1, q.len() as int)
    } else {
        q
    }
}

/// Matches the replies of one device to the requests sent to it, first in first out.
pub struct Correlator {
    queue: Vec<Pending>,
    next_key: u64,
    closed: bool,
}

impl Correlator {
    /// The outstanding requests, oldest first.
    pub closed spec fn queue(&self) -> Seq<Pending> {
        self.queue@
    }

    /// The key that the next request will get.
    pub closed spec fn next_key(&self) -> u64 {
        self.next_key
    }

    /// Whether the session ended; a closed correlator takes no more requests.
    pub closed spec fn is_closed(&self) -> bool {
        self.closed
    }

    pub open spec fn wf(&self) -> bool {
        &&& keys_ordered(self.queue(), self.next_key())
        &&& self.is_closed() ==> self.queue().len() == 0
    }

    /// A correlator with nothing outstanding.
    pub fn new() -> (r: Self)
        ensures
            r.wf(),
            r.queue() == Seq::<Pending>::empty(),
            r.next_key() == 0,
            !r.is_closed(),
    {
        Correlator { queue: Vec::new(), next_key: 0, closed: false }
    }

    /// Whether the correlator is closed.
    pub fn closed(&self) -> (r: bool)
        ensures
            r == self.is_closed(),
    {
        self.closed
    }

    /// Whether another key can be handed out.
    pub fn has_keys_left(&self) -> (r: bool)
        ensures
            r == (self.next_key() < u64::MAX),
    {
        self.next_key < u64::MAX
    }

    /// Registers a new request issued at `now` with the given timeout, and returns
    /// its correlation key. A closed correlator refuses it with `None`.
    pub fn submit(&mut self, now: u64, timeout_millis: u64) -> (r: Option<u64>)
        requires
            old(self).wf(),
            old(self).next_key() < u64::MAX,
        ensures
            final(self).wf(),
            final(self).is_closed() == old(self).is_closed(),
            old(self).is_closed() ==> r is None && *final(self) == *old(self),
            !old(self).is_closed() ==> {
                &&& r == Some(old(self).next_key())
                &&& final(self).next_key() == old(self).next_key() + 1
                &&& final(self).queue() == old(self).queue().push(
                    Pending {
                        key: old(self).next_key(),
                        deadline: saturating_sum(now, timeout_millis),
                        waiting: true,
                    },
                )
            },
    {
        if self.closed {
            return None;
        }
        let key = self.next_key;
        let deadline = now.saturating_add(timeout_millis);
        self.queue.push(Pending { key, deadline, waiting: true });
        self.next_key = key + 1;
        Some(key)
    }

    /// Takes in one reply from the device. It answers the oldest outstanding
    /// request: the result is that request's key where its caller still waits, and
    /// `None` where the reply is to be dropped (its caller timed out, or nothing
    /// was outstanding).
    pub fn deliver(&mut self) -> (r: Option<u64>)
        requires
            old(self).wf(),
        ensures
            final(self).wf(),
            r == route_of(old(self).queue()),
            final(self).queue() == after_reply(old(self).queue()),
            final(self).next_key() == old(self).next_key(),
            final(self).is_closed() == old(self).is_closed(),
    {
        if self.queue.len() == 0 {
            return None;
        }
        let front = self.queue.remove(0);
        if front.waiting {
            Some(front.key)
        } else {
            None
        }
    }

    /// Asks at instant `now` whether the request under `key` has timed out. Only a
    /// request whose deadline is not after `now` expires; it then stops counting as
    /// waited for, and stays queued so that its late reply is dropped.
    pub fn time_out(&mut self, key: u64, now: u64) -> (r: Expiry)
        requires
            old(self).wf(),
        ensures
            final(self).wf(),
            final(self).next_key() == old(self).next_key(),
            final(self).is_closed() == old(self).is_closed(),
            r == Expiry::Expired <==> expired_at(old(self).queue(), key, now),
            r == Expiry::Resolved <==> !waiting_keys(old(self).queue()).contains(key),
            r == Expiry::Expired ==> exists|i: int|
                0 <= i < old(self).queue().len() && old(self).queue()[i].key == key
                    && final(self).queue() == old(self).queue().update(
                    i,
                    Pending { waiting: false, ..old(self).queue()[i] },
                ),
            r != Expiry::Expired ==> final(self).queue() == old(self).queue(),
    {
        let n = self.queue.len();
        let mut i: usize = 0;
        while i < n
            invariant
                n == self.queue@.len(),
                *self == *old(self),
                old(self).wf(),
                0 <= i <= n,
                forall|j: int| 0 <= j < i ==> self.queue@[j].key != key,
            decreases n - i,
        {
            if self.queue[i].key == key {
                proof {
                    lemma_waiting_keys_contains(self.queue@, key);
                }
                if !self.queue[i].waiting {
                    return Expiry::Resolved;
                }
                if self.queue[i].deadline > now {
                    return Expiry::NotYet;
                }
                let expired = Pending { waiting: false, ..self.queue[i] };
                self.queue[i] = expired;
                return Expiry::Expired;
            }
            i = i + 1;
        }
        proof {
            lemma_waiting_keys_contains(self.queue@, key);
        }
        Expiry::Resolved
    }

    /// Ends the session's correlation: returns the keys of all callers that still
    /// wait, in submission order, so that each is failed; nothing stays outstanding
    /// and no request is taken any more.
    pub fn close(&mut self) -> (r: Vec<u64>)
        requires
            old(self).wf(),
        ensures
            final(self).wf(),
            r@ == waiting_keys(old(self).queue()),
            final(self).queue() == Seq::<Pending>::empty(),
            final(self).is_closed(),
            final(self).next_key() == old(self).next_key(),
    {
        let mut keys: Vec<u64> = Vec::new();
        let n = self.queue.len();
        let mut i: usize = 0;
        while i < n
            invariant
                n == self.queue@.len(),
                0 <= i <= n,
                keys@ == waiting_keys(self.queue@.subrange(0, i as int)),
            decreases n - i,
        {
            proof {
                let q = self.queue@;
                assert(q.subrange(0, i + 1).drop_last() =~= q.subrange(0, i as int));
            }
            if self.queue[i].waiting {
                keys.push(self.queue[i].key);
            }
            i = i + 1;
        }
        assert(self.queue@.subrange(0, n as int) =~= self.queue@);
        self.queue = Vec::new();
        self.closed = true;
        keys
    }
}

/// Where the next `n` replies on queue `q` go, in the order they arrive.
pub open spec fn replay(q: Seq<Pending>, n: nat) -> Seq<Option<u64>>
    decreases n,
{
    if n == 0 {
        Seq::empty()
    } else {
        seq![route_of(q)] + replay(after_reply(q), (n - 1) as nat)
    }
}

/// Replies answer requests first in first out: of the next `n` replies, the i-th
/// goes to the caller of the i-th oldest outstanding request, and is dropped where
/// that caller no longer waits. Since every new request joins the queue at its end
/// with a key above all queued ones, callers get their replies in the order in
/// which they sent.
pub proof fn lemma_replies_in_submission_order(q: Seq<Pending>, n: nat)
    requires
        n <= q.len(),
    ensures
        replay(q, n).len() == n,
        forall|i: int|
            0 <= i < n ==> #[trigger] replay(q, n)[i] == (if q[i].waiting {
                Some(q[i].key)
            } else {
                None
            }),
    decreases n,
{
    if n > 0 {
        let rest = after_reply(q);
        lemma_replies_in_submission_order(rest, (n - 1) as nat);
        assert forall|i: int| 0 <= i < n implies #[trigger] replay(q, n)[i] == (if q[i].waiting {
            Some(q[i].key)
        } else {
            None
        }) by {
            if i > 0 {
                assert(replay(q, n)[i] == replay(rest, (n - 1) as nat)[i - 1]);
                assert(rest[i - 1] == q[i]);
            }
        }
    }
}

/// A key is among the waiting keys exactly when some queued request that is still
/// waited for carries it.
pub proof fn lemma_waiting_keys_contains(q: Seq<Pending>, key: u64)
    ensures
        waiting_keys(q).contains(key) <==> exists|i: int|
            0 <= i < q.len() && q[i].key == key && q[i].waiting,
    decreases q.len(),
{
    if q.len() > 0 {
        let p = q.drop_last();
        lemma_waiting_keys_contains(p, key);
        if waiting_keys(q).contains(key) {
            if q.last().waiting && q.last().key == key {
                assert(q[q.len() - 1].key == key);
            } else {
                let j = choose|j: int| 0 <= j < p.len() && p[j].key == key && p[j].waiting;
                assert(q[j] == p[j]);
            }
        }
        if exists|i: int| 0 <= i < q.len() && q[i].key == key && q[i].waiting {
            let i = choose|i: int| 0 <= i < q.len() && q[i].key == key && q[i].waiting;
            if i < q.len() - 1 {
                assert(p[i] == q[i]);
                assert(waiting_keys(p).contains(key));
                if q.last().waiting {
                    assert(waiting_keys(q) == waiting_keys(p).push(q.last().key));
                    assert(waiting_keys(q)[waiting_keys(p).len() as int] == q.last().key);
                    let k = choose|k: int| 0 <= k < waiting_keys(p).len() && waiting_keys(p)[k] == key;
                    assert(waiting_keys(q)[k] == key);
                }
            } else {
                assert(waiting_keys(q) == waiting_keys(p).push(key));
                assert(waiting_keys(q)[waiting_keys(p).len() as int] == key);
            }
        }
    }
}

/// A request times out at its deadline and never earlier: sent at `sent_at` with
/// timeout `timeout_millis` onto a queue whose keys lie below its own, and not
/// answered since, it counts as expired at instant `now` exactly when `now` is at
/// or after `sent_at + timeout_millis` (the largest instant where that sum does not
/// fit).
pub proof fn lemma_expires_at_deadline(
    q: Seq<Pending>,
    key: u64,
    sent_at: u64,
    timeout_millis: u64,
    now: u64,
)
    requires
        keys_ordered(q, key),
    ensures
        expired_at(
            q.push(Pending { key, deadline: saturating_sum(sent_at, timeout_millis), waiting: true }),
            key,
            now,
        ) <==> now >= saturating_sum(sent_at, timeout_millis),
{
    let p = Pending { key, deadline: saturating_sum(sent_at, timeout_millis), waiting: true };
    let q2 = q.push(p);
    if now >= saturating_sum(sent_at, timeout_millis) {
        assert(q2[q.len() as int] == p);
    }
    if expired_at(q2, key, now) {
        let i = choose|i: int|
            0 <= i < q2.len() && q2[i].key == key && q2[i].waiting && q2[i].deadline <= now;
        if i < q.len() {
            assert(q2[i] == q[i]);
        }
    }
}

} // verus!
