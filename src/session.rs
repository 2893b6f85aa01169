use vstd::prelude::*;

use crate::correlation::{Correlator, Expiry, Pending};

verus! {

/// Why a request to a device did not get its reply.
#[derive(Clone, Copy, Debug, PartialEq, Eq, Structural)]
pub enum SendError {
    /// No session is registered for the device: it is offline.
    DeviceNotFound,
    /// No reply came before the deadline; whether the device acted is unknown.
    RequestTimeout,
    /// The session no longer takes requests.
    SessionClosed,
    /// The session ended while the request was outstanding.
    ConnectionClosed,
}

/// Lifecycle of a session.
#[derive(Clone, Copy, Debug, PartialEq, Eq, Structural)]
pub enum State {
    /// Credentials presented, not yet admitted.
    Connecting,
    /// Registered; requests flow.
    Active,
    /// Terminal: deregistered, every outstanding request failed.
    Closed,
}

/// What a session is, as far as its contracts speak of it.
pub ghost struct SessionView {
    pub device: u128,
    pub instance: u64,
    pub state: State,
    /// Outstanding requests, oldest first.
    pub queue: Seq<Pending>,
    /// Key of the next request.
    pub next_key: u64,
}

/// The live state of one connected device: its lifecycle and its correlation of
/// replies to requests.
pub struct Session {
    device: u128,
    instance: u64,
    state: State,
    correlator: Correlator,
}

impl View for Session {
    type V = SessionView;

    closed spec fn view(&self) -> SessionView {
        SessionView {
            device: self.device,
            instance: self.instance,
            state: self.state,
            queue: self.correlator.queue(),
            next_key: self.correlator.next_key(),
        }
    }
}

impl Session {
    pub closed spec fn wf(&self) -> bool {
        &&& self.correlator.wf()
        &&& self.correlator.is_closed() <==> self.state == State::Closed
    }

    /// The keys of a session's outstanding requests grow in submission order and
    /// lie below the key of its next request.
    pub proof fn lemma_keys_ordered(&self)
        requires
            self.wf(),
        ensures
            crate::correlation::keys_ordered(self@.queue, self@.next_key),
    {
    }

    /// A session of `device`, the `instance`-th connection, not yet admitted.
    pub fn new(device: u128, instance: u64) -> (r: Self)
        ensures
            r.wf(),
            r@.device == device,
            r@.instance == instance,
            r@.state == State::Connecting,
            r@.queue == Seq::<Pending>::empty(),
            r@.next_key == 0,
    {
        Session { device, instance, state: State::Connecting, correlator: Correlator::new() }
    }

    pub fn device(&self) -> (r: u128)
        ensures
            r == self@.device,
    {
        self.device
    }

    pub fn instance(&self) -> (r: u64)
        ensures
            r == self@.instance,
    {
        self.instance
    }

    pub fn state(&self) -> (r: State)
        ensures
            r == self@.state,
    {
        self.state
    }

    /// Whether the session can hand out another correlation key.
    pub fn has_keys_left(&self) -> (r: bool)
        ensures
            r == (self@.next_key < u64::MAX),
    {
        self.correlator.has_keys_left()
    }

    /// Admits the session: from `Connecting` to `Active`.
    pub fn activate(&mut self)
        requires
            old(self).wf(),
            old(self)@.state == State::Connecting,
        ensures
            final(self).wf(),
            final(self)@ == (SessionView { state: State::Active, ..old(self)@ }),
    {
        self.state = State::Active;
    }

    /// Issues a request at instant `now`, to be answered within `timeout_millis`.
    /// An active session gives the request its correlation key; the request is
    /// then to be queued for the device. Any other session fails it with
    /// `SessionClosed`.
    pub fn send(&mut self, now: u64, timeout_millis: u64) -> (r: Result<u64, SendError>)
        requires
            old(self).wf(),
            old(self)@.next_key < u64::MAX,
        ensures
            final(self).wf(),
            old(self)@.state != State::Active ==> r == Err::<u64, SendError>(SendError::SessionClosed)
                && final(self)@ == old(self)@,
            old(self)@.state == State::Active ==> {
                &&& r == Ok::<u64, SendError>(old(self)@.next_key)
                &&& final(self)@ == (SessionView {
                    queue: old(self)@.queue.push(
                        Pending {
                            key: old(self)@.next_key,
                            deadline: crate::correlation::saturating_sum(now, timeout_millis),
                            waiting: true,
                        },
                    ),
                    next_key: (old(self)@.next_key + 1) as u64,
                    ..old(self)@
                })
            },
    {
        if self.state != State::Active {
            return Err(SendError::SessionClosed);
        }
        match self.correlator.submit(now, timeout_millis) {
            Some(key) => Ok(key),
            None => Err(SendError::SessionClosed),
        }
    }

    /// Takes in one reply of the device and says which caller it answers, if any.
    pub fn receive(&mut self) -> (r: Option<u64>)
        requires
            old(self).wf(),
        ensures
            final(self).wf(),
            r == crate::correlation::route_of(old(self)@.queue),
            final(self)@ == (SessionView {
                queue: crate::correlation::after_reply(old(self)@.queue),
                ..old(self)@
            }),
    {
        self.correlator.deliver()
    }

    /// Asks at instant `now` whether the request under `key` has timed out.
    pub fn time_out(&mut self, key: u64, now: u64) -> (r: Expiry)
        requires
            old(self).wf(),
        ensures
            final(self).wf(),
            final(self)@.device == old(self)@.device,
            final(self)@.instance == old(self)@.instance,
            final(self)@.state == old(self)@.state,
            final(self)@.next_key == old(self)@.next_key,
            r == Expiry::Expired <==> crate::correlation::expired_at(old(self)@.queue, key, now),
            r == Expiry::Resolved <==> !crate::correlation::waiting_keys(
                old(self)@.queue,
            ).contains(key),
            r == Expiry::Expired ==> exists|i: int|
                0 <= i < old(self)@.queue.len() && old(self)@.queue[i].key == key
                    && final(self)@.queue == old(self)@.queue.update(
                    i,
                    Pending { waiting: false, ..old(self)@.queue[i] },
                ),
            r != Expiry::Expired ==> final(self)@ == old(self)@,
    {
        let ghost q = self.correlator.queue();
        assert(q == old(self)@.queue);
        self.correlator.time_out(key, now)
    }

    /// Closes the session: it becomes `Closed`, and the keys of all callers that
    /// still wait come back in submission order, each to be failed with
    /// `ConnectionClosed`.
    pub fn close(&mut self) -> (r: Vec<u64>)
        requires
            old(self).wf(),
        ensures
            final(self).wf(),
            r@ == crate::correlation::waiting_keys(old(self)@.queue),
            final(self)@ == (SessionView {
                state: State::Closed,
                queue: Seq::<Pending>::empty(),
                ..old(self)@
            }),
    {
        self.state = State::Closed;
        self.correlator.close()
    }
}

} // verus!
