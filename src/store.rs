use vstd::prelude::*;

use crate::correlation::{after_reply, expired_at, route_of, saturating_sum, waiting_keys, Expiry, Pending};
use crate::device::DeviceID;
use crate::message::{Request, Response};
use crate::session::{SendError, Session, SessionView, State};
use std::collections::HashMap;

verus! {

broadcast use vstd::std_specs::hash::group_hash_axioms;

/// A device that already has an active session tried to connect again.
#[derive(Clone, Copy, Debug, PartialEq, Eq, Structural)]
pub struct AlreadyConnected;

/// How `add` changes the registered sessions: a device without a session gets a
/// fresh active one under `instance`; a device with one keeps it, and the new
/// connection is refused (`ok` false).
pub open spec fn added(
    before: Map<DeviceID, SessionView>,
    after: Map<DeviceID, SessionView>,
    device: DeviceID,
    instance: u64,
    ok: bool,
) -> bool {
    if before.contains_key(device) {
        !ok && after == before
    } else {
        ok && after == before.insert(
            device,
            SessionView {
                device,
                instance,
                state: State::Active,
                queue: Seq::empty(),
                next_key: 0,
            },
        )
    }
}

/// Whether `device` is registered under the connection `instance`.
pub open spec fn holds(m: Map<DeviceID, SessionView>, device: DeviceID, instance: u64) -> bool {
    m.contains_key(device) && m[device].instance == instance
}

/// How `remove` changes the registered sessions, and which callers it fails: the
/// session goes only if it is still the one of connection `instance`, and then
/// every caller that waits on it is failed.
pub open spec fn removed(
    before: Map<DeviceID, SessionView>,
    after: Map<DeviceID, SessionView>,
    device: DeviceID,
    instance: u64,
    failed: Seq<u64>,
) -> bool {
    if holds(before, device, instance) {
        after == before.remove(device) && failed == waiting_keys(before[device].queue)
    } else {
        after == before && failed == Seq::<u64>::empty()
    }
}

/// The registry of active sessions: at most one per device.
pub struct Store {
    sessions: HashMap<DeviceID, Session>,
    next_instance: u64,
}

impl View for Store {
    type V = Map<DeviceID, SessionView>;

    closed spec fn view(&self) -> Map<DeviceID, SessionView> {
        self.sessions@.map_values(|s: Session| s@)
    }
}

impl Store {
    /// The number that the next admitted connection gets.
    pub closed spec fn next_instance(&self) -> u64 {
        self.next_instance
    }

    pub closed spec fn wf(&self) -> bool {
        forall|d: DeviceID| #[trigger]
            self.sessions@.contains_key(d) ==> {
                &&& self.sessions@[d].wf()
                &&& self.sessions@[d]@.device == d
                &&& self.sessions@[d]@.state == State::Active
                &&& self.sessions@[d]@.instance < self.next_instance
            }
    }

    /// Every registered session is active and belongs to the device it is
    /// registered under.
    pub proof fn lemma_registered_active(&self, d: DeviceID)
        requires
            self.wf(),
            self@.contains_key(d),
        ensures
            self@[d].state == State::Active,
            self@[d].device == d,
            self@[d].instance < self.next_instance(),
            crate::correlation::keys_ordered(self@[d].queue, self@[d].next_key),
    {
        assert(self.sessions@.contains_key(d));
        self.sessions@[d].lemma_keys_ordered();
    }

    /// An empty registry.
    pub fn new() -> (r: Self)
        ensures
            r.wf(),
            r@ == Map::<DeviceID, SessionView>::empty(),
            r.next_instance() == 0,
    {
        let r = Store { sessions: HashMap::new(), next_instance: 0 };
        assert(r@ =~= Map::<DeviceID, SessionView>::empty());
        r
    }

    /// Whether another connection can be numbered.
    pub fn has_instances_left(&self) -> (r: bool)
        ensures
            r == (self.next_instance() < u64::MAX),
    {
        self.next_instance < u64::MAX
    }

    /// Admits a connection of `device`: where the device has no session, a fresh
    /// one is registered as active and its connection number is returned. Where it
    /// has one, that session is left as it is, and the new connection is refused
    /// with `AlreadyConnected`.
    pub fn add(&mut self, device: DeviceID) -> (r: Result<u64, AlreadyConnected>)
        requires
            old(self).wf(),
            old(self).next_instance() < u64::MAX,
        ensures
            final(self).wf(),
            added(old(self)@, final(self)@, device, old(self).next_instance(), r is Ok),
            r is Ok ==> r == Ok::<u64, AlreadyConnected>(old(self).next_instance())
                && final(self).next_instance() == old(self).next_instance() + 1,
            r is Err ==> r == Err::<u64, AlreadyConnected>(AlreadyConnected)
                && final(self).next_instance() == old(self).next_instance(),
    {
        if self.sessions.contains_key(&device) {
            return Err(AlreadyConnected);
        }
        let instance = self.next_instance;
        let mut session = Session::new(device, instance);
        session.activate();
        self.sessions.insert(device, session);
        self.next_instance = instance + 1;
        proof {
            let fresh = SessionView {
                device,
                instance,
                state: State::Active,
                queue: Seq::empty(),
                next_key: 0,
            };
            assert(self@ =~= old(self)@.insert(device, fresh));
            assert forall|d: DeviceID| #[trigger] self.sessions@.contains_key(d) implies {
                &&& self.sessions@[d].wf()
                &&& self.sessions@[d]@.device == d
                &&& self.sessions@[d]@.state == State::Active
                &&& self.sessions@[d]@.instance < self.next_instance
            } by {
                if d != device {
                    assert(old(self).sessions@.contains_key(d));
                }
            }
        }
        Ok(instance)
    }

    /// Looks up the active session of `device`; `None` where the device is offline.
    pub fn lookup(&self, device: DeviceID) -> (r: Option<&Session>)
        requires
            self.wf(),
        ensures
            match r {
                Some(s) => self@.contains_key(device) && s@ == self@[device],
                None => !self@.contains_key(device),
            },
    {
        self.sessions.get(&device)
    }

    /// Whether `device` has an active session.
    pub fn contains(&self, device: DeviceID) -> (r: bool)
        requires
            self.wf(),
        ensures
            r == self@.contains_key(device),
    {
        self.sessions.contains_key(&device)
    }

    /// Issues `request` to `device` at instant `now`, to be answered within
    /// `timeout_millis`. An offline device fails it with `DeviceNotFound`.
    /// Otherwise the request gets the next correlation key of the device's
    /// session, and comes back with that key, to be written to the device.
    pub fn send_request(
        &mut self,
        device: DeviceID,
        request: Request,
        now: u64,
        timeout_millis: u64,
    ) -> (r: Result<(u64, Request), SendError>)
        requires
            old(self).wf(),
            old(self)@.contains_key(device) ==> old(self)@[device].next_key < u64::MAX,
        ensures
            final(self).wf(),
            final(self).next_instance() == old(self).next_instance(),
            !old(self)@.contains_key(device) ==> r == Err::<(u64, Request), SendError>(
                SendError::DeviceNotFound,
            ) && final(self)@ == old(self)@,
            old(self)@.contains_key(device) ==> {
                let s = old(self)@[device];
                &&& r is Ok
                &&& r->Ok_0.0 == s.next_key
                &&& r->Ok_0.1 == request
                &&& final(self)@ == old(self)@.insert(
                    device,
                    SessionView {
                        queue: s.queue.push(
                            Pending {
                                key: s.next_key,
                                deadline: saturating_sum(now, timeout_millis),
                                waiting: true,
                            },
                        ),
                        next_key: (s.next_key + 1) as u64,
                        ..s
                    },
                )
            },
    {
        match self.sessions.remove(&device) {
            None => Err(SendError::DeviceNotFound),
            Some(mut session) => {
                proof {
                    assert(old(self).sessions@.contains_key(device));
                    assert(self.sessions@ == old(self).sessions@.remove(device));
                }
                let sent = session.send(now, timeout_millis);
                self.sessions.insert(device, session);
                proof {
                    assert(self@ =~= old(self)@.insert(device, session@));
                    assert forall|d: DeviceID| #[trigger] self.sessions@.contains_key(d) implies {
                        &&& self.sessions@[d].wf()
                        &&& self.sessions@[d]@.device == d
                        &&& self.sessions@[d]@.state == State::Active
                        &&& self.sessions@[d]@.instance < self.next_instance
                    } by {
                        if d != device {
                            assert(old(self).sessions@.contains_key(d));
                        }
                    }
                }
                match sent {
                    Ok(key) => Ok((key, request)),
                    Err(e) => Err(e),
                }
            },
        }
    }

    /// Takes in a reply that arrived on connection `instance` of `device`, and
    /// says which caller it answers. A reply is dropped (`None`) where its caller
    /// no longer waits, or where the connection is no longer the registered one.
    pub fn receive(&mut self, device: DeviceID, instance: u64, response: Response) -> (r: Option<
        (u64, Response),
    >)
        requires
            old(self).wf(),
        ensures
            final(self).wf(),
            final(self).next_instance() == old(self).next_instance(),
            !holds(old(self)@, device, instance) ==> r is None && final(self)@ == old(self)@,
            holds(old(self)@, device, instance) ==> {
                let s = old(self)@[device];
                &&& final(self)@ == old(self)@.insert(
                    device,
                    SessionView { queue: after_reply(s.queue), ..s },
                )
                &&& match route_of(s.queue) {
                    Some(k) => r == Some((k, response)),
                    None => r is None,
                }
            },
    {
        match self.sessions.remove(&device) {
            None => None,
            Some(mut session) => {
                proof {
                    assert(old(self).sessions@.contains_key(device));
                    assert(self.sessions@ == old(self).sessions@.remove(device));
                }
                if session.instance() != instance {
                    self.sessions.insert(device, session);
                    proof {
                        assert(self.sessions@ =~= old(self).sessions@);
                    }
                    return None;
                }
                let routed = session.receive();
                self.sessions.insert(device, session);
                proof {
                    assert(self@ =~= old(self)@.insert(device, session@));
                    assert forall|d: DeviceID| #[trigger] self.sessions@.contains_key(d) implies {
                        &&& self.sessions@[d].wf()
                        &&& self.sessions@[d]@.device == d
                        &&& self.sessions@[d]@.state == State::Active
                        &&& self.sessions@[d]@.instance < self.next_instance
                    } by {
                        if d != device {
                            assert(old(self).sessions@.contains_key(d));
                        }
                    }
                }
                match routed {
                    Some(key) => Some((key, response)),
                    None => None,
                }
            },
        }
    }

    /// Asks at instant `now` whether the request under `key`, sent on connection
    /// `instance` of `device`, has timed out. A connection that is no longer
    /// registered has no caller waiting: `Resolved`.
    pub fn time_out(&mut self, device: DeviceID, instance: u64, key: u64, now: u64) -> (r: Expiry)
        requires
            old(self).wf(),
        ensures
            final(self).wf(),
            final(self).next_instance() == old(self).next_instance(),
            final(self)@.dom() == old(self)@.dom(),
            !holds(old(self)@, device, instance) ==> r == Expiry::Resolved && final(self)@
                == old(self)@,
            holds(old(self)@, device, instance) ==> {
                let q = old(self)@[device].queue;
                &&& r == Expiry::Expired <==> expired_at(q, key, now)
                &&& r == Expiry::Resolved <==> !waiting_keys(q).contains(key)
                &&& r != Expiry::Expired ==> final(self)@ == old(self)@
            },
    {
        match self.sessions.remove(&device) {
            None => Expiry::Resolved,
            Some(mut session) => {
                proof {
                    assert(old(self).sessions@.contains_key(device));
                    assert(self.sessions@ == old(self).sessions@.remove(device));
                }
                if session.instance() != instance {
                    self.sessions.insert(device, session);
                    proof {
                        assert(self.sessions@ =~= old(self).sessions@);
                    }
                    return Expiry::Resolved;
                }
                let ghost before = session@;
                let r = session.time_out(key, now);
                self.sessions.insert(device, session);
                proof {
                    assert(self@ =~= old(self)@.insert(device, session@));
                    if r != Expiry::Expired {
                        assert(session@ == before);
                        assert(self@ =~= old(self)@);
                    }
                    assert forall|d: DeviceID| #[trigger] self.sessions@.contains_key(d) implies {
                        &&& self.sessions@[d].wf()
                        &&& self.sessions@[d]@.device == d
                        &&& self.sessions@[d]@.state == State::Active
                        &&& self.sessions@[d]@.instance < self.next_instance
                    } by {
                        if d != device {
                            assert(old(self).sessions@.contains_key(d));
                        }
                    }
                }
                r
            },
        }
    }

    /// Tears down connection `instance` of `device`: where it is still the
    /// registered session, the session is deregistered and closed, and the keys of
    /// all callers that waited on it come back in submission order, each to be
    /// failed with `ConnectionClosed`. A session registered by a later connection
    /// is left alone.
    pub fn remove(&mut self, device: DeviceID, instance: u64) -> (r: Vec<u64>)
        requires
            old(self).wf(),
        ensures
            final(self).wf(),
            final(self).next_instance() == old(self).next_instance(),
            removed(old(self)@, final(self)@, device, instance, r@),
    {
        match self.sessions.remove(&device) {
            None => {
                proof {
                    assert(self@ =~= old(self)@);
                }
                Vec::new()
            },
            Some(mut session) => {
                proof {
                    assert(old(self).sessions@.contains_key(device));
                    assert(self.sessions@ == old(self).sessions@.remove(device));
                }
                if session.instance() != instance {
                    self.sessions.insert(device, session);
                    proof {
                        assert(self.sessions@ =~= old(self).sessions@);
                    }
                    return Vec::new();
                }
                let failed = session.close();
                proof {
                    assert(self@ =~= old(self)@.remove(device));
                    assert forall|d: DeviceID| #[trigger] self.sessions@.contains_key(d) implies {
                        &&& self.sessions@[d].wf()
                        &&& self.sessions@[d]@.device == d
                        &&& self.sessions@[d]@.state == State::Active
                        &&& self.sessions@[d]@.instance < self.next_instance
                    } by {
                        assert(old(self).sessions@.contains_key(d));
                    }
                }
                failed
            },
        }
    }
}

/// A device keeps its first session: once a connection of `device` has been
/// admitted or refused, a further connection of the same device is refused with
/// `AlreadyConnected` and changes nothing, and the device's session stays
/// registered and active (the one admitted first, where the first was admitted).
pub proof fn lemma_first_connection_wins(
    start: Store,
    middle: Map<DeviceID, SessionView>,
    end: Map<DeviceID, SessionView>,
    device: DeviceID,
    first: u64,
    second: u64,
    first_ok: bool,
    second_ok: bool,
)
    requires
        start.wf(),
        added(start@, middle, device, first, first_ok),
        added(middle, end, device, second, second_ok),
    ensures
        !second_ok,
        end == middle,
        end.contains_key(device),
        end[device].state == State::Active,
        first_ok ==> end[device].instance == first,
{
    if start@.contains_key(device) {
        start.lemma_registered_active(device);
    }
}

/// Closing a session fails every caller that still waited on it, each once and in
/// the order they sent, and no other; afterwards the device has no session, so a
/// lookup finds nothing.
pub proof fn lemma_close_fails_all_waiting(
    before: Store,
    after: Map<DeviceID, SessionView>,
    device: DeviceID,
    instance: u64,
    failed: Seq<u64>,
)
    requires
        before.wf(),
        holds(before@, device, instance),
        removed(before@, after, device, instance, failed),
    ensures
        !after.contains_key(device),
        failed == waiting_keys(before@[device].queue),
        forall|k: u64|
            #[trigger] failed.contains(k) <==> exists|i: int|
                0 <= i < before@[device].queue.len() && before@[device].queue[i].key == k
                    && before@[device].queue[i].waiting,
{
    assert forall|k: u64| #[trigger] failed.contains(k) <==> exists|i: int|
        0 <= i < before@[device].queue.len() && before@[device].queue[i].key == k
            && before@[device].queue[i].waiting by {
        crate::correlation::lemma_waiting_keys_contains(before@[device].queue, k);
    }
}

} // verus!
