//! The per-subscriber session lifecycle: `Pending` until the registration is
//! decided, `Admitted` once admission succeeds and a hub subscription
//! exists, `Streaming` while the forwarding loop runs, and `Closed` — the
//! terminal state — as soon as the outbound transport fails or the session
//! is torn down. Closing is idempotent, and closing one session never
//! touches any other subscriber.

use vstd::prelude::*;

use crate::auth::admit_spec;
use crate::auth::AuthError;
use crate::auth::Gate;
use crate::auth::RegistrationRequest;
use crate::hub::has_subscriber;
use crate::hub::subscriber_index;
use crate::hub::Hub;
use crate::hub::SubscriberView;

verus! {

/// Where a session stands in its life.
#[derive(Clone, Copy, Debug, PartialEq, Eq, Structural)]
pub enum SessionPhase {
    /// Registration received, not yet decided.
    Pending,
    /// Admission succeeded and a hub subscription exists.
    Admitted,
    /// The forwarding loop is draining the hub subscription.
    Streaming,
    /// Terminal; the hub subscription has been (or is being) released.
    Closed,
}

/// One subscriber's session: its phase, the admitted identity, and
/// the hub subscription handle feeding it.
pub struct Session {
    phase: SessionPhase,
    identity: Option<String>,
    subscription: Option<u64>,
}

impl Session {
    /// The phase this session is in.
    pub closed spec fn spec_phase(self) -> SessionPhase {
        self.phase
    }

    /// The admitted identity, once there is one.
    pub closed spec fn spec_identity(self) -> Option<Seq<char>> {
        match self.identity {
            Some(identity) => Some(identity@),
            None => None,
        }
    }

    /// The hub subscription handle, once there is one.
    pub closed spec fn spec_subscription(self) -> Option<u64> {
        self.subscription
    }

    /// A session that has been admitted carries an identity and a
    /// subscription; a pending one carries neither.
    pub open spec fn wf(self) -> bool {
        match self.spec_phase() {
            SessionPhase::Pending => self.spec_identity() is None && self.spec_subscription()
                is None,
            SessionPhase::Admitted => self.spec_identity() is Some && self.spec_subscription()
                is Some,
            SessionPhase::Streaming => self.spec_identity() is Some && self.spec_subscription()
                is Some,
            SessionPhase::Closed => true,
        }
    }

    /// A fresh session for a registration that has not been decided yet.
    pub fn new() -> (s: Session)
        ensures
            s.wf(),
            s.spec_phase() == SessionPhase::Pending,
            s.spec_identity() is None,
            s.spec_subscription() is None,
    {
        Session { phase: SessionPhase::Pending, identity: None, subscription: None }
    }

    /// The phase, for the surrounding loop to branch on.
    pub fn phase(&self) -> (p: SessionPhase)
        ensures
            p == self.spec_phase(),
    {
        self.phase
    }

    /// The admitted identity, cloned out for logging and bookkeeping.
    pub fn identity(&self) -> (r: Option<String>)
        ensures
            match r {
                Some(identity) => self.spec_identity() == Some(identity@),
                None => self.spec_identity() is None,
            },
    {
        match &self.identity {
            Some(identity) => Some(identity.clone()),
            None => None,
        }
    }

    /// The hub subscription handle, once there is one.
    pub fn subscription(&self) -> (r: Option<u64>)
        ensures
            r == self.spec_subscription(),
    {
        self.subscription
    }

    /// Record an accepted registration: the admitted identity and the hub
    /// subscription created for it.
    pub fn to_admitted(&mut self, identity: String, subscription: u64)
        requires
            old(self).wf(),
            old(self).spec_phase() == SessionPhase::Pending,
        ensures
            final(self).wf(),
            final(self).spec_phase() == SessionPhase::Admitted,
            final(self).spec_identity() == Some(identity@),
            final(self).spec_subscription() == Some(subscription),
    {
        self.phase = SessionPhase::Admitted;
        self.identity = Some(identity);
        self.subscription = Some(subscription);
    }

    /// Enter the forwarding loop.
    pub fn to_streaming(&mut self)
        requires
            old(self).wf(),
            old(self).spec_phase() == SessionPhase::Admitted,
        ensures
            final(self).wf(),
            final(self).spec_phase() == SessionPhase::Streaming,
            final(self).spec_identity() == old(self).spec_identity(),
            final(self).spec_subscription() == old(self).spec_subscription(),
    {
        self.phase = SessionPhase::Streaming;
    }

    /// Close this session: terminal and idempotent. Identity and
    /// subscription records are kept for the caller to release.
    pub fn close(&mut self)
        requires
            old(self).wf(),
        ensures
            final(self).wf(),
            final(self).spec_phase() == SessionPhase::Closed,
            final(self).spec_identity() == old(self).spec_identity(),
            final(self).spec_subscription() == old(self).spec_subscription(),
    {
        self.phase = SessionPhase::Closed;
    }
}

/// Decide a registration and, on success, create the session for it: the
/// admission verdict, a fresh hub subscription, and a session already in
/// `Streaming`, ready for its forwarding loop. On refusal the hub is
/// untouched and the error is the admission decision's own.
pub fn open_session(gate: &Gate, hub: &mut Hub, req: &RegistrationRequest, now_millis: u64) -> (r:
    Result<Session, AuthError>)
    requires
        old(hub).wf(),
        old(hub).spec_next_id() < u64::MAX,
    ensures
        final(hub).wf(),
        match r {
            Ok(s) => {
                &&& admit_spec(gate@, *req, now_millis) == Ok::<Seq<char>, AuthError>(
                    s.spec_identity()->0,
                )
                &&& s.wf()
                &&& s.spec_phase() == SessionPhase::Streaming
                &&& s.spec_identity() is Some
                &&& s.spec_subscription() == Some(old(hub).spec_next_id())
                &&& final(hub)@ == old(hub)@.push(
                    SubscriberView {
                        id: old(hub).spec_next_id(),
                        backlog: Seq::empty(),
                        skipped: 0,
                    },
                )
                &&& final(hub).spec_next_id() == old(hub).spec_next_id() + 1
            },
            Err(e) => {
                &&& admit_spec(gate@, *req, now_millis) == Err::<Seq<char>, AuthError>(e)
                &&& *final(hub) == *old(hub)
            },
        },
{
    let mut session = Session::new();
    match gate.admit_registration(req, now_millis) {
        Ok(identity) => {
            let subscription = hub.subscribe();
            session.to_admitted(identity, subscription);
            session.to_streaming();
            Ok(session)
        },
        Err(e) => Err(e),
    }
}

/// Close a session and release its hub subscription, if it holds one that
/// is still registered. Returns whether a subscriber was removed from the
/// hub; every other subscriber is untouched either way.
pub fn close_session(session: &mut Session, hub: &mut Hub) -> (removed: bool)
    requires
        old(session).wf(),
        old(hub).wf(),
    ensures
        final(session).wf(),
        final(hub).wf(),
        final(session).spec_phase() == SessionPhase::Closed,
        final(session).spec_identity() == old(session).spec_identity(),
        final(session).spec_subscription() == old(session).spec_subscription(),
        final(hub).spec_next_id() == old(hub).spec_next_id(),
        match old(session).spec_subscription() {
            Some(id) => {
                &&& removed == has_subscriber(old(hub)@, id)
                &&& removed ==> final(hub)@ == old(hub)@.remove(subscriber_index(old(hub)@, id))
                &&& !removed ==> final(hub)@ == old(hub)@
            },
            None => !removed && final(hub)@ == old(hub)@,
        },
{
    session.close();
    match session.subscription() {
        Some(id) => hub.unsubscribe(id),
        None => false,
    }
}

} // verus!
