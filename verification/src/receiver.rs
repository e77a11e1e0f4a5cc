//! The session orchestrator's state machine.
//!
//! One value of [`Receiver`] owns a session's state: whether a transport is
//! active, the request-id counter, the outstanding-request table and the
//! platform endpoint. Every decision — namespace permission, request-id
//! allocation, response correlation, the keepalive reply — is made here over
//! plain values; writing and reading the socket, waiting and timing out are
//! the surrounding runtime's moves, driven through these functions.
//!
//! The waiter type `W` is the single-use completion handle registered for
//! each outstanding request; the table holds at most one per id, and an
//! entry leaves it exactly once, on the first matching response or on the
//! caller's timeout.

use std::collections::HashMap;
use vstd::prelude::*;
use crate::app::{App, AppModel};
use crate::client::spec_message_envelope;
use crate::envelope::{spec_encode_envelope, spec_frame};
use crate::error::Error;
use crate::namespace::{NamespaceUrn, UrnModel};
use crate::namespace::heartbeat::Heartbeat;
use crate::payload::{spec_payload_ns, Payload, PayloadModel};

verus! {

broadcast use vstd::std_specs::hash::group_hash_axioms, vstd::std_specs::hash::axiom_u32_obeys_hash_table_key_model, vstd::std_specs::hash::axiom_random_state_builds_valid_hashers;

/// An endpoint permits a namespace when its set lists it; the
/// connection-management namespace is always implicitly permitted.
pub open spec fn spec_permits(app: AppModel, ns: UrnModel) -> bool {
    app.namespaces.contains(ns) || ns == UrnModel::Connection
}

/// Checks a namespace against an endpoint's permitted set, exactly as
/// [`spec_permits`] says.
pub fn permits(app: &App, ns: &NamespaceUrn) -> (r: bool)
    ensures
        r == spec_permits(app@, ns@),
{
    if ns.same_as(&NamespaceUrn::Connection) {
        return true;
    }
    let mut i: usize = 0;
    while i < app.namespaces.len()
        invariant
            i <= app.namespaces@.len(),
            forall|k: int| 0 <= k < i ==> crate::app::urns(app.namespaces@)[k] != ns@,
        decreases app.namespaces@.len() - i,
    {
        if app.namespaces[i].same_as(ns) {
            proof {
                assert(crate::app::urns(app.namespaces@)[i as int] == ns@);
            }
            return true;
        }
        i = i + 1;
    }
    proof {
        assert(!app@.namespaces.contains(ns@));
    }
    false
}

/// The id a response is correlated under: a present, nonzero request id.
pub open spec fn spec_correlation_id(rid: Option<u32>) -> Option<u32> {
    match rid {
        Some(id) => if id != 0 {
            Some(id)
        } else {
            None
        },
        None => None,
    }
}

/// One session's state: the active-transport flag, the request-id counter,
/// the outstanding-request table mapping each id to its waiter, and the
/// platform endpoint.
pub struct Receiver<W> {
    pub connected: bool,
    pub next_request_id: u32,
    pub pending: HashMap<u32, W>,
    pub platform: App,
}

impl<W> Receiver<W> {
    /// Every outstanding id was once allocated: ids start at one.
    pub open spec fn inv(&self) -> bool {
        forall|id: u32| self.pending@.contains_key(id) ==> 1 <= id
    }

    /// A fresh, disconnected session whose platform endpoint is the
    /// receiver platform.
    pub fn new() -> (r: Receiver<W>)
        ensures
            !r.connected,
            r.next_request_id == 0,
            r.pending@ == Map::<u32, W>::empty(),
            r.platform@.transport_id == crate::app::platform_transport_id(),
            r.platform@.namespaces == crate::app::platform_namespaces(),
            r.inv(),
    {
        Receiver {
            connected: false,
            next_request_id: 0,
            pending: HashMap::new(),
            platform: App::receiver(),
        }
    }

    /// Whether a transport is active.
    pub fn is_connected(&self) -> (r: bool)
        ensures
            r == self.connected,
    {
        self.connected
    }

    /// Records that the transport opened: the session is connected.
    pub fn on_connected(&mut self)
        ensures
            final(self).connected,
            final(self).next_request_id == old(self).next_request_id,
            final(self).pending@ == old(self).pending@,
            final(self).platform == old(self).platform,
            old(self).inv() ==> final(self).inv(),
    {
        self.connected = true;
    }

    /// Records a disconnect: the transport handle is cleared, which also
    /// ends the background loop, and the request-id counter resets for a
    /// fresh future connection. Outstanding requests are not cancelled;
    /// their callers keep waiting until their own timeouts fire.
    pub fn on_disconnected(&mut self)
        ensures
            !final(self).connected,
            final(self).next_request_id == 0,
            final(self).pending@ == old(self).pending@,
            final(self).platform == old(self).platform,
            old(self).inv() ==> final(self).inv(),
    {
        self.connected = false;
        self.next_request_id = 0;
    }

    /// Builds the framed bytes that send `payload` to `app` without
    /// expecting a reply. Fails with the permission error when the payload's
    /// namespace is not permitted on `app` — and then no bytes exist to
    /// write — and with the connection error when no transport is active.
    pub fn prepare_send(&self, app: &App, payload: Payload) -> (r: Result<Vec<u8>, Error>)
        ensures
            !spec_permits(app@, spec_payload_ns(payload@)) ==> (r matches Err(e)
                && e matches Error::UnsupportedNamespace),
            spec_permits(app@, spec_payload_ns(payload@)) && !self.connected ==> (r matches Err(e)
                && e matches Error::NoConnection),
            spec_permits(app@, spec_payload_ns(payload@)) && self.connected ==> match r {
                Ok(f) => f@ == spec_frame(
                    spec_encode_envelope(
                        spec_message_envelope(payload@, None, app@.transport_id),
                    ),
                ),
                Err(e) => e matches Error::Io(_) && (!vstd::utf8::valid_utf8(
                    crate::json::ser_json(crate::payload::payload_json(payload@, None)),
                ) || spec_encode_envelope(
                    spec_message_envelope(payload@, None, app@.transport_id),
                ).len() > u32::MAX),
            },
    {
        let ns = payload.namespace();
        if !permits(app, &ns) {
            return Err(Error::UnsupportedNamespace);
        }
        if !self.connected {
            return Err(Error::NoConnection);
        }
        crate::client::build_message(app.transport_id.as_str(), payload, None)
    }

    /// Allocates the next request id, registers the waiter under it, and
    /// builds the framed bytes that send `payload` to `app` carrying that
    /// id. The id is one more than the last: ids are monotone and never
    /// reused while the session is alive. Errors leave the session
    /// unchanged.
    pub fn begin_request(&mut self, app: &App, payload: Payload, waiter: W) -> (r: Result<
        (u32, Vec<u8>),
        Error,
    >)
        requires
            old(self).next_request_id < u32::MAX,
        ensures
            !spec_permits(app@, spec_payload_ns(payload@)) ==> (r matches Err(e)
                && e matches Error::UnsupportedNamespace) && *final(self) == *old(self),
            spec_permits(app@, spec_payload_ns(payload@)) && !old(self).connected ==> (
            r matches Err(e) && e matches Error::NoConnection) && *final(self) == *old(self),
            spec_permits(app@, spec_payload_ns(payload@)) && old(self).connected ==> match r {
                Ok((id, f)) => {
                    &&& id == old(self).next_request_id + 1
                    &&& final(self).next_request_id == id
                    &&& final(self).pending@ == old(self).pending@.insert(id, waiter)
                    &&& f@ == spec_frame(
                        spec_encode_envelope(
                            spec_message_envelope(payload@, Some(id), app@.transport_id),
                        ),
                    )
                    &&& final(self).connected == old(self).connected
                    &&& final(self).platform == old(self).platform
                },
                Err(e) => e matches Error::Io(_) && *final(self) == *old(self) && (
                !vstd::utf8::valid_utf8(
                    crate::json::ser_json(
                        crate::payload::payload_json(
                            payload@,
                            Some((old(self).next_request_id + 1) as u32),
                        ),
                    ),
                ) || spec_encode_envelope(
                    spec_message_envelope(
                        payload@,
                        Some((old(self).next_request_id + 1) as u32),
                        app@.transport_id,
                    ),
                ).len() > u32::MAX),
            },
            old(self).inv() ==> final(self).inv(),
    {
        let ns = payload.namespace();
        if !permits(app, &ns) {
            return Err(Error::UnsupportedNamespace);
        }
        if !self.connected {
            return Err(Error::NoConnection);
        }
        let id = self.next_request_id + 1;
        let frame = match crate::client::build_message(
            app.transport_id.as_str(),
            payload,
            Some(id),
        ) {
            Ok(f) => f,
            Err(e) => {
                return Err(e);
            },
        };
        self.next_request_id = id;
        self.pending.insert(id, waiter);
        Ok((id, frame))
    }

    /// Removes and returns the waiter registered under `id`, if any: the
    /// first caller gets it, any further lookup of the same id gets nothing.
    pub fn take_waiter(&mut self, id: u32) -> (r: Option<W>)
        ensures
            match r {
                Some(w) => old(self).pending@.contains_key(id) && w == old(self).pending@[id],
                None => !old(self).pending@.contains_key(id),
            },
            final(self).pending@ == old(self).pending@.remove(id),
            !final(self).pending@.contains_key(id),
            final(self).connected == old(self).connected,
            final(self).next_request_id == old(self).next_request_id,
            final(self).platform == old(self).platform,
            old(self).inv() ==> final(self).inv(),
    {
        self.pending.remove(&id)
    }

    /// Abandons the caller's own entry after its timeout: afterwards the
    /// table holds nothing under `id`, so a late response is discarded.
    pub fn abandon_request(&mut self, id: u32)
        ensures
            final(self).pending@ == old(self).pending@.remove(id),
            !final(self).pending@.contains_key(id),
            final(self).connected == old(self).connected,
            final(self).next_request_id == old(self).next_request_id,
            final(self).platform == old(self).platform,
            old(self).inv() ==> final(self).inv(),
    {
        self.pending.remove(&id);
    }

    /// Dispatches one inbound response: when it carries a nonzero request id
    /// with a registered waiter, that waiter is removed and returned —
    /// exactly once per id; and independently, a heartbeat ping asks for an
    /// immediate pong on the platform endpoint.
    pub fn process_response(&mut self, resp: &crate::client::Response) -> (r: (Option<W>, bool))
        ensures
            match spec_correlation_id(resp@.request_id) {
                Some(id) => {
                    &&& (old(self).pending@.contains_key(id) ==> r.0 == Some(
                        old(self).pending@[id],
                    ) && final(self).pending@ == old(self).pending@.remove(id))
                    &&& (!old(self).pending@.contains_key(id) ==> r.0 is None
                        && final(self).pending@ == old(self).pending@)
                },
                None => r.0 is None && final(self).pending@ == old(self).pending@,
            },
            r.1 == (resp@.payload matches PayloadModel::Heartbeat(Heartbeat::Ping)),
            final(self).connected == old(self).connected,
            final(self).next_request_id == old(self).next_request_id,
            final(self).platform == old(self).platform,
            old(self).inv() ==> final(self).inv(),
    {
        let waiter = match resp.request_id {
            Some(id) => {
                if id != 0 {
                    self.pending.remove(&id)
                } else {
                    None
                }
            },
            None => None,
        };
        let ping = match &resp.payload {
            Payload::Heartbeat(Heartbeat::Ping) => true,
            _ => false,
        };
        proof {
            if spec_correlation_id(resp@.request_id) is None {
                assert(final(self).pending@ =~= old(self).pending@);
            }
        }
        (waiter, ping)
    }
}

/// Law: consecutive allocations yield distinct, monotonically increasing
/// request ids. A session that starts at counter value `start` and issues
/// `n` requests hands out exactly the ids `start + 1 .. start + n`, with no
/// collisions, as [`Receiver::begin_request`] ensures each id is one more
/// than the counter it increments.
pub proof fn lemma_request_ids_unique(ids: Seq<u32>, start: u32)
    requires
        start + ids.len() <= u32::MAX,
        forall|k: int| 0 <= k < ids.len() ==> #[trigger] ids[k] == start + k + 1,
    ensures
        forall|j: int, k: int| 0 <= j < k < ids.len() ==> ids[j] != ids[k],
        forall|j: int, k: int| 0 <= j < k < ids.len() ==> ids[j] < ids[k],
{
}

/// Law: a response resolves its waiter at most once. After the first
/// matching response removes the entry, the table holds nothing under the
/// id, so a duplicate or late response with the same id finds no waiter and
/// is discarded.
pub proof fn lemma_at_most_once_delivery<W>(table: Map<u32, W>, id: u32)
    ensures
        !table.remove(id).contains_key(id),
        forall|other: u32| other != id ==> table.remove(id).contains_key(other)
            == table.contains_key(other),
{
}

/// The index of the first listed application whose identifier matches.
pub open spec fn spec_find_app(apps: Seq<AppModel>, id: crate::app::AppIdModel, i: int) -> Option<
    int,
>
    decreases apps.len() - i,
{
    if i < 0 || i >= apps.len() {
        None
    } else if apps[i].app_id == id {
        Some(i)
    } else {
        spec_find_app(apps, id, i + 1)
    }
}

/// What a launch request's correlated response means: a launch-error reply
/// is the receiver's rejection with its reason; a receiver-status reply
/// listing an application with the requested identifier returns that
/// application (whose own virtual channel is then to be opened); any other
/// reply — a status without the application included — is no response.
pub open spec fn spec_launch_outcome(p: PayloadModel, id: crate::app::AppIdModel) -> Result<
    AppModel,
    Seq<char>,
> {
    match p {
        PayloadModel::Receiver(crate::namespace::receiver::ReceiverModel::LaunchError(reason)) => {
            Err(reason)
        },
        PayloadModel::Receiver(
            crate::namespace::receiver::ReceiverModel::ReceiverStatus(st),
        ) => {
            match st.applications {
                Some(apps) => match spec_find_app(apps, id, 0) {
                    Some(i) => Ok(apps[i]),
                    None => Err(Seq::empty()),
                },
                None => Err(Seq::empty()),
            }
        },
        _ => Err(Seq::empty()),
    }
}

/// Scans a launch request's response for the requested application, exactly
/// as [`spec_launch_outcome`] says: the launch-error reason surfaces as the
/// launch failure, a matching application is returned, and anything else is
/// the no-response failure.
pub fn match_launched_app(payload: &Payload, app_id: &crate::app::AppId) -> (r: Result<App, Error>)
    ensures
        match r {
            Ok(a) => spec_launch_outcome(payload@, app_id@) == Ok::<AppModel, Seq<char>>(a@),
            Err(e) => match spec_launch_outcome(payload@, app_id@) {
                Ok(_) => false,
                Err(reason) => {
                    if reason.len() > 0 {
                        e matches Error::LaunchError(s) && s@ == reason
                    } else {
                        e matches Error::NoResponse || (e matches Error::LaunchError(s) && s@
                            == reason)
                    }
                },
            },
        },
{
    match payload {
        Payload::Receiver(crate::namespace::receiver::Receiver::LaunchError(le)) => {
            Err(Error::LaunchError(le.reason.clone()))
        },
        Payload::Receiver(crate::namespace::receiver::Receiver::ReceiverStatus(rs)) => {
            match &rs.status.applications {
                Some(apps) => {
                    let ghost am = crate::namespace::receiver::apps(apps@);
                    let mut i: usize = 0;
                    while i < apps.len()
                        invariant
                            i <= apps@.len(),
                            am == crate::namespace::receiver::apps(apps@),
                            am.len() == apps@.len(),
                            forall|k: int| 0 <= k < apps@.len() ==> #[trigger] am[k] == apps@[k]@,
                            spec_find_app(am, app_id@, 0) == spec_find_app(am, app_id@, i as int),
                            payload@ == PayloadModel::Receiver(
                                crate::namespace::receiver::ReceiverModel::ReceiverStatus(
                                    rs.status@,
                                ),
                            ),
                            rs.status@.applications == Some(am),
                        decreases apps@.len() - i,
                    {
                        if apps[i].app_id.same_as(app_id) {
                            proof {
                                assert(am[i as int].app_id == app_id@);
                                assert(spec_find_app(am, app_id@, i as int) == Some(i as int));
                                assert(spec_launch_outcome(payload@, app_id@)
                                    == Ok::<AppModel, Seq<char>>(am[i as int]));
                            }
                            return Ok(apps[i].duplicate());
                        }
                        i = i + 1;
                    }
                    Err(Error::NoResponse)
                },
                None => Err(Error::NoResponse),
            }
        },
        _ => Err(Error::NoResponse),
    }
}

/// Picks the receiver status out of a correlated response's payload; any
/// other reply shape is the no-response failure.
pub fn status_in(payload: &Payload) -> (r: Result<&crate::namespace::receiver::Status, Error>)
    ensures
        match r {
            Ok(st) => payload@ matches PayloadModel::Receiver(
                crate::namespace::receiver::ReceiverModel::ReceiverStatus(m),
            ) && st@ == m,
            Err(e) => !(payload@ matches PayloadModel::Receiver(
                crate::namespace::receiver::ReceiverModel::ReceiverStatus(_),
            )) && e matches Error::NoResponse,
        },
{
    match payload {
        Payload::Receiver(crate::namespace::receiver::Receiver::ReceiverStatus(rs)) => Ok(
            &rs.status,
        ),
        _ => Err(Error::NoResponse),
    }
}


} // verus!
