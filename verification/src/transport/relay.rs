//! What a relay does with a connection, an event that came in on it, and an
//! event that is to go out on it.

use crate::cot::{addressees, is_named, law_exactly_the_named_are_addressed, Event};
use crate::registry::{apply, bind_answer, enrolls, law_the_log_says_who_is_known_and_revoked,
    owned_elsewhere, replay_spec, revokes, DeviceRegistry, Devices, RegistryError,
    RegistryEvent, RegistryEventView};
use crate::transport::codec::{texts, DecodedItem, StreamDecoder, StreamError};
use crate::transport::connections::{ClientEndpoint, ConnectedClients, EndpointView, Transport};
use crate::transport::hub::{deliverable, Outbound};
use vstd::prelude::*;

verus! {

/// What becomes of a client whose TLS handshake succeeded.
#[derive(Debug)]
pub enum Greeting {
    /// Its certificate names nobody.
    NoCommonName,
    /// Its device is revoked.
    Revoked(String),
    /// It is let in under this common name.
    Welcome(String),
}

/// Whether a client whose certificate names `common_name` is let in.
pub open spec fn lets_in(devices: Devices, common_name: Seq<char>) -> bool {
    !(devices.contains_key(common_name) && devices[common_name].revoked)
}

/// What becomes of a client whose certificate names `common_name`.
pub fn greet(registry: &DeviceRegistry, common_name: Option<String>) -> (res: Greeting)
    requires
        registry.wf(),
    ensures
        res is Welcome <==> (common_name matches Some(cn) && lets_in(registry.devices(), cn@)),
        match common_name {
            None => res == Greeting::NoCommonName,
            Some(cn) => if registry.devices().contains_key(cn@)
                && registry.devices()[cn@].revoked {
                res == Greeting::Revoked(cn)
            } else {
                res == Greeting::Welcome(cn)
            },
        },
{
    match common_name {
        None => Greeting::NoCommonName,
        Some(cn) => if registry.is_revoked(&cn) {
            Greeting::Revoked(cn)
        } else {
            Greeting::Welcome(cn)
        },
    }
}

/// The entry of a new connection, which has bound no uid yet.
pub fn endpoint_of(peer: &str, common_name: Option<String>, now_unix: i64) -> (res: ClientEndpoint)
    ensures
        res.deep_view() == (EndpointView {
            remote_addr: peer@,
            transport: if common_name is Some {
                Transport::Tls
            } else {
                Transport::Tcp
            },
            common_name: common_name.deep_view(),
            uid: None,
            connected_at_unix: now_unix,
        }),
{
    let transport = if common_name.is_some() {
        Transport::Tls
    } else {
        Transport::Tcp
    };
    ClientEndpoint {
        remote_addr: peer.to_owned(),
        transport,
        common_name,
        uid: None,
        connected_at_unix: now_unix,
    }
}

/// What reading from a connection gave.
#[derive(Debug)]
pub enum ReadOutcome {
    Data(Vec<u8>),
    /// The client is gone.
    End,
    /// Reading failed.
    Failed,
}

/// What to do about what was read.
#[derive(Debug)]
pub enum ReadAction {
    /// Read these documents and look at each of them in turn.
    Examine(Vec<String>),
    /// Drop the connection.
    Drop,
    /// Close the connection: its stream cannot be read on.
    Close(StreamError),
}

/// What to do about what was read: bytes go through the decoder.
pub fn on_read(decoder: &mut StreamDecoder, outcome: &ReadOutcome) -> (res: ReadAction)
    ensures
        final(decoder).limit() == old(decoder).limit(),
        match *outcome {
            ReadOutcome::Data(chunk) => {
                let f = old(decoder).framed(chunk@);
                match res {
                    ReadAction::Examine(documents) => {
                        &&& !f.garbage
                        &&& f.rest.len() <= old(decoder).limit()
                        &&& documents.deep_view() == texts(f.documents)
                        &&& final(decoder).pending() == f.rest
                    },
                    ReadAction::Close(StreamError::UnexpectedContent(bad)) => {
                        &&& f.garbage
                        &&& bad@ == f.rest
                        &&& final(decoder).pending().len() == 0
                    },
                    ReadAction::Close(StreamError::TooLarge { buffered, limit }) => {
                        &&& !f.garbage
                        &&& f.rest.len() > old(decoder).limit()
                        &&& buffered == f.rest.len()
                        &&& limit == old(decoder).limit()
                        &&& final(decoder).pending() == f.rest
                    },
                    ReadAction::Drop => false,
                }
            },
            _ => res is Drop && final(decoder).pending() == old(decoder).pending(),
        },
{
    match outcome {
        ReadOutcome::End => ReadAction::Drop,
        ReadOutcome::Failed => ReadAction::Drop,
        ReadOutcome::Data(chunk) => match decoder.feed(chunk) {
            Ok(documents) => ReadAction::Examine(documents),
            Err(error) => ReadAction::Close(error),
        },
    }
}

/// What to do about a document that was read.
#[derive(Debug)]
pub enum ItemAction {
    /// Nothing: it is no event.
    Ignore,
    /// Relay it.
    Relay(Event),
    /// Log this binding of its uid first.
    Bind { binding: RegistryEvent, event: Event },
    /// Close the connection: the uid is not the client's to assert.
    Close(RegistryError),
}

/// What to do about a document that came in on a connection. A device may only
/// assert the uid that it owns; a connection without a certificate is not held
/// to anything.
pub fn on_item(registry: &DeviceRegistry, common_name: Option<&str>, item: DecodedItem) -> (res:
    ItemAction)
    requires
        registry.wf(),
    ensures
        match item {
            DecodedItem::Skipped { .. } => res is Ignore,
            DecodedItem::Event(event) => match common_name {
                None => res == ItemAction::Relay(event),
                Some(cn) => match res {
                    ItemAction::Ignore => false,
                    ItemAction::Relay(e) => e == event && bind_answer(
                        registry.devices(),
                        cn@,
                        event.uid@,
                        Ok::<Option<RegistryEvent>, RegistryError>(None),
                    ),
                    ItemAction::Bind { binding, event: e } => e == event && bind_answer(
                        registry.devices(),
                        cn@,
                        event.uid@,
                        Ok::<Option<RegistryEvent>, RegistryError>(Some(binding)),
                    ),
                    ItemAction::Close(error) => bind_answer(
                        registry.devices(),
                        cn@,
                        event.uid@,
                        Err::<Option<RegistryEvent>, RegistryError>(error),
                    ),
                },
            },
        },
{
    match item {
        DecodedItem::Skipped { .. } => ItemAction::Ignore,
        DecodedItem::Event(event) => match common_name {
            None => ItemAction::Relay(event),
            Some(cn) => match registry.propose_bind_uid(cn, &event.uid) {
                Ok(None) => ItemAction::Relay(event),
                Ok(Some(binding)) => ItemAction::Bind { binding, event },
                Err(error) => ItemAction::Close(error),
            },
        },
    }
}

/// What came from the hub.
#[derive(Debug)]
pub enum Received {
    Message(Outbound),
    /// The connection fell behind and missed some.
    Lagged,
    /// The hub is gone.
    Closed,
}

/// What to do about what came from the hub.
#[derive(Debug, Clone, Copy, PartialEq, Eq, Structural)]
pub enum HubAction {
    Write,
    Skip,
    Drop,
}

/// What to do about what came from the hub, on the connection at `me`.
pub fn on_received(
    registry: &DeviceRegistry,
    me: &str,
    common_name: Option<&str>,
    received: &Received,
) -> (res: HubAction)
    requires
        registry.wf(),
    ensures
        res == match *received {
            Received::Message(message) => if goes_out(
                registry.devices(),
                me@,
                match common_name {
                    Some(cn) => Some(cn@),
                    None => None,
                },
                message,
            ) {
                HubAction::Write
            } else {
                HubAction::Skip
            },
            Received::Lagged => HubAction::Skip,
            Received::Closed => HubAction::Drop,
        },
{
    match received {
        Received::Message(message) => if delivers(registry, me, common_name, message) {
            HubAction::Write
        } else {
            HubAction::Skip
        },
        Received::Lagged => HubAction::Skip,
        Received::Closed => HubAction::Drop,
    }
}

/// The uid that a connection is known by: the one that the registry has bound
/// to its device. One without a certificate has none.
pub open spec fn known_as(devices: Devices, common_name: Option<Seq<char>>) -> Option<Seq<char>> {
    match common_name {
        Some(cn) => match devices.get(cn) {
            Some(device) => device.uid,
            None => None,
        },
        None => None,
    }
}

/// Whether a message is written to the connection at `me`.
pub open spec fn goes_out(
    devices: Devices,
    me: Seq<char>,
    common_name: Option<Seq<char>>,
    message: Outbound,
) -> bool {
    message.sender@ != me && deliverable(
        message.dest_uids.deep_view(),
        known_as(devices, common_name),
    )
}

/// The event as it goes out, given its XML; one that cannot be written is
/// dropped.
pub fn outbound(peer: &str, event: &Event, xml: Option<String>) -> (res: Option<Outbound>)
    ensures
        match xml {
            None => res is None,
            Some(text) => {
                &&& res matches Some(out)
                &&& out.sender@ == peer@
                &&& out.xml == text
                &&& out.dest_uids.deep_view() == if addressees(*event).len() == 0 {
                    None
                } else {
                    Some(addressees(*event))
                }
            },
        },
{
    match xml {
        None => None,
        Some(xml) => Some(
            Outbound { sender: peer.to_owned(), xml, dest_uids: event.addressed_uids() },
        ),
    }
}

/// What became of an event that came in.
#[derive(Debug)]
pub enum Relayed {
    /// The connection is to be closed.
    Closed(RegistryError),
    /// This goes out, or nothing where the event could not be written.
    Sent(Option<Outbound>),
}

/// Takes in an event from the device `common_name` at the address `peer`.
pub fn relay_event(
    registry: &mut DeviceRegistry,
    clients: &mut ConnectedClients,
    peer: &str,
    common_name: &str,
    event: &Event,
    xml: Option<String>,
) -> (res: Relayed)
    requires
        old(registry).wf(),
        old(clients).wf(),
    ensures
        final(registry).wf(),
        final(clients).wf(),
        match res {
            Relayed::Closed(error) => {
                &&& final(registry).devices() == old(registry).devices()
                &&& final(clients).clients() == old(clients).clients()
                &&& bind_answer(
                    old(registry).devices(),
                    common_name@,
                    event.uid@,
                    Err::<Option<RegistryEvent>, RegistryError>(error),
                )
            },
            Relayed::Sent(out) => {
                &&& !owned_elsewhere(old(registry).devices(), common_name@, event.uid@)
                &&& final(registry).devices().contains_key(common_name@)
                &&& final(registry).devices()[common_name@].uid == Some(event.uid@)
                &&& final(registry).devices() == apply(
                    old(registry).devices(),
                    RegistryEventView::UidBound { common_name: common_name@, uid: event.uid@ },
                )
                &&& final(clients).clients() == if old(clients).clients().contains_key(peer@) {
                    old(clients).clients().insert(
                        peer@,
                        EndpointView {
                            uid: Some(event.uid@),
                            ..old(clients).clients()[peer@]
                        },
                    )
                } else {
                    old(clients).clients()
                }
                &&& out is Some <==> xml is Some
                &&& out matches Some(o) ==> o.sender@ == peer@ && Some(o.xml) == xml
                    && o.dest_uids.deep_view() == if addressees(*event).len() == 0 {
                    None
                } else {
                    Some(addressees(*event))
                }
            },
        },
{
    match registry.bind_uid(common_name, &event.uid) {
        Err(error) => Relayed::Closed(error),
        Ok(()) => {
            clients.set_uid(peer, event.uid.clone());
            Relayed::Sent(outbound(peer, event, xml))
        },
    }
}

/// Whether an outgoing event is written to the connection at `me`.
pub fn delivers(
    registry: &DeviceRegistry,
    me: &str,
    common_name: Option<&str>,
    message: &Outbound,
) -> (res: bool)
    requires
        registry.wf(),
    ensures
        res == goes_out(
            registry.devices(),
            me@,
            match common_name {
                Some(cn) => Some(cn@),
                None => None,
            },
            *message,
        ),
{
    let my_uid: Option<String> = match common_name {
        Some(cn) => match registry.find(cn) {
            Some(device) => device.uid,
            None => None,
        },
        None => None,
    };
    match &my_uid {
        Some(uid) => message.goes_to(me, Some(uid.as_str())),
        None => message.goes_to(me, None),
    }
}

/// Nothing goes back to its sender, and a directed event goes to a device
/// exactly if the device's bound uid is named, and to no connection without a
/// certificate.
pub proof fn law_who_gets_an_event(
    devices: Devices,
    me: Seq<char>,
    common_name: Option<Seq<char>>,
    message: Outbound,
)
    ensures
        message.sender@ == me ==> !goes_out(devices, me, common_name, message),
        message.dest_uids is None && message.sender@ != me ==> goes_out(
            devices,
            me,
            common_name,
            message,
        ),
        message.dest_uids is Some && common_name is None ==> !goes_out(
            devices,
            me,
            common_name,
            message,
        ),
        message.dest_uids is Some && message.sender@ != me ==> (goes_out(
            devices,
            me,
            common_name,
            message,
        ) <==> known_as(devices, common_name) is Some && message.dest_uids.deep_view()->0.contains(
            known_as(devices, common_name)->0,
        )),
{
}

/// The event names no uid at all.
pub open spec fn names_nobody(event: Event) -> bool {
    forall|uid: Seq<char>| !#[trigger] is_named(event, uid)
}

/// An event that came in at one connection is written to another exactly if it
/// names nobody, or names the uid that the registry has bound to the device of
/// the other; it is never written to the connection that it came in at.
pub proof fn law_an_event_reaches_exactly_whom_it_names(
    devices: Devices,
    event: Event,
    message: Outbound,
    me: Seq<char>,
    common_name: Option<Seq<char>>,
)
    requires
        message.dest_uids.deep_view() == if addressees(event).len() == 0 {
            None
        } else {
            Some(addressees(event))
        },
    ensures
        goes_out(devices, me, common_name, message) <==> message.sender@ != me && (names_nobody(
            event,
        ) || (common_name is Some && devices.contains_key(common_name->0)
            && devices[common_name->0].uid is Some && is_named(
            event,
            devices[common_name->0].uid->0,
        ))),
{
    law_exactly_the_named_are_addressed(event, seq![]);
    if let Some(uid) = known_as(devices, common_name) {
        law_exactly_the_named_are_addressed(event, uid);
    }
    assert(message.dest_uids is Some <==> addressees(event).len() > 0);
}

/// A client is turned away exactly if the log enrolled its device and revoked it
/// after that, whatever else is on record: a revoked device cannot connect, and
/// every other can.
pub proof fn law_revoked_devices_cannot_connect(
    events: Seq<RegistryEventView>,
    common_name: Seq<char>,
)
    ensures
        !lets_in(replay_spec(events), common_name) <==> exists|i: int, j: int|
            0 <= i < j < events.len() && #[trigger] enrolls(events[i], common_name)
                && #[trigger] revokes(events[j], common_name),
{
    law_the_log_says_who_is_known_and_revoked(events, common_name);
    if exists|i: int, j: int|
        0 <= i < j < events.len() && #[trigger] enrolls(events[i], common_name)
            && #[trigger] revokes(events[j], common_name) {
        let (i, j) = choose|i: int, j: int|
            0 <= i < j < events.len() && #[trigger] enrolls(events[i], common_name)
                && #[trigger] revokes(events[j], common_name);
        assert(enrolls(events[i], common_name));
    }
}

/// An event is taken in from a device exactly if nobody else owns the uid that
/// it asserts and the device has it or has none: what comes in under a uid comes
/// from one device only.
pub proof fn law_events_come_in_under_their_own_uid(
    devices: Devices,
    common_name: Seq<char>,
    uid: Seq<char>,
    res: Result<Option<RegistryEvent>, RegistryError>,
)
    requires
        bind_answer(devices, common_name, uid, res),
    ensures
        res is Ok <==> devices.contains_key(common_name) && (devices[common_name].uid is None
            || devices[common_name].uid == Some(uid)) && forall|k: Seq<char>|
            k != common_name && #[trigger] devices.contains_key(k) ==> devices[k].uid != Some(uid),
{
}

} // verus!
