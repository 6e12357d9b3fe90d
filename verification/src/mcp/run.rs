//! Serving the tools: where the server is reached, and the listener that turns begin
//! notifications into monitors.
//!
//! The server binds a port of the system's choice on loopback and publishes its connect URL
//! under a lock in the state directory, for the launcher to discover. Alongside it a listener
//! waits for begin notifications. Binding, locking and listening are done outside;
//! [`connect_ip`], [`connect_url`], [`published`], [`received`] and [`ListenerState::step`]
//! decide.

use vstd::prelude::*;

use crate::db;
use crate::mcp::request;
use crate::mcp::request::JsonMember;
use crate::text;

verus! {

/// The address that the server binds.
pub const BIND_ADDRESS: &'static str = "127.0.0.1:0";

/// The directory of the locks, under the state directory.
pub const LOCK_DIRECTORY: &'static str = "locks";

/// The key of the lock that holds the connect URL.
pub const LOCK_KEY: &'static str = "mcp";

/// For how long the listener pauses after it could not connect.
pub const RECONNECT_SECONDS: u64 = 1;

// ---------------------------------------------------------------------------------------
// The connect URL
// ---------------------------------------------------------------------------------------

/// An IP address, by its octets or its segments.
#[derive(Debug, Clone, Copy, PartialEq, Eq)]
pub enum HostIp {
    V4([u8; 4]),
    V6([u16; 8]),
}

/// What a [`HostIp`] holds.
pub enum HostIpView {
    V4(Seq<u8>),
    V6(Seq<u16>),
}

impl View for HostIp {
    type V = HostIpView;

    open spec fn view(&self) -> HostIpView {
        match self {
            HostIp::V4(octets) => HostIpView::V4(octets@),
            HostIp::V6(segments) => HostIpView::V6(segments@),
        }
    }
}

/// The address at which a server that is bound to `ip` is reached: the loopback address of
/// its family where `ip` is the unspecified one, which is all zeros, and else `ip` itself.
pub open spec fn reached_at(ip: HostIpView) -> HostIpView {
    match ip {
        HostIpView::V4(octets) => if octets == seq![0u8, 0, 0, 0] {
            HostIpView::V4(seq![127u8, 0, 0, 1])
        } else {
            ip
        },
        HostIpView::V6(segments) => if segments == seq![0u16, 0, 0, 0, 0, 0, 0, 0] {
            HostIpView::V6(seq![0u16, 0, 0, 0, 0, 0, 0, 1])
        } else {
            ip
        },
    }
}

/// The address for a launcher to connect to, mapping an unspecified bind to loopback.
pub fn connect_ip(ip: HostIp) -> (r: HostIp)
    ensures
        r@ == reached_at(ip@),
{
    match ip {
        HostIp::V4(o) => {
            if o[0] == 0 && o[1] == 0 && o[2] == 0 && o[3] == 0 {
                assert(o@ =~= seq![0u8, 0, 0, 0]);
                let loopback: [u8; 4] = [127, 0, 0, 1];
                assert(loopback@ =~= seq![127u8, 0, 0, 1]);
                HostIp::V4(loopback)
            } else {
                HostIp::V4(o)
            }
        },
        HostIp::V6(s) => {
            if s[0] == 0 && s[1] == 0 && s[2] == 0 && s[3] == 0 && s[4] == 0 && s[5] == 0 && s[6]
                == 0 && s[7] == 0 {
                assert(s@ =~= seq![0u16, 0, 0, 0, 0, 0, 0, 0]);
                let loopback: [u16; 8] = [0, 0, 0, 0, 0, 0, 0, 1];
                assert(loopback@ =~= seq![0u16, 0, 0, 0, 0, 0, 0, 1]);
                HostIp::V6(loopback)
            } else {
                HostIp::V6(s)
            }
        },
    }
}

/// The URL of a server at the socket address `addr`.
pub fn connect_url(addr: &str) -> (r: String)
    ensures
        r@ == "http://"@ + addr@,
{
    text::concat2("http://", addr)
}

/// Whether the connect URL is published, given whether the lock was claimed: it is not where
/// another live instance holds the lock.
pub fn published(claimed: bool) -> (r: Result<(), String>)
    ensures
        r is Ok <==> claimed,
        r matches Err(e) ==> e@
            == "another arcanum instance already holds the mcp lock for this state"@,
{
    if claimed {
        Ok(())
    } else {
        Err("another arcanum instance already holds the mcp lock for this state".to_string())
    }
}

// ---------------------------------------------------------------------------------------
// The listener
// ---------------------------------------------------------------------------------------

/// Where the listener stands, and what it waits for.
#[derive(Debug, Clone, Copy, PartialEq, Eq, Structural)]
pub enum ListenerState {
    /// Waits for a connection to the channel.
    Connecting,
    /// Could not connect; waits for its pause to be over.
    Pausing,
    /// Is connected; waits for a notification.
    Receiving,
    /// Runs the begin trigger; waits for it to be done.
    Beginning,
}

/// A begin notification: which agent to (re)evaluate, and its `token_repeat`.
pub struct MonitorNotification {
    pub aih: String,
    pub token_repeat: i64,
}

/// What the listener is told.
pub enum ListenerEvent {
    /// It is connected.
    Connected,
    /// It could not connect.
    Unreachable,
    /// What it asked for is done.
    Done,
    /// A payload was received, of a notification; `None` where it is of none.
    Notified(Option<MonitorNotification>),
    /// The connection dropped.
    Dropped,
}

/// What the listener asks for.
pub enum ListenerAction {
    /// Connect to the channel.
    Connect,
    /// Wait for this many seconds.
    Pause(u64),
    /// Wait for a notification.
    Receive,
    /// Run the begin trigger.
    Begin(MonitorNotification),
}

/// What a [`MonitorNotification`] holds.
pub struct MonitorNotificationView {
    pub aih: Seq<char>,
    pub token_repeat: i64,
}

/// What a [`ListenerEvent`] holds.
pub enum ListenerEventView {
    Connected,
    Unreachable,
    Done,
    Notified(Option<MonitorNotificationView>),
    Dropped,
}

/// What a [`ListenerAction`] holds.
pub enum ListenerActionView {
    Connect,
    Pause(u64),
    Receive,
    Begin(MonitorNotificationView),
}

impl View for MonitorNotification {
    type V = MonitorNotificationView;

    open spec fn view(&self) -> MonitorNotificationView {
        MonitorNotificationView { aih: self.aih@, token_repeat: self.token_repeat }
    }
}

impl View for ListenerEvent {
    type V = ListenerEventView;

    open spec fn view(&self) -> ListenerEventView {
        match self {
            ListenerEvent::Connected => ListenerEventView::Connected,
            ListenerEvent::Unreachable => ListenerEventView::Unreachable,
            ListenerEvent::Done => ListenerEventView::Done,
            ListenerEvent::Notified(n) => ListenerEventView::Notified(notification_option(*n)),
            ListenerEvent::Dropped => ListenerEventView::Dropped,
        }
    }
}

impl View for ListenerAction {
    type V = ListenerActionView;

    open spec fn view(&self) -> ListenerActionView {
        match self {
            ListenerAction::Connect => ListenerActionView::Connect,
            ListenerAction::Pause(seconds) => ListenerActionView::Pause(*seconds),
            ListenerAction::Receive => ListenerActionView::Receive,
            ListenerAction::Begin(n) => ListenerActionView::Begin(n@),
        }
    }
}

// ---------------------------------------------------------------------------------------
// Reading a notification
// ---------------------------------------------------------------------------------------

/// The notification that the members `aih` and `token_repeat` of an object make: a text and a
/// number that is an `i64`.
pub open spec fn notification_of_members(
    aih: Option<request::JsonMemberView>,
    token_repeat: Option<request::JsonMemberView>,
) -> Option<MonitorNotificationView> {
    match (aih, token_repeat) {
        (
            Some(request::JsonMemberView::Text(aih)),
            Some(request::JsonMemberView::Number { signed: Some(token_repeat), .. }),
        ) => Some(MonitorNotificationView { aih, token_repeat }),
        _ => None,
    }
}

/// The member of a name, if there is one.
pub open spec fn member(
    members: Map<Seq<char>, request::JsonMemberView>,
    key: Seq<char>,
) -> Option<request::JsonMemberView> {
    if members.contains_key(key) {
        Some(members[key])
    } else {
        None
    }
}

/// The notification that the members of a payload make, where it is the JSON text of an object
/// with a text `aih` and an `i64` `token_repeat`.
pub open spec fn members_notification(payload: Seq<char>) -> Option<MonitorNotificationView> {
    match request::json_text_members(payload) {
        Some(m) => notification_of_members(member(m, "aih"@), member(m, "token_repeat"@)),
        None => None,
    }
}

/// The payload that is sent for a notification.
pub open spec fn payload_text(n: MonitorNotificationView) -> Seq<char> {
    db::json_object_text("aih"@, n.aih, "token_repeat"@, n.token_repeat)
}

/// The notification that a payload was sent for: its members make one, and the payload is
/// written just as it is sent for that one.
pub open spec fn sent_for(payload: Seq<char>) -> Option<MonitorNotificationView> {
    match members_notification(payload) {
        Some(n) if payload_text(n) == payload => Some(n),
        _ => None,
    }
}

/// The notification that a received payload is taken for: the one that it was sent for, or
/// else what it is parsed as.
pub open spec fn taken_for(
    payload: Seq<char>,
    parsed: Option<MonitorNotificationView>,
) -> Option<MonitorNotificationView> {
    match sent_for(payload) {
        Some(n) => Some(n),
        None => parsed,
    }
}

/// The view of an optional notification.
pub open spec fn notification_option(n: Option<MonitorNotification>) -> Option<
    MonitorNotificationView,
> {
    match n {
        Some(n) => Some(n@),
        None => None,
    }
}

/// The view of an optional member.
pub open spec fn member_option(m: Option<JsonMember>) -> Option<request::JsonMemberView> {
    match m {
        Some(m) => Some(m@),
        None => None,
    }
}

/// The notification that the members `aih` and `token_repeat` of an object make, if the one is
/// a text and the other an `i64`.
pub fn notification_from(aih: Option<JsonMember>, token_repeat: Option<JsonMember>) -> (r: Option<
    MonitorNotification,
>)
    ensures
        notification_option(r) == notification_of_members(
            member_option(aih),
            member_option(token_repeat),
        ),
{
    match (aih, token_repeat) {
        (Some(JsonMember::Text(aih)), Some(JsonMember::Number { signed: Some(n), .. })) => Some(
            MonitorNotification { aih, token_repeat: n },
        ),
        _ => None,
    }
}

/// The notification that a payload was sent for, if [`db::notification_payload`] wrote it.
pub fn sent_notification(payload: &str) -> (r: Option<MonitorNotification>)
    ensures
        notification_option(r) == sent_for(payload@),
{
    let read = match request::parse_json(payload) {
        Ok(document) => notification_from(
            request::json_member(&document, "aih"),
            request::json_member(&document, "token_repeat"),
        ),
        Err(_) => None,
    };
    match read {
        Some(n) => {
            let written = db::notification_payload(n.aih.as_str(), n.token_repeat);
            if text::same_text(written.as_str(), payload) {
                Some(n)
            } else {
                None
            }
        },
        None => None,
    }
}

/// What a received payload tells the listener, given what it is parsed as, if it parses. A
/// payload as it is sent is read back here, so that what was sent is what is acted on; any
/// other counts as what it is parsed as.
pub fn received(payload: &str, parsed: Option<MonitorNotification>) -> (r: ListenerEvent)
    ensures
        r@ == ListenerEventView::Notified(taken_for(payload@, notification_option(parsed))),
{
    match sent_notification(payload) {
        Some(n) => ListenerEvent::Notified(Some(n)),
        None => ListenerEvent::Notified(parsed),
    }
}

// ---------------------------------------------------------------------------------------
// The steps of the listener
// ---------------------------------------------------------------------------------------

/// The events that a state waits for.
pub open spec fn expects(state: ListenerState, event: ListenerEventView) -> bool {
    match (state, event) {
        (ListenerState::Connecting, ListenerEventView::Connected) => true,
        (ListenerState::Connecting, ListenerEventView::Unreachable) => true,
        (ListenerState::Pausing, ListenerEventView::Done) => true,
        (ListenerState::Receiving, ListenerEventView::Notified(_)) => true,
        (ListenerState::Receiving, ListenerEventView::Dropped) => true,
        (ListenerState::Beginning, ListenerEventView::Done) => true,
        _ => false,
    }
}

/// The state after an event that was waited for, and what the listener asks for then.
pub open spec fn listener_step(state: ListenerState, event: ListenerEventView) -> (
    ListenerState,
    ListenerActionView,
) {
    match (state, event) {
        (_, ListenerEventView::Connected) => (
            ListenerState::Receiving,
            ListenerActionView::Receive,
        ),
        (_, ListenerEventView::Unreachable) => (
            ListenerState::Pausing,
            ListenerActionView::Pause(RECONNECT_SECONDS),
        ),
        (_, ListenerEventView::Notified(Some(n))) => (
            ListenerState::Beginning,
            ListenerActionView::Begin(n),
        ),
        (_, ListenerEventView::Notified(None)) => (
            ListenerState::Receiving,
            ListenerActionView::Receive,
        ),
        (_, ListenerEventView::Dropped) => (
            ListenerState::Connecting,
            ListenerActionView::Connect,
        ),
        (ListenerState::Beginning, ListenerEventView::Done) => (
            ListenerState::Receiving,
            ListenerActionView::Receive,
        ),
        (_, ListenerEventView::Done) => (ListenerState::Connecting, ListenerActionView::Connect),
    }
}

impl ListenerState {
    /// A listener at its start: it connects.
    pub fn start() -> (r: (ListenerState, ListenerAction))
        ensures
            r.0 == ListenerState::Connecting,
            r.1@ == ListenerActionView::Connect,
    {
        (ListenerState::Connecting, ListenerAction::Connect)
    }

    /// What an event leads to: the next state, and what the listener asks for.
    ///
    /// Each notification runs the begin trigger to its end before the next is received; a
    /// payload that is not a notification is passed over. A dropped connection is made anew
    /// at once, and one that cannot be made is tried again after a pause.
    pub fn step(self, event: ListenerEvent) -> (r: (ListenerState, ListenerAction))
        requires
            expects(self, event@),
        ensures
            (r.0, r.1@) == listener_step(self, event@),
            event matches ListenerEvent::Notified(Some(n)) ==> r.1 matches ListenerAction::Begin(
                b,
            ) && b.aih@ == n.aih@ && b.token_repeat == n.token_repeat,
    {
        match event {
            ListenerEvent::Connected => (ListenerState::Receiving, ListenerAction::Receive),
            ListenerEvent::Unreachable => (
                ListenerState::Pausing,
                ListenerAction::Pause(RECONNECT_SECONDS),
            ),
            ListenerEvent::Notified(Some(n)) => (
                ListenerState::Beginning,
                ListenerAction::Begin(n),
            ),
            ListenerEvent::Notified(None) => (ListenerState::Receiving, ListenerAction::Receive),
            ListenerEvent::Dropped => (ListenerState::Connecting, ListenerAction::Connect),
            ListenerEvent::Done => match self {
                ListenerState::Beginning => (ListenerState::Receiving, ListenerAction::Receive),
                _ => (ListenerState::Connecting, ListenerAction::Connect),
            },
        }
    }
}

// ---------------------------------------------------------------------------------------
// Laws
// ---------------------------------------------------------------------------------------

/// A launcher is never sent to an unspecified address, and an address that it can be sent to
/// is left as it is.
pub proof fn law_connect_address_is_specified(ip: HostIpView)
    ensures
        reached_at(ip) != HostIpView::V4(seq![0u8, 0, 0, 0]),
        reached_at(ip) != HostIpView::V6(seq![0u16, 0, 0, 0, 0, 0, 0, 0]),
        reached_at(reached_at(ip)) == reached_at(ip),
{
    assert(seq![127u8, 0, 0, 1][0] != seq![0u8, 0, 0, 0][0]);
    assert(seq![0u16, 0, 0, 0, 0, 0, 0, 1][7] != seq![0u16, 0, 0, 0, 0, 0, 0, 0][7]);
}

/// The begin trigger runs for a notification and for nothing else, with the agent and the
/// `token_repeat` that the notification names.
pub proof fn law_begin_follows_notification(
    state: ListenerState,
    event: ListenerEventView,
    n: MonitorNotificationView,
)
    requires
        expects(state, event),
    ensures
        listener_step(state, event).1 == ListenerActionView::Begin(n) <==> event
            == ListenerEventView::Notified(Some(n)),
{
}

/// The listener never stops: whatever it is told, it then waits for what it asked for.
pub proof fn law_listener_goes_on(state: ListenerState, event: ListenerEventView)
    requires
        expects(state, event),
    ensures
        match listener_step(state, event) {
            (ListenerState::Connecting, action) => action == ListenerActionView::Connect,
            (ListenerState::Pausing, action) => action == ListenerActionView::Pause(
                RECONNECT_SECONDS,
            ),
            (ListenerState::Receiving, action) => action == ListenerActionView::Receive,
            (ListenerState::Beginning, action) => action is Begin,
        },
{
}

/// The state after several events.
pub open spec fn listener_after(
    state: ListenerState,
    events: Seq<ListenerEventView>,
) -> ListenerState
    decreases events.len(),
{
    if events.len() == 0 {
        state
    } else {
        listener_step(listener_after(state, events.drop_last()), events.last()).0
    }
}

/// Each of several events is waited for where it comes.
pub open spec fn expects_all(state: ListenerState, events: Seq<ListenerEventView>) -> bool
    decreases events.len(),
{
    events.len() > 0 ==> expects_all(state, events.drop_last()) && expects(
        listener_after(state, events.drop_last()),
        events.last(),
    )
}

/// The begin triggers that the listener runs over several events, in order.
pub open spec fn begun(state: ListenerState, events: Seq<ListenerEventView>) -> Seq<
    MonitorNotificationView,
>
    decreases events.len(),
{
    if events.len() == 0 {
        Seq::empty()
    } else {
        let before = begun(state, events.drop_last());
        match listener_step(listener_after(state, events.drop_last()), events.last()).1 {
            ListenerActionView::Begin(n) => before.push(n),
            _ => before,
        }
    }
}

/// The notifications among several events, in order.
pub open spec fn notified(events: Seq<ListenerEventView>) -> Seq<MonitorNotificationView>
    decreases events.len(),
{
    if events.len() == 0 {
        Seq::empty()
    } else {
        let before = notified(events.drop_last());
        match events.last() {
            ListenerEventView::Notified(Some(n)) => before.push(n),
            _ => before,
        }
    }
}

/// Whatever happens to the listener, dropped connections and failed attempts included, the
/// begin trigger runs once per notification, in the order in which they are received.
pub proof fn law_every_notification_is_begun(state: ListenerState, events: Seq<ListenerEventView>)
    requires
        expects_all(state, events),
    ensures
        begun(state, events) == notified(events),
    decreases events.len(),
{
    if events.len() > 0 {
        law_every_notification_is_begun(state, events.drop_last());
    }
}

/// The events of receiving payloads while connected, each with what it is parsed as: each is
/// taken for a notification or passed over, and for a notification the begin trigger is run to
/// its end.
pub open spec fn receipt(
    deliveries: Seq<(Seq<char>, Option<MonitorNotificationView>)>,
) -> Seq<ListenerEventView>
    decreases deliveries.len(),
{
    if deliveries.len() == 0 {
        Seq::empty()
    } else {
        let n = taken_for(deliveries.last().0, deliveries.last().1);
        let read = receipt(deliveries.drop_last()).push(ListenerEventView::Notified(n));
        if n is Some {
            read.push(ListenerEventView::Done)
        } else {
            read
        }
    }
}

/// What a delivery is, given what was sent with it: a payload that was sent for a
/// notification, whatever it is parsed as, or, where none was sent, a payload that is not one
/// and does not parse as one.
pub open spec fn delivers(
    delivery: (Seq<char>, Option<MonitorNotificationView>),
    sent: Option<MonitorNotificationView>,
) -> bool {
    match sent {
        Some(n) => sent_for(delivery.0) == Some(n),
        None => sent_for(delivery.0) is None && delivery.1 is None,
    }
}

/// The notifications that are there, in order.
pub open spec fn present(notifications: Seq<Option<MonitorNotificationView>>) -> Seq<
    MonitorNotificationView,
>
    decreases notifications.len(),
{
    if notifications.len() == 0 {
        Seq::empty()
    } else {
        let before = present(notifications.drop_last());
        match notifications.last() {
            Some(n) => before.push(n),
            None => before,
        }
    }
}

/// A begin notification is acted on as it was sent. Of the payloads that are received while
/// listening, let `sent` say for which notification each one was sent, if for any; a payload
/// that [`db::notification_payload`] made was sent for the agent and the `token_repeat` that it
/// was made of. Then the begin trigger runs once per sent notification, with its agent and its
/// `token_repeat`, in order of receipt. Other payloads are passed over and end nothing: the
/// listener goes on receiving. When the connection drops it connects anew.
pub proof fn law_sent_notifications_are_begun(
    deliveries: Seq<(Seq<char>, Option<MonitorNotificationView>)>,
    sent: Seq<Option<MonitorNotificationView>>,
)
    ensures
        ({
            let events = receipt(deliveries);
            &&& expects_all(ListenerState::Receiving, events)
            &&& listener_after(ListenerState::Receiving, events) == ListenerState::Receiving
            &&& listener_step(
                listener_after(ListenerState::Receiving, events),
                ListenerEventView::Dropped,
            ) == (ListenerState::Connecting, ListenerActionView::Connect)
            &&& sent.len() == deliveries.len() && (forall|i: int|
                0 <= i < sent.len() ==> delivers(#[trigger] deliveries[i], sent[i])) ==> begun(
                ListenerState::Receiving,
                events,
            ) == present(sent)
        }),
    decreases deliveries.len(),
{
    let listening = ListenerState::Receiving;
    if deliveries.len() > 0 {
        let rest = deliveries.drop_last();
        let n = taken_for(deliveries.last().0, deliveries.last().1);
        let before = receipt(rest);
        let read = before.push(ListenerEventView::Notified(n));
        assert(read.drop_last() =~= before);
        assert(read.push(ListenerEventView::Done).drop_last() =~= read);
        if sent.len() == deliveries.len() && (forall|i: int|
            0 <= i < sent.len() ==> delivers(#[trigger] deliveries[i], sent[i])) {
            assert forall|i: int| 0 <= i < rest.len() implies delivers(
                #[trigger] rest[i],
                sent.drop_last()[i],
            ) by {
                assert(rest[i] == deliveries[i]);
            }
            assert(delivers(deliveries[deliveries.len() - 1], sent.last()));
            law_sent_notifications_are_begun(rest, sent.drop_last());
        } else {
            law_sent_notifications_are_begun(rest, sent);
        }
        assert(expects_all(listening, read));
        assert(listener_after(listening, read) == if n is Some {
            ListenerState::Beginning
        } else {
            listening
        });
        assert(begun(listening, read) == match n {
            Some(n) => begun(listening, before).push(n),
            None => begun(listening, before),
        });
    }
}

/// A server on the unspecified address of its family, all zeros, is reached on that family's
/// loopback address; a server on any other address is reached there.
pub proof fn law_unspecified_address_is_reached_on_loopback(v4: Seq<u8>, v6: Seq<u16>)
    requires
        v4.len() == 4,
        v6.len() == 8,
    ensures
        (forall|i: int| 0 <= i < 4 ==> #[trigger] v4[i] == 0) ==> reached_at(HostIpView::V4(v4))
            == HostIpView::V4(seq![127u8, 0, 0, 1]),
        (exists|i: int| 0 <= i < 4 && #[trigger] v4[i] != 0) ==> reached_at(HostIpView::V4(v4))
            == HostIpView::V4(v4),
        (forall|i: int| 0 <= i < 8 ==> #[trigger] v6[i] == 0) ==> reached_at(HostIpView::V6(v6))
            == HostIpView::V6(seq![0u16, 0, 0, 0, 0, 0, 0, 1]),
        (exists|i: int| 0 <= i < 8 && #[trigger] v6[i] != 0) ==> reached_at(HostIpView::V6(v6))
            == HostIpView::V6(v6),
{
    if forall|i: int| 0 <= i < 4 ==> #[trigger] v4[i] == 0 {
        assert(v4 =~= seq![0u8, 0, 0, 0]);
    }
    if forall|i: int| 0 <= i < 8 ==> #[trigger] v6[i] == 0 {
        assert(v6 =~= seq![0u16, 0, 0, 0, 0, 0, 0, 0]);
    }
}

/// The listener receives once it is connected, and after each trigger and each payload that
/// is none; it connects at once when the connection drops and after each pause, and it pauses
/// when it cannot connect.
pub proof fn law_listener_does_what_is_due(n: MonitorNotificationView)
    ensures
        listener_step(ListenerState::Connecting, ListenerEventView::Connected) == (
            ListenerState::Receiving,
            ListenerActionView::Receive,
        ),
        listener_step(ListenerState::Connecting, ListenerEventView::Unreachable) == (
            ListenerState::Pausing,
            ListenerActionView::Pause(1),
        ),
        listener_step(ListenerState::Pausing, ListenerEventView::Done) == (
            ListenerState::Connecting,
            ListenerActionView::Connect,
        ),
        listener_step(ListenerState::Receiving, ListenerEventView::Notified(Some(n))) == (
            ListenerState::Beginning,
            ListenerActionView::Begin(n),
        ),
        listener_step(ListenerState::Receiving, ListenerEventView::Notified(None)) == (
            ListenerState::Receiving,
            ListenerActionView::Receive,
        ),
        listener_step(ListenerState::Receiving, ListenerEventView::Dropped) == (
            ListenerState::Connecting,
            ListenerActionView::Connect,
        ),
        listener_step(ListenerState::Beginning, ListenerEventView::Done) == (
            ListenerState::Receiving,
            ListenerActionView::Receive,
        ),
        expects(ListenerState::Connecting, ListenerEventView::Connected),
        expects(ListenerState::Connecting, ListenerEventView::Unreachable),
        expects(ListenerState::Pausing, ListenerEventView::Done),
        expects(ListenerState::Receiving, ListenerEventView::Notified(Some(n))),
        expects(ListenerState::Receiving, ListenerEventView::Notified(None)),
        expects(ListenerState::Receiving, ListenerEventView::Dropped),
        expects(ListenerState::Beginning, ListenerEventView::Done),
{
}

/// A text and an `i64` make a notification of just these two, and no other members make one.
pub proof fn law_members_make_the_notification(
    aih: Option<request::JsonMemberView>,
    token_repeat: Option<request::JsonMemberView>,
)
    ensures
        match notification_of_members(aih, token_repeat) {
            Some(n) => {
                &&& aih == Some(request::JsonMemberView::Text(n.aih))
                &&& token_repeat matches Some(
                    request::JsonMemberView::Number { signed: Some(t), .. },
                ) && t == n.token_repeat
            },
            None => !(aih matches Some(request::JsonMemberView::Text(_))) || !(
            token_repeat matches Some(request::JsonMemberView::Number { signed: Some(_), .. })),
        },
{
}

/// A payload that was sent is taken for what it was sent for, whatever it is parsed as; any
/// other is taken for just what it is parsed as.
pub proof fn law_payload_is_taken_for_what_it_is(
    payload: Seq<char>,
    parsed: Option<MonitorNotificationView>,
)
    ensures
        sent_for(payload) matches Some(n) ==> taken_for(payload, parsed) == Some(n),
        sent_for(payload) is None ==> taken_for(payload, parsed) == parsed,
        sent_for(payload) matches Some(n) ==> payload == db::json_object_text(
            "aih"@,
            n.aih,
            "token_repeat"@,
            n.token_repeat,
        ),
{
}

/// What is said of an address, a notification, an event or an action is said of what it holds.
pub proof fn law_views_hold_the_contents(
    ip: HostIp,
    n: MonitorNotification,
    event: ListenerEvent,
    action: ListenerAction,
    member: JsonMember,
)
    ensures
        match ip {
            HostIp::V4(octets) => ip@ == HostIpView::V4(octets@),
            HostIp::V6(segments) => ip@ == HostIpView::V6(segments@),
        },
        n@.aih == n.aih@,
        n@.token_repeat == n.token_repeat,
        notification_option(Some(n)) == Some(n@),
        notification_option(None) is None,
        member_option(Some(member)) == Some(member@),
        member_option(None) is None,
        match event {
            ListenerEvent::Connected => event@ is Connected,
            ListenerEvent::Unreachable => event@ is Unreachable,
            ListenerEvent::Done => event@ is Done,
            ListenerEvent::Notified(None) => event@ == ListenerEventView::Notified(None),
            ListenerEvent::Notified(Some(x)) => event@ == ListenerEventView::Notified(Some(x@)),
            ListenerEvent::Dropped => event@ is Dropped,
        },
        match action {
            ListenerAction::Connect => action@ is Connect,
            ListenerAction::Pause(seconds) => action@ == ListenerActionView::Pause(seconds),
            ListenerAction::Receive => action@ is Receive,
            ListenerAction::Begin(x) => action@ == ListenerActionView::Begin(x@),
        },
{
}

}
