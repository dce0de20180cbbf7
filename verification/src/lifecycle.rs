//! The connection lifecycle adapter: from the remote client's connect,
//! disconnect and connect-error callbacks to three fixed event types.
//!
//! The three channels are opened with the adapter, before any connection
//! attempt begins, and are not filed in the registry: there is one of each,
//! known in advance.

use crate::channel::{
    disconnected, drained, fresh_channel, sent, ChannelState, EventChannel,
};
use vstd::prelude::*;

verus! {

/// Where a plugin's connection stands.
#[derive(Clone, Copy, Debug, PartialEq, Eq, Structural)]
pub enum ConnectionState {
    /// Nothing is known of the connection to make.
    Unconfigured,
    /// The connection is described and no attempt was made.
    Configured,
    /// The attempt has begun and has not completed.
    Connecting,
    /// The connection is established.
    Running,
    /// The connection has ended, or the attempt was closed before the
    /// connection was established.
    Disconnected,
    /// The attempt failed before the connection was established.
    FailedToConnect,
}

/// The kind of a signal of the remote client.
#[derive(Clone, Copy, Debug, PartialEq, Eq, Structural)]
pub enum SignalKind {
    Connected,
    Disconnected,
    ConnectError,
}

/// A signal of the remote client, with what it came with: `I` is the type of
/// an identity, `X` the type of an error.
#[derive(Clone, Debug, PartialEq, Eq)]
pub enum ConnectionSignal<I, X> {
    /// The connection is established for `identity`, with an access token.
    Connected { identity: I, token: String },
    /// The connection has ended, with the error that ended it if any.
    Disconnected { err: Option<X> },
    /// The attempt has failed.
    ConnectError { reason: X },
}

/// The connection is established.
#[derive(Clone, Debug, PartialEq, Eq)]
pub struct StdbConnectedEvent<I> {
    pub identity: I,
    pub access_token: String,
}

/// The connection has ended.
#[derive(Clone, Debug, PartialEq, Eq)]
pub struct StdbDisconnectedEvent<X> {
    pub err: Option<X>,
}

/// The connection attempt has failed.
#[derive(Clone, Debug, PartialEq, Eq)]
pub struct StdbConnectionErrorEvent<X> {
    pub err: X,
}

impl<I, X> ConnectionSignal<I, X> {
    /// The kind of the signal.
    pub open spec fn spec_kind(&self) -> SignalKind {
        match self {
            ConnectionSignal::Connected { .. } => SignalKind::Connected,
            ConnectionSignal::Disconnected { .. } => SignalKind::Disconnected,
            ConnectionSignal::ConnectError { .. } => SignalKind::ConnectError,
        }
    }

    /// The kind of the signal.
    pub fn kind(&self) -> (kind: SignalKind)
        ensures
            kind == self.spec_kind(),
    {
        match self {
            ConnectionSignal::Connected { .. } => SignalKind::Connected,
            ConnectionSignal::Disconnected { .. } => SignalKind::Disconnected,
            ConnectionSignal::ConnectError { .. } => SignalKind::ConnectError,
        }
    }
}

/// Whether a signal of kind `kind` is due in `state`: a pending attempt can
/// complete, fail or be closed, and an established connection can end. A
/// signal that is not due is ignored.
pub open spec fn is_due(state: ConnectionState, kind: SignalKind) -> bool {
    match (state, kind) {
        (ConnectionState::Connecting, _) => true,
        (ConnectionState::Running, SignalKind::Disconnected) => true,
        _ => false,
    }
}

/// The state after a signal of kind `kind` came in `state`.
pub open spec fn next_state(state: ConnectionState, kind: SignalKind) -> ConnectionState {
    match (state, kind) {
        (ConnectionState::Connecting, SignalKind::Connected) => ConnectionState::Running,
        (ConnectionState::Connecting, SignalKind::ConnectError) => ConnectionState::FailedToConnect,
        (ConnectionState::Connecting, SignalKind::Disconnected) => ConnectionState::Disconnected,
        (ConnectionState::Running, SignalKind::Disconnected) => ConnectionState::Disconnected,
        _ => state,
    }
}

/// The state after the signals `kinds` came in `state`, in their order.
pub open spec fn state_after(state: ConnectionState, kinds: Seq<SignalKind>) -> ConnectionState
    decreases kinds.len(),
{
    if kinds.len() == 0 {
        state
    } else {
        next_state(state_after(state, kinds.drop_last()), kinds.last())
    }
}

/// The kinds of the events that the signals `kinds` produce from `state`, in
/// the order in which they are produced.
pub open spec fn events_of(state: ConnectionState, kinds: Seq<SignalKind>) -> Seq<SignalKind>
    decreases kinds.len(),
{
    if kinds.len() == 0 {
        Seq::empty()
    } else if is_due(state_after(state, kinds.drop_last()), kinds.last()) {
        events_of(state, kinds.drop_last()).push(kinds.last())
    } else {
        events_of(state, kinds.drop_last())
    }
}

/// What a lifecycle adapter holds: the state of the connection and the three
/// channels.
pub struct LifecycleView<I, X> {
    pub state: ConnectionState,
    pub connected: ChannelState<StdbConnectedEvent<I>>,
    pub disconnected: ChannelState<StdbDisconnectedEvent<X>>,
    pub connect_error: ChannelState<StdbConnectionErrorEvent<X>>,
}

/// An adapter with its three channels open and nothing known of the
/// connection.
pub open spec fn fresh_lifecycle<I, X>() -> LifecycleView<I, X> {
    LifecycleView {
        state: ConnectionState::Unconfigured,
        connected: fresh_channel(),
        disconnected: fresh_channel(),
        connect_error: fresh_channel(),
    }
}

/// An adapter whose attempt has begun and to which no signal has come.
pub open spec fn connecting<I, X>() -> LifecycleView<I, X> {
    LifecycleView { state: ConnectionState::Connecting, ..fresh_lifecycle() }
}

/// The adapter after `signal` came: a signal that is due moves the state on
/// and sends its event on its own channel; any other signal changes nothing.
pub open spec fn signalled<I, X>(
    view: LifecycleView<I, X>,
    signal: ConnectionSignal<I, X>,
) -> LifecycleView<I, X> {
    if is_due(view.state, signal.spec_kind()) {
        let state = next_state(view.state, signal.spec_kind());
        match signal {
            ConnectionSignal::Connected { identity, token } => LifecycleView {
                state,
                connected: sent(
                    view.connected,
                    StdbConnectedEvent { identity, access_token: token },
                ),
                ..view
            },
            ConnectionSignal::Disconnected { err } => LifecycleView {
                state,
                disconnected: sent(view.disconnected, StdbDisconnectedEvent { err }),
                ..view
            },
            ConnectionSignal::ConnectError { reason } => LifecycleView {
                state,
                connect_error: sent(view.connect_error, StdbConnectionErrorEvent { err: reason }),
                ..view
            },
        }
    } else {
        view
    }
}

/// The adapter after the consumer has gone: the three receiving sides are
/// dropped and what was queued is lost with them. Where the connection
/// stands is not touched.
pub open spec fn torn_down<I, X>(view: LifecycleView<I, X>) -> LifecycleView<I, X> {
    LifecycleView {
        state: view.state,
        connected: disconnected(),
        disconnected: disconnected(),
        connect_error: disconnected(),
    }
}

/// The adapter after each of `signals` came, in their order.
pub open spec fn signalled_all<I, X>(
    view: LifecycleView<I, X>,
    signals: Seq<ConnectionSignal<I, X>>,
) -> LifecycleView<I, X>
    decreases signals.len(),
{
    if signals.len() == 0 {
        view
    } else {
        signalled(signalled_all(view, signals.drop_last()), signals.last())
    }
}

/// The lifecycle adapter of one plugin.
pub struct ConnectionLifecycle<I, X> {
    state: ConnectionState,
    connected: EventChannel<StdbConnectedEvent<I>>,
    disconnected: EventChannel<StdbDisconnectedEvent<X>>,
    connect_error: EventChannel<StdbConnectionErrorEvent<X>>,
}

impl<I, X> View for ConnectionLifecycle<I, X> {
    type V = LifecycleView<I, X>;

    closed spec fn view(&self) -> LifecycleView<I, X> {
        LifecycleView {
            state: self.state,
            connected: self.connected@,
            disconnected: self.disconnected@,
            connect_error: self.connect_error@,
        }
    }
}

impl<I, X> ConnectionLifecycle<I, X> {
    /// Opens the three channels. Nothing is known of the connection yet.
    pub fn new() -> (lifecycle: Self)
        ensures
            lifecycle@ == fresh_lifecycle::<I, X>(),
    {
        ConnectionLifecycle {
            state: ConnectionState::Unconfigured,
            connected: EventChannel::new(),
            disconnected: EventChannel::new(),
            connect_error: EventChannel::new(),
        }
    }

    /// Where the connection stands.
    pub fn state(&self) -> (state: ConnectionState)
        ensures
            state == self@.state,
    {
        self.state
    }

    /// Notes that the connection is described. Returns whether this was
    /// news: it is only when nothing was known before.
    pub fn configure(&mut self) -> (changed: bool)
        ensures
            changed == (old(self)@.state == ConnectionState::Unconfigured),
            final(self)@ == (LifecycleView {
                state: if changed {
                    ConnectionState::Configured
                } else {
                    old(self)@.state
                },
                ..old(self)@
            }),
    {
        if self.state == ConnectionState::Unconfigured {
            self.state = ConnectionState::Configured;
            true
        } else {
            false
        }
    }

    /// Begins the connection attempt. Returns whether it may begin: it may
    /// once, when the connection is described and no attempt was made.
    pub fn begin_connect(&mut self) -> (begun: bool)
        ensures
            begun == (old(self)@.state == ConnectionState::Configured),
            final(self)@ == (LifecycleView {
                state: if begun {
                    ConnectionState::Connecting
                } else {
                    old(self)@.state
                },
                ..old(self)@
            }),
    {
        if self.state == ConnectionState::Configured {
            self.state = ConnectionState::Connecting;
            true
        } else {
            false
        }
    }

    /// Handles a signal of the remote client. Returns whether the signal was
    /// due. The event of a signal that is due is sent on its channel and
    /// dropped there if the consumer has gone; the producer goes on either
    /// way.
    pub fn on_signal(&mut self, signal: ConnectionSignal<I, X>) -> (due: bool)
        ensures
            due == is_due(old(self)@.state, signal.spec_kind()),
            final(self)@ == signalled(old(self)@, signal),
    {
        match signal {
            ConnectionSignal::Connected { identity, token } => {
                if self.state == ConnectionState::Connecting {
                    self.state = ConnectionState::Running;
                    self.connected.send(StdbConnectedEvent { identity, access_token: token });
                    true
                } else {
                    false
                }
            },
            ConnectionSignal::Disconnected { err } => {
                if self.state == ConnectionState::Running || self.state
                    == ConnectionState::Connecting {
                    self.state = ConnectionState::Disconnected;
                    self.disconnected.send(StdbDisconnectedEvent { err });
                    true
                } else {
                    false
                }
            },
            ConnectionSignal::ConnectError { reason } => {
                if self.state == ConnectionState::Connecting {
                    self.state = ConnectionState::FailedToConnect;
                    self.connect_error.send(StdbConnectionErrorEvent { err: reason });
                    true
                } else {
                    false
                }
            },
        }
    }

    /// Drops the three receiving sides, and with them what was queued. From
    /// now on the event of every signal is dropped; signals still move the
    /// state on.
    pub fn disconnect(&mut self)
        ensures
            final(self)@ == torn_down(old(self)@),
    {
        self.connected.disconnect();
        self.disconnected.disconnect();
        self.connect_error.disconnect();
    }

    /// Takes the queued events that report an established connection.
    pub fn drain_connected(&mut self) -> (events: Vec<StdbConnectedEvent<I>>)
        ensures
            events@ == old(self)@.connected.pending,
            final(self)@ == (LifecycleView {
                connected: drained(old(self)@.connected),
                ..old(self)@
            }),
    {
        self.connected.drain()
    }

    /// Takes the queued events that report the end of a connection.
    pub fn drain_disconnected(&mut self) -> (events: Vec<StdbDisconnectedEvent<X>>)
        ensures
            events@ == old(self)@.disconnected.pending,
            final(self)@ == (LifecycleView {
                disconnected: drained(old(self)@.disconnected),
                ..old(self)@
            }),
    {
        self.disconnected.drain()
    }

    /// Takes the queued events that report a failed attempt.
    pub fn drain_connect_error(&mut self) -> (events: Vec<StdbConnectionErrorEvent<X>>)
        ensures
            events@ == old(self)@.connect_error.pending,
            final(self)@ == (LifecycleView {
                connect_error: drained(old(self)@.connect_error),
                ..old(self)@
            }),
    {
        self.connect_error.drain()
    }
}

/// One connection attempt produces one of five runs of events, whatever
/// signals come and however often: none while the attempt is pending; one
/// connection error and nothing else when it has failed; one connected event
/// while the connection is established; when it has ended, one connected
/// event followed by one disconnected event, or the disconnected event alone
/// if the attempt was closed before the connection was established.
pub proof fn lemma_events_of_one_attempt(kinds: Seq<SignalKind>)
    ensures
        match state_after(ConnectionState::Connecting, kinds) {
            ConnectionState::Connecting => events_of(ConnectionState::Connecting, kinds)
                == Seq::<SignalKind>::empty(),
            ConnectionState::FailedToConnect => events_of(ConnectionState::Connecting, kinds)
                == seq![SignalKind::ConnectError],
            ConnectionState::Running => events_of(ConnectionState::Connecting, kinds)
                == seq![SignalKind::Connected],
            ConnectionState::Disconnected => events_of(ConnectionState::Connecting, kinds)
                == seq![SignalKind::Connected, SignalKind::Disconnected] || events_of(
                ConnectionState::Connecting,
                kinds,
            ) == seq![SignalKind::Disconnected],
            _ => false,
        },
    decreases kinds.len(),
{
    if kinds.len() > 0 {
        lemma_events_of_one_attempt(kinds.drop_last());
        let before = events_of(ConnectionState::Connecting, kinds.drop_last());
        match state_after(ConnectionState::Connecting, kinds) {
            ConnectionState::FailedToConnect => {
                assert(events_of(ConnectionState::Connecting, kinds) =~= seq![
                    SignalKind::ConnectError,
                ]);
            },
            ConnectionState::Running => {
                assert(events_of(ConnectionState::Connecting, kinds) =~= seq![
                    SignalKind::Connected,
                ]);
            },
            ConnectionState::Disconnected => {
                assert(events_of(ConnectionState::Connecting, kinds) =~= seq![
                    SignalKind::Connected,
                    SignalKind::Disconnected,
                ] || events_of(ConnectionState::Connecting, kinds) =~= seq![
                    SignalKind::Disconnected,
                ]);
            },
            _ => {},
        }
    }
}

/// What one connection attempt leaves on the three channels until they are
/// drained, whatever signals come and however often. The three channels keep
/// their receiving sides. An attempt that has failed has left
/// exactly one connection error and no connected event; a connection that
/// is established has left exactly one connected event; one that has ended
/// has left exactly one disconnected event, and at most one connected event
/// before it. No channel ever holds a second event of one attempt.
pub proof fn lemma_channels_of_one_attempt<I, X>(signals: Seq<ConnectionSignal<I, X>>)
    ensures
        ({
            let after = signalled_all(connecting::<I, X>(), signals);
            let connected = after.connected.pending.len();
            let disconnected = after.disconnected.pending.len();
            let failed = after.connect_error.pending.len();
            &&& after.connected.connected
            &&& after.disconnected.connected
            &&& after.connect_error.connected
            &&& match after.state {
                ConnectionState::Connecting => connected == 0 && disconnected == 0 && failed == 0,
                ConnectionState::FailedToConnect => connected == 0 && disconnected == 0 && failed
                    == 1,
                ConnectionState::Running => connected == 1 && disconnected == 0 && failed == 0,
                ConnectionState::Disconnected => connected <= 1 && disconnected == 1 && failed
                    == 0,
                _ => false,
            }
        }),
    decreases signals.len(),
{
    if signals.len() > 0 {
        lemma_channels_of_one_attempt(signals.drop_last());
    }
}

/// A signal that comes after the consumer has gone queues nothing: the
/// three channels stay empty, and only the state moves on. The producer is
/// not stopped.
pub proof fn lemma_signal_after_teardown_is_dropped<I, X>(
    view: LifecycleView<I, X>,
    signal: ConnectionSignal<I, X>,
)
    ensures
        signalled(torn_down(view), signal) == torn_down(
            LifecycleView {
                state: if is_due(view.state, signal.spec_kind()) {
                    next_state(view.state, signal.spec_kind())
                } else {
                    view.state
                },
                ..view
            },
        ),
{
}

/// Once an attempt has failed or the connection has ended, no signal
/// produces another event.
pub proof fn lemma_terminal_states_are_silent(state: ConnectionState, kinds: Seq<SignalKind>)
    requires
        state == ConnectionState::FailedToConnect || state == ConnectionState::Disconnected,
    ensures
        state_after(state, kinds) == state,
        events_of(state, kinds) == Seq::<SignalKind>::empty(),
    decreases kinds.len(),
{
    if kinds.len() > 0 {
        lemma_terminal_states_are_silent(state, kinds.drop_last());
    }
}

} // verus!
