//! Event listener and reporter.
//!
//! The listener keeps a WebSocket subscription to the node open: connect,
//! subscribe, stream; on any transport error back off, reconnect and
//! re-issue **all** configured subscriptions. That control loop is a pure
//! state machine here — the embedding binary performs each returned action
//! (dial, subscribe, read, sleep) and feeds the outcome back in — so the
//! re-subscription discipline is provable: whenever the machine streams,
//! its subscription set is exactly the configured set, however many
//! reconnect cycles have passed.
//!
//! The reporter turns each batch of decoded IBC events into one envelope
//! per event for delivery to the collector; delivery is at-most-once, so a
//! failed send is logged and dropped, never retried.

use crate::events::IbcEvent;
use crate::message::{Envelope, EnvelopeView, Message, MessageView};
use crate::text::{spec_decimal, u64_to_string};
use vstd::prelude::*;

verus! {

/// The listener's backoff between reconnect attempts, in milliseconds.
pub const RECONNECT_BACKOFF_MS: u64 = 500;

/// Where the listener stands in its connect/subscribe/stream cycle.
#[derive(Copy, Clone, Debug, PartialEq, Eq, Structural)]
pub enum ListenerPhase {
    /// Dialing the node for the first time
    Connecting,

    /// Connected; subscriptions not yet established
    Subscribing,

    /// Subscribed; reading pushed events
    Streaming,

    /// Lost the transport; dialing again after a backoff
    Reconnecting,
}

/// What the embedding loop reports back to the state machine.
#[derive(Copy, Clone, Debug, PartialEq, Eq, Structural)]
pub enum ListenerEvent {
    /// The dial succeeded
    Connected,

    /// The dial failed
    ConnectFailed,

    /// All configured subscriptions were established
    Subscribed,

    /// Establishing the subscriptions failed
    SubscribeFailed,

    /// A batch of events was read and delivered
    BatchRead,

    /// The transport failed while streaming
    TransportError,
}

/// What the embedding loop must do next.
#[derive(Copy, Clone, Debug, PartialEq, Eq, Structural)]
pub enum ListenerAction {
    /// Dial the node
    Connect,

    /// Issue every configured subscription
    Subscribe,

    /// Read the next pushed event batch
    Read,

    /// Sleep the backoff, then dial the node
    SleepThenConnect,
}

/// View of the listener state machine.
pub struct EventMonitorView {
    /// Current phase
    pub phase: ListenerPhase,

    /// Configured subscription queries
    pub queries: Seq<Seq<char>>,

    /// Currently established subscriptions
    pub subscriptions: Seq<Seq<char>>,

    /// Address of the node's RPC endpoint
    pub node_addr: Seq<char>,
}

/// The listener state machine: connect, subscribe, stream, and on any
/// error reconnect and re-subscribe. It has no terminal state.
#[derive(Debug)]
pub struct EventMonitor {
    /// Current phase
    pub phase: ListenerPhase,

    /// Configured subscription queries
    pub queries: Vec<String>,

    /// Currently established subscriptions
    pub subscriptions: Vec<String>,

    /// Address of the node's RPC endpoint
    pub node_addr: String,
}

impl View for EventMonitor {
    type V = EventMonitorView;

    open spec fn view(&self) -> EventMonitorView {
        EventMonitorView {
            phase: self.phase,
            queries: self.queries.deep_view(),
            subscriptions: self.subscriptions.deep_view(),
            node_addr: self.node_addr@,
        }
    }
}

/// One transition of the listener state machine.
///
/// A connection, fresh or regained, starts with no subscriptions; only a
/// successful subscription round installs the configured set, whole;
/// losing the transport drops the set again.
pub open spec fn spec_listener_step(v: EventMonitorView, e: ListenerEvent) -> EventMonitorView {
    match (v.phase, e) {
        (ListenerPhase::Connecting, ListenerEvent::Connected) => EventMonitorView {
            phase: ListenerPhase::Subscribing,
            subscriptions: Seq::empty(),
            ..v
        },
        (ListenerPhase::Reconnecting, ListenerEvent::Connected) => EventMonitorView {
            phase: ListenerPhase::Subscribing,
            subscriptions: Seq::empty(),
            ..v
        },
        (ListenerPhase::Connecting, ListenerEvent::ConnectFailed) => v,
        (ListenerPhase::Reconnecting, ListenerEvent::ConnectFailed) => v,
        (ListenerPhase::Subscribing, ListenerEvent::Subscribed) => EventMonitorView {
            phase: ListenerPhase::Streaming,
            subscriptions: v.queries,
            ..v
        },
        (ListenerPhase::Subscribing, ListenerEvent::SubscribeFailed) => EventMonitorView {
            phase: ListenerPhase::Reconnecting,
            subscriptions: Seq::empty(),
            ..v
        },
        (ListenerPhase::Streaming, ListenerEvent::BatchRead) => v,
        (ListenerPhase::Streaming, ListenerEvent::TransportError) => EventMonitorView {
            phase: ListenerPhase::Reconnecting,
            subscriptions: Seq::empty(),
            ..v
        },
        _ => v,
    }
}

/// The action each state asks of the embedding loop.
pub open spec fn spec_listener_action(v: EventMonitorView) -> ListenerAction {
    match v.phase {
        ListenerPhase::Connecting => ListenerAction::Connect,
        ListenerPhase::Subscribing => ListenerAction::Subscribe,
        ListenerPhase::Streaming => ListenerAction::Read,
        ListenerPhase::Reconnecting => ListenerAction::SleepThenConnect,
    }
}

/// The machine after a whole sequence of reported events.
pub open spec fn spec_listener_run(
    v: EventMonitorView,
    events: Seq<ListenerEvent>,
) -> EventMonitorView
    decreases events.len(),
{
    if events.len() == 0 {
        v
    } else {
        spec_listener_run(spec_listener_step(v, events[0]), events.skip(1))
    }
}

/// Well-formedness: a streaming listener has exactly the configured
/// subscriptions, and never any foreign one otherwise.
pub open spec fn listener_wf(v: EventMonitorView) -> bool {
    (v.phase is Streaming ==> v.subscriptions == v.queries) && (!(v.phase is Streaming)
        ==> v.subscriptions.len() == 0)
}

impl EventMonitor {
    /// A fresh listener for the node at `node_addr`, about to dial, with
    /// the configured subscription queries.
    pub fn new(node_addr: String, queries: Vec<String>) -> (r: EventMonitor)
        ensures
            r@.phase == ListenerPhase::Connecting,
            r@.queries == queries.deep_view(),
            r@.subscriptions.len() == 0,
            r@.node_addr == node_addr@,
            listener_wf(r@),
    {
        EventMonitor { phase: ListenerPhase::Connecting, queries, subscriptions: Vec::new(), node_addr }
    }

    /// Feed one outcome in; the machine moves and says what to do next.
    pub fn step(&mut self, event: ListenerEvent) -> (r: ListenerAction)
        ensures
            final(self)@ == spec_listener_step(old(self)@, event),
            r == spec_listener_action(final(self)@),
            listener_wf(old(self)@) ==> listener_wf(final(self)@),
            final(self)@.queries == old(self)@.queries,
            final(self)@.node_addr == old(self)@.node_addr,
    {
        match (self.phase, event) {
            (ListenerPhase::Connecting, ListenerEvent::Connected)
            | (ListenerPhase::Reconnecting, ListenerEvent::Connected) => {
                self.phase = ListenerPhase::Subscribing;
                self.subscriptions = Vec::new();
            },
            (ListenerPhase::Subscribing, ListenerEvent::Subscribed) => {
                self.phase = ListenerPhase::Streaming;
                self.subscriptions = clone_strings(&self.queries);
            },
            (ListenerPhase::Subscribing, ListenerEvent::SubscribeFailed) => {
                self.phase = ListenerPhase::Reconnecting;
                self.subscriptions = Vec::new();
            },
            (ListenerPhase::Streaming, ListenerEvent::TransportError) => {
                self.phase = ListenerPhase::Reconnecting;
                self.subscriptions = Vec::new();
            },
            _ => {
            },
        }
        proof {
            let expected = spec_listener_step(old(self)@, event);
            assert(self@.subscriptions =~= expected.subscriptions);
            assert(self@ == expected);
        }
        let action = match self.phase {
            ListenerPhase::Connecting => ListenerAction::Connect,
            ListenerPhase::Subscribing => ListenerAction::Subscribe,
            ListenerPhase::Streaming => ListenerAction::Read,
            ListenerPhase::Reconnecting => ListenerAction::SleepThenConnect,
        };
        action
    }
}

/// Reconnect idempotence: from any well-formed state, whatever outcomes
/// the transport reports — any number of disconnect and reconnect cycles
/// included — the configured queries never change, and whenever the
/// machine streams again its subscription set is exactly the configured
/// set.
pub proof fn lemma_reconnect_idempotent(v: EventMonitorView, events: Seq<ListenerEvent>)
    requires
        listener_wf(v),
    ensures
        listener_wf(spec_listener_run(v, events)),
        spec_listener_run(v, events).queries == v.queries,
        spec_listener_run(v, events).phase is Streaming ==> spec_listener_run(
            v,
            events,
        ).subscriptions == v.queries,
    decreases events.len(),
{
    if events.len() > 0 {
        lemma_reconnect_idempotent(spec_listener_step(v, events[0]), events.skip(1));
    }
}

/// View of one transaction's decoded events.
pub struct TxEventsView {
    /// Height of the block the transaction was committed in
    pub height: u64,

    /// The transaction's decoded IBC events, in order
    pub events: Seq<crate::events::IbcEventView>,
}

/// One transaction's decoded events, as the transport parsed them.
#[derive(Debug)]
pub struct TxEvents {
    /// Height of the block the transaction was committed in
    pub height: u64,

    /// The transaction's decoded IBC events, in order
    pub events: Vec<IbcEvent>,
}

impl View for TxEvents {
    type V = TxEventsView;

    open spec fn view(&self) -> TxEventsView {
        TxEventsView { height: self.height, events: self.events.deep_view() }
    }
}

impl DeepView for TxEvents {
    type V = TxEventsView;

    open spec fn deep_view(&self) -> TxEventsView {
        self.view()
    }
}

/// The delivery cursor after one poll: the highest height seen so far.
pub open spec fn spec_cursor_after(last: u64, txs: Seq<TxEventsView>) -> u64
    decreases txs.len(),
{
    if txs.len() == 0 {
        last
    } else {
        spec_cursor_after(
            if txs[0].height > last {
                txs[0].height
            } else {
                last
            },
            txs.skip(1),
        )
    }
}

/// The events one poll delivers: exactly those of transactions above the
/// cursor, in order. Anything at or below the cursor was delivered by an
/// earlier poll, or predates the subscription, and stays out.
pub open spec fn spec_new_events(last: u64, txs: Seq<TxEventsView>) -> Seq<
    crate::events::IbcEventView,
>
    decreases txs.len(),
{
    if txs.len() == 0 {
        Seq::empty()
    } else {
        (if txs[0].height > last {
            txs[0].events
        } else {
            Seq::empty()
        }) + spec_new_events(last, txs.skip(1))
    }
}

/// The cursor never decreases.
pub proof fn lemma_cursor_monotone(last: u64, txs: Seq<TxEventsView>)
    ensures
        spec_cursor_after(last, txs) >= last,
    decreases txs.len(),
{
    if txs.len() > 0 {
        lemma_cursor_monotone(
            if txs[0].height > last {
                txs[0].height
            } else {
                last
            },
            txs.skip(1),
        );
    }
}

/// Advance the at-most-once delivery cursor over one batch of parsed
/// transactions: deliver exactly the events of transactions above the old
/// cursor, and move the cursor to the highest height seen. The cursor
/// never decreases, so events a previous poll delivered are never
/// delivered again.
pub fn advance_cursor(last_height: u64, txs: Vec<TxEvents>) -> (r: (u64, Vec<IbcEvent>))
    ensures
        r.0 == spec_cursor_after(last_height, txs.deep_view()),
        r.0 >= last_height,
        r.1.deep_view() == spec_new_events(last_height, txs.deep_view()),
{
    let ghost gtxs = txs.deep_view();
    let mut cursor: u64 = last_height;
    let mut delivered: Vec<IbcEvent> = Vec::new();
    let n = txs.len();
    let mut remaining = txs;
    let mut k: usize = 0;
    proof {
        assert(gtxs.skip(0) =~= gtxs);
    }
    while k < n
        invariant
            k <= n,
            remaining@.len() == n - k,
            gtxs.len() == n,
            forall|j: int|
                0 <= j < n - k ==> (#[trigger] remaining@[j]).deep_view() == gtxs[j + k],
            cursor >= last_height,
            spec_cursor_after(last_height, gtxs) == spec_cursor_after(
                cursor,
                gtxs.skip(k as int),
            ),
            delivered.deep_view() + spec_new_events(last_height, gtxs.skip(k as int))
                =~= spec_new_events(last_height, gtxs),
        decreases n - k,
    {
        proof {
            assert(gtxs.skip(k as int)[0] == gtxs[k as int]);
            assert(gtxs.skip(k as int).skip(1) =~= gtxs.skip(k as int + 1));
        }
        let tx = remaining.remove(0);
        let ghost before = delivered.deep_view();
        let mut events = tx.events;
        if tx.height > cursor {
            cursor = tx.height;
        }
        proof {
            assert(cursor >= last_height);
        }
        if tx.height > last_height {
            let ghost gevents = events.deep_view();
            delivered.append(&mut events);
            proof {
                assert(delivered.deep_view() =~= before + gevents);
                assert(gevents =~= gtxs[k as int].events);
            }
        }
        k = k + 1;
    }
    proof {
        assert(gtxs.skip(n as int) =~= Seq::<TxEventsView>::empty());
        assert(delivered.deep_view() =~= spec_new_events(last_height, gtxs));
    }
    (cursor, delivered)
}

/// Clone a list of strings element by element.
fn clone_strings(v: &Vec<String>) -> (r: Vec<String>)
    ensures
        r.deep_view() == v.deep_view(),
{
    let mut out: Vec<String> = Vec::new();
    let n = v.len();
    let mut i: usize = 0;
    while i < n
        invariant
            i <= n,
            n == v@.len(),
            out@.len() == i,
            forall|j: int| 0 <= j < i ==> (#[trigger] out@[j])@ == v@[j]@,
        decreases n - i,
    {
        out.push(v[i].clone());
        i = i + 1;
    }
    proof {
        assert forall|j: int| 0 <= j < n implies out.deep_view()[j] == v.deep_view()[j] by {
            assert(out@[j]@ == v@[j]@);
        }
        assert(out.deep_view() =~= v.deep_view());
    }
    out
}

/// The envelopes one batch of decoded events yields: one envelope per
/// event, each carrying that event alone with the agent's chain and node
/// IDs and the caller's clock text.
pub open spec fn spec_batch_envelopes(
    events: Seq<crate::events::IbcEventView>,
    chain: Seq<char>,
    node: Seq<char>,
    ts: Seq<char>,
) -> Seq<EnvelopeView> {
    Seq::new(
        events.len(),
        |i: int|
            EnvelopeView {
                network: chain,
                node: node,
                ts: ts,
                msg: seq![MessageView::EventIBC(events[i])],
            },
    )
}

/// The event reporter: drains batches the listener queued and builds the
/// envelopes to post to the collector.
#[derive(Debug)]
pub struct EventReporter {
    /// ID of the chain reported on
    pub chain: String,

    /// ID of the reporting node
    pub node: String,

    /// Address of the collector
    pub collector_addr: crate::config::agent::CollectorAddr,
}

impl EventReporter {
    /// Create a reporter for the agent's chain and node.
    pub fn new(
        chain: String,
        node: String,
        collector_addr: crate::config::agent::CollectorAddr,
    ) -> (r: EventReporter)
        ensures
            r.chain@ == chain@,
            r.node@ == node@,
            r.collector_addr@ == collector_addr@,
    {
        EventReporter { chain, node, collector_addr }
    }

    /// Build one envelope per event of a batch. An empty batch yields no
    /// envelopes.
    pub fn batch_envelopes(&self, events: Vec<IbcEvent>, ts: &str) -> (r: Vec<Envelope>)
        ensures
            r.deep_view() == spec_batch_envelopes(events.deep_view(), self.chain@, self.node@, ts@),
    {
        let mut out: Vec<Envelope> = Vec::new();
        let n = events.len();
        let ghost gevents = events.deep_view();
        let mut remaining = events;
        proof {
            assert(gevents.len() == n);
        }
        let mut k: usize = 0;
        while k < n
            invariant
                k <= n,
                remaining@.len() == n - k,
                gevents.len() == n,
                forall|j: int|
                    0 <= j < n - k ==> (#[trigger] remaining@[j]).deep_view() == gevents[j + k],
                out@.len() == k,
                forall|j: int|
                    0 <= j < k ==> (#[trigger] out@[j]).deep_view() == (EnvelopeView {
                        network: self.chain@,
                        node: self.node@,
                        ts: ts@,
                        msg: seq![MessageView::EventIBC(gevents[j])],
                    }),
            decreases n - k,
        {
            let event = remaining.remove(0);
            let mut msg: Vec<Message> = Vec::new();
            msg.push(Message::EventIBC(event));
            let env = Envelope {
                network: self.chain.clone(),
                node: self.node.clone(),
                ts: ts.to_owned(),
                msg,
            };
            proof {
                assert(env.deep_view().msg =~= seq![
                    MessageView::EventIBC(gevents[k as int]),
                ]);
            }
            out.push(env);
            k = k + 1;
        }
        proof {
            assert forall|j: int|
                0 <= j < n implies out.deep_view()[j] == spec_batch_envelopes(
                gevents,
                self.chain@,
                self.node@,
                ts@,
            )[j] by {
                assert(out@[j].deep_view() == out@[j].deep_view());
            }
            assert(out.deep_view() =~= spec_batch_envelopes(
                gevents,
                self.chain@,
                self.node@,
                ts@,
            ));
        }
        out
    }

    /// The URL envelopes are posted to: `http://{host}:{port}/collector`.
    pub fn report_url(host: &str, port: u16) -> (r: String)
        ensures
            r@ == "http://"@ + host@ + ":"@ + spec_decimal(port as int) + "/collector"@,
    {
        "http://".to_owned().concat(host).concat(":").concat(
            u64_to_string(port as u64).as_str(),
        ).concat("/collector")
    }
}

} // verus!
