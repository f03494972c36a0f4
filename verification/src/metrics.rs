//! Translation of typed IBC events into StatsD metric records.
//!
//! Each event kind becomes one counter record: a metric name
//! `{prefix}.{event_kind}` plus a fixed set of tags. Tag values are pulled
//! from the event's attribute bag with total lookups that fall back to
//! literal sentinels, and channel/address/client values pass through
//! optional team-substitution tables so that the set of tag values stays
//! bounded by configuration. Sending the records over UDP is the caller's
//! business; everything here is pure.

use crate::events::{bag_lookup, Attributes, IbcEvent, IbcEventKind, IbcEventView};
use vstd::prelude::*;

verus! {

/// First team bound to `k` in a substitution table.
pub open spec fn table_lookup(t: Seq<(Seq<char>, Seq<char>)>, k: Seq<char>) -> Option<Seq<char>>
    decreases t.len(),
{
    if t.len() == 0 {
        None
    } else if t[0].0 == k {
        Some(t[0].1)
    } else {
        table_lookup(t.skip(1), k)
    }
}

/// Substitute `v` by its team name when the optional table has one.
pub open spec fn spec_subst(t: Option<Seq<(Seq<char>, Seq<char>)>>, v: Seq<char>) -> Seq<char> {
    match t {
        Some(tt) => match table_lookup(tt, v) {
            Some(team) => team,
            None => v,
        },
        None => v,
    }
}

/// First value bound to `key` in the bag, or `sentinel` when the key is
/// absent or its value list is empty.
pub open spec fn spec_first_attr(
    bag: Seq<(Seq<char>, Seq<Seq<char>>)>,
    key: Seq<char>,
    sentinel: Seq<char>,
) -> Seq<char> {
    match bag_lookup(bag, key) {
        Some(vs) => if vs.len() > 0 {
            vs[0]
        } else {
            sentinel
        },
        None => sentinel,
    }
}

/// First value in `vs` that the table maps, with the team it maps to.
pub open spec fn spec_first_hit(t: Seq<(Seq<char>, Seq<char>)>, vs: Seq<Seq<char>>) -> Option<
    Seq<char>,
>
    decreases vs.len(),
{
    if vs.len() == 0 {
        None
    } else {
        match table_lookup(t, vs[0]) {
            Some(team) => Some(team),
            None => spec_first_hit(t, vs.skip(1)),
        }
    }
}

/// The sender tag: the first `message.sender` value that hits the address
/// table (substituted), else the first value, else the sentinel.
pub open spec fn spec_sender(
    bag: Seq<(Seq<char>, Seq<Seq<char>>)>,
    addr: Option<Seq<(Seq<char>, Seq<char>)>>,
) -> Seq<char> {
    match bag_lookup(bag, "message.sender"@) {
        Some(vs) => {
            let hit = match addr {
                Some(t) => spec_first_hit(t, vs),
                None => None,
            };
            match hit {
                Some(team) => team,
                None => if vs.len() > 0 {
                    vs[0]
                } else {
                    "sender_missing"@
                },
            }
        },
        None => "sender_missing"@,
    }
}

/// A substitution table from channel IDs, addresses or client IDs to team
/// names. Lookup returns the first entry with the key.
#[derive(Clone, Debug)]
pub struct TeamTable {
    /// Key-to-team entries
    pub entries: Vec<(String, String)>,
}

impl View for TeamTable {
    type V = Seq<(Seq<char>, Seq<char>)>;

    open spec fn view(&self) -> Seq<(Seq<char>, Seq<char>)> {
        Seq::new(self.entries@.len(), |i: int| (self.entries@[i].0@, self.entries@[i].1@))
    }
}

impl TeamTable {
    /// Clone this table; the clone means the same substitutions.
    pub fn clone_table(&self) -> (r: TeamTable)
        ensures
            r@ == self@,
    {
        let mut entries: Vec<(String, String)> = Vec::new();
        let n = self.entries.len();
        let mut i: usize = 0;
        while i < n
            invariant
                i <= n,
                n == self.entries@.len(),
                entries@.len() == i,
                forall|j: int|
                    0 <= j < i ==> (#[trigger] entries@[j]).0@ == self.entries@[j].0@
                        && entries@[j].1@ == self.entries@[j].1@,
            decreases n - i,
        {
            entries.push((self.entries[i].0.clone(), self.entries[i].1.clone()));
            i = i + 1;
        }
        let r = TeamTable { entries };
        proof {
            assert(r@ =~= self@);
        }
        r
    }

    /// An empty table.
    pub fn new() -> (r: TeamTable)
        ensures
            r@ =~= Seq::<(Seq<char>, Seq<char>)>::empty(),
    {
        TeamTable { entries: Vec::new() }
    }

    /// Append one key-to-team entry.
    pub fn push(&mut self, key: String, team: String)
        ensures
            final(self)@ =~= old(self)@.push((key@, team@)),
    {
        self.entries.push((key, team));
    }

    /// The team bound to `k`, if any.
    pub fn get(&self, k: &str) -> (r: Option<&String>)
        ensures
            match r {
                Some(team) => table_lookup(self@, k@) == Some(team@),
                None => table_lookup(self@, k@) is None,
            },
    {
        let n = self.entries.len();
        let mut i: usize = 0;
        proof {
            assert(self@.skip(0) =~= self@);
        }
        while i < n
            invariant
                i <= n,
                n == self.entries@.len(),
                table_lookup(self@, k@) == table_lookup(self@.skip(i as int), k@),
            decreases n - i,
        {
            proof {
                assert(self@.skip(i as int)[0] == self@[i as int]);
                assert(self@.skip(i as int).skip(1) =~= self@.skip(i as int + 1));
            }
            if crate::text::str_eq(self.entries[i].0.as_str(), k) {
                return Some(&self.entries[i].1);
            }
            i = i + 1;
        }
        proof {
            assert(self@.skip(n as int) =~= Seq::<(Seq<char>, Seq<char>)>::empty());
        }
        None
    }
}

/// View of one StatsD counter record.
pub struct MetricRecordView {
    /// Metric name
    pub name: Seq<char>,

    /// Tag names and values, in order
    pub tags: Seq<(Seq<char>, Seq<char>)>,
}

/// One StatsD counter record: a metric name and its tags, ready to send.
#[derive(Clone, Debug)]
pub struct MetricRecord {
    /// Metric name
    pub name: String,

    /// Tag names and values, in order
    pub tags: Vec<(String, String)>,
}

impl View for MetricRecord {
    type V = MetricRecordView;

    open spec fn view(&self) -> MetricRecordView {
        MetricRecordView {
            name: self.name@,
            tags: Seq::new(self.tags@.len(), |i: int| (self.tags@[i].0@, self.tags@[i].1@)),
        }
    }
}

impl DeepView for MetricRecord {
    type V = MetricRecordView;

    open spec fn deep_view(&self) -> MetricRecordView {
        self.view()
    }
}

/// View of the metrics translator's configuration.
pub struct MetricsView {
    /// Metric name prefix
    pub prefix: Seq<char>,

    /// Channel-ID-to-team substitutions
    pub channels: Option<Seq<(Seq<char>, Seq<char>)>>,

    /// Address-to-team substitutions
    pub addresses: Option<Seq<(Seq<char>, Seq<char>)>>,

    /// Client-ID-to-team substitutions
    pub clients: Option<Seq<(Seq<char>, Seq<char>)>>,
}

/// Translates typed IBC events into tagged StatsD counter records.
#[derive(Clone, Debug)]
pub struct Metrics {
    /// Metric name prefix
    pub prefix: String,

    /// Map from channel ID to team
    pub channels_to_team: Option<TeamTable>,

    /// Map from address to team
    pub address_to_team: Option<TeamTable>,

    /// Map from client ID to team
    pub clients_to_team: Option<TeamTable>,
}

impl View for Metrics {
    type V = MetricsView;

    open spec fn view(&self) -> MetricsView {
        MetricsView {
            prefix: self.prefix@,
            channels: match self.channels_to_team {
                Some(t) => Some(t@),
                None => None,
            },
            addresses: match self.address_to_team {
                Some(t) => Some(t@),
                None => None,
            },
            clients: match self.clients_to_team {
                Some(t) => Some(t@),
                None => None,
            },
        }
    }
}

/// The packet-event record: `{prefix}.{metric}` with chain, sender,
/// channel and port tags; channels pass through the channel table.
pub open spec fn spec_packet_record(
    m: MetricsView,
    metric: Seq<char>,
    chain: Seq<char>,
    bag: Seq<(Seq<char>, Seq<Seq<char>>)>,
    k_src_channel: Seq<char>,
    k_src_port: Seq<char>,
    k_dst_channel: Seq<char>,
    k_dst_port: Seq<char>,
) -> MetricRecordView {
    MetricRecordView {
        name: m.prefix + "."@ + metric,
        tags: seq![
            ("chain"@, chain),
            ("sender"@, spec_sender(bag, m.addresses)),
            (
                "src_channel"@,
                spec_subst(
                    m.channels,
                    spec_first_attr(bag, k_src_channel, "packet_src_channel_missing"@),
                ),
            ),
            ("src_port"@, spec_first_attr(bag, k_src_port, "packet_src_port_missing"@)),
            (
                "dst_channel"@,
                spec_subst(
                    m.channels,
                    spec_first_attr(bag, k_dst_channel, "packet_dst_channel_missing"@),
                ),
            ),
            ("dst_port"@, spec_first_attr(bag, k_dst_port, "packet_dst_port_missing"@)),
        ],
    }
}

/// The client/connection-event record: `{prefix}.{metric}` with chain and
/// sender tags only.
pub open spec fn spec_client_record(
    m: MetricsView,
    metric: Seq<char>,
    chain: Seq<char>,
    bag: Seq<(Seq<char>, Seq<Seq<char>>)>,
) -> MetricRecordView {
    MetricRecordView {
        name: m.prefix + "."@ + metric,
        tags: seq![("chain"@, chain), ("sender"@, spec_sender(bag, m.addresses))],
    }
}

/// The client-update record additionally carries the client ID, passed
/// through the client table.
pub open spec fn spec_update_client_record(
    m: MetricsView,
    chain: Seq<char>,
    bag: Seq<(Seq<char>, Seq<Seq<char>>)>,
) -> MetricRecordView {
    MetricRecordView {
        name: m.prefix + "."@ + "client_update"@,
        tags: seq![
            ("chain"@, chain),
            ("sender"@, spec_sender(bag, m.addresses)),
            (
                "client_id"@,
                spec_subst(m.clients, spec_first_attr(bag, "client_id"@, "client_id_missing"@)),
            ),
        ],
    }
}

/// The record an event of each kind translates to.
pub open spec fn spec_event_record(
    m: MetricsView,
    chain: Seq<char>,
    ev: IbcEventView,
) -> MetricRecordView {
    let bag = ev.attributes;
    match ev.kind {
        IbcEventKind::SendPacketChannel => spec_packet_record(
            m,
            "packet_send"@,
            chain,
            bag,
            "send_packet.packet_src_channel"@,
            "send_packet.packet_src_port"@,
            "send_packet.packet_dst_channel"@,
            "send_packet.packet_dst_port"@,
        ),
        IbcEventKind::RecievePacketChannel => spec_packet_record(
            m,
            "packet_recieve"@,
            chain,
            bag,
            "recv_packet.packet_src_channel"@,
            "recv_packet.packet_src_port"@,
            "recv_packet.packet_dst_channel"@,
            "recv_packet.packet_dst_port"@,
        ),
        IbcEventKind::OpaquePacket => spec_packet_record(
            m,
            "packet_recv_opaque"@,
            chain,
            bag,
            "recv_packet.packet_src_channel"@,
            "recv_packet.packet_src_port"@,
            "recv_packet.packet_dst_channel"@,
            "recv_packet.packet_dst_port"@,
        ),
        IbcEventKind::PacketTransfer => spec_packet_record(
            m,
            "ics20_transfer"@,
            chain,
            bag,
            "send_packet.packet_src_channel"@,
            "send_packet.packet_src_port"@,
            "send_packet.packet_dst_channel"@,
            "send_packet.packet_dst_port"@,
        ),
        IbcEventKind::CreateClient => spec_client_record(m, "create_client"@, chain, bag),
        IbcEventKind::UpdateClient => spec_update_client_record(m, chain, bag),
        IbcEventKind::ClientMisbehavior => spec_client_record(m, "client_misbehaviour"@, chain, bag),
        IbcEventKind::OpenInitConnection => spec_client_record(m, "openinit"@, chain, bag),
        IbcEventKind::OpenTryConnection => spec_client_record(m, "opentry"@, chain, bag),
        IbcEventKind::OpenAckConnection => spec_client_record(m, "openack_event"@, chain, bag),
        IbcEventKind::OpenConfirmConnection => spec_client_record(m, "openconfirm"@, chain, bag),
    }
}

impl Metrics {
    /// Clone this translator; the clone means the same configuration.
    pub fn clone_metrics(&self) -> (r: Metrics)
        ensures
            r@ == self@,
    {
        Metrics {
            prefix: self.prefix.clone(),
            channels_to_team: match &self.channels_to_team {
                Some(t) => Some(t.clone_table()),
                None => None,
            },
            address_to_team: match &self.address_to_team {
                Some(t) => Some(t.clone_table()),
                None => None,
            },
            clients_to_team: match &self.clients_to_team {
                Some(t) => Some(t.clone_table()),
                None => None,
            },
        }
    }

    /// Create a new metrics translator.
    pub fn new(
        prefix: String,
        channels_to_team: Option<TeamTable>,
        address_to_team: Option<TeamTable>,
        clients_to_team: Option<TeamTable>,
    ) -> (r: Metrics)
        ensures
            r.prefix@ == prefix@,
            r.channels_to_team == channels_to_team,
            r.address_to_team == address_to_team,
            r.clients_to_team == clients_to_team,
    {
        Metrics { prefix, channels_to_team, address_to_team, clients_to_team }
    }

    /// Name of the start-up gauge, `{prefix}.collector.start`.
    pub fn start_metric_name(&self) -> (r: String)
        ensures
            r@ == self@.prefix + ".collector.start"@,
    {
        self.prefix.clone().concat(".collector.start")
    }

    /// Name of the heartbeat counter, `{prefix}.heartbeat`.
    pub fn heartbeat_metric_name(&self) -> (r: String)
        ensures
            r@ == self@.prefix + ".heartbeat"@,
    {
        self.prefix.clone().concat(".heartbeat")
    }

    /// The heartbeat record sent after every envelope: no tags.
    pub fn heartbeat(&self) -> (r: MetricRecord)
        ensures
            r@.name == self@.prefix + ".heartbeat"@,
            r@.tags =~= Seq::<(Seq<char>, Seq<char>)>::empty(),
    {
        MetricRecord { name: self.heartbeat_metric_name(), tags: Vec::new() }
    }

    /// Substitute a value through an optional table, cloning the result.
    fn subst(t: &Option<TeamTable>, v: String) -> (r: String)
        ensures
            r@ == spec_subst(
                match t {
                    Some(tt) => Some(tt@),
                    None => None,
                },
                v@,
            ),
    {
        match t {
            Some(tt) => match tt.get(v.as_str()) {
                Some(team) => team.clone(),
                None => v,
            },
            None => v,
        }
    }

    /// First value for `key`, or the sentinel.
    fn first_attr(bag: &Attributes, key: &str, sentinel: &str) -> (r: String)
        ensures
            r@ == spec_first_attr(bag@, key@, sentinel@),
    {
        match bag.get(key) {
            Some(vs) => {
                if vs.len() > 0 {
                    vs[0].clone()
                } else {
                    sentinel.to_owned()
                }
            },
            None => sentinel.to_owned(),
        }
    }

    /// The sender tag for the bag, through the address table.
    fn sender_tag(&self, bag: &Attributes) -> (r: String)
        ensures
            r@ == spec_sender(bag@, self@.addresses),
    {
        let vs = match bag.get("message.sender") {
            Some(vs) => vs,
            None => {
                return "sender_missing".to_owned();
            },
        };
        let ghost gvs = bag_lookup(bag@, "message.sender"@)->Some_0;
        if let Some(t) = &self.address_to_team {
            let n = vs.len();
            let mut i: usize = 0;
            proof {
                assert(gvs.skip(0) =~= gvs);
            }
            while i < n
                invariant
                    i <= n,
                    n == vs@.len(),
                    n == gvs.len(),
                    bag_lookup(bag@, "message.sender"@) == Some(gvs),
                    forall|j: int| 0 <= j < n ==> gvs[j] == #[trigger] vs@[j]@,
                    self.address_to_team == Some(*t),
                    spec_first_hit(t@, gvs) == spec_first_hit(t@, gvs.skip(i as int)),
                decreases n - i,
            {
                proof {
                    assert(gvs.skip(i as int)[0] == gvs[i as int]);
                    assert(gvs.skip(i as int).skip(1) =~= gvs.skip(i as int + 1));
                }
                if let Some(team) = t.get(vs[i].as_str()) {
                    proof {
                        assert(gvs.skip(i as int).len() > 0);
                        assert(table_lookup(t@, gvs.skip(i as int)[0]) == Some(team@));
                        assert(spec_first_hit(t@, gvs.skip(i as int)) == Some(team@));
                        assert(self@.addresses == Some(t@));
                    }
                    return team.clone();
                }
                i = i + 1;
            }
            proof {
                assert(gvs.skip(n as int) =~= Seq::<Seq<char>>::empty());
            }
        }
        if vs.len() > 0 {
            vs[0].clone()
        } else {
            "sender_missing".to_owned()
        }
    }

    /// Build a packet record with the six packet tags.
    fn packet_record(
        &self,
        metric: &str,
        chain: &str,
        bag: &Attributes,
        k_src_channel: &str,
        k_src_port: &str,
        k_dst_channel: &str,
        k_dst_port: &str,
    ) -> (r: MetricRecord)
        ensures
            r@ == spec_packet_record(
                self@,
                metric@,
                chain@,
                bag@,
                k_src_channel@,
                k_src_port@,
                k_dst_channel@,
                k_dst_port@,
            ),
    {
        let name = self.prefix.clone().concat(".").concat(metric);
        let mut tags: Vec<(String, String)> = Vec::new();
        tags.push(("chain".to_owned(), chain.to_owned()));
        tags.push(("sender".to_owned(), self.sender_tag(bag)));
        tags.push(
            (
                "src_channel".to_owned(),
                Self::subst(
                    &self.channels_to_team,
                    Self::first_attr(bag, k_src_channel, "packet_src_channel_missing"),
                ),
            ),
        );
        tags.push(
            ("src_port".to_owned(), Self::first_attr(bag, k_src_port, "packet_src_port_missing")),
        );
        tags.push(
            (
                "dst_channel".to_owned(),
                Self::subst(
                    &self.channels_to_team,
                    Self::first_attr(bag, k_dst_channel, "packet_dst_channel_missing"),
                ),
            ),
        );
        tags.push(
            ("dst_port".to_owned(), Self::first_attr(bag, k_dst_port, "packet_dst_port_missing")),
        );
        let r = MetricRecord { name, tags };
        proof {
            assert(r@.tags =~= spec_packet_record(
                self@,
                metric@,
                chain@,
                bag@,
                k_src_channel@,
                k_src_port@,
                k_dst_channel@,
                k_dst_port@,
            ).tags);
        }
        r
    }

    /// Build a chain/sender record.
    fn client_record(&self, metric: &str, chain: &str, bag: &Attributes) -> (r: MetricRecord)
        ensures
            r@ == spec_client_record(self@, metric@, chain@, bag@),
    {
        let name = self.prefix.clone().concat(".").concat(metric);
        let mut tags: Vec<(String, String)> = Vec::new();
        tags.push(("chain".to_owned(), chain.to_owned()));
        tags.push(("sender".to_owned(), self.sender_tag(bag)));
        let r = MetricRecord { name, tags };
        proof {
            assert(r@.tags =~= spec_client_record(self@, metric@, chain@, bag@).tags);
        }
        r
    }

    /// Record for a packet send event.
    pub fn packet_send_event(&self, chain: &str, event: &IbcEvent) -> (r: MetricRecord)
        requires
            event@.kind == IbcEventKind::SendPacketChannel,
        ensures
            r@ == spec_event_record(self@, chain@, event@),
    {
        self.packet_record(
            "packet_send",
            chain,
            &event.attributes,
            "send_packet.packet_src_channel",
            "send_packet.packet_src_port",
            "send_packet.packet_dst_channel",
            "send_packet.packet_dst_port",
        )
    }

    /// Record for a packet recieve event.
    pub fn packet_recieve_event(&self, chain: &str, event: &IbcEvent) -> (r: MetricRecord)
        requires
            event@.kind == IbcEventKind::RecievePacketChannel,
        ensures
            r@ == spec_event_record(self@, chain@, event@),
    {
        self.packet_record(
            "packet_recieve",
            chain,
            &event.attributes,
            "recv_packet.packet_src_channel",
            "recv_packet.packet_src_port",
            "recv_packet.packet_dst_channel",
            "recv_packet.packet_dst_port",
        )
    }

    /// Record for an opaque packet event.
    pub fn opaque_packet(&self, chain: &str, event: &IbcEvent) -> (r: MetricRecord)
        requires
            event@.kind == IbcEventKind::OpaquePacket,
        ensures
            r@ == spec_event_record(self@, chain@, event@),
    {
        self.packet_record(
            "packet_recv_opaque",
            chain,
            &event.attributes,
            "recv_packet.packet_src_channel",
            "recv_packet.packet_src_port",
            "recv_packet.packet_dst_channel",
            "recv_packet.packet_dst_port",
        )
    }

    /// Record for an ICS-20 transfer event.
    pub fn transfer_event(&self, chain: &str, event: &IbcEvent) -> (r: MetricRecord)
        requires
            event@.kind == IbcEventKind::PacketTransfer,
        ensures
            r@ == spec_event_record(self@, chain@, event@),
    {
        self.packet_record(
            "ics20_transfer",
            chain,
            &event.attributes,
            "send_packet.packet_src_channel",
            "send_packet.packet_src_port",
            "send_packet.packet_dst_channel",
            "send_packet.packet_dst_port",
        )
    }

    /// Record for a create client event.
    pub fn create_client_event(&self, chain: &str, event: &IbcEvent) -> (r: MetricRecord)
        requires
            event@.kind == IbcEventKind::CreateClient,
        ensures
            r@ == spec_event_record(self@, chain@, event@),
    {
        self.client_record("create_client", chain, &event.attributes)
    }

    /// Record for an update client event; also tags the client ID, passed
    /// through the client table.
    pub fn update_client_event(&self, chain: &str, event: &IbcEvent) -> (r: MetricRecord)
        requires
            event@.kind == IbcEventKind::UpdateClient,
        ensures
            r@ == spec_event_record(self@, chain@, event@),
    {
        let bag = &event.attributes;
        let name = self.prefix.clone().concat(".").concat("client_update");
        let mut tags: Vec<(String, String)> = Vec::new();
        tags.push(("chain".to_owned(), chain.to_owned()));
        tags.push(("sender".to_owned(), self.sender_tag(bag)));
        tags.push(
            (
                "client_id".to_owned(),
                Self::subst(
                    &self.clients_to_team,
                    Self::first_attr(bag, "client_id", "client_id_missing"),
                ),
            ),
        );
        let r = MetricRecord { name, tags };
        proof {
            assert(r@.tags =~= spec_update_client_record(self@, chain@, bag@).tags);
        }
        r
    }

    /// Record for a client misbehaviour event.
    pub fn client_misbehaviour_event(&self, chain: &str, event: &IbcEvent) -> (r: MetricRecord)
        requires
            event@.kind == IbcEventKind::ClientMisbehavior,
        ensures
            r@ == spec_event_record(self@, chain@, event@),
    {
        self.client_record("client_misbehaviour", chain, &event.attributes)
    }

    /// Record for a connection open-init event.
    pub fn openinit_event(&self, chain: &str, event: &IbcEvent) -> (r: MetricRecord)
        requires
            event@.kind == IbcEventKind::OpenInitConnection,
        ensures
            r@ == spec_event_record(self@, chain@, event@),
    {
        self.client_record("openinit", chain, &event.attributes)
    }

    /// Record for a connection open-try event.
    pub fn opentry_event(&self, chain: &str, event: &IbcEvent) -> (r: MetricRecord)
        requires
            event@.kind == IbcEventKind::OpenTryConnection,
        ensures
            r@ == spec_event_record(self@, chain@, event@),
    {
        self.client_record("opentry", chain, &event.attributes)
    }

    /// Record for a connection open-ack event.
    pub fn openack_event(&self, chain: &str, event: &IbcEvent) -> (r: MetricRecord)
        requires
            event@.kind == IbcEventKind::OpenAckConnection,
        ensures
            r@ == spec_event_record(self@, chain@, event@),
    {
        self.client_record("openack_event", chain, &event.attributes)
    }

    /// Record for a connection open-confirm event.
    pub fn openconfirm_event(&self, chain: &str, event: &IbcEvent) -> (r: MetricRecord)
        requires
            event@.kind == IbcEventKind::OpenConfirmConnection,
        ensures
            r@ == spec_event_record(self@, chain@, event@),
    {
        self.client_record("openconfirm", chain, &event.attributes)
    }

    /// Record for any IBC event.
    ///
    /// See [`lemma_event_record_tags_admissible`] for the bound on the tag
    /// values such a record can carry.
    pub fn event_record(&self, chain: &str, event: &IbcEvent) -> (r: MetricRecord)
        ensures
            r@ == spec_event_record(self@, chain@, event@),
    {
        match event.kind {
            IbcEventKind::SendPacketChannel => self.packet_send_event(chain, event),
            IbcEventKind::RecievePacketChannel => self.packet_recieve_event(chain, event),
            IbcEventKind::OpaquePacket => self.opaque_packet(chain, event),
            IbcEventKind::PacketTransfer => self.transfer_event(chain, event),
            IbcEventKind::CreateClient => self.create_client_event(chain, event),
            IbcEventKind::UpdateClient => self.update_client_event(chain, event),
            IbcEventKind::ClientMisbehavior => self.client_misbehaviour_event(chain, event),
            IbcEventKind::OpenInitConnection => self.openinit_event(chain, event),
            IbcEventKind::OpenTryConnection => self.opentry_event(chain, event),
            IbcEventKind::OpenAckConnection => self.openack_event(chain, event),
            IbcEventKind::OpenConfirmConnection => self.openconfirm_event(chain, event),
        }
    }
}

/// Values occurring in one attribute's value list.
pub open spec fn list_values(vs: Seq<Seq<char>>) -> Set<Seq<char>> {
    Set::new(|v: Seq<char>| vs.contains(v))
}

/// Values occurring anywhere in an attribute bag.
pub open spec fn bag_values(bag: Seq<(Seq<char>, Seq<Seq<char>>)>) -> Set<Seq<char>>
    decreases bag.len(),
{
    if bag.len() == 0 {
        Set::empty()
    } else {
        list_values(bag[0].1).union(bag_values(bag.skip(1)))
    }
}

/// Team names a substitution table can produce.
pub open spec fn table_values(t: Seq<(Seq<char>, Seq<char>)>) -> Set<Seq<char>>
    decreases t.len(),
{
    if t.len() == 0 {
        Set::empty()
    } else {
        table_values(t.skip(1)).insert(t[0].1)
    }
}

/// Team names of an optional substitution table.
pub open spec fn table_codomain(t: Option<Seq<(Seq<char>, Seq<char>)>>) -> Set<Seq<char>> {
    match t {
        Some(tt) => table_values(tt),
        None => Set::empty(),
    }
}

/// The literal sentinels a missing or empty attribute maps to.
pub open spec fn sentinel_values() -> Set<Seq<char>> {
    set![
        "packet_src_channel_missing"@,
        "packet_src_port_missing"@,
        "packet_dst_channel_missing"@,
        "packet_dst_port_missing"@,
        "sender_missing"@,
        "client_id_missing"@,
    ]
}

/// A tag value is admissible when it is the chain ID, one of the event's
/// attribute values, a team name from a substitution table, or a sentinel.
pub open spec fn tag_value_admissible(
    m: MetricsView,
    chain: Seq<char>,
    bag: Seq<(Seq<char>, Seq<Seq<char>>)>,
    v: Seq<char>,
) -> bool {
    v == chain || bag_values(bag).contains(v) || table_codomain(m.channels).contains(v)
        || table_codomain(m.addresses).contains(v) || table_codomain(m.clients).contains(v)
        || sentinel_values().contains(v)
}

/// A successful table lookup yields one of the table's team names.
proof fn lemma_table_lookup_in_values(t: Seq<(Seq<char>, Seq<char>)>, k: Seq<char>)
    ensures
        table_lookup(t, k) matches Some(v) ==> table_values(t).contains(v),
    decreases t.len(),
{
    if t.len() > 0 && t[0].0 != k {
        lemma_table_lookup_in_values(t.skip(1), k);
    }
}

/// Every value a bag lookup returns occurs in the bag.
proof fn lemma_bag_lookup_values(bag: Seq<(Seq<char>, Seq<Seq<char>>)>, key: Seq<char>)
    ensures
        bag_lookup(bag, key) matches Some(vs) ==> forall|j: int|
            0 <= j < vs.len() ==> bag_values(bag).contains(#[trigger] vs[j]),
    decreases bag.len(),
{
    if bag.len() > 0 {
        if bag[0].0 == key {
            let vs = bag[0].1;
            assert forall|j: int| 0 <= j < vs.len() implies bag_values(bag).contains(
                #[trigger] vs[j],
            ) by {
                assert(vs.contains(vs[j]));
                assert(list_values(vs).contains(vs[j]));
            }
        } else {
            lemma_bag_lookup_values(bag.skip(1), key);
        }
    }
}

/// A first-hit scan yields one of the table's team names.
proof fn lemma_first_hit_in_values(t: Seq<(Seq<char>, Seq<char>)>, vs: Seq<Seq<char>>)
    ensures
        spec_first_hit(t, vs) matches Some(team) ==> table_values(t).contains(team),
    decreases vs.len(),
{
    if vs.len() > 0 {
        lemma_table_lookup_in_values(t, vs[0]);
        if table_lookup(t, vs[0]) is None {
            lemma_first_hit_in_values(t, vs.skip(1));
        }
    }
}

/// The sender tag is admissible.
proof fn lemma_sender_admissible(
    m: MetricsView,
    chain: Seq<char>,
    bag: Seq<(Seq<char>, Seq<Seq<char>>)>,
)
    ensures
        tag_value_admissible(m, chain, bag, spec_sender(bag, m.addresses)),
{
    lemma_bag_lookup_values(bag, "message.sender"@);
    match bag_lookup(bag, "message.sender"@) {
        Some(vs) => {
            match m.addresses {
                Some(t) => {
                    lemma_first_hit_in_values(t, vs);
                },
                None => {
                },
            }
        },
        None => {
        },
    }
}

/// A first-attribute lookup with a sentinel fallback is admissible.
proof fn lemma_first_attr_admissible(
    m: MetricsView,
    chain: Seq<char>,
    bag: Seq<(Seq<char>, Seq<Seq<char>>)>,
    key: Seq<char>,
    sentinel: Seq<char>,
)
    requires
        sentinel_values().contains(sentinel),
    ensures
        tag_value_admissible(m, chain, bag, spec_first_attr(bag, key, sentinel)),
{
    lemma_bag_lookup_values(bag, key);
}

/// Substitution through any of the configured tables keeps a value admissible.
proof fn lemma_subst_admissible(
    m: MetricsView,
    chain: Seq<char>,
    bag: Seq<(Seq<char>, Seq<Seq<char>>)>,
    t: Option<Seq<(Seq<char>, Seq<char>)>>,
    v: Seq<char>,
)
    requires
        tag_value_admissible(m, chain, bag, v),
        t == m.channels || t == m.addresses || t == m.clients,
    ensures
        tag_value_admissible(m, chain, bag, spec_subst(t, v)),
{
    match t {
        Some(tt) => {
            lemma_table_lookup_in_values(tt, v);
        },
        None => {
        },
    }
}

/// Every tag value a metric record carries is the chain ID, one of the
/// event's attribute values, a team name from a substitution table, or a
/// literal sentinel; nothing else can reach StatsD, so tag cardinality is
/// bounded by configuration.
pub proof fn lemma_event_record_tags_admissible(
    m: MetricsView,
    chain: Seq<char>,
    ev: IbcEventView,
)
    ensures
        forall|i: int|
            0 <= i < spec_event_record(m, chain, ev).tags.len() ==> tag_value_admissible(
                m,
                chain,
                ev.attributes,
                #[trigger] spec_event_record(m, chain, ev).tags[i].1,
            ),
{
    let bag = ev.attributes;
    let r = spec_event_record(m, chain, ev);
    lemma_sender_admissible(m, chain, bag);
    lemma_first_attr_admissible(
        m,
        chain,
        bag,
        "send_packet.packet_src_channel"@,
        "packet_src_channel_missing"@,
    );
    lemma_first_attr_admissible(
        m,
        chain,
        bag,
        "send_packet.packet_src_port"@,
        "packet_src_port_missing"@,
    );
    lemma_first_attr_admissible(
        m,
        chain,
        bag,
        "send_packet.packet_dst_channel"@,
        "packet_dst_channel_missing"@,
    );
    lemma_first_attr_admissible(
        m,
        chain,
        bag,
        "send_packet.packet_dst_port"@,
        "packet_dst_port_missing"@,
    );
    lemma_first_attr_admissible(
        m,
        chain,
        bag,
        "recv_packet.packet_src_channel"@,
        "packet_src_channel_missing"@,
    );
    lemma_first_attr_admissible(
        m,
        chain,
        bag,
        "recv_packet.packet_src_port"@,
        "packet_src_port_missing"@,
    );
    lemma_first_attr_admissible(
        m,
        chain,
        bag,
        "recv_packet.packet_dst_channel"@,
        "packet_dst_channel_missing"@,
    );
    lemma_first_attr_admissible(
        m,
        chain,
        bag,
        "recv_packet.packet_dst_port"@,
        "packet_dst_port_missing"@,
    );
    lemma_first_attr_admissible(m, chain, bag, "client_id"@, "client_id_missing"@);
    lemma_subst_admissible(
        m,
        chain,
        bag,
        m.channels,
        spec_first_attr(bag, "send_packet.packet_src_channel"@, "packet_src_channel_missing"@),
    );
    lemma_subst_admissible(
        m,
        chain,
        bag,
        m.channels,
        spec_first_attr(bag, "send_packet.packet_dst_channel"@, "packet_dst_channel_missing"@),
    );
    lemma_subst_admissible(
        m,
        chain,
        bag,
        m.channels,
        spec_first_attr(bag, "recv_packet.packet_src_channel"@, "packet_src_channel_missing"@),
    );
    lemma_subst_admissible(
        m,
        chain,
        bag,
        m.channels,
        spec_first_attr(bag, "recv_packet.packet_dst_channel"@, "packet_dst_channel_missing"@),
    );
    lemma_subst_admissible(
        m,
        chain,
        bag,
        m.clients,
        spec_first_attr(bag, "client_id"@, "client_id_missing"@),
    );
    assert forall|i: int| 0 <= i < r.tags.len() implies tag_value_admissible(
        m,
        chain,
        ev.attributes,
        #[trigger] r.tags[i].1,
    ) by {
        assert(r.tags[i].1 == r.tags[i].1);
    }
}

} // verus!
