//! Network information monitor: peers from the `/net_info` endpoint merged
//! with the config-declared persistent and private peers.
//!
//! The merge builds a map keyed by node ID and ordered by it, the way a
//! key-sorted map iterates: it is seeded with every persistent peer from
//! the configuration, marked private where configured, and then each peer
//! the RPC endpoint reports either updates the connection direction of its
//! entry or — when new and TCP-reachable — is inserted, in key order, as a
//! fresh non-persistent entry. Entries with unparseable or non-TCP listen
//! addresses are skipped, never fatal.

use crate::error::{Error, ErrorKind};
use crate::message::{Message, MessageView};
use crate::net::{spec_parse_address, Address, AddressView};
use crate::text::{lemma_str_le_total, lemma_str_le_trans, spec_str_le, str_le};
use vstd::prelude::*;

verus! {

/// Status of the connection
#[derive(Copy, Clone, Debug, PartialEq, Eq, Structural)]
pub enum ConnectionStatus {
    /// Connected outbound
    Out,

    /// Inbound connection received
    In,

    /// Disconnected from this peer
    Disconnected,
}

impl ConnectionStatus {
    /// Are we connected?
    pub fn is_connected(self) -> (r: bool)
        ensures
            r == (self != ConnectionStatus::Disconnected),
    {
        match self {
            ConnectionStatus::Out | ConnectionStatus::In => true,
            ConnectionStatus::Disconnected => false,
        }
    }
}

/// View of a network peer.
pub struct PeerView {
    /// Address of the remote peer
    pub addr: AddressView,

    /// Connection status
    pub connection: ConnectionStatus,

    /// Is this peer supposed to be persistently connected
    pub persistent: bool,

    /// Is this peer marked as being private
    pub private: bool,
}

/// Information about a specific network peer
#[derive(Debug)]
pub struct Peer {
    /// Address of the remote peer
    pub addr: Address,

    /// Connection status
    pub connection: ConnectionStatus,

    /// Is this peer supposed to be persistently connected
    pub persistent: bool,

    /// Is this peer marked as being private
    pub private: bool,
}

impl View for Peer {
    type V = PeerView;

    open spec fn view(&self) -> PeerView {
        PeerView {
            addr: self.addr@,
            connection: self.connection,
            persistent: self.persistent,
            private: self.private,
        }
    }
}

impl DeepView for Peer {
    type V = PeerView;

    open spec fn deep_view(&self) -> PeerView {
        self.view()
    }
}

impl Clone for Address {
    /// A clone denotes the same address.
    fn clone(&self) -> (r: Self)
        ensures
            r@ == self@,
    {
        match self {
            Address::Tcp { peer_id, host, port } => Address::Tcp {
                peer_id: match peer_id {
                    Some(id) => Some(id.clone()),
                    None => None,
                },
                host: host.clone(),
                port: *port,
            },
            Address::Unix { path } => Address::Unix { path: path.clone() },
        }
    }
}

impl Address {
    /// Character-for-character equality of two addresses.
    pub fn eq_addr(&self, other: &Address) -> (r: bool)
        ensures
            r == (self@ == other@),
    {
        match (self, other) {
            (
                Address::Tcp { peer_id: id_a, host: host_a, port: port_a },
                Address::Tcp { peer_id: id_b, host: host_b, port: port_b },
            ) => {
                let ids_eq = match (id_a, id_b) {
                    (Some(a), Some(b)) => crate::text::str_eq(a.as_str(), b.as_str()),
                    (None, None) => true,
                    _ => false,
                };
                ids_eq && crate::text::str_eq(host_a.as_str(), host_b.as_str()) && *port_a
                    == *port_b
            },
            (Address::Unix { path: path_a }, Address::Unix { path: path_b }) => crate::text::str_eq(
                path_a.as_str(),
                path_b.as_str(),
            ),
            _ => false,
        }
    }
}

impl Clone for Peer {
    /// A clone denotes the same peer.
    fn clone(&self) -> (r: Self)
        ensures
            r@ == self@,
    {
        Peer {
            addr: self.addr.clone(),
            connection: self.connection,
            persistent: self.persistent,
            private: self.private,
        }
    }
}

impl Peer {
    /// Field-for-field equality of two peers.
    pub fn eq_peer(&self, other: &Peer) -> (r: bool)
        ensures
            r == (self@ == other@),
    {
        self.addr.eq_addr(&other.addr) && self.connection == other.connection && self.persistent
            == other.persistent && self.private == other.private
    }
}

/// Element-for-element equality of two peer lists.
pub fn peers_eq(a: &Vec<Peer>, b: &Vec<Peer>) -> (r: bool)
    ensures
        r == (a.deep_view() == b.deep_view()),
{
    let n = a.len();
    if n != b.len() {
        proof {
            assert(a.deep_view().len() == a@.len());
            assert(b.deep_view().len() == b@.len());
        }
        return false;
    }
    let mut i: usize = 0;
    while i < n
        invariant
            i <= n,
            n == a@.len(),
            n == b@.len(),
            forall|j: int| 0 <= j < i ==> (#[trigger] a@[j])@ == b@[j]@,
        decreases n - i,
    {
        if !a[i].eq_peer(&b[i]) {
            proof {
                assert(a.deep_view()[i as int] == a@[i as int]@);
                assert(b.deep_view()[i as int] == b@[i as int]@);
            }
            return false;
        }
        i = i + 1;
    }
    proof {
        assert forall|j: int| 0 <= j < n implies a.deep_view()[j] == b.deep_view()[j] by {
            assert(a@[j]@ == b@[j]@);
        }
        assert(a.deep_view() =~= b.deep_view());
    }
    true
}

/// Clone a peer list element by element.
pub fn clone_peers(v: &Vec<Peer>) -> (r: Vec<Peer>)
    ensures
        r.deep_view() == v.deep_view(),
{
    let mut out: Vec<Peer> = Vec::new();
    let n = v.len();
    let mut i: usize = 0;
    while i < n
        invariant
            i <= n,
            n == v@.len(),
            out@.len() == i,
            forall|j: int| 0 <= j < i ==> (#[trigger] out@[j])@ == v@[j]@,
        decreases n - i,
    {
        out.push(v[i].clone());
        i = i + 1;
    }
    proof {
        assert forall|j: int| 0 <= j < n implies out.deep_view()[j] == v.deep_view()[j] by {
            assert(out@[j]@ == v@[j]@);
        }
        assert(out.deep_view() =~= v.deep_view());
    }
    out
}

/// View of the peer map: node-ID-keyed entries in key order.
pub type PeerMapView = Seq<(Seq<char>, PeerView)>;

/// Index of the first entry with key `k`, if any.
pub open spec fn pm_index(m: PeerMapView, k: Seq<char>) -> Option<int>
    decreases m.len(),
{
    if m.len() == 0 {
        None
    } else if m[0].0 == k {
        Some(0int)
    } else {
        match pm_index(m.skip(1), k) {
            Some(j) => Some(j + 1),
            None => None,
        }
    }
}

/// Does the map have an entry with key `k`?
pub open spec fn pm_contains(m: PeerMapView, k: Seq<char>) -> bool {
    pm_index(m, k) is Some
}

/// The peers of the map, in entry order.
pub open spec fn pm_values(m: PeerMapView) -> Seq<PeerView> {
    m.map_values(|e: (Seq<char>, PeerView)| e.1)
}

/// The entry inserted before the first entry whose key exceeds its own:
/// insertion that keeps a key-sorted map key-sorted.
pub open spec fn pm_insert_sorted(m: PeerMapView, e: (Seq<char>, PeerView)) -> PeerMapView
    decreases m.len(),
{
    if m.len() == 0 {
        seq![e]
    } else if spec_str_le(m[0].0, e.0) {
        seq![m[0]] + pm_insert_sorted(m.skip(1), e)
    } else {
        seq![e] + m
    }
}

/// The map's keys are in nondecreasing lexicographic order.
pub open spec fn pm_sorted(m: PeerMapView) -> bool {
    forall|i: int, j: int|
        0 <= i < j < m.len() ==> spec_str_le((#[trigger] m[i]).0, (#[trigger] m[j]).0)
}

/// Seeding the map with one persistent peer: the address must be TCP and
/// carry a peer ID, and the ID must be fresh; otherwise the configuration
/// is in error (`None`).
pub open spec fn spec_seed_step(m: Option<PeerMapView>, a: AddressView) -> Option<PeerMapView> {
    match m {
        None => None,
        Some(mm) => match a {
            AddressView::Tcp { peer_id: Some(id), host, port } => if pm_contains(mm, id) {
                None
            } else {
                Some(
                    pm_insert_sorted(
                        mm,
                        (
                            id,
                            PeerView {
                                addr: a,
                                connection: ConnectionStatus::Disconnected,
                                persistent: true,
                                private: false,
                            },
                        ),
                    ),
                )
            },
            _ => None,
        },
    }
}

/// Seeding the map with each persistent peer in turn.
pub open spec fn spec_seed_fold(s: Seq<AddressView>, m: Option<PeerMapView>) -> Option<PeerMapView>
    decreases s.len(),
{
    if s.len() == 0 {
        m
    } else {
        spec_seed_fold(s.skip(1), spec_seed_step(m, s[0]))
    }
}

/// Marking one configured private peer: the ID must already be in the map;
/// otherwise the configuration is in error (`None`).
pub open spec fn spec_mark_private_step(m: Option<PeerMapView>, id: Seq<char>) -> Option<
    PeerMapView,
> {
    match m {
        None => None,
        Some(mm) => match pm_index(mm, id) {
            Some(j) => Some(mm.update(j, (mm[j].0, PeerView { private: true, ..mm[j].1 }))),
            None => None,
        },
    }
}

/// Marking each configured private peer in turn.
pub open spec fn spec_mark_fold(s: Seq<Seq<char>>, m: Option<PeerMapView>) -> Option<PeerMapView>
    decreases s.len(),
{
    if s.len() == 0 {
        m
    } else {
        spec_mark_fold(s.skip(1), spec_mark_private_step(m, s[0]))
    }
}

/// The map the configuration seeds: every persistent peer with
/// `persistent = true`, every configured private ID marked `private = true`.
pub open spec fn spec_peer_map(
    persistent: Seq<AddressView>,
    private_ids: Seq<Seq<char>>,
) -> Option<PeerMapView> {
    spec_mark_fold(
        private_ids,
        spec_seed_fold(persistent, Some(Seq::<(Seq<char>, PeerView)>::empty())),
    )
}

/// A failed seed fold stays failed.
proof fn lemma_seed_fold_none(s: Seq<AddressView>)
    ensures
        spec_seed_fold(s, None) is None,
    decreases s.len(),
{
    if s.len() > 0 {
        lemma_seed_fold_none(s.skip(1));
    }
}

/// A failed mark fold stays failed.
proof fn lemma_mark_fold_none(s: Seq<Seq<char>>)
    ensures
        spec_mark_fold(s, None) is None,
    decreases s.len(),
{
    if s.len() > 0 {
        lemma_mark_fold_none(s.skip(1));
    }
}

/// The map has an entry for `k` that is flagged persistent.
pub open spec fn pm_has_persistent(m: PeerMapView, k: Seq<char>) -> bool {
    pm_index(m, k) matches Some(j) && m[j].1.persistent
}

/// The map has an entry for `k` that is flagged private.
pub open spec fn pm_has_private(m: PeerMapView, k: Seq<char>) -> bool {
    pm_index(m, k) matches Some(j) && m[j].1.private
}

/// A TCP address carrying a peer ID.
pub open spec fn addr_has_peer_id(a: AddressView) -> bool {
    a matches AddressView::Tcp { peer_id: Some(id), host, port }
}

/// The peer ID of a TCP address.
pub open spec fn addr_peer_id(a: AddressView) -> Seq<char>
    recommends
        addr_has_peer_id(a),
{
    match a {
        AddressView::Tcp { peer_id: Some(id), host, port } => id,
        _ => Seq::empty(),
    }
}

/// A found index is in range and its entry carries the key.
proof fn lemma_pm_index_range(m: PeerMapView, k: Seq<char>)
    ensures
        pm_index(m, k) matches Some(j) ==> 0 <= j < m.len() && m[j].0 == k,
    decreases m.len(),
{
    if m.len() > 0 && m[0].0 != k {
        lemma_pm_index_range(m.skip(1), k);
    }
}

/// Sorted insertion of a fresh key keeps every present key's entry: a key
/// found before is still found, bound to the same peer.
proof fn lemma_insert_sorted_preserves(m: PeerMapView, e: (Seq<char>, PeerView), k: Seq<char>)
    requires
        !pm_contains(m, e.0),
    ensures
        pm_has_persistent(m, k) ==> pm_has_persistent(pm_insert_sorted(m, e), k),
        pm_has_private(m, k) ==> pm_has_private(pm_insert_sorted(m, e), k),
    decreases m.len(),
{
    let ins = pm_insert_sorted(m, e);
    if m.len() == 0 {
    } else if spec_str_le(m[0].0, e.0) {
        let rec = pm_insert_sorted(m.skip(1), e);
        assert(ins =~= seq![m[0]] + rec);
        assert(ins[0] == m[0]);
        assert(ins.skip(1) =~= rec);
        if pm_has_persistent(m, k) || pm_has_private(m, k) {
            lemma_pm_index_range(m, k);
            if m[0].0 == k {
                assert(pm_index(ins, k) == Some(0int));
            } else {
                lemma_pm_index_range(m.skip(1), k);
                lemma_insert_sorted_preserves(m.skip(1), e, k);
                lemma_pm_index_range(rec, k);
                if pm_index(m, k) is Some {
                    let j = pm_index(m, k)->Some_0;
                    assert(m.skip(1)[j - 1] == m[j]);
                }
                if pm_index(rec, k) is Some {
                    let j2 = pm_index(rec, k)->Some_0;
                    assert(ins[j2 + 1] == rec[j2]);
                }
            }
        }
    } else {
        assert(ins =~= seq![e] + m);
        assert(ins[0] == e);
        assert(ins.skip(1) =~= m);
        if pm_has_persistent(m, k) || pm_has_private(m, k) {
            lemma_pm_index_range(m, k);
            assert(k != e.0);
            if pm_index(m, k) is Some {
                let j = pm_index(m, k)->Some_0;
                assert(ins[j + 1] == m[j]);
            }
        }
    }
}

/// A fresh key is found after its sorted insertion, bound to the inserted
/// peer.
proof fn lemma_insert_sorted_new(m: PeerMapView, e: (Seq<char>, PeerView))
    requires
        !pm_contains(m, e.0),
    ensures
        pm_index(pm_insert_sorted(m, e), e.0) matches Some(j) && 0 <= j < pm_insert_sorted(
            m,
            e,
        ).len() && pm_insert_sorted(m, e)[j] == e,
    decreases m.len(),
{
    let ins = pm_insert_sorted(m, e);
    if m.len() == 0 {
        assert(ins[0] == e);
    } else if spec_str_le(m[0].0, e.0) {
        let rec = pm_insert_sorted(m.skip(1), e);
        assert(ins =~= seq![m[0]] + rec);
        assert(ins[0] == m[0]);
        assert(ins.skip(1) =~= rec);
        lemma_insert_sorted_new(m.skip(1), e);
        let j2 = pm_index(rec, e.0)->Some_0;
        assert(ins[j2 + 1] == rec[j2]);
    } else {
        assert(ins =~= seq![e] + m);
        assert(ins[0] == e);
    }
}

/// Updating the peer at one index, key kept, moves no entry: every key is
/// found where it was, and entries at other indexes are unchanged.
proof fn lemma_pm_index_update_stable(m: PeerMapView, j0: int, p: PeerView, k: Seq<char>)
    requires
        0 <= j0 < m.len(),
    ensures
        pm_index(m.update(j0, (m[j0].0, p)), k) == pm_index(m, k),
    decreases m.len(),
{
    let m2 = m.update(j0, (m[j0].0, p));
    assert(m2[0].0 == m[0].0);
    if m[0].0 != k {
        if j0 == 0 {
            assert(m2.skip(1) =~= m.skip(1));
        } else {
            assert(m2.skip(1) =~= m.skip(1).update(j0 - 1, (m.skip(1)[j0 - 1].0, p)));
            lemma_pm_index_update_stable(m.skip(1), j0 - 1, p, k);
        }
    }
}

/// Whatever the seed fold succeeds on: the entries it started from keep
/// their persistent flag, every seeded address is TCP with a peer ID, and
/// that ID's entry is flagged persistent.
proof fn lemma_seed_fold_props(s: Seq<AddressView>, m: PeerMapView)
    ensures
        spec_seed_fold(s, Some(m)) matches Some(mm) ==> (forall|k: Seq<char>|
            pm_has_persistent(m, k) ==> pm_has_persistent(mm, k)) && (forall|k: Seq<char>|
            pm_has_private(m, k) ==> pm_has_private(mm, k)) && (forall|i: int|
            0 <= i < s.len() ==> addr_has_peer_id(#[trigger] s[i]) && pm_has_persistent(
                mm,
                addr_peer_id(s[i]),
            )),
    decreases s.len(),
{
    if s.len() > 0 {
        let step = spec_seed_step(Some(m), s[0]);
        if step is Some {
            let m1 = step->Some_0;
            let id0 = addr_peer_id(s[0]);
            let e = (
                id0,
                PeerView {
                    addr: s[0],
                    connection: ConnectionStatus::Disconnected,
                    persistent: true,
                    private: false,
                },
            );
            assert(m1 == pm_insert_sorted(m, e));
            lemma_seed_fold_props(s.skip(1), m1);
            lemma_insert_sorted_new(m, e);
            assert(pm_has_persistent(m1, id0));
            assert forall|k: Seq<char>| pm_has_persistent(m, k) implies pm_has_persistent(
                m1,
                k,
            ) by {
                lemma_insert_sorted_preserves(m, e, k);
            }
            assert forall|k: Seq<char>| pm_has_private(m, k) implies pm_has_private(m1, k) by {
                lemma_insert_sorted_preserves(m, e, k);
            }
            if spec_seed_fold(s, Some(m)) is Some {
                let mm = spec_seed_fold(s, Some(m))->Some_0;
                assert forall|i: int|
                    0 <= i < s.len() implies addr_has_peer_id(#[trigger] s[i])
                    && pm_has_persistent(mm, addr_peer_id(s[i])) by {
                    if i > 0 {
                        assert(s.skip(1)[i - 1] == s[i]);
                    }
                }
            }
        } else {
            lemma_seed_fold_none(s.skip(1));
        }
    }
}

/// Whatever the mark fold succeeds on: persistent and private flags
/// already present are kept, and every marked ID's entry is flagged
/// private.
proof fn lemma_mark_fold_props(s: Seq<Seq<char>>, m: PeerMapView)
    ensures
        spec_mark_fold(s, Some(m)) matches Some(mm) ==> (forall|k: Seq<char>|
            pm_has_persistent(m, k) ==> pm_has_persistent(mm, k)) && (forall|k: Seq<char>|
            pm_has_private(m, k) ==> pm_has_private(mm, k)) && (forall|i: int|
            0 <= i < s.len() ==> pm_has_private(mm, #[trigger] s[i])),
    decreases s.len(),
{
    if s.len() > 0 {
        let step = spec_mark_private_step(Some(m), s[0]);
        if step is Some {
            let m1 = step->Some_0;
            let j0 = pm_index(m, s[0])->Some_0;
            lemma_pm_index_range(m, s[0]);
            let p = PeerView { private: true, ..m[j0].1 };
            assert(m1 == m.update(j0, (m[j0].0, p)));
            lemma_mark_fold_props(s.skip(1), m1);
            assert forall|k: Seq<char>| pm_has_persistent(m, k) implies pm_has_persistent(
                m1,
                k,
            ) by {
                lemma_pm_index_range(m, k);
                lemma_pm_index_update_stable(m, j0, p, k);
            }
            assert forall|k: Seq<char>| pm_has_private(m, k) implies pm_has_private(m1, k) by {
                lemma_pm_index_range(m, k);
                lemma_pm_index_update_stable(m, j0, p, k);
            }
            lemma_pm_index_update_stable(m, j0, p, s[0]);
            assert(pm_has_private(m1, s[0]));
            if spec_mark_fold(s, Some(m)) is Some {
                let mm = spec_mark_fold(s, Some(m))->Some_0;
                assert forall|i: int| 0 <= i < s.len() implies pm_has_private(
                    mm,
                    #[trigger] s[i],
                ) by {
                    if i > 0 {
                        assert(s.skip(1)[i - 1] == s[i]);
                    }
                }
            }
        } else {
            lemma_mark_fold_none(s.skip(1));
        }
    }
}

/// View of one peer reported by the `/net_info` endpoint.
pub struct RpcPeerView {
    /// The peer's node ID
    pub node_id: Seq<char>,

    /// The peer's advertised listen address, unparsed
    pub listen_addr: Seq<char>,

    /// The remote IP the connection comes from
    pub remote_ip: Seq<char>,

    /// Did we dial the peer?
    pub is_outbound: bool,
}

/// One peer as the `/net_info` endpoint reports it.
#[derive(Clone, Debug)]
pub struct RpcPeer {
    /// The peer's node ID
    pub node_id: String,

    /// The peer's advertised listen address, unparsed
    pub listen_addr: String,

    /// The remote IP the connection comes from
    pub remote_ip: String,

    /// Did we dial the peer?
    pub is_outbound: bool,
}

impl View for RpcPeer {
    type V = RpcPeerView;

    open spec fn view(&self) -> RpcPeerView {
        RpcPeerView {
            node_id: self.node_id@,
            listen_addr: self.listen_addr@,
            remote_ip: self.remote_ip@,
            is_outbound: self.is_outbound,
        }
    }
}

impl DeepView for RpcPeer {
    type V = RpcPeerView;

    open spec fn deep_view(&self) -> RpcPeerView {
        self.view()
    }
}

/// Merging one RPC-reported peer: a known ID only updates its connection
/// direction; a fresh ID with a TCP listen address is inserted as a
/// non-persistent peer addressed at its remote IP; anything else is skipped.
pub open spec fn spec_merge_step(m: PeerMapView, p: RpcPeerView) -> PeerMapView {
    let conn = if p.is_outbound {
        ConnectionStatus::Out
    } else {
        ConnectionStatus::In
    };
    match pm_index(m, p.node_id) {
        Some(j) => m.update(j, (m[j].0, PeerView { connection: conn, ..m[j].1 })),
        None => match spec_parse_address(p.listen_addr) {
            Some(AddressView::Tcp { peer_id: _, host: _, port }) => pm_insert_sorted(
                m,
                (
                    p.node_id,
                    PeerView {
                        addr: AddressView::Tcp {
                            peer_id: Some(p.node_id),
                            host: p.remote_ip,
                            port: port,
                        },
                        connection: conn,
                        persistent: false,
                        private: false,
                    },
                ),
            ),
            _ => m,
        },
    }
}

/// The map after merging every RPC-reported peer, in order.
pub open spec fn spec_merge(m: PeerMapView, rpc: Seq<RpcPeerView>) -> PeerMapView
    decreases rpc.len(),
{
    if rpc.len() == 0 {
        m
    } else {
        spec_merge(spec_merge_step(m, rpc[0]), rpc.skip(1))
    }
}

/// Merging RPC-reported peers keeps every persistent and private flag.
proof fn lemma_merge_fold_props(rpc: Seq<RpcPeerView>, m: PeerMapView)
    ensures
        forall|k: Seq<char>|
            pm_has_persistent(m, k) ==> pm_has_persistent(spec_merge(m, rpc), k),
        forall|k: Seq<char>| pm_has_private(m, k) ==> pm_has_private(spec_merge(m, rpc), k),
    decreases rpc.len(),
{
    if rpc.len() > 0 {
        let m1 = spec_merge_step(m, rpc[0]);
        lemma_merge_fold_props(rpc.skip(1), m1);
        match pm_index(m, rpc[0].node_id) {
            Some(j0) => {
                let conn = if rpc[0].is_outbound {
                    ConnectionStatus::Out
                } else {
                    ConnectionStatus::In
                };
                lemma_pm_index_range(m, rpc[0].node_id);
                let p = PeerView { connection: conn, ..m[j0].1 };
                assert(m1 == m.update(j0, (m[j0].0, p)));
                assert forall|k: Seq<char>| pm_has_persistent(m, k) implies pm_has_persistent(
                    m1,
                    k,
                ) by {
                    lemma_pm_index_range(m, k);
                    lemma_pm_index_update_stable(m, j0, p, k);
                }
                assert forall|k: Seq<char>| pm_has_private(m, k) implies pm_has_private(
                    m1,
                    k,
                ) by {
                    lemma_pm_index_range(m, k);
                    lemma_pm_index_update_stable(m, j0, p, k);
                }
            },
            None => {
                let conn = if rpc[0].is_outbound {
                    ConnectionStatus::Out
                } else {
                    ConnectionStatus::In
                };
                match spec_parse_address(rpc[0].listen_addr) {
                    Some(AddressView::Tcp { peer_id: pid, host: h, port }) => {
                        let e = (
                            rpc[0].node_id,
                            PeerView {
                                addr: AddressView::Tcp {
                                    peer_id: Some(rpc[0].node_id),
                                    host: rpc[0].remote_ip,
                                    port: port,
                                },
                                connection: conn,
                                persistent: false,
                                private: false,
                            },
                        );
                        assert(m1 == pm_insert_sorted(m, e));
                        assert forall|k: Seq<char>|
                            pm_has_persistent(m, k) implies pm_has_persistent(m1, k) by {
                            lemma_insert_sorted_preserves(m, e, k);
                        }
                        assert forall|k: Seq<char>|
                            pm_has_private(m, k) implies pm_has_private(m1, k) by {
                            lemma_insert_sorted_preserves(m, e, k);
                        }
                    },
                    _ => {
                        assert(m1 == m);
                    },
                }
            },
        }
    }
}

/// After a sorted insertion a key is present exactly when it was, or is
/// the inserted entry's key.
proof fn lemma_pm_insert_contains(m: PeerMapView, e: (Seq<char>, PeerView), k: Seq<char>)
    ensures
        pm_contains(pm_insert_sorted(m, e), k) <==> (pm_contains(m, k) || k == e.0),
    decreases m.len(),
{
    let ins = pm_insert_sorted(m, e);
    if m.len() == 0 {
        assert(ins[0] == e);
        assert(ins.skip(1) =~= Seq::<(Seq<char>, PeerView)>::empty());
    } else if spec_str_le(m[0].0, e.0) {
        let rec = pm_insert_sorted(m.skip(1), e);
        assert(ins =~= seq![m[0]] + rec);
        assert(ins[0] == m[0]);
        assert(ins.skip(1) =~= rec);
        lemma_pm_insert_contains(m.skip(1), e, k);
    } else {
        assert(ins =~= seq![e] + m);
        assert(ins[0] == e);
        assert(ins.skip(1) =~= m);
    }
}

/// A well-formed persistent-peer list seeds the map: every address a TCP
/// one with a peer ID, the IDs pairwise distinct and fresh — then the
/// seed fold succeeds, and the keys gained are exactly those IDs.
proof fn lemma_seed_fold_builds(s: Seq<AddressView>, m: PeerMapView)
    requires
        forall|i: int| 0 <= i < s.len() ==> addr_has_peer_id(#[trigger] s[i]),
        forall|i: int, j: int|
            0 <= i < j < s.len() ==> addr_peer_id(#[trigger] s[i]) != addr_peer_id(
                #[trigger] s[j],
            ),
        forall|i: int| 0 <= i < s.len() ==> !pm_contains(m, addr_peer_id(#[trigger] s[i])),
    ensures
        spec_seed_fold(s, Some(m)) matches Some(mm) && (forall|k: Seq<char>|
            pm_contains(mm, k) <==> (pm_contains(m, k) || exists|i: int|
                0 <= i < s.len() && addr_peer_id(#[trigger] s[i]) == k)),
    decreases s.len(),
{
    if s.len() == 0 {
        let mm = spec_seed_fold(s, Some(m))->Some_0;
        assert(mm == m);
        assert forall|k: Seq<char>| pm_contains(mm, k) <==> (pm_contains(m, k) || exists|i: int|
            0 <= i < s.len() && addr_peer_id(#[trigger] s[i]) == k) by {
            if exists|i: int| 0 <= i < s.len() && addr_peer_id(#[trigger] s[i]) == k {
                let i0 = choose|i: int| 0 <= i < s.len() && addr_peer_id(#[trigger] s[i]) == k;
                assert(false);
            }
        }
    } else {
        let id0 = addr_peer_id(s[0]);
        let e = (
            id0,
            PeerView {
                addr: s[0],
                connection: ConnectionStatus::Disconnected,
                persistent: true,
                private: false,
            },
        );
        assert(!pm_contains(m, id0));
        let m1 = pm_insert_sorted(m, e);
        assert(spec_seed_step(Some(m), s[0]) == Some(m1));
        assert forall|i: int|
            0 <= i < s.skip(1).len() implies addr_has_peer_id(#[trigger] s.skip(1)[i])
            && addr_peer_id(s.skip(1)[i]) != id0 && !pm_contains(m, addr_peer_id(s.skip(1)[i]))
            && !pm_contains(m1, addr_peer_id(s.skip(1)[i])) by {
            assert(s.skip(1)[i] == s[i + 1]);
            lemma_pm_insert_contains(m, e, addr_peer_id(s[i + 1]));
        }
        assert forall|i: int, j: int|
            0 <= i < j < s.skip(1).len() implies addr_peer_id(#[trigger] s.skip(1)[i])
            != addr_peer_id(#[trigger] s.skip(1)[j]) by {
            assert(s.skip(1)[i] == s[i + 1]);
            assert(s.skip(1)[j] == s[j + 1]);
        }
        lemma_seed_fold_builds(s.skip(1), m1);
        let mm = spec_seed_fold(s, Some(m))->Some_0;
        assert forall|k: Seq<char>| pm_contains(mm, k) <==> (pm_contains(m, k) || exists|i: int|
            0 <= i < s.len() && addr_peer_id(#[trigger] s[i]) == k) by {
            lemma_pm_insert_contains(m, e, k);
            if pm_contains(mm, k) {
                if !pm_contains(m, k) {
                    if k == id0 {
                        assert(addr_peer_id(s[0]) == k);
                    } else {
                        let i1 = choose|i: int|
                            0 <= i < s.skip(1).len() && addr_peer_id(#[trigger] s.skip(1)[i])
                                == k;
                        assert(addr_peer_id(s[i1 + 1]) == k);
                    }
                }
            }
            if exists|i: int| 0 <= i < s.len() && addr_peer_id(#[trigger] s[i]) == k {
                let i0 = choose|i: int| 0 <= i < s.len() && addr_peer_id(#[trigger] s[i]) == k;
                if i0 == 0 {
                    assert(pm_contains(m1, k));
                } else {
                    assert(s.skip(1)[i0 - 1] == s[i0]);
                    assert(exists|i: int|
                        0 <= i < s.skip(1).len() && addr_peer_id(#[trigger] s.skip(1)[i]) == k);
                }
            }
        }
    }
}

/// Marking succeeds when every private ID is among the map's keys, and
/// the key set stays as it is.
proof fn lemma_mark_fold_builds(ids: Seq<Seq<char>>, m: PeerMapView)
    requires
        forall|j: int| 0 <= j < ids.len() ==> pm_contains(m, #[trigger] ids[j]),
    ensures
        spec_mark_fold(ids, Some(m)) matches Some(mm) && (forall|k: Seq<char>|
            pm_contains(mm, k) <==> pm_contains(m, k)),
    decreases ids.len(),
{
    if ids.len() > 0 {
        assert(pm_contains(m, ids[0]));
        let j0 = pm_index(m, ids[0])->Some_0;
        lemma_pm_index_range(m, ids[0]);
        let p = PeerView { private: true, ..m[j0].1 };
        let m1 = m.update(j0, (m[j0].0, p));
        assert(spec_mark_private_step(Some(m), ids[0]) == Some(m1));
        assert forall|k: Seq<char>| pm_contains(m1, k) <==> pm_contains(m, k) by {
            lemma_pm_index_update_stable(m, j0, p, k);
        }
        assert forall|j: int| 0 <= j < ids.skip(1).len() implies pm_contains(
            m1,
            #[trigger] ids.skip(1)[j],
        ) by {
            assert(ids.skip(1)[j] == ids[j + 1]);
            lemma_pm_index_update_stable(m, j0, p, ids[j + 1]);
        }
        lemma_mark_fold_builds(ids.skip(1), m1);
    }
}

/// A well-formed peer configuration always builds: when every persistent
/// peer is a TCP address carrying a peer ID, the IDs are pairwise
/// distinct, and every configured private ID is among them, the configured
/// map exists — and its keys are exactly the configured persistent IDs.
pub proof fn lemma_peer_map_builds(persistent: Seq<AddressView>, private_ids: Seq<Seq<char>>)
    requires
        forall|i: int| 0 <= i < persistent.len() ==> addr_has_peer_id(#[trigger] persistent[i]),
        forall|i: int, j: int|
            0 <= i < j < persistent.len() ==> addr_peer_id(#[trigger] persistent[i])
                != addr_peer_id(#[trigger] persistent[j]),
        forall|j: int|
            0 <= j < private_ids.len() ==> exists|i: int|
                0 <= i < persistent.len() && addr_peer_id(#[trigger] persistent[i]) == #[trigger] private_ids[j],
    ensures
        spec_peer_map(persistent, private_ids) matches Some(m) && (forall|k: Seq<char>|
            pm_contains(m, k) <==> exists|i: int|
                0 <= i < persistent.len() && addr_peer_id(#[trigger] persistent[i]) == k),
{
    let empty = Seq::<(Seq<char>, PeerView)>::empty();
    assert forall|i: int| 0 <= i < persistent.len() implies !pm_contains(
        empty,
        addr_peer_id(#[trigger] persistent[i]),
    ) by {
    }
    lemma_seed_fold_builds(persistent, empty);
    let ms = spec_seed_fold(persistent, Some(empty))->Some_0;
    assert forall|j: int| 0 <= j < private_ids.len() implies pm_contains(
        ms,
        #[trigger] private_ids[j],
    ) by {
        let i0 = choose|i: int|
            0 <= i < persistent.len() && addr_peer_id(#[trigger] persistent[i])
                == private_ids[j];
        assert(exists|i: int|
            0 <= i < persistent.len() && addr_peer_id(#[trigger] persistent[i])
                == private_ids[j]);
    }
    lemma_mark_fold_builds(private_ids, ms);
}

/// Every entry of a sorted insertion is the inserted one or one of the
/// map's.
proof fn lemma_pm_insert_elem_of(m: PeerMapView, e: (Seq<char>, PeerView))
    ensures
        forall|i: int|
            0 <= i < pm_insert_sorted(m, e).len() ==> (#[trigger] pm_insert_sorted(m, e)[i] == e
                || exists|j: int| 0 <= j < m.len() && m[j] == pm_insert_sorted(m, e)[i]),
    decreases m.len(),
{
    let ins = pm_insert_sorted(m, e);
    if m.len() == 0 {
        assert(ins[0] == e);
    } else if spec_str_le(m[0].0, e.0) {
        let rec = pm_insert_sorted(m.skip(1), e);
        assert(ins =~= seq![m[0]] + rec);
        lemma_pm_insert_elem_of(m.skip(1), e);
        assert forall|i: int|
            0 <= i < ins.len() implies (#[trigger] ins[i] == e || exists|j: int|
            0 <= j < m.len() && m[j] == ins[i]) by {
            if i == 0 {
                assert(m[0] == ins[0]);
            } else {
                assert(ins[i] == rec[i - 1]);
                if rec[i - 1] != e {
                    let j1 = choose|j: int|
                        0 <= j < m.skip(1).len() && m.skip(1)[j] == rec[i - 1];
                    assert(m[j1 + 1] == rec[i - 1]);
                }
            }
        }
    } else {
        assert(ins =~= seq![e] + m);
        assert forall|i: int|
            0 <= i < ins.len() implies (#[trigger] ins[i] == e || exists|j: int|
            0 <= j < m.len() && m[j] == ins[i]) by {
            if i > 0 {
                assert(m[i - 1] == ins[i]);
            }
        }
    }
}

/// Seeding marks nothing private.
proof fn lemma_seed_fold_private_false(s: Seq<AddressView>, m: PeerMapView)
    requires
        forall|idx: int| 0 <= idx < m.len() ==> !(#[trigger] m[idx]).1.private,
    ensures
        spec_seed_fold(s, Some(m)) matches Some(mm) ==> forall|idx: int|
            0 <= idx < mm.len() ==> !(#[trigger] mm[idx]).1.private,
    decreases s.len(),
{
    if s.len() > 0 {
        let step = spec_seed_step(Some(m), s[0]);
        if step is Some {
            let m1 = step->Some_0;
            let id0 = addr_peer_id(s[0]);
            let e = (
                id0,
                PeerView {
                    addr: s[0],
                    connection: ConnectionStatus::Disconnected,
                    persistent: true,
                    private: false,
                },
            );
            assert(m1 == pm_insert_sorted(m, e));
            lemma_pm_insert_elem_of(m, e);
            assert forall|idx: int| 0 <= idx < m1.len() implies !(#[trigger] m1[idx]).1.private by {
                if m1[idx] != e {
                    let j = choose|j: int| 0 <= j < m.len() && m[j] == m1[idx];
                    assert(!m[j].1.private);
                }
            }
            lemma_seed_fold_private_false(s.skip(1), m1);
        } else {
            lemma_seed_fold_none(s.skip(1));
        }
    }
}

/// Marking touches only the listed IDs: a private flag in the marked map
/// was already set, or its key is one of the listed IDs.
proof fn lemma_mark_fold_private_only(ids: Seq<Seq<char>>, m: PeerMapView)
    ensures
        spec_mark_fold(ids, Some(m)) matches Some(mm) ==> forall|k: Seq<char>|
            pm_has_private(mm, k) ==> (pm_has_private(m, k) || exists|j: int|
                0 <= j < ids.len() && #[trigger] ids[j] == k),
    decreases ids.len(),
{
    if ids.len() > 0 {
        let step = spec_mark_private_step(Some(m), ids[0]);
        if step is Some {
            let m1 = step->Some_0;
            let j0 = pm_index(m, ids[0])->Some_0;
            lemma_pm_index_range(m, ids[0]);
            let p = PeerView { private: true, ..m[j0].1 };
            assert(m1 == m.update(j0, (m[j0].0, p)));
            lemma_mark_fold_private_only(ids.skip(1), m1);
            if spec_mark_fold(ids, Some(m)) is Some {
                let mm = spec_mark_fold(ids, Some(m))->Some_0;
                assert forall|k: Seq<char>| pm_has_private(mm, k) implies (pm_has_private(m, k)
                    || exists|j: int| 0 <= j < ids.len() && #[trigger] ids[j] == k) by {
                    if pm_has_private(m1, k) {
                        lemma_pm_index_range(m1, k);
                        lemma_pm_index_update_stable(m, j0, p, k);
                        let jk = pm_index(m1, k)->Some_0;
                        if jk == j0 {
                            assert(m1[j0].0 == m[j0].0);
                            assert(ids[0] == k);
                        } else {
                            assert(m1[jk] == m[jk]);
                        }
                    } else {
                        let j1 = choose|j: int|
                            0 <= j < ids.skip(1).len() && #[trigger] ids.skip(1)[j] == k;
                        assert(ids[j1 + 1] == k);
                    }
                }
            }
        } else {
            lemma_mark_fold_none(ids.skip(1));
        }
    }
}

/// Private flags come only from the configuration: in the configured map,
/// an entry is flagged private only when its key is a listed private ID.
pub proof fn lemma_private_only_listed(
    persistent: Seq<AddressView>,
    private_ids: Seq<Seq<char>>,
    m: PeerMapView,
)
    requires
        spec_peer_map(persistent, private_ids) == Some(m),
    ensures
        forall|k: Seq<char>|
            pm_has_private(m, k) ==> exists|j: int|
                0 <= j < private_ids.len() && #[trigger] private_ids[j] == k,
{
    let empty = Seq::<(Seq<char>, PeerView)>::empty();
    let seeded = spec_seed_fold(persistent, Some(empty));
    if seeded is Some {
        let ms = seeded->Some_0;
        lemma_seed_fold_private_false(persistent, empty);
        lemma_mark_fold_private_only(private_ids, ms);
        assert forall|k: Seq<char>| pm_has_private(m, k) implies exists|j: int|
            0 <= j < private_ids.len() && #[trigger] private_ids[j] == k by {
            if pm_has_private(ms, k) {
                lemma_pm_index_range(ms, k);
                let jk = pm_index(ms, k)->Some_0;
                assert(!ms[jk].1.private);
            }
        }
    } else {
        lemma_mark_fold_none(private_ids);
    }
}

/// Updating a peer in place keeps the keys sorted.
proof fn lemma_update_keeps_sorted(m: PeerMapView, j0: int, p: PeerView)
    requires
        pm_sorted(m),
        0 <= j0 < m.len(),
    ensures
        pm_sorted(m.update(j0, (m[j0].0, p))),
{
    let m2 = m.update(j0, (m[j0].0, p));
    assert forall|i: int, j: int|
        0 <= i < j < m2.len() implies spec_str_le((#[trigger] m2[i]).0, (#[trigger] m2[j]).0) by {
        assert(m2[i].0 == m[i].0);
        assert(m2[j].0 == m[j].0);
    }
}

/// Sorted insertion keeps the keys sorted.
proof fn lemma_insert_sorted_sorted(m: PeerMapView, e: (Seq<char>, PeerView))
    requires
        pm_sorted(m),
    ensures
        pm_sorted(pm_insert_sorted(m, e)),
    decreases m.len(),
{
    let ins = pm_insert_sorted(m, e);
    if m.len() == 0 {
    } else if spec_str_le(m[0].0, e.0) {
        let rest = m.skip(1);
        assert forall|i: int, j: int|
            0 <= i < j < rest.len() implies spec_str_le(
            (#[trigger] rest[i]).0,
            (#[trigger] rest[j]).0,
        ) by {
            assert(rest[i] == m[i + 1]);
            assert(rest[j] == m[j + 1]);
        }
        lemma_insert_sorted_sorted(rest, e);
        let rec = pm_insert_sorted(rest, e);
        assert(ins =~= seq![m[0]] + rec);
        assert(rec.len() > 0);
        if rest.len() == 0 {
            assert(rec[0] == e);
        } else if spec_str_le(rest[0].0, e.0) {
            assert(rec[0] == rest[0]);
            assert(rest[0] == m[1]);
        } else {
            assert(rec[0] == e);
        }
        assert(spec_str_le(m[0].0, rec[0].0));
        assert forall|i: int, j: int|
            0 <= i < j < ins.len() implies spec_str_le(
            (#[trigger] ins[i]).0,
            (#[trigger] ins[j]).0,
        ) by {
            if i == 0 {
                assert(ins[j] == rec[j - 1]);
                if j - 1 > 0 {
                    assert(spec_str_le(rec[0].0, rec[j - 1].0));
                    lemma_str_le_trans(m[0].0, rec[0].0, rec[j - 1].0);
                }
            } else {
                assert(ins[i] == rec[i - 1]);
                assert(ins[j] == rec[j - 1]);
            }
        }
    } else {
        lemma_str_le_total(m[0].0, e.0);
        assert(ins =~= seq![e] + m);
        assert forall|i: int, j: int|
            0 <= i < j < ins.len() implies spec_str_le(
            (#[trigger] ins[i]).0,
            (#[trigger] ins[j]).0,
        ) by {
            if i == 0 {
                assert(ins[j] == m[j - 1]);
                if j - 1 > 0 {
                    assert(spec_str_le(m[0].0, m[j - 1].0));
                    lemma_str_le_trans(e.0, m[0].0, m[j - 1].0);
                }
            } else {
                assert(ins[i] == m[i - 1]);
                assert(ins[j] == m[j - 1]);
            }
        }
    }
}

/// Seeding keeps the map sorted.
proof fn lemma_seed_fold_sorted(s: Seq<AddressView>, m: PeerMapView)
    requires
        pm_sorted(m),
    ensures
        spec_seed_fold(s, Some(m)) matches Some(mm) ==> pm_sorted(mm),
    decreases s.len(),
{
    if s.len() > 0 {
        let step = spec_seed_step(Some(m), s[0]);
        if step is Some {
            let m1 = step->Some_0;
            match s[0] {
                AddressView::Tcp { peer_id, host, port } => {
                    match peer_id {
                        Some(id) => {
                            lemma_insert_sorted_sorted(
                                m,
                                (
                                    id,
                                    PeerView {
                                        addr: s[0],
                                        connection: ConnectionStatus::Disconnected,
                                        persistent: true,
                                        private: false,
                                    },
                                ),
                            );
                        },
                        None => {
                        },
                    }
                },
                _ => {
                },
            }
            lemma_seed_fold_sorted(s.skip(1), m1);
        } else {
            lemma_seed_fold_none(s.skip(1));
        }
    }
}

/// Marking private peers keeps the map sorted.
proof fn lemma_mark_fold_sorted(s: Seq<Seq<char>>, m: PeerMapView)
    requires
        pm_sorted(m),
    ensures
        spec_mark_fold(s, Some(m)) matches Some(mm) ==> pm_sorted(mm),
    decreases s.len(),
{
    if s.len() > 0 {
        let step = spec_mark_private_step(Some(m), s[0]);
        if step is Some {
            let m1 = step->Some_0;
            let j0 = pm_index(m, s[0])->Some_0;
            lemma_pm_index_range(m, s[0]);
            lemma_update_keeps_sorted(m, j0, PeerView { private: true, ..m[j0].1 });
            lemma_mark_fold_sorted(s.skip(1), m1);
        } else {
            lemma_mark_fold_none(s.skip(1));
        }
    }
}

/// Merging RPC-reported peers keeps the map sorted.
proof fn lemma_merge_keeps_sorted(rpc: Seq<RpcPeerView>, m: PeerMapView)
    requires
        pm_sorted(m),
    ensures
        pm_sorted(spec_merge(m, rpc)),
    decreases rpc.len(),
{
    if rpc.len() > 0 {
        let m1 = spec_merge_step(m, rpc[0]);
        let conn = if rpc[0].is_outbound {
            ConnectionStatus::Out
        } else {
            ConnectionStatus::In
        };
        match pm_index(m, rpc[0].node_id) {
            Some(j0) => {
                lemma_pm_index_range(m, rpc[0].node_id);
                lemma_update_keeps_sorted(m, j0, PeerView { connection: conn, ..m[j0].1 });
            },
            None => {
                match spec_parse_address(rpc[0].listen_addr) {
                    Some(AddressView::Tcp { peer_id: pid, host: h, port }) => {
                        lemma_insert_sorted_sorted(
                            m,
                            (
                                rpc[0].node_id,
                                PeerView {
                                    addr: AddressView::Tcp {
                                        peer_id: Some(rpc[0].node_id),
                                        host: rpc[0].remote_ip,
                                        port: port,
                                    },
                                    connection: conn,
                                    persistent: false,
                                    private: false,
                                },
                            ),
                        );
                    },
                    _ => {
                    },
                }
            },
        }
        lemma_merge_keeps_sorted(rpc.skip(1), m1);
    }
}

/// The merged peer map is ordered by node ID: both the configured map and
/// the map after any sequence of RPC reports keep their entries — and so
/// the peer list read off them — in key order, the way a key-sorted map
/// iterates.
pub proof fn lemma_merged_map_sorted(
    persistent: Seq<AddressView>,
    private_ids: Seq<Seq<char>>,
    rpc: Seq<RpcPeerView>,
    m0: PeerMapView,
)
    requires
        spec_peer_map(persistent, private_ids) == Some(m0),
    ensures
        pm_sorted(m0),
        pm_sorted(spec_merge(m0, rpc)),
{
    let seeded = spec_seed_fold(persistent, Some(Seq::<(Seq<char>, PeerView)>::empty()));
    if seeded is Some {
        let ms = seeded->Some_0;
        lemma_seed_fold_sorted(persistent, Seq::<(Seq<char>, PeerView)>::empty());
        lemma_mark_fold_sorted(private_ids, ms);
        lemma_merge_keeps_sorted(rpc, m0);
    } else {
        lemma_mark_fold_none(private_ids);
    }
}

/// Peer-merge law: whatever the RPC endpoint reports, every configured
/// persistent peer keeps an entry flagged `persistent = true` in the merged
/// map, and every configured private peer ID keeps an entry flagged
/// `private = true`.
pub proof fn lemma_peer_merge_keeps_config(
    persistent: Seq<AddressView>,
    private_ids: Seq<Seq<char>>,
    rpc: Seq<RpcPeerView>,
    m0: PeerMapView,
)
    requires
        spec_peer_map(persistent, private_ids) == Some(m0),
    ensures
        forall|i: int|
            0 <= i < persistent.len() ==> addr_has_peer_id(#[trigger] persistent[i])
                && pm_has_persistent(spec_merge(m0, rpc), addr_peer_id(persistent[i])),
        forall|j: int|
            0 <= j < private_ids.len() ==> pm_has_private(
                spec_merge(m0, rpc),
                #[trigger] private_ids[j],
            ),
{
    let seeded = spec_seed_fold(persistent, Some(Seq::<(Seq<char>, PeerView)>::empty()));
    if seeded is Some {
        let ms = seeded->Some_0;
        lemma_seed_fold_props(persistent, Seq::<(Seq<char>, PeerView)>::empty());
        lemma_mark_fold_props(private_ids, ms);
        lemma_merge_fold_props(rpc, m0);
    } else {
        lemma_mark_fold_none(private_ids);
    }
}

/// The message one peers diff produces: the merged list exactly when it
/// differs from the previous one or a full report is due.
pub open spec fn spec_peers_messages(
    prev: Seq<PeerView>,
    merged: Seq<PeerView>,
    force: bool,
) -> Seq<MessageView> {
    if merged != prev || force {
        seq![MessageView::Peers(merged)]
    } else {
        Seq::empty()
    }
}

/// Node-ID-keyed peer map kept in key order, the way a key-sorted map
/// iterates.
#[derive(Debug)]
pub struct PeerMap {
    /// The entries, keys unique
    pub entries: Vec<(String, Peer)>,
}

impl View for PeerMap {
    type V = PeerMapView;

    open spec fn view(&self) -> PeerMapView {
        Seq::new(self.entries@.len(), |i: int| (self.entries@[i].0@, self.entries@[i].1@))
    }
}

/// Sorted insertion places the entry exactly at the first position whose
/// key exceeds the new key.
proof fn lemma_insert_sorted_at(m: PeerMapView, e: (Seq<char>, PeerView), j: int)
    requires
        0 <= j <= m.len(),
        forall|i: int| 0 <= i < j ==> spec_str_le((#[trigger] m[i]).0, e.0),
        j < m.len() ==> !spec_str_le(m[j].0, e.0),
    ensures
        pm_insert_sorted(m, e) =~= m.take(j) + seq![e] + m.skip(j),
    decreases j,
{
    if j == 0 {
        if m.len() == 0 {
            assert(m.take(0) =~= Seq::<(Seq<char>, PeerView)>::empty());
            assert(m.skip(0) =~= m);
        } else {
            assert(m.take(0) =~= Seq::<(Seq<char>, PeerView)>::empty());
            assert(m.skip(0) =~= m);
        }
    } else {
        assert(spec_str_le(m[0].0, e.0));
        let rest = m.skip(1);
        assert forall|i: int| 0 <= i < j - 1 implies spec_str_le(
            (#[trigger] rest[i]).0,
            e.0,
        ) by {
            assert(rest[i] == m[i + 1]);
        }
        if j - 1 < rest.len() {
            assert(rest[j - 1] == m[j]);
        }
        lemma_insert_sorted_at(rest, e, j - 1);
        assert(rest.take(j - 1) =~= m.subrange(1, j));
        assert(rest.skip(j - 1) =~= m.skip(j));
        assert(pm_insert_sorted(m, e) =~= seq![m[0]] + pm_insert_sorted(rest, e));
        assert(pm_insert_sorted(m, e) =~= m.take(j) + seq![e] + m.skip(j));
    }
}

impl PeerMap {
    /// An empty map.
    pub fn new() -> (r: PeerMap)
        ensures
            r@ =~= Seq::<(Seq<char>, PeerView)>::empty(),
    {
        PeerMap { entries: Vec::new() }
    }

    /// Insert an entry at its key-sorted position.
    pub fn insert_sorted(&mut self, key: String, peer: Peer)
        ensures
            final(self)@ =~= pm_insert_sorted(old(self)@, (key@, peer@)),
    {
        let n = self.entries.len();
        let mut j: usize = 0;
        while j < n && str_le(self.entries[j].0.as_str(), key.as_str())
            invariant
                j <= n,
                n == self.entries@.len(),
                self@ == old(self)@,
                forall|i: int| 0 <= i < j ==> spec_str_le((#[trigger] self@[i]).0, key@),
            decreases n - j,
        {
            j = j + 1;
        }
        let ghost before = self@;
        let ghost e = (key@, peer@);
        proof {
            lemma_insert_sorted_at(before, e, j as int);
        }
        self.entries.insert(j, (key, peer));
        proof {
            self.entries@.insert_ensures(j as int, self.entries@[j as int]);
            assert forall|i: int| 0 <= i < self@.len() implies #[trigger] self@[i] == (
            before.take(j as int) + seq![e] + before.skip(j as int))[i] by {
                if i < j {
                    assert(self.entries@[i] == self.entries@[i]);
                } else if i == j {
                    assert(self.entries@[j as int] == self.entries@[j as int]);
                } else {
                    assert(self.entries@[i] == self.entries@[i]);
                }
            }
            assert(self@ =~= before.take(j as int) + seq![e] + before.skip(j as int));
        }
    }

    /// Index of the entry with key `k`, if any.
    pub fn index_of(&self, k: &str) -> (r: Option<usize>)
        ensures
            match r {
                Some(j) => pm_index(self@, k@) == Some(j as int) && j < self.entries@.len(),
                None => pm_index(self@, k@) is None,
            },
    {
        let n = self.entries.len();
        let mut i: usize = 0;
        proof {
            assert(self@.skip(0) =~= self@);
        }
        while i < n
            invariant
                i <= n,
                n == self.entries@.len(),
                (match pm_index(self@.skip(i as int), k@) {
                    Some(j) => pm_index(self@, k@) == Some(j + i),
                    None => pm_index(self@, k@) is None,
                }),
            decreases n - i,
        {
            proof {
                assert(self@.skip(i as int)[0] == self@[i as int]);
                assert(self@.skip(i as int).skip(1) =~= self@.skip(i as int + 1));
            }
            if crate::text::str_eq(self.entries[i].0.as_str(), k) {
                return Some(i);
            }
            i = i + 1;
        }
        proof {
            assert(self@.skip(n as int) =~= Seq::<(Seq<char>, PeerView)>::empty());
        }
        None
    }

    /// The peers, in entry order — node-ID order, since the entries are
    /// kept key-sorted.
    pub fn values(&self) -> (r: Vec<Peer>)
        ensures
            r.deep_view() =~= pm_values(self@),
    {
        let mut out: Vec<Peer> = Vec::new();
        let n = self.entries.len();
        let mut i: usize = 0;
        while i < n
            invariant
                i <= n,
                n == self.entries@.len(),
                out@.len() == i,
                forall|j: int| 0 <= j < i ==> (#[trigger] out@[j])@ == self.entries@[j].1@,
            decreases n - i,
        {
            out.push(self.entries[i].1.clone());
            i = i + 1;
        }
        proof {
            assert forall|j: int| 0 <= j < n implies out.deep_view()[j] == pm_values(self@)[j] by {
                assert(out@[j]@ == self.entries@[j].1@);
            }
            assert(out.deep_view() =~= pm_values(self@));
        }
        out
    }
}

/// View of the network information monitor.
pub struct NetInfoView {
    /// Persistent peers from the configuration
    pub persistent_peers: Seq<AddressView>,

    /// Private peer IDs from the configuration
    pub private_peer_ids: Seq<Seq<char>>,

    /// Previous peer list
    pub peers: Seq<PeerView>,
}

/// Network information monitor: tracks the peers of the `/net_info`
/// endpoint, merged with the configured persistent and private peers.
#[derive(Debug)]
pub struct NetInfo {
    /// Persistent peers from the configuration
    pub persistent_peers: Vec<Address>,

    /// Private peer IDs from the configuration
    pub private_peer_ids: Vec<String>,

    /// Previous peer list
    pub peers: Vec<Peer>,
}

impl View for NetInfo {
    type V = NetInfoView;

    open spec fn view(&self) -> NetInfoView {
        NetInfoView {
            persistent_peers: self.persistent_peers.deep_view(),
            private_peer_ids: self.private_peer_ids.deep_view(),
            peers: self.peers.deep_view(),
        }
    }
}

impl NetInfo {
    /// Create a new network information monitor.
    pub fn new(persistent_peers: Vec<Address>, private_peer_ids: Vec<String>) -> (r: NetInfo)
        ensures
            r@.persistent_peers == persistent_peers.deep_view(),
            r@.private_peer_ids == private_peer_ids.deep_view(),
            r@.peers =~= Seq::<PeerView>::empty(),
    {
        NetInfo { persistent_peers, private_peer_ids, peers: Vec::new() }
    }

    /// Create the peer map seeded from the configuration values: every
    /// persistent peer, with every configured private ID marked.
    ///
    /// Fails with a `ConfigError` exactly when a persistent peer has no
    /// TCP address with a peer ID, two persistent peers share a node ID,
    /// or a private peer ID is unknown.
    pub fn peer_map(&self) -> (r: Result<PeerMap, Error>)
        ensures
            match r {
                Ok(pm) => spec_peer_map(self@.persistent_peers, self@.private_peer_ids) == Some(
                    pm@,
                ),
                Err(e) => spec_peer_map(self@.persistent_peers, self@.private_peer_ids) is None
                    && e.kind == ErrorKind::ConfigError,
            },
    {
        let ghost gpersistent = self@.persistent_peers;
        let ghost gprivate = self@.private_peer_ids;
        let mut map = PeerMap::new();
        let n = self.persistent_peers.len();
        let mut i: usize = 0;
        proof {
            assert(gpersistent.skip(0) =~= gpersistent);
            assert(map@ =~= Seq::<(Seq<char>, PeerView)>::empty());
        }
        while i < n
            invariant
                i <= n,
                n == self.persistent_peers@.len(),
                gpersistent == self@.persistent_peers,
                gprivate == self@.private_peer_ids,
                gpersistent.len() == n,
                spec_seed_fold(gpersistent, Some(Seq::<(Seq<char>, PeerView)>::empty()))
                    == spec_seed_fold(gpersistent.skip(i as int), Some(map@)),
            decreases n - i,
        {
            let addr = &self.persistent_peers[i];
            proof {
                assert(gpersistent[i as int] == self.persistent_peers@[i as int]@);
                assert(gpersistent.skip(i as int)[0] == gpersistent[i as int]);
                assert(gpersistent.skip(i as int).skip(1) =~= gpersistent.skip(i as int + 1));
            }
            let ghost before = map@;
            let is_ok: Option<&String> = match addr {
                Address::Tcp { peer_id: Some(id), .. } => Some(id),
                _ => None,
            };
            match is_ok {
                Some(id) => {
                    match map.index_of(id.as_str()) {
                        Some(_) => {
                            proof {
                                assert(spec_seed_step(Some(before), gpersistent[i as int])
                                    is None);
                                lemma_seed_fold_none(gpersistent.skip(i as int + 1));
                                lemma_mark_fold_none(gprivate);
                            }
                            return Err(
                                Error::new(
                                    ErrorKind::ConfigError,
                                    "duplicate persistent_peer node ID".to_owned(),
                                ),
                            );
                        },
                        None => {
                            let peer = Peer {
                                addr: addr.clone(),
                                connection: ConnectionStatus::Disconnected,
                                persistent: true,
                                private: false,
                            };
                            map.insert_sorted(id.clone(), peer);
                            proof {
                                assert(map@ =~= pm_insert_sorted(
                                    before,
                                    (
                                        id@,
                                        PeerView {
                                            addr: gpersistent[i as int],
                                            connection: ConnectionStatus::Disconnected,
                                            persistent: true,
                                            private: false,
                                        },
                                    ),
                                ));
                                assert(spec_seed_step(Some(before), gpersistent[i as int])
                                    == Some(map@));
                            }
                        },
                    }
                },
                None => {
                    proof {
                        assert(spec_seed_step(Some(before), gpersistent[i as int]) is None);
                        lemma_seed_fold_none(gpersistent.skip(i as int + 1));
                        lemma_mark_fold_none(gprivate);
                    }
                    return Err(
                        Error::new(
                            ErrorKind::ConfigError,
                            "unsupported persistent_peer addr".to_owned(),
                        ),
                    );
                },
            }
            i = i + 1;
        }
        proof {
            assert(gpersistent.skip(n as int) =~= Seq::<AddressView>::empty());
            assert(gprivate.skip(0) =~= gprivate);
        }
        // Mark configured private peers
        let pn = self.private_peer_ids.len();
        let mut j: usize = 0;
        while j < pn
            invariant
                j <= pn,
                pn == self.private_peer_ids@.len(),
                gprivate == self@.private_peer_ids,
                gpersistent == self@.persistent_peers,
                gprivate.len() == pn,
                spec_peer_map(gpersistent, gprivate) == spec_mark_fold(
                    gprivate.skip(j as int),
                    Some(map@),
                ),
            decreases pn - j,
        {
            proof {
                assert(gprivate[j as int] == self.private_peer_ids@[j as int]@);
                assert(gprivate.skip(j as int)[0] == gprivate[j as int]);
                assert(gprivate.skip(j as int).skip(1) =~= gprivate.skip(j as int + 1));
            }
            let ghost before = map@;
            let id = &self.private_peer_ids[j];
            match map.index_of(id.as_str()) {
                Some(k) => {
                    let key = map.entries[k].0.clone();
                    let peer = map.entries[k].1.clone();
                    map.entries.set(k, (key, Peer { private: true, ..peer }));
                    proof {
                        assert(map@ =~= before.update(
                            k as int,
                            (before[k as int].0, PeerView { private: true, ..before[k as int].1 }),
                        ));
                        assert(spec_mark_private_step(Some(before), gprivate[j as int]) == Some(
                            map@,
                        ));
                    }
                },
                None => {
                    proof {
                        assert(spec_mark_private_step(Some(before), gprivate[j as int]) is None);
                        lemma_mark_fold_none(gprivate.skip(j as int + 1));
                    }
                    return Err(
                        Error::new(ErrorKind::ConfigError, "unkown private_peer_id".to_owned()),
                    );
                },
            }
            j = j + 1;
        }
        proof {
            assert(gprivate.skip(pn as int) =~= Seq::<Seq<char>>::empty());
        }
        Ok(map)
    }

    /// Merge the RPC-reported peers into the configured map, absorb the
    /// resulting node-ID-ordered peer list, and return a peers message
    /// exactly when the merged list differs from the previous one or a
    /// full report is due.
    ///
    /// Fails with a `ConfigError` exactly when the configured map itself
    /// cannot be built; reported peers never make it fail.
    pub fn update(&mut self, rpc_peers: &Vec<RpcPeer>, force: bool) -> (r: Result<
        Vec<Message>,
        Error,
    >)
        ensures
            match r {
                Ok(msgs) => spec_peer_map(
                    old(self)@.persistent_peers,
                    old(self)@.private_peer_ids,
                ) matches Some(m0) && {
                    let merged = pm_values(spec_merge(m0, rpc_peers.deep_view()));
                    &&& final(self)@.persistent_peers == old(self)@.persistent_peers
                    &&& final(self)@.private_peer_ids == old(self)@.private_peer_ids
                    &&& final(self)@.peers == merged
                    &&& msgs.deep_view() == spec_peers_messages(old(self)@.peers, merged, force)
                },
                Err(e) => spec_peer_map(old(self)@.persistent_peers, old(self)@.private_peer_ids)
                    is None && e.kind == ErrorKind::ConfigError && final(self)@ == old(self)@,
            },
    {
        let mut map = match self.peer_map() {
            Ok(m) => m,
            Err(e) => {
                return Err(e);
            },
        };
        let ghost m0 = map@;
        let ghost grpc = rpc_peers.deep_view();
        let n = rpc_peers.len();
        let mut i: usize = 0;
        proof {
            assert(grpc.skip(0) =~= grpc);
        }
        while i < n
            invariant
                i <= n,
                n == rpc_peers@.len(),
                grpc == rpc_peers.deep_view(),
                grpc.len() == n,
                spec_merge(m0, grpc) == spec_merge(map@, grpc.skip(i as int)),
            decreases n - i,
        {
            proof {
                assert(grpc[i as int] == rpc_peers@[i as int]@);
                assert(grpc.skip(i as int)[0] == grpc[i as int]);
                assert(grpc.skip(i as int).skip(1) =~= grpc.skip(i as int + 1));
            }
            let p = &rpc_peers[i];
            let conn = if p.is_outbound {
                ConnectionStatus::Out
            } else {
                ConnectionStatus::In
            };
            let ghost before = map@;
            match map.index_of(p.node_id.as_str()) {
                Some(k) => {
                    let key = map.entries[k].0.clone();
                    let peer = map.entries[k].1.clone();
                    map.entries.set(k, (key, Peer { connection: conn, ..peer }));
                    proof {
                        assert(map@ =~= before.update(
                            k as int,
                            (
                                before[k as int].0,
                                PeerView { connection: conn, ..before[k as int].1 },
                            ),
                        ));
                        assert(spec_merge_step(before, grpc[i as int]) == map@);
                    }
                },
                None => {
                    match Address::parse(p.listen_addr.as_str()) {
                        Ok(Address::Tcp { peer_id: _, host: _, port }) => {
                            let peer = Peer {
                                addr: Address::Tcp {
                                    peer_id: Some(p.node_id.clone()),
                                    host: p.remote_ip.clone(),
                                    port,
                                },
                                connection: conn,
                                persistent: false,
                                private: false,
                            };
                            map.insert_sorted(p.node_id.clone(), peer);
                            proof {
                                assert(map@ =~= pm_insert_sorted(
                                    before,
                                    (
                                        grpc[i as int].node_id,
                                        PeerView {
                                            addr: AddressView::Tcp {
                                                peer_id: Some(grpc[i as int].node_id),
                                                host: grpc[i as int].remote_ip,
                                                port: port,
                                            },
                                            connection: conn,
                                            persistent: false,
                                            private: false,
                                        },
                                    ),
                                ));
                                assert(spec_merge_step(before, grpc[i as int]) == map@);
                            }
                        },
                        _ => {
                            proof {
                                assert(spec_merge_step(before, grpc[i as int]) == map@);
                            }
                        },
                    }
                },
            }
            i = i + 1;
        }
        proof {
            assert(grpc.skip(n as int) =~= Seq::<RpcPeerView>::empty());
        }
        let peers = map.values();
        let mut output: Vec<Message> = Vec::new();
        if !peers_eq(&peers, &self.peers) || force {
            self.peers = clone_peers(&peers);
            output.push(Message::Peers(peers));
        }
        proof {
            assert(output.deep_view() =~= spec_peers_messages(
                old(self)@.peers,
                pm_values(spec_merge(m0, grpc)),
                force,
            ));
        }
        Ok(output)
    }
}

} // verus!
