//! Collector core: the per-network state registry and the request
//! dispatcher.
//!
//! Every request the collector serves — an agent envelope, a state query,
//! a pager drain, a poll event — runs through [`Collector::handle_request`]
//! on one worker, so network states are mutated without locks. The HTTP
//! surface, timers and sockets live in the embedding binary.

pub mod pager;
pub mod poller;
pub mod request;
pub mod response;
pub mod router;
pub mod state;

pub use self::request::{PollEvent, Request};
pub use self::response::Response;

use crate::error::{Error, ErrorKind};
use crate::message::Envelope;
use crate::metrics::MetricRecord;
use crate::network::tendermint::{
    spec_handle_message, spec_handle_records, spec_missed_page, spec_page_emits, NetworkView,
};
use crate::network::{tm_view, Network, NetworkKindView};
use crate::text::{lemma_str_le_total, lemma_str_le_trans, spec_str_le, str_le};
use vstd::prelude::*;

verus! {

/// Index of the first network with the given ID, if any.
pub open spec fn reg_index(nets: Seq<NetworkKindView>, id: Seq<char>) -> Option<int>
    decreases nets.len(),
{
    if nets.len() == 0 {
        None
    } else if tm_view(nets[0]).id == id {
        Some(0int)
    } else {
        match reg_index(nets.skip(1), id) {
            Some(j) => Some(j + 1),
            None => None,
        }
    }
}

/// No two networks share an ID.
pub open spec fn reg_unique(nets: Seq<NetworkKindView>) -> bool {
    forall|i: int, j: int|
        0 <= i < j < nets.len() ==> tm_view(#[trigger] nets[i]).id != tm_view(
            #[trigger] nets[j],
        ).id
}

/// The registry's IDs are in nondecreasing lexicographic order.
pub open spec fn reg_sorted(nets: Seq<NetworkKindView>) -> bool {
    forall|i: int, j: int|
        0 <= i < j < nets.len() ==> spec_str_le(
            tm_view(#[trigger] nets[i]).id,
            tm_view(#[trigger] nets[j]).id,
        )
}

/// The network inserted before the first network whose ID exceeds its own:
/// insertion that keeps an ID-sorted registry ID-sorted.
pub open spec fn reg_insert_sorted(nets: Seq<NetworkKindView>, x: NetworkKindView) -> Seq<
    NetworkKindView,
>
    decreases nets.len(),
{
    if nets.len() == 0 {
        seq![x]
    } else if spec_str_le(tm_view(nets[0]).id, tm_view(x).id) {
        seq![nets[0]] + reg_insert_sorted(nets.skip(1), x)
    } else {
        seq![x] + nets
    }
}

/// Registration of each configured network in turn, into ID order; a
/// network whose ID is already registered is a configuration error.
pub open spec fn spec_register(
    nets: Seq<NetworkKindView>,
    s: Seq<NetworkKindView>,
) -> Option<Seq<NetworkKindView>>
    decreases s.len(),
{
    if s.len() == 0 {
        Some(nets)
    } else if reg_index(nets, tm_view(s[0]).id) is Some {
        None
    } else {
        spec_register(reg_insert_sorted(nets, s[0]), s.skip(1))
    }
}

/// An ID is found exactly when some registered network carries it.
proof fn lemma_reg_index_exists(nets: Seq<NetworkKindView>, id: Seq<char>)
    ensures
        (reg_index(nets, id) is Some) <==> exists|i: int|
            0 <= i < nets.len() && tm_view(#[trigger] nets[i]).id == id,
    decreases nets.len(),
{
    if nets.len() > 0 {
        lemma_reg_index_exists(nets.skip(1), id);
        if tm_view(nets[0]).id != id {
            if exists|i: int| 0 <= i < nets.len() && tm_view(#[trigger] nets[i]).id == id {
                let i0 = choose|i: int|
                    0 <= i < nets.len() && tm_view(#[trigger] nets[i]).id == id;
                assert(nets.skip(1)[i0 - 1] == nets[i0]);
            }
            if exists|i: int|
                0 <= i < nets.skip(1).len() && tm_view(#[trigger] nets.skip(1)[i]).id == id {
                let i1 = choose|i: int|
                    0 <= i < nets.skip(1).len() && tm_view(#[trigger] nets.skip(1)[i]).id == id;
                assert(nets[i1 + 1] == nets.skip(1)[i1]);
            }
        }
    }
}

/// After a sorted insertion an ID is registered exactly when it was, or is
/// the inserted network's.
proof fn lemma_reg_insert_contains(nets: Seq<NetworkKindView>, x: NetworkKindView, id: Seq<char>)
    ensures
        (reg_index(reg_insert_sorted(nets, x), id) is Some) <==> ((reg_index(nets, id) is Some)
            || id == tm_view(x).id),
{
    let ins = reg_insert_sorted(nets, x);
    lemma_reg_index_exists(nets, id);
    lemma_reg_index_exists(ins, id);
    lemma_reg_insert_elems(nets, x);
    if reg_index(ins, id) is Some {
        let i0 = choose|i: int| 0 <= i < ins.len() && tm_view(#[trigger] ins[i]).id == id;
        assert(ins[i0] == x || exists|j: int| 0 <= j < nets.len() && nets[j] == ins[i0]);
    }
    if reg_index(nets, id) is Some {
        let j0 = choose|j: int| 0 <= j < nets.len() && tm_view(#[trigger] nets[j]).id == id;
        assert(exists|i: int| 0 <= i < ins.len() && ins[i] == nets[j0]);
    }
    if id == tm_view(x).id {
        assert(exists|i: int| 0 <= i < ins.len() && ins[i] == x);
    }
}

/// Sorted insertion neither loses nor invents networks.
proof fn lemma_reg_insert_elems(nets: Seq<NetworkKindView>, x: NetworkKindView)
    ensures
        forall|i: int|
            0 <= i < reg_insert_sorted(nets, x).len() ==> (#[trigger] reg_insert_sorted(
                nets,
                x,
            )[i] == x || exists|j: int| 0 <= j < nets.len() && nets[j] == reg_insert_sorted(
                nets,
                x,
            )[i]),
        forall|j: int|
            0 <= j < nets.len() ==> exists|i: int|
                0 <= i < reg_insert_sorted(nets, x).len() && reg_insert_sorted(nets, x)[i]
                    == #[trigger] nets[j],
        exists|i: int|
            0 <= i < reg_insert_sorted(nets, x).len() && #[trigger] reg_insert_sorted(
                nets,
                x,
            )[i] == x,
    decreases nets.len(),
{
    let ins = reg_insert_sorted(nets, x);
    if nets.len() == 0 {
        assert(ins[0] == x);
    } else if spec_str_le(tm_view(nets[0]).id, tm_view(x).id) {
        let rec = reg_insert_sorted(nets.skip(1), x);
        assert(ins =~= seq![nets[0]] + rec);
        lemma_reg_insert_elems(nets.skip(1), x);
        assert forall|i: int|
            0 <= i < ins.len() implies (#[trigger] ins[i] == x || exists|j: int|
            0 <= j < nets.len() && nets[j] == ins[i]) by {
            if i == 0 {
                assert(nets[0] == ins[0]);
            } else {
                assert(ins[i] == rec[i - 1]);
                if rec[i - 1] != x {
                    let j1 = choose|j: int|
                        0 <= j < nets.skip(1).len() && nets.skip(1)[j] == rec[i - 1];
                    assert(nets[j1 + 1] == rec[i - 1]);
                }
            }
        }
        assert forall|j: int|
            0 <= j < nets.len() implies exists|i: int|
            0 <= i < ins.len() && ins[i] == #[trigger] nets[j] by {
            if j == 0 {
                assert(ins[0] == nets[0]);
            } else {
                assert(nets.skip(1)[j - 1] == nets[j]);
                let i1 = choose|i: int| 0 <= i < rec.len() && rec[i] == nets.skip(1)[j - 1];
                assert(ins[i1 + 1] == rec[i1]);
            }
        }
        let ix = choose|i: int| 0 <= i < rec.len() && rec[i] == x;
        assert(ins[ix + 1] == rec[ix]);
    } else {
        assert(ins =~= seq![x] + nets);
        assert(ins[0] == x);
        assert forall|j: int|
            0 <= j < nets.len() implies exists|i: int|
            0 <= i < ins.len() && ins[i] == #[trigger] nets[j] by {
            assert(ins[j + 1] == nets[j]);
        }
    }
}

/// Registration succeeds exactly when no two configured networks share an
/// ID — two with the same chain ID are refused.
pub proof fn lemma_register_iff_unique(s: Seq<NetworkKindView>)
    ensures
        (spec_register(Seq::empty(), s) is Some) <==> reg_unique(s),
{
    lemma_register_iff(Seq::empty(), s);
    lemma_reg_index_exists(Seq::empty(), Seq::empty());
    assert forall|i: int| 0 <= i < s.len() implies reg_index(
        Seq::<NetworkKindView>::empty(),
        tm_view(#[trigger] s[i]).id,
    ) is None by {
        lemma_reg_index_exists(Seq::empty(), tm_view(s[i]).id);
    }
}

/// Registration into any registry succeeds exactly when the configured
/// networks have pairwise distinct IDs, none already registered.
proof fn lemma_register_iff(nets: Seq<NetworkKindView>, s: Seq<NetworkKindView>)
    ensures
        (spec_register(nets, s) is Some) <==> (reg_unique(s) && forall|i: int|
            0 <= i < s.len() ==> reg_index(nets, tm_view(#[trigger] s[i]).id) is None),
    decreases s.len(),
{
    if s.len() > 0 {
        let id0 = tm_view(s[0]).id;
        if reg_index(nets, id0) is Some {
        } else {
            let nets1 = reg_insert_sorted(nets, s[0]);
            lemma_register_iff(nets1, s.skip(1));
            assert forall|i: int|
                0 <= i < s.skip(1).len() implies (reg_index(
                nets1,
                tm_view(#[trigger] s.skip(1)[i]).id,
            ) is None) <==> (reg_index(nets, tm_view(s.skip(1)[i]).id) is None && tm_view(
                s.skip(1)[i],
            ).id != id0) by {
                lemma_reg_insert_contains(nets, s[0], tm_view(s.skip(1)[i]).id);
            }
            if spec_register(nets, s) is Some {
                assert forall|a: int, b: int| 0 <= a < b < s.len() implies tm_view(
                    #[trigger] s[a],
                ).id != tm_view(#[trigger] s[b]).id by {
                    if a == 0 {
                        assert(s.skip(1)[b - 1] == s[b]);
                    } else {
                        assert(s.skip(1)[a - 1] == s[a]);
                        assert(s.skip(1)[b - 1] == s[b]);
                    }
                }
                assert forall|i: int| 0 <= i < s.len() implies reg_index(
                    nets,
                    tm_view(#[trigger] s[i]).id,
                ) is None by {
                    if i > 0 {
                        assert(s.skip(1)[i - 1] == s[i]);
                    }
                }
            }
            if reg_unique(s) && (forall|i: int|
                0 <= i < s.len() ==> reg_index(nets, tm_view(#[trigger] s[i]).id) is None) {
                assert forall|a: int, b: int| 0 <= a < b < s.skip(1).len() implies tm_view(
                    #[trigger] s.skip(1)[a],
                ).id != tm_view(#[trigger] s.skip(1)[b]).id by {
                    assert(s.skip(1)[a] == s[a + 1]);
                    assert(s.skip(1)[b] == s[b + 1]);
                }
                assert forall|i: int| 0 <= i < s.skip(1).len() implies reg_index(
                    nets1,
                    tm_view(#[trigger] s.skip(1)[i]).id,
                ) is None by {
                    assert(s.skip(1)[i] == s[i + 1]);
                }
            }
        }
    }
}

/// Sorted insertion keeps the registry's IDs sorted.
proof fn lemma_reg_insert_sorted_sorted(nets: Seq<NetworkKindView>, x: NetworkKindView)
    requires
        reg_sorted(nets),
    ensures
        reg_sorted(reg_insert_sorted(nets, x)),
    decreases nets.len(),
{
    let ins = reg_insert_sorted(nets, x);
    if nets.len() == 0 {
    } else if spec_str_le(tm_view(nets[0]).id, tm_view(x).id) {
        let rest = nets.skip(1);
        assert forall|i: int, j: int|
            0 <= i < j < rest.len() implies spec_str_le(
            tm_view(#[trigger] rest[i]).id,
            tm_view(#[trigger] rest[j]).id,
        ) by {
            assert(rest[i] == nets[i + 1]);
            assert(rest[j] == nets[j + 1]);
        }
        lemma_reg_insert_sorted_sorted(rest, x);
        let rec = reg_insert_sorted(rest, x);
        assert(ins =~= seq![nets[0]] + rec);
        assert(rec.len() > 0);
        if rest.len() == 0 {
            assert(rec[0] == x);
        } else if spec_str_le(tm_view(rest[0]).id, tm_view(x).id) {
            assert(rec[0] == rest[0]);
            assert(rest[0] == nets[1]);
        } else {
            assert(rec[0] == x);
        }
        assert(spec_str_le(tm_view(nets[0]).id, tm_view(rec[0]).id));
        assert forall|i: int, j: int|
            0 <= i < j < ins.len() implies spec_str_le(
            tm_view(#[trigger] ins[i]).id,
            tm_view(#[trigger] ins[j]).id,
        ) by {
            if i == 0 {
                assert(ins[j] == rec[j - 1]);
                if j - 1 > 0 {
                    assert(spec_str_le(tm_view(rec[0]).id, tm_view(rec[j - 1]).id));
                    lemma_str_le_trans(
                        tm_view(nets[0]).id,
                        tm_view(rec[0]).id,
                        tm_view(rec[j - 1]).id,
                    );
                }
            } else {
                assert(ins[i] == rec[i - 1]);
                assert(ins[j] == rec[j - 1]);
            }
        }
    } else {
        lemma_str_le_total(tm_view(nets[0]).id, tm_view(x).id);
        assert(ins =~= seq![x] + nets);
        assert forall|i: int, j: int|
            0 <= i < j < ins.len() implies spec_str_le(
            tm_view(#[trigger] ins[i]).id,
            tm_view(#[trigger] ins[j]).id,
        ) by {
            if i == 0 {
                assert(ins[j] == nets[j - 1]);
                if j - 1 > 0 {
                    assert(spec_str_le(tm_view(nets[0]).id, tm_view(nets[j - 1]).id));
                    lemma_str_le_trans(
                        tm_view(x).id,
                        tm_view(nets[0]).id,
                        tm_view(nets[j - 1]).id,
                    );
                }
            } else {
                assert(ins[i] == nets[i - 1]);
                assert(ins[j] == nets[j - 1]);
            }
        }
    }
}

/// Registration keeps the registry sorted.
proof fn lemma_register_keeps_sorted(nets: Seq<NetworkKindView>, s: Seq<NetworkKindView>)
    requires
        reg_sorted(nets),
    ensures
        spec_register(nets, s) matches Some(r) ==> reg_sorted(r),
    decreases s.len(),
{
    if s.len() > 0 {
        if reg_index(nets, tm_view(s[0]).id) is None {
            lemma_reg_insert_sorted_sorted(nets, s[0]);
            lemma_register_keeps_sorted(reg_insert_sorted(nets, s[0]), s.skip(1));
        }
    }
}

/// The registry is in chain-ID order: pager drains and any other walk over
/// it proceed in key order, the way a key-sorted map iterates.
pub proof fn lemma_registry_sorted(s: Seq<NetworkKindView>)
    ensures
        spec_register(Seq::empty(), s) matches Some(nets) ==> reg_sorted(nets),
{
    lemma_register_keeps_sorted(Seq::empty(), s);
}

/// Sorted insertion places the network exactly at the first position
/// whose ID exceeds the new one.
proof fn lemma_reg_insert_at(nets: Seq<NetworkKindView>, x: NetworkKindView, j: int)
    requires
        0 <= j <= nets.len(),
        forall|i: int|
            0 <= i < j ==> spec_str_le(tm_view(#[trigger] nets[i]).id, tm_view(x).id),
        j < nets.len() ==> !spec_str_le(tm_view(nets[j]).id, tm_view(x).id),
    ensures
        reg_insert_sorted(nets, x) =~= nets.take(j) + seq![x] + nets.skip(j),
    decreases j,
{
    if j == 0 {
        assert(nets.take(0) =~= Seq::<NetworkKindView>::empty());
        assert(nets.skip(0) =~= nets);
    } else {
        assert(spec_str_le(tm_view(nets[0]).id, tm_view(x).id));
        let rest = nets.skip(1);
        assert forall|i: int| 0 <= i < j - 1 implies spec_str_le(
            tm_view(#[trigger] rest[i]).id,
            tm_view(x).id,
        ) by {
            assert(rest[i] == nets[i + 1]);
        }
        if j - 1 < rest.len() {
            assert(rest[j - 1] == nets[j]);
        }
        lemma_reg_insert_at(rest, x, j - 1);
        assert(rest.take(j - 1) =~= nets.subrange(1, j));
        assert(rest.skip(j - 1) =~= nets.skip(j));
        assert(reg_insert_sorted(nets, x) =~= seq![nets[0]] + reg_insert_sorted(rest, x));
        assert(reg_insert_sorted(nets, x) =~= nets.take(j) + seq![x] + nets.skip(j));
    }
}

/// Collector state: one network state machine per registered chain.
#[derive(Debug)]
pub struct Collector {
    /// Network states, IDs unique
    pub networks: Vec<Network>,
}

impl View for Collector {
    type V = Seq<NetworkKindView>;

    open spec fn view(&self) -> Seq<NetworkKindView> {
        self.networks.deep_view()
    }
}

impl Collector {
    /// Initialize collector state from the configured networks,
    /// registering them in chain-ID order.
    ///
    /// Two networks with the same chain ID are a fatal configuration
    /// error: registration fails exactly when the IDs are not unique.
    pub fn new(networks: Vec<Network>) -> (r: Result<Collector, Error>)
        ensures
            match r {
                Ok(c) => spec_register(Seq::empty(), networks.deep_view()) == Some(c@)
                    && reg_unique(networks.deep_view()),
                Err(e) => spec_register(Seq::empty(), networks.deep_view()) is None
                    && !reg_unique(networks.deep_view()) && e.kind == ErrorKind::ConfigError,
            },
    {
        let ghost gin = networks.deep_view();
        let mut out: Vec<Network> = Vec::new();
        let n = networks.len();
        let mut remaining = networks;
        let mut k: usize = 0;
        proof {
            assert(gin.skip(0) =~= gin);
            assert(out.deep_view() =~= Seq::<NetworkKindView>::empty());
        }
        while k < n
            invariant
                k <= n,
                remaining@.len() == n - k,
                gin.len() == n,
                gin == networks.deep_view(),
                forall|j: int|
                    0 <= j < n - k ==> (#[trigger] remaining@[j]).deep_view() == gin[j + k],
                spec_register(Seq::empty(), gin) == spec_register(
                    out.deep_view(),
                    gin.skip(k as int),
                ),
            decreases n - k,
        {
            proof {
                assert(gin.skip(k as int)[0] == gin[k as int]);
                assert(gin.skip(k as int).skip(1) =~= gin.skip(k as int + 1));
            }
            let net = remaining.remove(0);
            proof {
                assert(net.deep_view() == gin[k as int]);
            }
            let id = net.id();
            let ghost before = out.deep_view();
            let m = out.len();
            let mut t: usize = 0;
            while t < m
                invariant
                    t <= m,
                    m == out@.len(),
                    k < n,
                    gin.len() == n,
                    gin == networks.deep_view(),
                    out.deep_view() == before,
                    id@ == tm_view(gin[k as int]).id,
                    gin.skip(k as int)[0] == gin[k as int],
                    spec_register(Seq::empty(), gin) == spec_register(
                        before,
                        gin.skip(k as int),
                    ),
                    forall|i: int| 0 <= i < t ==> tm_view(#[trigger] before[i]).id != id@,
                decreases m - t,
            {
                let id_t = out[t].id();
                if crate::text::str_eq(id_t.as_str(), id.as_str()) {
                    proof {
                        lemma_reg_index_exists(before, id@);
                        assert(tm_view(before[t as int]).id == id@);
                        assert(reg_index(before, id@) is Some);
                        assert(spec_register(before, gin.skip(k as int)) is None);
                        lemma_register_iff_unique(gin);
                    }
                    return Err(
                        Error::new(
                            ErrorKind::ConfigError,
                            "duplicate networks in config".to_owned(),
                        ),
                    );
                }
                t = t + 1;
            }
            proof {
                lemma_reg_index_exists(before, id@);
                assert(reg_index(before, id@) is None);
            }
            let mut j: usize = 0;
            while j < out.len() && crate::text::str_le(out[j].id().as_str(), id.as_str())
                invariant
                    j <= out@.len(),
                    k < n,
                    gin.len() == n,
                    out.deep_view() == before,
                    id@ == tm_view(gin[k as int]).id,
                    forall|i: int|
                        0 <= i < j ==> spec_str_le(tm_view(#[trigger] before[i]).id, id@),
                decreases out@.len() - j,
            {
                j = j + 1;
            }
            proof {
                lemma_reg_insert_at(before, gin[k as int], j as int);
            }
            let ghost entries_before = out@;
            out.insert(j, net);
            proof {
                entries_before.insert_ensures(j as int, out@[j as int]);
                assert forall|i: int|
                    0 <= i < out.deep_view().len() implies #[trigger] out.deep_view()[i] == (
                before.take(j as int) + seq![gin[k as int]] + before.skip(j as int))[i] by {
                    if i < j {
                        assert(out@[i] == entries_before[i]);
                    } else if i == j {
                        assert(out@[i] == out@[i]);
                    } else {
                        assert(out@[i] == entries_before[i - 1]);
                    }
                }
                assert(out.deep_view() =~= reg_insert_sorted(before, gin[k as int]));
            }
            k = k + 1;
        }
        proof {
            assert(gin.skip(n as int) =~= Seq::<NetworkKindView>::empty());
            lemma_register_iff_unique(gin);
        }
        Ok(Collector { networks: out })
    }

    /// Index of the network with the given ID, if registered.
    pub fn find_index(&self, id: &str) -> (r: Option<usize>)
        ensures
            match r {
                Some(j) => reg_index(self@, id@) == Some(j as int) && j < self.networks@.len(),
                None => reg_index(self@, id@) is None,
            },
    {
        let n = self.networks.len();
        let mut i: usize = 0;
        proof {
            assert(self@.skip(0) =~= self@);
        }
        while i < n
            invariant
                i <= n,
                n == self.networks@.len(),
                (match reg_index(self@.skip(i as int), id@) {
                    Some(j) => reg_index(self@, id@) == Some(j + i),
                    None => reg_index(self@, id@) is None,
                }),
            decreases n - i,
        {
            proof {
                assert(self@.skip(i as int)[0] == self@[i as int]);
                assert(self@.skip(i as int).skip(1) =~= self@.skip(i as int + 1));
            }
            let id_i = self.networks[i].id();
            if crate::text::str_eq(id_i.as_str(), id) {
                return Some(i);
            }
            i = i + 1;
        }
        proof {
            assert(self@.skip(n as int) =~= Seq::<NetworkKindView>::empty());
        }
        None
    }

    /// Handle an incoming envelope: the addressed network absorbs it; an
    /// envelope for an unregistered network is dropped (the caller logs a
    /// warning), never a panic.
    ///
    /// Returns the metric records the envelope produced.
    pub fn handle_message(&mut self, envelope: &Envelope, now: u64) -> (r: Vec<MetricRecord>)
        ensures
            match reg_index(old(self)@, envelope@.network) {
                Some(j) => final(self)@ == old(self)@.update(
                    j,
                    NetworkKindView::Tendermint(
                        spec_handle_message(tm_view(old(self)@[j]), envelope@, now),
                    ),
                ) && r.deep_view() == spec_handle_records(tm_view(old(self)@[j]), envelope@),
                None => *final(self) == *old(self) && r@.len() == 0,
            },
    {
        match self.find_index(envelope.network.as_str()) {
            Some(j) => {
                proof {
                    lemma_reg_index_range(old(self)@, envelope@.network);
                }
                let records = self.networks[j].handle_message(envelope, now);
                proof {
                    assert(self@ =~= old(self)@.update(
                        j as int,
                        NetworkKindView::Tendermint(
                            spec_handle_message(tm_view(old(self)@[j as int]), envelope@, now),
                        ),
                    ));
                }
                records
            },
            None => Vec::new(),
        }
    }

    /// A read-only snapshot of one network's state, or nothing for an
    /// unknown network.
    pub fn network_state(&self, network_id: &crate::network::Id) -> (r: Option<
        crate::network::State,
    >)
        ensures
            match reg_index(self@, network_id@) {
                Some(j) => r matches Some(s) && (s@ matches crate::network::StateView::Tendermint(
                    sv,
                ) && sv.nodes == crate::network::tendermint::node_sort(
                    tm_view(self@[j]).nodes,
                ) && sv.peers == tm_view(self@[j]).peers
                    && sv.chain == tm_view(self@[j]).chain && sv.validators == tm_view(
                    self@[j],
                ).validators),
                None => r is None,
            },
    {
        match self.find_index(network_id.as_str()) {
            Some(j) => {
                proof {
                    lemma_reg_index_range(self@, network_id@);
                }
                Some(self.networks[j].state())
            },
            None => None,
        }
    }

    /// Drain at most one page from every network, subject to each
    /// network's cooldown, in registry order — chain-ID order, since
    /// networks are registered key-sorted.
    pub fn get_pager_events(&mut self, now: u64) -> (r: Vec<String>)
        requires
            forall|i: int|
                0 <= i < old(self)@.len() ==> (tm_view(#[trigger] old(self)@[i]).last_paged_at
                    matches Some(l) ==> l <= now),
        ensures
            final(self)@.len() == old(self)@.len(),
            forall|i: int|
                0 <= i < old(self)@.len() ==> tm_view(#[trigger] final(self)@[i])
                    == spec_drain_state(tm_view(old(self)@[i]), now),
            r.deep_view() == spec_drain_pages(old(self)@, now),
    {
        let ghost nets0 = self@;
        let mut events: Vec<String> = Vec::new();
        let n = self.networks.len();
        let mut i: usize = 0;
        proof {
            assert(nets0.skip(0) =~= nets0);
        }
        while i < n
            invariant
                i <= n,
                n == self.networks@.len(),
                self@.len() == nets0.len(),
                nets0.len() == n,
                forall|k: int|
                    0 <= k < nets0.len() ==> (tm_view(#[trigger] nets0[k]).last_paged_at
                        matches Some(l) ==> l <= now),
                forall|k: int| i <= k < n ==> #[trigger] self@[k] == nets0[k],
                forall|k: int|
                    0 <= k < i ==> tm_view(#[trigger] self@[k]) == spec_drain_state(
                        tm_view(nets0[k]),
                        now,
                    ),
                spec_drain_pages(nets0, now) =~= events.deep_view() + spec_drain_pages(
                    nets0.skip(i as int),
                    now,
                ),
            decreases n - i,
        {
            proof {
                assert(nets0.skip(i as int)[0] == nets0[i as int]);
                assert(nets0.skip(i as int).skip(1) =~= nets0.skip(i as int + 1));
            }
            let ghost events_before = events.deep_view();
            let ghost nets_before = self@;
            proof {
                assert(self@[i as int] == nets0[i as int]);
            }
            match self.networks[i].get_pager_events(now) {
                Some(event) => {
                    events.push(event);
                    proof {
                        assert(events.deep_view() =~= events_before + seq![
                            tm_view(nets0[i as int]).page.last(),
                        ]);
                    }
                },
                None => {
                },
            }
            proof {
                assert forall|k: int| 0 <= k < n && k != i as int implies #[trigger] self@[k]
                    == nets_before[k] by {
                    assert(self.networks@[k] == self.networks@[k]);
                }
                assert(tm_view(self@[i as int]) == spec_drain_state(
                    tm_view(nets0[i as int]),
                    now,
                ));
            }
            i = i + 1;
        }
        proof {
            assert(nets0.skip(n as int) =~= Seq::<NetworkKindView>::empty());
            assert(events.deep_view() =~= spec_drain_pages(nets0, now));
        }
        events
    }

    /// Handle incoming poller info: the addressed network judges it
    /// against its threshold; info for an unregistered network is dropped
    /// with a warning by the caller, never a panic.
    ///
    /// Returns whether the network was registered.
    pub fn handle_poll_event(&mut self, event: &PollEvent) -> (r: bool)
        ensures
            match reg_index(old(self)@, event@.network_id) {
                Some(j) => r && final(self)@ == old(self)@.update(
                    j,
                    NetworkKindView::Tendermint(
                        (NetworkView {
                            page: spec_missed_page(tm_view(old(self)@[j]), event@),
                            ..tm_view(old(self)@[j])
                        }),
                    ),
                ),
                None => !r && *final(self) == *old(self),
            },
    {
        match self.find_index(event.network_id.as_str()) {
            Some(j) => {
                proof {
                    lemma_reg_index_range(old(self)@, event@.network_id);
                }
                self.networks[j].handle_poll_event(event);
                proof {
                    assert(self@ =~= old(self)@.update(
                        j as int,
                        NetworkKindView::Tendermint(
                            (NetworkView {
                                page: spec_missed_page(tm_view(old(self)@[j as int]), event@),
                                ..tm_view(old(self)@[j as int])
                            }),
                        ),
                    ));
                }
                true
            },
            None => false,
        }
    }

    /// Dispatch one request, returning the response and any metric records
    /// the request produced. Each request kind leaves the registry exactly
    /// as its handler's contract fixes it; a state query mutates nothing.
    pub fn handle_request(&mut self, req: &Request, now: u64) -> (r: (Response, Vec<MetricRecord>))
        requires
            req is PagerEvents ==> forall|i: int|
                0 <= i < old(self)@.len() ==> (tm_view(#[trigger] old(self)@[i]).last_paged_at
                    matches Some(l) ==> l <= now),
        ensures
            req matches Request::Message(env) ==> (r.0 is Message && (match reg_index(
                old(self)@,
                env@.network,
            ) {
                Some(j) => final(self)@ == old(self)@.update(
                    j,
                    NetworkKindView::Tendermint(
                        spec_handle_message(tm_view(old(self)@[j]), env@, now),
                    ),
                ) && r.1.deep_view() == spec_handle_records(tm_view(old(self)@[j]), env@),
                None => *final(self) == *old(self) && r.1@.len() == 0,
            })),
            req matches Request::NetworkState(id) ==> (r.1@.len() == 0 && *final(self) == *old(
                self,
            ) && (r.0 matches Response::NetworkState(s) && (match reg_index(old(self)@, id@) {
                Some(j) => s matches Some(st) && (st@ matches crate::network::StateView::Tendermint(
                    sv,
                ) && sv.nodes == crate::network::tendermint::node_sort(
                    tm_view(old(self)@[j]).nodes,
                ) && sv.peers == tm_view(old(self)@[j]).peers && sv.chain == tm_view(
                    old(self)@[j],
                ).chain && sv.validators == tm_view(old(self)@[j]).validators),
                None => s is None,
            }))),
            req is PagerEvents ==> (r.1@.len() == 0 && final(self)@.len() == old(self)@.len()
                && (forall|i: int|
                0 <= i < old(self)@.len() ==> tm_view(#[trigger] final(self)@[i])
                    == spec_drain_state(tm_view(old(self)@[i]), now)) && (r.0 matches
            Response::PagerEvents(evs) && evs.deep_view() == spec_drain_pages(old(self)@, now))),
            req matches Request::PollEvent(info) ==> (r.0 is PollEvent && r.1@.len() == 0
                && (match reg_index(old(self)@, info@.network_id) {
                Some(j) => final(self)@ == old(self)@.update(
                    j,
                    NetworkKindView::Tendermint(
                        (NetworkView {
                            page: spec_missed_page(tm_view(old(self)@[j]), info@),
                            ..tm_view(old(self)@[j])
                        }),
                    ),
                ),
                None => *final(self) == *old(self),
            })),
    {
        match req {
            Request::Message(env) => {
                let records = self.handle_message(env, now);
                (Response::Message, records)
            },
            Request::NetworkState(id) => {
                match self.network_state(id) {
                    Some(s) => (Response::NetworkState(Some(Box::new(s))), Vec::new()),
                    None => (Response::NetworkState(None), Vec::new()),
                }
            },
            Request::PagerEvents => {
                let events = self.get_pager_events(now);
                (Response::PagerEvents(events), Vec::new())
            },
            Request::PollEvent(info) => {
                self.handle_poll_event(info);
                (Response::PollEvent, Vec::new())
            },
        }
    }
}

/// A found index is in range.
proof fn lemma_reg_index_range(nets: Seq<NetworkKindView>, id: Seq<char>)
    ensures
        reg_index(nets, id) matches Some(j) ==> 0 <= j < nets.len() && tm_view(nets[j]).id == id,
    decreases nets.len(),
{
    if nets.len() > 0 && tm_view(nets[0]).id != id {
        lemma_reg_index_range(nets.skip(1), id);
    }
}

/// What one pager tick leaves a network in.
pub open spec fn spec_drain_state(v: NetworkView, now: u64) -> NetworkView {
    if spec_page_emits(v.page, v.last_paged_at, now) {
        NetworkView { page: v.page.drop_last(), last_paged_at: Some(now), ..v }
    } else if v.page.len() > 0 {
        NetworkView { page: v.page.drop_last(), ..v }
    } else {
        v
    }
}

/// The pages one pager tick emits, in registry order — chain-ID order,
/// since networks are registered key-sorted.
pub open spec fn spec_drain_pages(nets: Seq<NetworkKindView>, now: u64) -> Seq<Seq<char>>
    decreases nets.len(),
{
    if nets.len() == 0 {
        Seq::empty()
    } else {
        let v = tm_view(nets[0]);
        (if spec_page_emits(v.page, v.last_paged_at, now) {
            seq![v.page.last()]
        } else {
            Seq::<Seq<char>>::empty()
        }) + spec_drain_pages(nets.skip(1), now)
    }
}

} // verus!
