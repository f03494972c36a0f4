//! Typed IBC events.
//!
//! Tendermint delivers IBC activity as stringly-typed events: a type string
//! plus a bag of attributes mapping each key to a list of string values.
//! The listener classifies the type string into one of the event kinds below
//! and copies the attribute bag verbatim; all later consumers (metrics,
//! serialization) read the bag through total lookup functions that fall back
//! to sentinels, so no event, however malformed, is ever rejected here.

use crate::text::str_eq;
use vstd::prelude::*;

verus! {

/// First value bound to `key` in an attribute bag, if any.
pub open spec fn bag_lookup(
    entries: Seq<(Seq<char>, Seq<Seq<char>>)>,
    key: Seq<char>,
) -> Option<Seq<Seq<char>>>
    decreases entries.len(),
{
    if entries.len() == 0 {
        None
    } else if entries[0].0 == key {
        Some(entries[0].1)
    } else {
        bag_lookup(entries.skip(1), key)
    }
}

/// Attribute bag: each key maps to a list of string values.
///
/// Lookup returns the first entry with the key, so the bag behaves like a
/// map even when a malformed event repeats a key.
#[derive(Clone, Debug)]
pub struct Attributes {
    /// Key-to-values entries in the order they arrived
    pub entries: Vec<(String, Vec<String>)>,
}

impl View for Attributes {
    type V = Seq<(Seq<char>, Seq<Seq<char>>)>;

    open spec fn view(&self) -> Seq<(Seq<char>, Seq<Seq<char>>)> {
        Seq::new(
            self.entries@.len(),
            |i: int|
                (
                    self.entries@[i].0@,
                    Seq::new(self.entries@[i].1@.len(), |j: int| self.entries@[i].1@[j]@),
                ),
        )
    }
}

impl Attributes {
    /// An empty bag.
    pub fn new() -> (r: Attributes)
        ensures
            r@ =~= Seq::<(Seq<char>, Seq<Seq<char>>)>::empty(),
    {
        Attributes { entries: Vec::new() }
    }

    /// Append the values for one key.
    pub fn push(&mut self, key: String, values: Vec<String>)
        ensures
            final(self)@ =~= old(self)@.push(
                (key@, Seq::new(values@.len(), |j: int| values@[j]@)),
            ),
    {
        self.entries.push((key, values));
        proof {
            assert(self@ =~= old(self)@.push(
                (key@, Seq::new(values@.len(), |j: int| values@[j]@)),
            ));
        }
    }

    /// Index of the entry with `key`, if the bag has one.
    fn index_of(&self, key: &str) -> (r: Option<usize>)
        ensures
            match r {
                Some(j) => bag_index(self@, key@) == Some(j as int) && j < self.entries@.len(),
                None => bag_index(self@, key@) is None,
            },
    {
        let n = self.entries.len();
        let mut i: usize = 0;
        proof {
            assert(self@.skip(0) =~= self@);
        }
        while i < n
            invariant
                i <= n,
                n == self.entries@.len(),
                (match bag_index(self@.skip(i as int), key@) {
                    Some(j) => bag_index(self@, key@) == Some(j + i),
                    None => bag_index(self@, key@) is None,
                }),
            decreases n - i,
        {
            proof {
                assert(self@.skip(i as int)[0] == self@[i as int]);
                assert(self@.skip(i as int).skip(1) =~= self@.skip(i as int + 1));
            }
            if str_eq(self.entries[i].0.as_str(), key) {
                return Some(i);
            }
            i = i + 1;
        }
        proof {
            assert(self@.skip(n as int) =~= Seq::<(Seq<char>, Seq<Seq<char>>)>::empty());
        }
        None
    }

    /// Group raw key/value pairs into a bag: a repeated key gathers its
    /// values, in arrival order, under its first occurrence — the way a
    /// raw event's attribute list reads as a map.
    pub fn from_pairs(pairs: Vec<(String, String)>) -> (r: Attributes)
        ensures
            r@ == spec_group_pairs(
                Seq::empty(),
                Seq::new(pairs@.len(), |i: int| (pairs@[i].0@, pairs@[i].1@)),
            ),
    {
        let ghost gpairs = Seq::new(pairs@.len(), |i: int| (pairs@[i].0@, pairs@[i].1@));
        let mut bag = Attributes::new();
        let n = pairs.len();
        let mut remaining = pairs;
        let mut k: usize = 0;
        proof {
            assert(gpairs.skip(0) =~= gpairs);
        }
        while k < n
            invariant
                k <= n,
                remaining@.len() == n - k,
                gpairs.len() == n,
                forall|j: int|
                    0 <= j < n - k ==> ((#[trigger] remaining@[j]).0@, remaining@[j].1@)
                        == gpairs[j + k],
                spec_group_pairs(Seq::empty(), gpairs) == spec_group_pairs(
                    bag@,
                    gpairs.skip(k as int),
                ),
            decreases n - k,
        {
            proof {
                assert(gpairs.skip(k as int)[0] == gpairs[k as int]);
                assert(gpairs.skip(k as int).skip(1) =~= gpairs.skip(k as int + 1));
            }
            let (key, value) = remaining.remove(0);
            let ghost before = bag@;
            let ghost gk = key@;
            let ghost gv = value@;
            match bag.index_of(key.as_str()) {
                Some(j) => {
                    proof {
                        lemma_bag_index_range(before, gk);
                    }
                    let key0 = bag.entries[j].0.clone();
                    let mut values = clone_values(&bag.entries[j].1);
                    values.push(value);
                    let ghost prev_entries = bag.entries@;
                    bag.entries.set(j, (key0, values));
                    proof {
                        let target = spec_bag_add(before, gk, gv);
                        assert(bag@.len() == target.len());
                        assert(bag@[j as int].0 == target[j as int].0);
                        assert(bag@[j as int].1 =~= target[j as int].1);
                        assert(bag@[j as int] == target[j as int]);
                        assert forall|i: int|
                            0 <= i < bag@.len() && i != j implies #[trigger] bag@[i]
                            == target[i] by {
                            assert(bag.entries@[i] == prev_entries[i]);
                            assert(bag@[i].0 == target[i].0);
                            assert(bag@[i].1 =~= target[i].1);
                            assert(bag@[i] == (bag@[i].0, bag@[i].1));
                            assert(target[i] == (target[i].0, target[i].1));
                        }
                        assert(bag@ =~= target);
                    }
                },
                None => {
                    let ghost prev_entries = bag.entries@;
                    let mut values: Vec<String> = Vec::new();
                    values.push(value);
                    bag.entries.push((key, values));
                    proof {
                        let target = spec_bag_add(before, gk, gv);
                        assert(bag@.len() == target.len());
                        assert(bag@[before.len() as int].0 == target[before.len() as int].0);
                        assert(bag@[before.len() as int].1 =~= target[before.len() as int].1);
                        assert(bag@[before.len() as int] == target[before.len() as int]);
                        assert forall|i: int|
                            0 <= i < before.len() implies #[trigger] bag@[i] == target[i] by {
                            assert(bag.entries@[i] == prev_entries[i]);
                            assert(bag@[i].0 == target[i].0);
                            assert(bag@[i].1 =~= target[i].1);
                            assert(bag@[i] == (bag@[i].0, bag@[i].1));
                            assert(target[i] == (target[i].0, target[i].1));
                        }
                        assert(bag@ =~= target);
                    }
                },
            }
            k = k + 1;
        }
        proof {
            assert(gpairs.skip(n as int) =~= Seq::<(Seq<char>, Seq<char>)>::empty());
        }
        bag
    }

    /// The list of values bound to `key`, if the bag has the key.
    pub fn get<'a>(&'a self, key: &str) -> (r: Option<&'a Vec<String>>)
        ensures
            match r {
                Some(vs) => bag_lookup(self@, key@) matches Some(m) && m =~= Seq::new(
                    vs@.len(),
                    |j: int| vs@[j]@,
                ),
                None => bag_lookup(self@, key@) is None,
            },
    {
        let n = self.entries.len();
        let mut i: usize = 0;
        proof {
            assert(self@.skip(0) =~= self@);
        }
        while i < n
            invariant
                i <= n,
                n == self.entries@.len(),
                bag_lookup(self@, key@) == bag_lookup(self@.skip(i as int), key@),
            decreases n - i,
        {
            proof {
                assert(self@.skip(i as int)[0] == self@[i as int]);
                assert(self@.skip(i as int).skip(1) =~= self@.skip(i as int + 1));
            }
            if str_eq(self.entries[i].0.as_str(), key) {
                return Some(&self.entries[i].1);
            }
            i = i + 1;
        }
        proof {
            assert(self@.skip(n as int) =~= Seq::<(Seq<char>, Seq<Seq<char>>)>::empty());
        }
        None
    }
}

/// Index of the first entry with `key`, if any.
pub open spec fn bag_index(entries: Seq<(Seq<char>, Seq<Seq<char>>)>, key: Seq<char>) -> Option<
    int,
>
    decreases entries.len(),
{
    if entries.len() == 0 {
        None
    } else if entries[0].0 == key {
        Some(0int)
    } else {
        match bag_index(entries.skip(1), key) {
            Some(j) => Some(j + 1),
            None => None,
        }
    }
}

/// A found index is in range and its entry carries the key.
proof fn lemma_bag_index_range(entries: Seq<(Seq<char>, Seq<Seq<char>>)>, key: Seq<char>)
    ensures
        bag_index(entries, key) matches Some(j) ==> 0 <= j < entries.len() && entries[j].0
            == key,
    decreases entries.len(),
{
    if entries.len() > 0 && entries[0].0 != key {
        lemma_bag_index_range(entries.skip(1), key);
    }
}

/// One raw attribute pair folded in: the value joins its key's list, or
/// opens a fresh entry at the end.
pub open spec fn spec_bag_add(
    bag: Seq<(Seq<char>, Seq<Seq<char>>)>,
    k: Seq<char>,
    v: Seq<char>,
) -> Seq<(Seq<char>, Seq<Seq<char>>)> {
    match bag_index(bag, k) {
        Some(j) => bag.update(j, (bag[j].0, bag[j].1.push(v))),
        None => bag.push((k, seq![v])),
    }
}

/// Raw key/value pairs grouped into a bag, in arrival order: a repeated
/// key gathers its values, in order, under its first occurrence.
pub open spec fn spec_group_pairs(
    bag: Seq<(Seq<char>, Seq<Seq<char>>)>,
    pairs: Seq<(Seq<char>, Seq<char>)>,
) -> Seq<(Seq<char>, Seq<Seq<char>>)>
    decreases pairs.len(),
{
    if pairs.len() == 0 {
        bag
    } else {
        spec_group_pairs(spec_bag_add(bag, pairs[0].0, pairs[0].1), pairs.skip(1))
    }
}

/// Clone a list of values.
fn clone_values(v: &Vec<String>) -> (r: Vec<String>)
    ensures
        r@.len() == v@.len(),
        forall|j: int| 0 <= j < v@.len() ==> (#[trigger] r@[j])@ == v@[j]@,
{
    let mut out: Vec<String> = Vec::new();
    let n = v.len();
    let mut i: usize = 0;
    while i < n
        invariant
            i <= n,
            n == v@.len(),
            out@.len() == i,
            forall|j: int| 0 <= j < i ==> (#[trigger] out@[j])@ == v@[j]@,
        decreases n - i,
    {
        out.push(v[i].clone());
        i = i + 1;
    }
    out
}

/// The kinds of IBC events this system understands.
#[derive(Copy, Clone, Debug, PartialEq, Eq, Structural)]
pub enum IbcEventKind {
    /// A client was created
    CreateClient,

    /// A client was updated
    UpdateClient,

    /// A client equivocated
    ClientMisbehavior,

    /// Connection handshake: init
    OpenInitConnection,

    /// Connection handshake: try
    OpenTryConnection,

    /// Connection handshake: ack
    OpenAckConnection,

    /// Connection handshake: confirm
    OpenConfirmConnection,

    /// A packet was sent on a channel
    SendPacketChannel,

    /// A packet was received on a channel
    RecievePacketChannel,

    /// A packet whose payload stays opaque
    OpaquePacket,

    /// An ICS-20 fungible token transfer
    PacketTransfer,
}

/// The event kind a Tendermint event type string classifies to, if any.
pub open spec fn spec_classify(s: Seq<char>) -> Option<IbcEventKind> {
    if s == "create_client"@ {
        Some(IbcEventKind::CreateClient)
    } else if s == "update_client"@ {
        Some(IbcEventKind::UpdateClient)
    } else if s == "client_misbehaviour"@ {
        Some(IbcEventKind::ClientMisbehavior)
    } else if s == "connection_open_init"@ {
        Some(IbcEventKind::OpenInitConnection)
    } else if s == "connection_open_try"@ {
        Some(IbcEventKind::OpenTryConnection)
    } else if s == "connection_open_ack"@ {
        Some(IbcEventKind::OpenAckConnection)
    } else if s == "connection_open_confirm"@ {
        Some(IbcEventKind::OpenConfirmConnection)
    } else if s == "send_packet"@ {
        Some(IbcEventKind::SendPacketChannel)
    } else if s == "recv_packet"@ {
        Some(IbcEventKind::RecievePacketChannel)
    } else if s == "opaque_packet"@ {
        Some(IbcEventKind::OpaquePacket)
    } else if s == "transfer"@ {
        Some(IbcEventKind::PacketTransfer)
    } else {
        None
    }
}

impl IbcEventKind {
    /// Classify a Tendermint event type string.
    ///
    /// Unknown type strings produce no event; the caller drops them.
    pub fn classify(s: &str) -> (r: Option<IbcEventKind>)
        ensures
            r == spec_classify(s@),
    {
        if str_eq(s, "create_client") {
            Some(IbcEventKind::CreateClient)
        } else if str_eq(s, "update_client") {
            Some(IbcEventKind::UpdateClient)
        } else if str_eq(s, "client_misbehaviour") {
            Some(IbcEventKind::ClientMisbehavior)
        } else if str_eq(s, "connection_open_init") {
            Some(IbcEventKind::OpenInitConnection)
        } else if str_eq(s, "connection_open_try") {
            Some(IbcEventKind::OpenTryConnection)
        } else if str_eq(s, "connection_open_ack") {
            Some(IbcEventKind::OpenAckConnection)
        } else if str_eq(s, "connection_open_confirm") {
            Some(IbcEventKind::OpenConfirmConnection)
        } else if str_eq(s, "send_packet") {
            Some(IbcEventKind::SendPacketChannel)
        } else if str_eq(s, "recv_packet") {
            Some(IbcEventKind::RecievePacketChannel)
        } else if str_eq(s, "opaque_packet") {
            Some(IbcEventKind::OpaquePacket)
        } else if str_eq(s, "transfer") {
            Some(IbcEventKind::PacketTransfer)
        } else {
            None
        }
    }
}

/// View of an IBC event: its kind and attribute bag.
pub struct IbcEventView {
    /// The classified kind
    pub kind: IbcEventKind,

    /// The attribute bag
    pub attributes: Seq<(Seq<char>, Seq<Seq<char>>)>,
}

/// A classified IBC event: a kind together with its attribute bag,
/// copied verbatim from the Tendermint event.
#[derive(Clone, Debug)]
pub struct IbcEvent {
    /// The classified kind
    pub kind: IbcEventKind,

    /// The attribute bag
    pub attributes: Attributes,
}

impl View for IbcEvent {
    type V = IbcEventView;

    open spec fn view(&self) -> IbcEventView {
        IbcEventView { kind: self.kind, attributes: self.attributes@ }
    }
}

impl DeepView for IbcEvent {
    type V = IbcEventView;

    open spec fn deep_view(&self) -> IbcEventView {
        self.view()
    }
}

impl IbcEvent {
    /// Classify one raw Tendermint event into an IBC event.
    ///
    /// `type_str` is the event's type string; `attributes` its bag. Unknown
    /// type strings yield `None` (silent drop).
    pub fn from_raw(type_str: &str, attributes: Attributes) -> (r: Option<IbcEvent>)
        ensures
            match r {
                Some(ev) => spec_classify(type_str@) matches Some(k) && ev@.kind == k
                    && ev@.attributes == attributes@,
                None => spec_classify(type_str@) is None,
            },
    {
        match IbcEventKind::classify(type_str) {
            Some(kind) => Some(IbcEvent { kind, attributes }),
            None => None,
        }
    }
}

} // verus!
