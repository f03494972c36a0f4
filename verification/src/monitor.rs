//! Tendermint node monitoring support.
//!
//! The monitor keeps the agent's last snapshot of the node and turns each
//! round of freshly fetched RPC answers into the messages worth reporting:
//! only what changed, except that every full-report interval one tick is
//! forced to carry all four components. Fetching itself — the `/status`
//! and `/net_info` calls — is the embedding loop's business; the monitor
//! works on the answers.

pub mod data;
pub mod net_info;
pub mod status;

use crate::error::Error;
use crate::message::{Message, MessageView};
use crate::monitor::data::Data;
use crate::monitor::net_info::{
    pm_values, spec_merge, spec_peer_map, spec_peers_messages, NetInfo, PeerView, RpcPeer,
};
use crate::monitor::status::{spec_status_messages, Status, StatusView};
use vstd::prelude::*;

verus! {

/// Default interval at which to poll a Tendermint node, in milliseconds.
pub const DEFAULT_POLL_INTERVAL_MS: u64 = 100;

/// Default interval after which a full node status report is forced, in
/// milliseconds.
pub const DEFAULT_FULL_REPORT_INTERVAL_MS: u64 = 60000;

/// Tendermint node monitor which diffs what the RPC interface reports
/// against its last snapshot.
#[derive(Debug)]
pub struct Monitor {
    /// Node status monitor
    pub status: Status,

    /// Network information monitor
    pub net_info: NetInfo,

    /// Database directory monitor
    pub data: Data,

    /// Interval at which the node is polled, in milliseconds
    pub poll_interval: u64,

    /// Interval after which a full report is forced, in milliseconds
    pub full_report_interval: u64,

    /// Time of the last full report, in milliseconds of the caller's clock
    pub last_full_report: u64,
}

/// A full report is due when the full-report interval has elapsed since
/// the last one.
pub open spec fn spec_force_due(last: u64, now: u64, interval: u64) -> bool {
    now - last >= interval
}

impl Monitor {
    /// Create a new monitor from its primed sub-monitors.
    ///
    /// The first tick forces a full report: the last full report is
    /// recorded one interval in the past (or at zero on a young clock).
    pub fn new(status: Status, net_info: NetInfo, data: Data, now: u64) -> (r: Monitor)
        ensures
            r.status@ == status@,
            r.net_info@ == net_info@,
            r.poll_interval == DEFAULT_POLL_INTERVAL_MS,
            r.full_report_interval == DEFAULT_FULL_REPORT_INTERVAL_MS,
            r.last_full_report == if now >= DEFAULT_FULL_REPORT_INTERVAL_MS {
                (now - DEFAULT_FULL_REPORT_INTERVAL_MS) as u64
            } else {
                0u64
            },
    {
        let last: u64 = if now >= DEFAULT_FULL_REPORT_INTERVAL_MS {
            now - DEFAULT_FULL_REPORT_INTERVAL_MS
        } else {
            0
        };
        Monitor {
            status,
            net_info,
            data,
            poll_interval: DEFAULT_POLL_INTERVAL_MS,
            full_report_interval: DEFAULT_FULL_REPORT_INTERVAL_MS,
            last_full_report: last,
        }
    }

    /// Determine whether this tick must force a full report; when it must,
    /// the tick is recorded as the new last full report.
    pub fn should_force(&mut self, now: u64) -> (r: bool)
        requires
            now >= old(self).last_full_report,
        ensures
            r == spec_force_due(old(self).last_full_report, now, old(self).full_report_interval),
            final(self).last_full_report == if r {
                now
            } else {
                old(self).last_full_report
            },
            final(self).status == old(self).status,
            final(self).net_info == old(self).net_info,
            final(self).data == old(self).data,
            final(self).poll_interval == old(self).poll_interval,
            final(self).full_report_interval == old(self).full_report_interval,
    {
        if now - self.last_full_report >= self.full_report_interval {
            self.last_full_report = now;
            true
        } else {
            false
        }
    }

    /// Absorb one round of freshly fetched RPC answers: diff the status
    /// snapshot and the merged peer list, and return the messages to
    /// report. Every component appears exactly when it changed — or all of
    /// them, when the full-report interval has elapsed.
    ///
    /// Fails with a `ConfigError` exactly when the configured peer map
    /// cannot be built.
    pub fn poll_step(&mut self, next: &Status, rpc_peers: &Vec<RpcPeer>, now: u64) -> (r: Result<
        Vec<Message>,
        Error,
    >)
        requires
            now >= old(self).last_full_report,
        ensures
            ({
                let force = spec_force_due(
                    old(self).last_full_report,
                    now,
                    old(self).full_report_interval,
                );
                match r {
                    Ok(msgs) => spec_peer_map(
                        old(self).net_info@.persistent_peers,
                        old(self).net_info@.private_peer_ids,
                    ) matches Some(m0) && {
                        let merged = pm_values(spec_merge(m0, rpc_peers.deep_view()));
                        &&& final(self).status@ == next@
                        &&& final(self).net_info@.peers == merged
                        &&& msgs.deep_view() == spec_status_messages(
                            old(self).status@,
                            next@,
                            force,
                        ) + spec_peers_messages(old(self).net_info@.peers, merged, force)
                    },
                    Err(e) => spec_peer_map(
                        old(self).net_info@.persistent_peers,
                        old(self).net_info@.private_peer_ids,
                    ) is None && e.kind == crate::error::ErrorKind::ConfigError,
                }
            }),
    {
        let force = self.should_force(now);
        let mut messages = self.status.update(next, force);
        let ghost status_msgs = messages.deep_view();
        let mut peer_messages = match self.net_info.update(rpc_peers, force) {
            Ok(ms) => ms,
            Err(e) => {
                return Err(e);
            },
        };
        let ghost peer_msgs = peer_messages.deep_view();
        messages.append(&mut peer_messages);
        let mut data_messages = self.data.update(force);
        messages.append(&mut data_messages);
        proof {
            assert(messages.deep_view() =~= status_msgs + peer_msgs);
        }
        Ok(messages)
    }
}

/// When a full report is due, the tick's messages are the complete
/// quadruple — chain, node, validator, peers — regardless of any diff.
pub proof fn lemma_full_report_complete(
    prev: StatusView,
    next: StatusView,
    prev_peers: Seq<PeerView>,
    merged: Seq<PeerView>,
)
    ensures
        spec_status_messages(prev, next, true) + spec_peers_messages(prev_peers, merged, true)
            =~= seq![
            MessageView::Chain(next.chain),
            MessageView::Node(next.node),
            MessageView::Validator(next.validator),
            MessageView::Peers(merged),
        ],
{
}

/// When the chain status has not changed and no full report is due, the
/// tick emits no chain message.
pub proof fn lemma_no_chain_message_when_unchanged(prev: StatusView, next: StatusView)
    requires
        next.chain == prev.chain,
    ensures
        forall|i: int|
            0 <= i < spec_status_messages(prev, next, false).len() ==> !(#[trigger] spec_status_messages(
                prev,
                next,
                false,
            )[i] is Chain),
{
}

} // verus!
