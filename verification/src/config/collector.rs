//! Collector configuration settings

pub mod listen;

use crate::config::network;
use crate::metrics::TeamTable;
use vstd::prelude::*;

verus! {

/// Collector config settings.
#[derive(Debug)]
pub struct Config {
    /// Listen configuration
    pub listen: listen::Config,

    /// Networks this collector is collecting information about
    pub networks: network::Config,

    /// StatsD host to send metrics to, if any
    pub statsd: Option<String>,

    /// Prefix for every metric name
    pub metrics_prefix: String,

    /// Team substitutions that bound metric tag cardinality
    pub teams: Vec<TeamConfig>,
}

/// One team's substitution entries: any of the listed values is replaced
/// by the team name in metric tags.
#[derive(Debug)]
pub struct TeamConfig {
    /// Team name
    pub name: String,

    /// Validator address attributed to the team
    pub address: String,

    /// Channel ID attributed to the team
    pub channel_id: String,

    /// Client ID attributed to the team
    pub client_id: String,
}

/// The three substitution tables the teams list defines, in list order:
/// address-to-team, channel-to-team and client-to-team.
pub fn team_tables(teams: &Vec<TeamConfig>) -> (r: (TeamTable, TeamTable, TeamTable))
    ensures
        r.0@.len() == teams@.len(),
        r.1@.len() == teams@.len(),
        r.2@.len() == teams@.len(),
        forall|i: int|
            0 <= i < teams@.len() ==> #[trigger] r.0@[i] == (
                teams@[i].address@,
                teams@[i].name@,
            ) && r.1@[i] == (teams@[i].channel_id@, teams@[i].name@) && r.2@[i] == (
                teams@[i].client_id@,
                teams@[i].name@,
            ),
{
    let mut addresses = TeamTable::new();
    let mut channels = TeamTable::new();
    let mut clients = TeamTable::new();
    let n = teams.len();
    let mut i: usize = 0;
    while i < n
        invariant
            i <= n,
            n == teams@.len(),
            addresses@.len() == i,
            channels@.len() == i,
            clients@.len() == i,
            forall|j: int|
                0 <= j < i ==> #[trigger] addresses@[j] == (teams@[j].address@, teams@[j].name@)
                    && channels@[j] == (teams@[j].channel_id@, teams@[j].name@) && clients@[j] == (
                    teams@[j].client_id@,
                    teams@[j].name@,
                ),
        decreases n - i,
    {
        let team = &teams[i];
        addresses.push(team.address.clone(), team.name.clone());
        channels.push(team.channel_id.clone(), team.name.clone());
        clients.push(team.client_id.clone(), team.name.clone());
        i = i + 1;
    }
    (addresses, channels, clients)
}

} // verus!
