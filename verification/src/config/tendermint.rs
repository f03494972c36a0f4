//! Typed model of a Tendermint `config.toml` file.
//!
//! The embedding binary reads and deserializes the file; the types here
//! carry the fields the agent consumes, and the small grammars inside the
//! file — timeouts like `300ms` or `5s`, comma-separated lists — are
//! parsed here, against exact descriptions.

use crate::error::{Error, ErrorKind};
use crate::net::Address;
use crate::text::{all_digits, char_digit, spec_decimal_value, parse_u64};
use vstd::prelude::*;

verus! {

/// Tendermint `config.toml` file
#[derive(Debug)]
pub struct TendermintConfig {
    /// TCP or UNIX socket address of the ABCI application, or the name of
    /// an ABCI application compiled in with the Tendermint binary
    pub proxy_app: Address,

    /// A custom human readable name for this node
    pub moniker: String,

    /// Whether fast sync is allowed to catch up quickly by downloading
    /// blocks in parallel
    pub fast_sync: bool,

    /// Database backend
    pub db_backend: DbBackend,

    /// Database directory
    pub db_dir: String,

    /// Output level for logging, including package level options
    pub log_level: Vec<LogLevel>,

    /// Output format: plain colored text or JSON
    pub log_format: LogFormat,

    /// Path to the JSON file containing the initial validator set and
    /// other meta data
    pub genesis_file: String,

    /// Path to the JSON file containing the private key to use as a
    /// validator in the consensus protocol
    pub priv_validator_key_file: Option<String>,

    /// Path to the JSON file containing the last sign state of a validator
    pub priv_validator_state_file: String,

    /// TCP or UNIX socket address for Tendermint to listen on for
    /// connections from an external PrivValidator process
    pub priv_validator_laddr: Option<Address>,

    /// Path to the JSON file containing the private key to use for node
    /// authentication in the p2p protocol
    pub node_key_file: String,

    /// Mechanism to connect to the ABCI application
    pub abci: AbciMode,

    /// TCP or UNIX socket address for the profiling server to listen on
    pub prof_laddr: Option<Address>,

    /// If true, query the ABCI app on connecting to a new peer so the app
    /// can decide if we should keep the connection or not
    pub filter_peers: bool,

    /// RPC server configuration options
    pub rpc: RpcConfig,

    /// Peer to peer configuration options
    pub p2p: P2PConfig,

    /// Mempool configuration options
    pub mempool: MempoolConfig,

    /// Consensus configuration options
    pub consensus: ConsensusConfig,

    /// Transactions indexer configuration options
    pub tx_index: TxIndexConfig,

    /// Instrumentation configuration options
    pub instrumentation: InstrumentationConfig,
}

impl TendermintConfig {
    /// Is this configuration for a validator?
    pub fn is_validator(&self) -> (r: bool)
        ensures
            r == (self.priv_validator_key_file is Some || self.priv_validator_laddr is Some),
    {
        self.priv_validator_key_file.is_some() || self.priv_validator_laddr.is_some()
    }
}

/// Database backend
#[derive(Copy, Clone, Debug, PartialEq, Eq, Structural)]
pub enum DbBackend {
    /// LevelDB backend
    LevelDb,

    /// MemDB backend
    MemDb,

    /// CLevelDB backend
    CLevelDb,
}

/// Loglevel configuration
#[derive(Debug)]
pub struct LogLevel {
    /// The level text, e.g. `main:info`
    pub value: String,
}

impl View for LogLevel {
    type V = Seq<char>;

    open spec fn view(&self) -> Seq<char> {
        self.value@
    }
}

impl DeepView for LogLevel {
    type V = Seq<char>;

    open spec fn deep_view(&self) -> Seq<char> {
        self.value@
    }
}

/// Logging format
#[derive(Copy, Clone, Debug, PartialEq, Eq, Structural)]
pub enum LogFormat {
    /// Plain (colored text)
    Plain,

    /// JSON
    Json,
}

/// Mechanism to connect to the ABCI application
#[derive(Copy, Clone, Debug, PartialEq, Eq, Structural)]
pub enum AbciMode {
    /// Socket
    Socket,

    /// GRPC
    Grpc,
}

/// Tendermint `config.toml` file's `[rpc]` section
#[derive(Debug)]
pub struct RpcConfig {
    /// TCP or UNIX socket address for the RPC server to listen on
    pub laddr: Address,

    /// A list of origins a cross-domain request can be executed from
    pub cors_allowed_origins: Vec<CorsOrigin>,

    /// A list of methods the client is allowed to use with cross-domain
    /// requests
    pub cors_allowed_methods: Vec<CorsMethod>,

    /// A list of non simple headers the client is allowed to use with
    /// cross-domain requests
    pub cors_allowed_headers: Vec<CorsHeader>,

    /// TCP or UNIX socket address for the gRPC server to listen on
    pub grpc_laddr: Option<Address>,

    /// Maximum number of simultaneous gRPC connections
    pub grpc_max_open_connections: u64,

    /// Activate unsafe RPC commands
    pub unsafe_commands: bool,

    /// Maximum number of simultaneous connections, WebSocket included
    pub max_open_connections: u64,

    /// Maximum number of unique client IDs that can subscribe
    pub max_subscription_clients: u64,

    /// Maximum number of unique queries a given client can subscribe to
    pub max_subscriptions_per_client: u64,

    /// How long to wait for a transaction to be committed during a
    /// commit broadcast
    pub timeout_broadcast_tx_commit: Timeout,

    /// The name of a file containing a certificate for the HTTPS server
    pub tls_cert_file: String,

    /// The name of a file containing the matching private key
    pub tls_key_file: String,
}

/// Origin hosts allowed with CORS requests to the RPC API
#[derive(Debug)]
pub struct CorsOrigin {
    /// The origin text
    pub value: String,
}

/// HTTP methods allowed with CORS requests to the RPC API
#[derive(Debug)]
pub struct CorsMethod {
    /// The method text
    pub value: String,
}

/// HTTP headers allowed to be sent via CORS to the RPC API
#[derive(Debug)]
pub struct CorsHeader {
    /// The header text
    pub value: String,
}

/// Peer to peer configuration options
#[derive(Debug)]
pub struct P2PConfig {
    /// Address to listen for incoming connections
    pub laddr: Address,

    /// Address to advertise to peers for them to dial
    pub external_address: Option<Address>,

    /// Seed nodes to connect to
    pub seeds: Vec<Address>,

    /// Nodes to keep persistent connections to
    pub persistent_peers: Vec<Address>,

    /// UPNP port forwarding
    pub upnp: bool,

    /// Path to the address book
    pub addr_book_file: String,

    /// Set true for strict address routability rules
    pub addr_book_strict: bool,

    /// Maximum number of inbound peers
    pub max_num_inbound_peers: u64,

    /// Maximum number of outbound peers to connect to, excluding
    /// persistent peers
    pub max_num_outbound_peers: u64,

    /// Time to wait before flushing messages out on the connection
    pub flush_throttle_timeout: Timeout,

    /// Maximum size of a message packet payload, in bytes
    pub max_packet_msg_payload_size: u64,

    /// Rate at which packets can be sent, in bytes per second
    pub send_rate: TransferRate,

    /// Rate at which packets can be received, in bytes per second
    pub recv_rate: TransferRate,

    /// Set true to enable the peer-exchange reactor
    pub pex: bool,

    /// Seed mode, in which the node constantly crawls the network looking
    /// for peers
    pub seed_mode: bool,

    /// Peer IDs to keep private (will not be gossiped to other peers)
    pub private_peer_ids: Vec<String>,

    /// Toggle to disable the guard against peers connecting from the same
    /// IP
    pub allow_duplicate_ip: bool,

    /// Handshake timeout
    pub handshake_timeout: Timeout,

    /// Timeout when dialing other peers
    pub dial_timeout: Timeout,
}

/// Mempool configuration options
#[derive(Debug)]
pub struct MempoolConfig {
    /// Recheck enabled
    pub recheck: bool,

    /// Broadcast enabled
    pub broadcast: bool,

    /// WAL dir
    pub wal_dir: Option<String>,

    /// Maximum number of transactions in the mempool
    pub size: u64,

    /// Limit on the total size of all transactions in the mempool
    pub max_txs_bytes: u64,

    /// Size of the cache used to filter transactions seen earlier
    pub cache_size: u64,
}

/// Consensus configuration options
#[derive(Debug)]
pub struct ConsensusConfig {
    /// Path to the WAL file
    pub wal_file: String,

    /// Propose timeout
    pub timeout_propose: Timeout,

    /// Propose timeout delta
    pub timeout_propose_delta: Timeout,

    /// Prevote timeout
    pub timeout_prevote: Timeout,

    /// Prevote timeout delta
    pub timeout_prevote_delta: Timeout,

    /// Precommit timeout
    pub timeout_precommit: Timeout,

    /// Precommit timeout delta
    pub timeout_precommit_delta: Timeout,

    /// Commit timeout
    pub timeout_commit: Timeout,

    /// Make progress as soon as we have all the precommits
    pub skip_timeout_commit: bool,

    /// EmptyBlocks mode
    pub create_empty_blocks: bool,

    /// Interval between empty blocks
    pub create_empty_blocks_interval: Timeout,

    /// Reactor sleep duration
    pub peer_gossip_sleep_duration: Timeout,

    /// Reactor query sleep duration
    pub peer_query_maj23_sleep_duration: Timeout,
}

/// Transactions indexer configuration options
#[derive(Debug)]
pub struct TxIndexConfig {
    /// What indexer to use for transactions
    pub indexer: TxIndexer,

    /// Tags to index (by default the only tag is the transaction hash)
    pub index_tags: Vec<String>,

    /// When true, the indexer indexes all tags
    pub index_all_tags: bool,
}

/// What indexer to use for transactions
#[derive(Copy, Clone, Debug, PartialEq, Eq, Structural)]
pub enum TxIndexer {
    /// No indexer
    Null,

    /// The simplest possible indexer, backed by key-value storage
    Kv,
}

impl Default for TxIndexer {
    /// Key-value indexing.
    fn default() -> (r: TxIndexer)
        ensures
            r == TxIndexer::Kv,
    {
        TxIndexer::Kv
    }
}

/// Instrumentation configuration options
#[derive(Debug)]
pub struct InstrumentationConfig {
    /// When true, Prometheus metrics are served
    pub prometheus: bool,

    /// Address to listen on for Prometheus collector connections
    pub prometheus_listen_addr: String,

    /// Maximum number of simultaneous connections
    pub max_open_connections: u64,

    /// Instrumentation namespace
    pub namespace: String,
}

/// The milliseconds a timeout text denotes: a decimal number ending in
/// `ms`, or one ending in `s` whose digit count fits a millisecond
/// representation. Anything else denotes nothing.
pub open spec fn spec_parse_timeout(s: Seq<char>) -> Option<u64> {
    if s.len() < 2 || s.last() != 's' {
        None
    } else if s[s.len() - 2] == 'm' {
        let num = s.take(s.len() - 2);
        if num.len() > 0 && all_digits(num) && spec_decimal_value(num) <= u64::MAX as int {
            Some(spec_decimal_value(num) as u64)
        } else {
            None
        }
    } else if char_digit(s[s.len() - 2]) >= 0 {
        let num = s.take(s.len() - 1);
        if num.len() > 0 && all_digits(num) && spec_decimal_value(num) <= (u64::MAX as int) / 1000 {
            Some((spec_decimal_value(num) * 1000) as u64)
        } else {
            None
        }
    } else {
        None
    }
}

/// Timeout value, in milliseconds.
#[derive(Copy, Clone, Debug, PartialEq, Eq, Structural)]
pub struct Timeout {
    /// The timeout in milliseconds
    pub millis: u64,
}

impl Timeout {
    /// The timeout in milliseconds.
    pub fn as_millis(&self) -> (r: u64)
        ensures
            r == self.millis,
    {
        self.millis
    }

    /// Parse a timeout text: timeouts are either `ms` or `s` and always
    /// end with `s`, as in `300ms` or `5s`. Any other text is a
    /// `ConfigError`.
    pub fn parse(s: &str) -> (r: Result<Timeout, Error>)
        ensures
            r matches Ok(t) ==> spec_parse_timeout(s@) == Some(t.millis),
            r is Err <==> spec_parse_timeout(s@) is None,
            r matches Err(e) ==> e.kind == ErrorKind::ConfigError,
    {
        let n = s.unicode_len();
        if n < 2 || s.get_char(n - 1) != 's' {
            return Err(Error::new(ErrorKind::ConfigError, "invalid units".to_owned()));
        }
        let penult = s.get_char(n - 2);
        if penult == 'm' {
            let num = s.substring_char(0, n - 2);
            proof {
                assert(num@ =~= s@.take(n as int - 2));
            }
            match parse_u64(num) {
                Some(v) => Ok(Timeout { millis: v }),
                None => Err(Error::new(ErrorKind::ConfigError, "invalid number".to_owned())),
            }
        } else {
            let is_digit: bool = match penult {
                '0' | '1' | '2' | '3' | '4' | '5' | '6' | '7' | '8' | '9' => true,
                _ => false,
            };
            if !is_digit {
                return Err(Error::new(ErrorKind::ConfigError, "invalid units".to_owned()));
            }
            let num = s.substring_char(0, n - 1);
            proof {
                assert(num@ =~= s@.take(n as int - 1));
            }
            match parse_u64(num) {
                Some(v) => {
                    if v <= u64::MAX / 1000 {
                        Ok(Timeout { millis: v * 1000 })
                    } else {
                        Err(
                            Error::new(ErrorKind::ConfigError, "timeout too large".to_owned()),
                        )
                    }
                },
                None => Err(Error::new(ErrorKind::ConfigError, "invalid number".to_owned())),
            }
        }
    }
}

/// Rate at which bytes can be sent or received
#[derive(Copy, Clone, Debug, PartialEq, Eq, Structural)]
pub struct TransferRate {
    /// Bytes per second
    pub rate: u64,
}

impl TransferRate {
    /// Get the transfer rate in bytes per second.
    pub fn value(self) -> (r: u64)
        ensures
            r == self.rate,
    {
        self.rate
    }
}

/// The comma-joined text of a list of parts.
pub open spec fn spec_join_commas(parts: Seq<Seq<char>>) -> Seq<char>
    decreases parts.len(),
{
    if parts.len() == 0 {
        Seq::empty()
    } else if parts.len() == 1 {
        parts[0]
    } else {
        parts[0] + seq![','] + spec_join_commas(parts.skip(1))
    }
}

/// Joining after appending one part appends the part behind a comma.
proof fn lemma_join_push(parts: Seq<Seq<char>>, x: Seq<char>)
    ensures
        parts.len() == 0 ==> spec_join_commas(parts.push(x)) =~= x,
        parts.len() > 0 ==> spec_join_commas(parts.push(x)) =~= spec_join_commas(parts)
            + seq![','] + x,
    decreases parts.len(),
{
    if parts.len() == 0 {
        assert(parts.push(x)[0] == x);
    } else {
        lemma_join_push(parts.skip(1), x);
        assert(parts.push(x).skip(1) =~= parts.skip(1).push(x));
        assert(parts.push(x)[0] == parts[0]);
    }
}

/// Split a comma-separated list into its parts. An empty text has no
/// parts; any other text has the parts whose comma-join it is, none of
/// which contains a comma.
pub fn split_commas(s: &str) -> (r: Vec<String>)
    ensures
        s@.len() == 0 ==> r@.len() == 0,
        s@.len() > 0 ==> r@.len() > 0 && spec_join_commas(r.deep_view()) == s@,
        forall|i: int|
            0 <= i < r@.len() ==> forall|j: int|
                0 <= j < (#[trigger] r.deep_view()[i]).len() ==> r.deep_view()[i][j] != ',',
{
    let mut parts: Vec<String> = Vec::new();
    let n = s.unicode_len();
    if n == 0 {
        return parts;
    }
    let mut start: usize = 0;
    let mut i: usize = 0;
    loop
        invariant
            start <= i <= n,
            n == s@.len(),
            n > 0,
            forall|j: int| start <= j < i ==> s@[j] != ',',
            forall|a: int|
                0 <= a < parts@.len() ==> forall|b: int|
                    0 <= b < (#[trigger] parts.deep_view()[a]).len() ==> parts.deep_view()[a][b]
                        != ',',
            (if parts.deep_view().len() == 0 {
                s@.subrange(start as int, i as int)
            } else {
                spec_join_commas(parts.deep_view()) + seq![','] + s@.subrange(
                    start as int,
                    i as int,
                )
            }) =~= s@.take(i as int),
        decreases n - i,
    {
        if i == n {
            let part = s.substring_char(start, i);
            let ghost before = parts.deep_view();
            parts.push(part.to_owned());
            proof {
                lemma_join_push(before, part@);
                assert(parts.deep_view() =~= before.push(part@));
                assert(s@.take(n as int) =~= s@);
                assert(spec_join_commas(parts.deep_view()) =~= s@);
            }
            return parts;
        }
        if s.get_char(i) == ',' {
            let part = s.substring_char(start, i);
            let ghost before = parts.deep_view();
            parts.push(part.to_owned());
            proof {
                lemma_join_push(before, part@);
                assert(parts.deep_view() =~= before.push(part@));
                assert(s@.take(i as int + 1) =~= s@.take(i as int) + seq![s@[i as int]]);
            }
            start = i + 1;
            i = i + 1;
            proof {
                assert(s@.subrange(start as int, i as int) =~= Seq::<char>::empty());
            }
        } else {
            i = i + 1;
            proof {
                assert(s@.subrange(start as int, i as int) =~= s@.subrange(
                    start as int,
                    i as int - 1,
                ) + seq![s@[i as int - 1]]);
                assert(s@.take(i as int) =~= s@.take(i as int - 1) + seq![s@[i as int - 1]]);
            }
        }
    }
}

} // verus!
