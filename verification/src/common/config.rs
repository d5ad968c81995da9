//! Node configuration: identity, network limits, NAT traversal and logging.
//! Reading and writing configuration files happens outside the library; the
//! values and their defaults live here.

use vstd::prelude::*;

verus! {

/// Why a configuration could not be loaded or stored.
#[derive(Debug)]
pub enum ConfigError {
    /// The file at this path could not be read.
    FileNotFound(String),
    /// The text is not a valid configuration.
    Parse(String),
    /// A required field is absent.
    MissingField(String),
    /// A field holds a value out of its range.
    InvalidValue(String),
}

impl ConfigError {
    /// The message of this error.
    pub fn to_string(&self) -> (s: String)
        ensures
            s@ == spec_config_error_message(*self),
    {
        match self {
            ConfigError::FileNotFound(p) => String::from_str("File not found: ").concat(p.as_str()),
            ConfigError::Parse(m) => String::from_str("Parse error: ").concat(m.as_str()),
            ConfigError::MissingField(m) => String::from_str("Missing field: ").concat(m.as_str()),
            ConfigError::InvalidValue(m) => String::from_str("Invalid value: ").concat(m.as_str()),
        }
    }
}

/// The message of each configuration error: a fixed prefix and the detail.
pub open spec fn spec_config_error_message(e: ConfigError) -> Seq<char> {
    match e {
        ConfigError::FileNotFound(p) => "File not found: "@ + p@,
        ConfigError::Parse(m) => "Parse error: "@ + m@,
        ConfigError::MissingField(m) => "Missing field: "@ + m@,
        ConfigError::InvalidValue(m) => "Invalid value: "@ + m@,
    }
}

/// Identity and addresses of this node.
#[derive(Debug, Clone)]
pub struct NodeConfig {
    pub id: Option<String>,
    pub name: String,
    pub listen_addr: String,
    pub external_addr: Option<String>,
    /// Directory for persistent data, as a path string.
    pub data_dir: String,
}

/// Connection limits, timers (in seconds) and well-known servers.
#[derive(Debug, Clone)]
pub struct NetworkConfig {
    pub max_connections: usize,
    pub connection_timeout: u64,
    pub keepalive_interval: u64,
    pub dht_bootstrap: Vec<String>,
    pub stun_servers: Vec<String>,
}

/// NAT traversal and relaying.
#[derive(Debug, Clone)]
pub struct P2PConfig {
    pub nat_traversal: bool,
    pub hole_punch_timeout: u64,
    pub max_relay_hops: u8,
    pub relay_servers: Vec<String>,
}

/// Log level, format and destination.
#[derive(Debug, Clone)]
pub struct LoggingConfig {
    pub level: String,
    pub format: String,
    pub output: String,
}

/// The whole configuration of a node.
#[derive(Debug, Clone)]
pub struct Config {
    pub node: NodeConfig,
    pub network: NetworkConfig,
    pub p2p: P2PConfig,
    pub logging: LoggingConfig,
}

impl Default for Config {
    /// A node named "FastLink Node" listening on any address, a hundred
    /// connections, NAT traversal on, info-level text logs to stdout.
    fn default() -> (c: Config)
        ensures
            c.node.id is None,
            c.node.name@ == "FastLink Node"@,
            c.node.listen_addr@ == "0.0.0.0:0"@,
            c.node.external_addr is None,
            c.node.data_dir@ == "./data"@,
            c.network.max_connections == 100,
            c.network.connection_timeout == 30,
            c.network.keepalive_interval == 10,
            c.network.dht_bootstrap@.len() == 0,
            c.network.stun_servers@.len() == 0,
            c.p2p.nat_traversal,
            c.p2p.hole_punch_timeout == 10,
            c.p2p.max_relay_hops == 3,
            c.p2p.relay_servers@.len() == 0,
            c.logging.level@ == "info"@,
            c.logging.format@ == "text"@,
            c.logging.output@ == "stdout"@,
    {
        Config {
            node: NodeConfig {
                id: None,
                name: String::from_str("FastLink Node"),
                listen_addr: String::from_str("0.0.0.0:0"),
                external_addr: None,
                data_dir: String::from_str("./data"),
            },
            network: NetworkConfig {
                max_connections: 100,
                connection_timeout: 30,
                keepalive_interval: 10,
                dht_bootstrap: Vec::new(),
                stun_servers: Vec::new(),
            },
            p2p: P2PConfig {
                nat_traversal: true,
                hole_punch_timeout: 10,
                max_relay_hops: 3,
                relay_servers: Vec::new(),
            },
            logging: LoggingConfig {
                level: String::from_str("info"),
                format: String::from_str("text"),
                output: String::from_str("stdout"),
            },
        }
    }
}

} // verus!
