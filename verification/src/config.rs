//! The configuration file.

use crate::text::{decimal, format_u64, join, law_decimal_reads_back, parsed_u64};
use vstd::prelude::*;

verus! {

/// The configuration: the web server, and nodes that are to be known from the
/// start.
#[derive(Debug, Clone)]
pub struct Config {
    pub server: ServerConfig,
    pub nodes: Vec<NodeConfig>,
}

/// Settings of the web server.
#[derive(Debug, Clone)]
pub struct ServerConfig {
    pub port: u16,
}

/// A node and how to log in to it.
#[derive(Debug, Clone)]
pub struct NodeConfig {
    pub ip: String,
    pub port: u16,
    pub ssh_port: u16,
    pub group_name: Option<String>,
    pub auth_type: String,
    pub auth_secret: String,
}

/// The port that the web server listens on unless told otherwise.
pub const DEFAULT_PORT: u16 = 30308;

impl Default for ServerConfig {
    fn default() -> (config: ServerConfig)
        ensures
            config.port == DEFAULT_PORT,
    {
        ServerConfig { port: DEFAULT_PORT }
    }
}

impl Default for Config {
    fn default() -> (config: Config)
        ensures
            config.is_default(),
    {
        Config { server: ServerConfig { port: DEFAULT_PORT }, nodes: Vec::new() }
    }
}

/// Every interface, at a port.
pub open spec fn listen_text(port: u16) -> Seq<char> {
    "0.0.0.0:"@ + decimal(port as nat)
}

/// The address that is listened on is `0.0.0.0`, a colon, and digits that read
/// back as the port.
pub proof fn law_listens_at_the_port(port: u16)
    ensures
        listen_text(port).take(8) == seq!['0', '.', '0', '.', '0', '.', '0', ':'],
        listen_text(port).skip(8) == decimal(port as nat),
        parsed_u64(listen_text(port).skip(8)) == Some(port as u64),
{
    reveal_strlit("0.0.0.0:");
    law_decimal_reads_back(port as u64);
    assert(listen_text(port).take(8) =~= seq!['0', '.', '0', '.', '0', '.', '0', ':']);
    assert(listen_text(port).skip(8) =~= decimal(port as nat));
}

impl ServerConfig {
    /// The address that the web server listens on: every interface, at the port.
    pub fn listen_address(&self) -> (r: String)
        ensures
            r@ == listen_text(self.port),
    {
        let port = format_u64(self.port as u64);
        join("0.0.0.0:", port.as_str())
    }
}

/// What was found where the configuration file was looked for.
#[derive(Debug, Clone)]
pub enum ConfigFile {
    /// There is no such file.
    Missing,
    /// The file could not be read.
    Unreadable(String),
    /// The file does not hold a configuration.
    Malformed(String),
    /// The configuration that the file holds.
    Holds(Config),
}

impl Config {
    /// The default port, and no nodes.
    pub open spec fn is_default(self) -> bool {
        self.server.port == DEFAULT_PORT && self.nodes@.len() == 0
    }

    /// The configuration, or why it could not be had. A file that does not exist
    /// stands for the default configuration.
    pub fn load(file: ConfigFile) -> (r: Result<Config, String>)
        ensures
            match file {
                ConfigFile::Missing => r matches Ok(config) && config.is_default(),
                ConfigFile::Unreadable(why) => r == Err::<Config, String>(why),
                ConfigFile::Malformed(why) => r == Err::<Config, String>(why),
                ConfigFile::Holds(config) => r == Ok::<Config, String>(config),
            },
    {
        match file {
            ConfigFile::Missing => Ok(Config::default()),
            ConfigFile::Unreadable(why) => Err(why),
            ConfigFile::Malformed(why) => Err(why),
            ConfigFile::Holds(config) => Ok(config),
        }
    }

    /// The configuration to run with: what the file holds, and the default one
    /// where no file was named or it could not be used.
    pub fn effective(file: Option<ConfigFile>) -> (r: Config)
        ensures
            match file {
                Some(ConfigFile::Holds(config)) => r == config,
                _ => r.is_default(),
            },
    {
        match file {
            Some(file) => match Config::load(file) {
                Ok(config) => config,
                Err(_) => Config::default(),
            },
            None => Config::default(),
        }
    }
}

/// The default configuration listens on port 30308 and knows no nodes.
pub proof fn law_default_configuration(config: Config)
    ensures
        config.is_default() <==> config.server.port == 30308 && config.nodes@.len() == 0,
        DEFAULT_PORT == 30308,
{
}

} // verus!
