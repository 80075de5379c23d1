//! Configuration the core consumes from its surroundings: the server's
//! bind point and the node's names, with their defaults.

use vstd::prelude::*;

verus! {

/// The default RPC port.
pub const DEFAULT_GRPC_PORT: u16 = 50051;

/// The server's bind configuration.
#[derive(Debug, Clone)]
pub struct ServerConfig {
    pub node_name: String,
    pub grpc_address: String,
    pub grpc_port: u16,
}

impl ServerConfig {
    /// Defaults: every interface (`0.0.0.0`), port 50051.
    pub fn new(node_name: String, grpc_address: Option<String>, grpc_port: Option<u16>) -> (r:
        Self)
        ensures
            r.node_name == node_name,
            match grpc_address {
                Some(a) => r.grpc_address == a,
                None => r.grpc_address@ == "0.0.0.0"@,
            },
            match grpc_port {
                Some(p) => r.grpc_port == p,
                None => r.grpc_port == DEFAULT_GRPC_PORT,
            },
    {
        let grpc_address = match grpc_address {
            Some(a) => a,
            None => String::from_str("0.0.0.0"),
        };
        let grpc_port = match grpc_port {
            Some(p) => p,
            None => DEFAULT_GRPC_PORT,
        };
        ServerConfig { node_name, grpc_address, grpc_port }
    }

    pub fn node_name(&self) -> (r: &String)
        ensures
            r == &self.node_name,
    {
        &self.node_name
    }

    pub fn grpc_address(&self) -> (r: &String)
        ensures
            r == &self.grpc_address,
    {
        &self.grpc_address
    }

    pub fn grpc_port(&self) -> (r: u16)
        ensures
            r == self.grpc_port,
    {
        self.grpc_port
    }

    /// The bind point as an address and port pair.
    pub fn grpc_socket(&self) -> (r: (&String, u16))
        ensures
            r.0 == &self.grpc_address,
            r.1 == self.grpc_port,
    {
        (&self.grpc_address, self.grpc_port)
    }
}

/// A node's command-line level configuration.
#[derive(Debug, Clone)]
pub struct Config {
    pub node_name: String,
    pub service_address: Option<String>,
    pub grpc_socket_addr: Option<String>,
}

impl Config {
    pub fn new(node_name: String, service_address: Option<String>, grpc_socket_addr: Option<
        String,
    >) -> (r: Self)
        ensures
            r.node_name == node_name,
            r.service_address == service_address,
            r.grpc_socket_addr == grpc_socket_addr,
    {
        Config { node_name, service_address, grpc_socket_addr }
    }

    pub fn node_name(&self) -> (r: &String)
        ensures
            r == &self.node_name,
    {
        &self.node_name
    }

    pub fn service_address(&self) -> (r: &Option<String>)
        ensures
            r == &self.service_address,
    {
        &self.service_address
    }

    pub fn grpc_socket(&self) -> (r: &Option<String>)
        ensures
            r == &self.grpc_socket_addr,
    {
        &self.grpc_socket_addr
    }
}

/// An optional discovery name, as a configuration file supplies it.
#[derive(Debug, Clone)]
pub struct DiscoveryConfig {
    pub name: Option<String>,
}

/// The dashboard's choices.
#[derive(Debug, Clone)]
pub struct DashboardConfig {
    pub use_web: bool,
    pub http_addr: Option<String>,
    pub http_port: Option<u16>,
}

/// Everything a configuration file may carry.
#[derive(Debug, Clone)]
pub struct PrintctlConfig {
    pub discovery: Option<DiscoveryConfig>,
    pub server: Option<ServerConfig>,
    pub ui: Option<DashboardConfig>,
}

impl PrintctlConfig {
    /// An empty configuration: all sections absent.
    pub fn new() -> (r: Self)
        ensures
            r.discovery is None,
            r.server is None,
            r.ui is None,
    {
        PrintctlConfig { discovery: None, server: None, ui: None }
    }
}

} // verus!
