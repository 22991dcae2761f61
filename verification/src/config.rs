//! The server's settings.
use vstd::prelude::*;
use vstd::string::StringExecFns;

verus! {

/// Where the server listens, and what it tells clients about proxied connections.
#[derive(Debug)]
pub struct ServerConfig {
    /// The address and port to listen on.
    pub addr: String,
    /// The base address to use for proxy connections.
    pub base_ip: String,
    /// The port to use for Java Edition proxy connections.
    pub java_port: u16,
}

impl Default for ServerConfig {
    /// Listens on every interface at port 9646, with no proxy base address and the
    /// Java Edition port 25565.
    fn default() -> (config: Self)
        ensures
            config.addr@ == "0.0.0.0:9646"@,
            config.base_ip@ == ""@,
            config.java_port == 25565,
    {
        ServerConfig {
            addr: String::from_str("0.0.0.0:9646"),
            base_ip: String::from_str(""),
            java_port: 25565,
        }
    }
}

} // verus!
