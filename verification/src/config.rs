//! What the program is configured with: where the server is, and where the list of known
//! vaults is kept.

use crate::http_utils::{decimal, to_decimal};
use vstd::prelude::*;
use vstd::string::StringExecFns;

verus! {

pub const MISSING_CONFIG_PATH: &'static str = "First argument should be the config path.";

/// The configuration of the program.
#[derive(Debug)]
pub struct AppConfig {
    pub server: ServerInfo,
    pub vault_store: VaultStore,
}

/// Where the server is.
#[derive(Debug)]
pub struct ServerInfo {
    host: String,
    port: u16,
}

/// The file that lists the names of the known vaults, one on each line.
#[derive(Debug)]
pub struct VaultStore {
    pub path: String,
}

impl AppConfig {
    /// The path of the configuration file among the arguments of the program: the argument
    /// after the program's own name. Fails where there is none.
    pub fn config_path(args: &Vec<String>) -> (path: Result<String, String>)
        ensures
            match path {
                Ok(path) => args@.len() >= 2 && path@ == args@[1]@,
                Err(text) => args@.len() < 2 && text@ == MISSING_CONFIG_PATH@,
            },
    {
        if args.len() < 2 {
            return Err(String::from_str(MISSING_CONFIG_PATH));
        }
        Ok(args[1].clone())
    }
}

impl ServerInfo {
    pub fn new(host: String, port: u16) -> (server: Self)
        ensures
            server.host() == host@,
            server.port() == port,
    {
        Self { host, port }
    }

    /// The host of the server.
    pub closed spec fn host(&self) -> Seq<char> {
        self.host@
    }

    /// The port of the server.
    pub closed spec fn port(&self) -> u16 {
        self.port
    }

    /// The address of the server: the host, a colon and the port in decimal digits.
    pub fn get_server_url(&self) -> (url: String)
        ensures
            url@ == self.host() + seq![':'] + decimal(self.port() as nat),
    {
        proof {
            reveal_strlit(":");
        }
        let mut url = self.host.clone();
        url.append(":");
        url.append(to_decimal(self.port as u64).as_str());
        assert(url@ =~= self.host() + seq![':'] + decimal(self.port() as nat));
        url
    }
}

} // verus!
