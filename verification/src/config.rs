//! Server configuration: the listen address, the directory that stores the
//! files, and the credentials of the single configured user.
use vstd::prelude::*;

verus! {

/// The server's configuration.
#[derive(Debug, Clone, PartialEq, Eq)]
pub struct Config {
    pub ip: String,
    pub data_dir: String,
    pub user: User,
}

/// Credentials of the configured user.
#[derive(Debug, Clone, PartialEq, Eq)]
pub struct User {
    pub name: String,
    pub pass: String,
}

impl Config {
    /// The configuration written out when none exists yet: a local listen
    /// address and a placeholder data directory the operator is told to
    /// edit.
    pub fn default_config() -> (c: Config)
        ensures
            c.ip@ == "127.0.0.1:8080"@,
            c.data_dir@ == "/home/zeroone/nimbus_server/"@,
            c.user.name@ == "Alice"@,
            c.user.pass@ == "AliceTheBest123"@,
    {
        Config {
            ip: "127.0.0.1:8080".to_owned(),
            data_dir: "/home/zeroone/nimbus_server/".to_owned(),
            user: User { name: "Alice".to_owned(), pass: "AliceTheBest123".to_owned() },
        }
    }
}

} // verus!
