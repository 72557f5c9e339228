use vstd::prelude::*;

verus! {

/// The remote service endpoint.
#[derive(Debug, Clone)]
pub struct Api {
    pub server: String,
    pub port: u16,
}

/// The credentials used to log in to the remote service.
#[derive(Debug, Clone)]
pub struct Credentials {
    pub username: String,
    pub password: String,
}

/// Local settings: where the session token is kept.
#[derive(Debug, Clone)]
pub struct Settings {
    pub tokenfile: String,
}

/// The tool's configuration: endpoint, credentials and settings. The
/// surrounding layer loads it from a configuration file and hands it in
/// as plain values.
#[derive(Debug, Clone)]
pub struct Config {
    pub api: Api,
    pub credentials: Credentials,
    pub settings: Settings,
}

} // verus!
