//! The command line, as plain values.
use vstd::prelude::*;

verus! {

/// The port a server listens on when none is given.
pub const DEFAULT_PORT: u16 = 8080;

/// How the agent was asked to run.
#[derive(Debug, Clone)]
pub struct Arguments {
    pub command: Command,
}

/// What the agent is to do.
#[derive(Debug, Clone)]
pub enum Command {
    /// Run the server.
    Server(ServerArgs),
    /// Run the client.
    Client,
}

/// Where the server listens and what directory it serves.
#[derive(Debug, Clone)]
pub struct ServerArgs {
    /// The port to listen on.
    pub port: u16,
    /// The sandbox root directory.
    pub workdir: String,
}

impl Default for ServerArgs {
    /// Port 8080, sandbox root `remoteldr`.
    fn default() -> (r: Self)
        ensures
            r.port == DEFAULT_PORT,
            r.workdir@ == "remoteldr"@,
    {
        ServerArgs { port: DEFAULT_PORT, workdir: String::from_str("remoteldr") }
    }
}

} // verus!
