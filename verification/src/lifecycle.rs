//! How a process starts and how it shuts down: what to open for each mode,
//! and what to close on exit.

use vstd::prelude::*;

verus! {

/// The port a server listens on and a client connects to, unless told
/// otherwise.
pub const DEFAULT_PORT: u16 = 5000;

/// An IP address, as the number that its bytes spell in network order.
#[derive(Clone, Copy, Debug, PartialEq, Eq, Structural)]
pub enum Address {
    V4(u32),
    V6(u128),
}

/// What a process is started as.
#[derive(Clone, Copy, Debug, PartialEq, Eq, Structural)]
pub enum Mode {
    /// No networking.
    Local,
    /// The coordinating process, listening on `port`.
    Server { port: u16 },
    /// A participant that connects to the server at `ip` and `port`.
    Client { ip: Address, port: u16 },
}

/// What a process opens when it starts.
#[derive(Clone, Copy, Debug, PartialEq, Eq, Structural)]
pub enum Startup {
    /// Nothing.
    Offline,
    /// A listening endpoint.
    Listen { address: Address, port: u16 },
    /// A connection to `remote`, from a local socket bound to `local`.
    Connect { remote: Address, remote_port: u16, local: Address, local_port: u16 },
}

/// One step of an orderly shutdown.
#[derive(Clone, Copy, Debug, PartialEq, Eq, Structural)]
pub enum Teardown {
    /// Close the listening endpoint, which releases every connection.
    StopEndpoint,
    /// Close the connection with this identifier.
    CloseConnection(u64),
}

impl Address {
    /// The loopback address: where a server listens, and where a client
    /// looks for it unless told otherwise.
    pub open spec fn loopback() -> Address {
        Address::V6(1)
    }

    /// The address that leaves the choice of interface to the system.
    pub open spec fn unspecified() -> Address {
        Address::V6(0)
    }
}

impl Default for Address {
    fn default() -> (address: Address)
        ensures
            address == Address::loopback(),
    {
        Address::V6(1)
    }
}

impl Default for Mode {
    fn default() -> (mode: Mode)
        ensures
            mode == Mode::Local,
    {
        Mode::Local
    }
}

impl Mode {
    pub open spec fn spec_startup(self) -> Startup {
        match self {
            Mode::Local => Startup::Offline,
            Mode::Server { port } => Startup::Listen { address: Address::loopback(), port },
            Mode::Client { ip, port } => Startup::Connect {
                remote: ip,
                remote_port: port,
                local: Address::unspecified(),
                local_port: 0,
            },
        }
    }

    pub open spec fn spec_headless(self) -> bool {
        self is Server
    }

    /// The steps that shut down a process of this mode which holds the
    /// connections `connections`: a client closes each of its connections,
    /// in order; a server stops its endpoint; a local process has nothing
    /// to close.
    pub open spec fn teardown_plan(self, connections: Seq<u64>) -> Seq<Teardown> {
        match self {
            Mode::Local => Seq::empty(),
            Mode::Server { .. } => seq![Teardown::StopEndpoint],
            Mode::Client { .. } => Seq::new(
                connections.len(),
                |i: int| Teardown::CloseConnection(connections[i]),
            ),
        }
    }

    /// What to open at startup. A server listens on the loopback address; a
    /// client connects from a socket that the system binds.
    #[verifier::when_used_as_spec(spec_startup)]
    pub fn startup(self) -> (opened: Startup)
        ensures
            opened == self.spec_startup(),
    {
        match self {
            Mode::Local => Startup::Offline,
            Mode::Server { port } => Startup::Listen { address: Address::V6(1), port },
            Mode::Client { ip, port } => Startup::Connect {
                remote: ip,
                remote_port: port,
                local: Address::V6(0),
                local_port: 0,
            },
        }
    }

    /// Whether the process runs without presentation: only the server does.
    #[verifier::when_used_as_spec(spec_headless)]
    pub fn headless(self) -> (headless: bool)
        ensures
            headless == self.spec_headless(),
    {
        match self {
            Mode::Server { .. } => true,
            _ => false,
        }
    }

    /// The steps of an orderly shutdown. The steps are fixed before any of
    /// them is taken, so that the failure of one has no bearing on the
    /// others.
    pub fn teardown(self, connections: &Vec<u64>) -> (plan: Vec<Teardown>)
        ensures
            plan@ == self.teardown_plan(connections@),
    {
        let mut plan: Vec<Teardown> = Vec::new();
        match self {
            Mode::Local => {},
            Mode::Server { .. } => {
                plan.push(Teardown::StopEndpoint);
            },
            Mode::Client { .. } => {
                let mut i: usize = 0;
                while i < connections.len()
                    invariant
                        i <= connections.len(),
                        plan.len() == i,
                        forall|k: int|
                            0 <= k < i ==> plan[k] == Teardown::CloseConnection(connections[k]),
                    decreases connections.len() - i,
                {
                    plan.push(Teardown::CloseConnection(connections[i]));
                    i += 1;
                }
            },
        }
        plan
    }
}

} // verus!
