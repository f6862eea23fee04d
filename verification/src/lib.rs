//! A TCP proxy that speaks HTTP/1.1 or SOCKS with its clients: what it makes
//! of the bytes they send, what it answers, and where and how it connects
//! on their behalf. The library decides; reading, writing and connecting
//! are left to the program that drives it.

pub mod buffer;
pub mod dial;
pub mod http;
pub mod listen;
pub mod socks;
pub mod text;
pub mod wire;

use crate::dial::{Attempt, DialError, DialFault, Endpoint, Race};
use vstd::prelude::*;
use vstd::string::StringExecFns;

verus! {

/// What outbound connections are made with: the source address to bind
/// their sockets to, if one is configured.
#[derive(Debug, Clone, Copy, PartialEq, Eq)]
pub struct Dialer {
    bind_addr: Option<Endpoint>,
}

impl Default for Dialer {
    /// A dialer that leaves the choice of the source address to the system.
    fn default() -> (dialer: Self)
        ensures
            dialer.spec_bind_addr() is None,
    {
        Dialer { bind_addr: None }
    }
}

impl Dialer {
    /// The source address of outbound connections, if one is configured.
    pub closed spec fn spec_bind_addr(&self) -> Option<Endpoint> {
        self.bind_addr
    }

    /// The source address of outbound connections, if one is configured.
    #[verifier::when_used_as_spec(spec_bind_addr)]
    pub fn bind_addr(&self) -> (addr: Option<Endpoint>)
        ensures
            addr == self.spec_bind_addr(),
    {
        self.bind_addr
    }

    /// The attempt to connect to `addr`: with a socket of the family of
    /// `addr`, bound to the configured source address if there is one.
    pub open spec fn attempt(&self, addr: Endpoint) -> Attempt {
        Attempt { family: addr.family(), bind: self.bind_addr(), target: addr }
    }

    /// A dialer whose connections leave from the first of the addresses
    /// that the configured source was resolved to. With no address there is
    /// no dialer.
    pub fn bind(resolved: &[Endpoint]) -> (r: Result<Dialer, DialError>)
        ensures
            match r {
                Ok(dialer) => resolved@.len() > 0 && dialer.bind_addr() == Some(resolved@[0]),
                Err(e) => resolved@.len() == 0 && e@ == DialFault::AddrNotAvailable,
            },
    {
        if resolved.len() == 0 {
            Err(DialError::AddrNotAvailable)
        } else {
            Ok(Dialer { bind_addr: Some(resolved[0]) })
        }
    }

    /// Opens the race for a connection to one of the addresses that the
    /// destination was resolved to: one attempt for each, all running. With
    /// no address there is nothing to attempt.
    pub fn dial(&self, candidates: &[Endpoint]) -> (r: Result<Race, DialError>)
        ensures
            match r {
                Ok(race) => {
                    &&& candidates@.len() > 0
                    &&& race.wf()
                    &&& race@.running == candidates@.len()
                    &&& race@.attempts == candidates@.map_values(
                        |addr: Endpoint| self.attempt(addr),
                    )
                },
                Err(e) => candidates@.len() == 0 && e@ == DialFault::AddrNotAvailable,
            },
    {
        if candidates.len() == 0 {
            return Err(DialError::AddrNotAvailable);
        }
        let mut attempts: Vec<Attempt> = Vec::new();
        let mut i: usize = 0;
        while i < candidates.len()
            invariant
                i <= candidates.len(),
                attempts@ == candidates@.take(i as int).map_values(
                    |addr: Endpoint| self.attempt(addr),
                ),
            decreases candidates.len() - i,
        {
            attempts.push(self.dial_one(candidates[i]));
            i += 1;
            assert(attempts@ =~= candidates@.take(i as int).map_values(
                |addr: Endpoint| self.attempt(addr),
            ));
        }
        assert(candidates@.take(i as int) =~= candidates@);
        Ok(Race::start(attempts))
    }

    /// Plans the attempt to connect to one address.
    pub fn dial_one(&self, addr: Endpoint) -> (attempt: Attempt)
        ensures
            attempt == self.attempt(addr),
    {
        Attempt { family: addr.family(), bind: self.bind_addr, target: addr }
    }
}

/// A provider: the protocol that the proxy speaks with its clients.
#[derive(Clone)]
pub enum Service {
    Http(http::Service),
    Socks(socks::provider::Service),
}

impl Service {
    /// The dialer by which the sessions of this provider reach out.
    pub open spec fn spec_dialer(&self) -> Dialer {
        match self {
            Service::Http(service) => service.spec_dialer(),
            Service::Socks(service) => service.spec_dialer(),
        }
    }

    /// The dialer by which the sessions of this provider reach out.
    pub fn dialer(&self) -> (dialer: &Dialer)
        ensures
            *dialer == self.spec_dialer(),
    {
        match self {
            Service::Http(service) => service.dialer(),
            Service::Socks(service) => service.dialer(),
        }
    }
}

/// Why the proxy cannot be set up as it was asked.
#[derive(Debug, Clone, PartialEq, Eq)]
pub enum ConfigError {
    /// No provider has this name.
    UnknownProvider(String),
}

impl ConfigError {
    /// The name that no provider has.
    pub open spec fn name(&self) -> Seq<char> {
        match self {
            ConfigError::UnknownProvider(name) => name@,
        }
    }

    /// The failure as text.
    pub open spec fn text(&self) -> Seq<char> {
        "unknown provider: `"@ + self.name() + "`"@
    }

    /// The failure as text, for the operator.
    pub fn to_string(&self) -> (text: String)
        ensures
            text@ == self.text(),
    {
        match self {
            ConfigError::UnknownProvider(name) => String::from_str("unknown provider: `").concat(
                name.as_str(),
            ).concat("`"),
        }
    }
}

/// The provider of the given name, `http` or `socks`, reaching out by
/// `dialer`. Any other name is refused.
pub fn create_service(provider: &str, dialer: Dialer) -> (r: Result<Service, ConfigError>)
    ensures
        match r {
            Ok(Service::Http(service)) => provider@ == "http"@ && service.spec_dialer() == dialer,
            Ok(Service::Socks(service)) => provider@ == "socks"@ && service.spec_dialer()
                == dialer,
            Err(e) => provider@ != "http"@ && provider@ != "socks"@ && e.name() == provider@,
        },
{
    let name = String::from_str(provider);
    if name == String::from_str("http") {
        Ok(Service::Http(http::Service::new(dialer)))
    } else if name == String::from_str("socks") {
        Ok(Service::Socks(socks::provider::Service::new(dialer)))
    } else {
        Err(ConfigError::UnknownProvider(name))
    }
}

} // verus!
