//! The provider of the SOCKS proxy.

use crate::socks::{Session, State};
use crate::Dialer;
use std::sync::Arc;
use vstd::prelude::*;

verus! {

/// The provider of the SOCKS proxy: it makes the session of each connection.
#[derive(Clone)]
pub struct Service {
    dialer: Arc<Dialer>,
}

impl Service {
    /// The dialer by which the sessions of this provider reach out.
    pub closed spec fn spec_dialer(&self) -> Dialer {
        *self.dialer
    }

    /// A provider whose sessions reach out by `dialer`.
    pub fn new(dialer: Dialer) -> (service: Self)
        ensures
            service.spec_dialer() == dialer,
    {
        Self { dialer: Arc::new(dialer) }
    }

    /// The dialer by which the sessions of this provider reach out.
    pub fn dialer(&self) -> (dialer: &Dialer)
        ensures
            *dialer == self.spec_dialer(),
    {
        &self.dialer
    }

    /// The session of a new connection: it awaits the version byte.
    pub fn call(&self) -> (session: Session)
        ensures
            session@ == State::Starting,
    {
        Session::Starting
    }
}

} // verus!
