//! The scheme: a named provider of resources, inside the kernel.

use vstd::prelude::*;
use crate::error::{Error, ENOENT};
use crate::schemes::url::Url;

verus! {

/// What a provider can be asked for.
#[derive(Clone, Copy, Debug, PartialEq, Eq, Structural)]
pub enum Service {
    OnIrq,
    OnPoll,
    Scheme,
    Open,
    Unlink,
}

/// A provider of resources. A provider implements what it supports and
/// says so in `provides`; the rest changes nothing, and fails as the
/// defaults here do.
pub trait KScheme: Sized {
    /// What the provider hands out for an open URL.
    type Handle;

    /// Whether the provider has the service `op`; a provider has none
    /// unless it says otherwise.
    open spec fn provides(&self, op: Service) -> bool {
        false
    }

    /// An interrupt has come in. Does nothing where it is not supported.
    fn on_irq(&mut self, irq: u8)
        ensures
            !old(self).provides(Service::OnIrq) ==> *final(self) == *old(self),
    {
    }

    /// The periodic poll. Does nothing where it is not supported.
    fn on_poll(&mut self)
        ensures
            !old(self).provides(Service::OnPoll) ==> *final(self) == *old(self),
    {
    }

    /// The name of the scheme; empty where the provider gives none.
    fn scheme(&self) -> (name: Vec<u8>)
        ensures
            !self.provides(Service::Scheme) ==> name@.len() == 0,
    {
        Vec::new()
    }

    /// Opens `url`. Fails with `ENOENT` where it is not supported.
    fn open(&mut self, url: &Url, flags: usize) -> (r: Result<Self::Handle, Error>)
        ensures
            !old(self).provides(Service::Open) ==> (r matches Err(e) && e.errno == ENOENT)
                && *final(self) == *old(self),
    {
        Err(Error::new(ENOENT))
    }

    /// Removes what `url` names. Fails with `ENOENT` where it is not
    /// supported.
    fn unlink(&mut self, url: &Url) -> (r: Result<(), Error>)
        ensures
            !old(self).provides(Service::Unlink) ==> r == Err::<(), Error>(Error { errno: ENOENT })
                && *final(self) == *old(self),
    {
        Err(Error::new(ENOENT))
    }
}

} // verus!
