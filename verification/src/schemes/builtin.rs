//! The providers that the kernel brings along, as one type for the
//! registry.

use vstd::prelude::*;
use vstd::string::StringSliceAdditionalSpecFns;
use crate::error::{Error, EINVAL, ENOENT};
use crate::network::icmp::{Icmp, IcmpScheme};
use crate::network::udp::{Udp, UdpScheme};
use crate::schemes::debug::{spec_debug_name, DebugResource, DebugScheme};
use crate::schemes::display::{DisplayResource, DisplayScheme};
use crate::schemes::env::{spec_variable, EnvResource, EnvScheme, EQUALS};
use crate::schemes::kscheme::{KScheme, Service};
use crate::schemes::memory::{spec_report, MemoryScheme};
use crate::schemes::url::Url;
use crate::schemes::vec_resource::VecResource;
use crate::text::spec_find;

verus! {

/// A provider of the kernel.
#[derive(Debug)]
pub enum Builtin {
    Debug(DebugScheme),
    Memory(MemoryScheme),
    Display(DisplayScheme),
    Env(EnvScheme),
    Icmp(IcmpScheme),
    Udp(UdpScheme),
}

/// What a provider of the kernel hands out.
#[derive(Debug)]
pub enum Handle {
    Debug(DebugResource),
    Vec(VecResource),
    Display(DisplayResource),
    Env(EnvResource),
    Icmp(Icmp),
    Udp(Udp),
}

/// The name of the scheme of the provider `scheme`.
pub open spec fn spec_name(scheme: Builtin) -> Seq<u8> {
    match scheme {
        Builtin::Debug(_) => spec_debug_name(),
        Builtin::Memory(_) => "memory".spec_bytes(),
        Builtin::Display(_) => "display".spec_bytes(),
        Builtin::Env(_) => "env".spec_bytes(),
        Builtin::Icmp(_) => "icmp".spec_bytes(),
        Builtin::Udp(_) => "udp".spec_bytes(),
    }
}

/// What the open of `url` on the provider `scheme` gives: the handle of
/// that provider, or its error.
pub open spec fn spec_opened(scheme: Builtin, url: Seq<u8>, r: Result<Handle, Error>) -> bool {
    match scheme {
        Builtin::Debug(_) => r matches Ok(Handle::Debug(h)) && h.command@.len() == 0
            && !h.line_toggle,
        Builtin::Memory(s) => r matches Ok(Handle::Vec(v)) && v.wf() && v.seek == 0 && v.data@
            == spec_report(s.used, s.free) && v.path@ == "memory:".spec_bytes(),
        Builtin::Display(s) => r matches Ok(Handle::Display(h)) && h == (DisplayResource {
            display: s.display,
            seek: 0,
        }),
        Builtin::Env(_) => if spec_find(spec_variable(url), EQUALS) is Some {
            r matches Err(e) && e.errno == EINVAL
        } else if spec_variable(url).len() == 0 {
            r matches Ok(Handle::Env(EnvResource::List(list))) && list.pos == 0
        } else {
            r matches Ok(Handle::Env(EnvResource::Variable(v))) && v.pos == 0 && v.name@
                == spec_variable(url)
        },
        Builtin::Icmp(_) => r matches Err(e) && e.errno == ENOENT,
        Builtin::Udp(_) => r matches Err(e) && e.errno == ENOENT,
    }
}

impl KScheme for Builtin {
    type Handle = Handle;

    /// A provider of the kernel has what the provider that it holds has.
    open spec fn provides(&self, op: Service) -> bool {
        match *self {
            Builtin::Debug(scheme) => scheme.provides(op),
            Builtin::Memory(scheme) => scheme.provides(op),
            Builtin::Display(scheme) => scheme.provides(op),
            Builtin::Env(scheme) => scheme.provides(op),
            Builtin::Icmp(scheme) => scheme.provides(op),
            Builtin::Udp(scheme) => scheme.provides(op),
        }
    }

    /// The name of the provider that it holds.
    fn scheme(&self) -> (name: Vec<u8>)
        ensures
            name@ == spec_name(*self),
    {
        match self {
            Builtin::Debug(scheme) => scheme.scheme(),
            Builtin::Memory(scheme) => scheme.scheme(),
            Builtin::Display(scheme) => scheme.scheme(),
            Builtin::Env(scheme) => scheme.scheme(),
            Builtin::Icmp(scheme) => scheme.scheme(),
            Builtin::Udp(scheme) => scheme.scheme(),
        }
    }

    /// Opens `url` on the provider that it holds.
    fn open(&mut self, url: &Url, flags: usize) -> (r: Result<Handle, Error>)
        ensures
            *final(self) == *old(self),
            spec_opened(*old(self), url@, r),
    {
        match self {
            Builtin::Debug(scheme) => match scheme.open(url, flags) {
                Ok(handle) => Ok(Handle::Debug(handle)),
                Err(e) => Err(e),
            },
            Builtin::Memory(scheme) => match scheme.open(url, flags) {
                Ok(handle) => Ok(Handle::Vec(handle)),
                Err(e) => Err(e),
            },
            Builtin::Display(scheme) => match scheme.open(url, flags) {
                Ok(handle) => Ok(Handle::Display(handle)),
                Err(e) => Err(e),
            },
            Builtin::Env(scheme) => match scheme.open(url, flags) {
                Ok(handle) => Ok(Handle::Env(handle)),
                Err(e) => Err(e),
            },
            Builtin::Icmp(scheme) => match scheme.open(url, flags) {
                Ok(handle) => Ok(Handle::Icmp(handle)),
                Err(e) => Err(e),
            },
            Builtin::Udp(scheme) => match scheme.open(url, flags) {
                Ok(handle) => Ok(Handle::Udp(handle)),
                Err(e) => Err(e),
            },
        }
    }
}

} // verus!
