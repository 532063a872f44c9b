//! The memory scheme: how much memory is used and how much is free, as
//! text.

use vstd::prelude::*;
use vstd::string::StringSliceAdditionalSpecFns;
use crate::error::Error;
use crate::schemes::kscheme::{KScheme, Service};
use crate::schemes::url::Url;
use crate::schemes::vec_resource::VecResource;
use crate::text::{push_range, str_bytes};

verus! {

/// The bytes of a unit of the report: a kibibyte.
pub const REPORT_UNIT: usize = 1024;

/// The memory scheme, with the two numbers that it reports, in bytes.
#[derive(Clone, Copy, Debug, PartialEq, Eq, Structural)]
pub struct MemoryScheme {
    pub used: usize,
    pub free: usize,
}

/// The digit of `d`.
pub open spec fn spec_digit(d: nat) -> u8 {
    (0x30 + d) as u8
}

/// `n` in decimal digits.
pub open spec fn spec_decimal(n: nat) -> Seq<u8>
    decreases n,
{
    if n < 10 {
        seq![spec_digit(n)]
    } else {
        spec_decimal(n / 10).push(spec_digit(n % 10))
    }
}

/// The report for `used` and `free` bytes.
pub open spec fn spec_report(used: usize, free: usize) -> Seq<u8> {
    "Memory Used: ".spec_bytes() + spec_decimal((used / REPORT_UNIT) as nat) + " KB\nMemory Free: ".spec_bytes()
        + spec_decimal((free / REPORT_UNIT) as nat) + " KB".spec_bytes()
}

/// Appends `n` in decimal digits to `out`.
pub fn push_decimal(out: &mut Vec<u8>, n: usize)
    ensures
        final(out)@ == old(out)@ + spec_decimal(n as nat),
    decreases n,
{
    if n >= 10 {
        push_decimal(out, n / 10);
    }
    out.push(0x30 + (n % 10) as u8);
    assert(out@ =~= old(out)@ + spec_decimal(n as nat));
}

impl MemoryScheme {
    /// The text of the report.
    pub fn report(&self) -> (text: Vec<u8>)
        ensures
            text@ == spec_report(self.used, self.free),
    {
        let mut text = str_bytes("Memory Used: ");
        push_decimal(&mut text, self.used / REPORT_UNIT);
        let middle = str_bytes(" KB\nMemory Free: ");
        push_range(&mut text, middle.as_slice(), 0, middle.len());
        push_decimal(&mut text, self.free / REPORT_UNIT);
        let end = str_bytes(" KB");
        push_range(&mut text, end.as_slice(), 0, end.len());
        assert(middle@.subrange(0, middle@.len() as int) =~= middle@);
        assert(end@.subrange(0, end@.len() as int) =~= end@);
        text
    }
}

impl KScheme for MemoryScheme {
    type Handle = VecResource;

    /// The provider has a name and opens.
    open spec fn provides(&self, op: Service) -> bool {
        op == Service::Scheme || op == Service::Open
    }

    /// The name of the scheme: `memory`.
    fn scheme(&self) -> (name: Vec<u8>)
        ensures
            name@ == "memory".spec_bytes(),
    {
        str_bytes("memory")
    }

    /// A resource that holds the report, with the path `memory:`.
    fn open(&mut self, url: &Url, flags: usize) -> (r: Result<VecResource, Error>)
        ensures
            *final(self) == *old(self),
            r is Ok,
            r->Ok_0.wf(),
            r->Ok_0.data@ == spec_report(old(self).used, old(self).free),
            r->Ok_0.path@ == "memory:".spec_bytes(),
            r->Ok_0.seek == 0,
    {
        Ok(VecResource::new(str_bytes("memory:"), self.report(), 0))
    }
}

} // verus!
