//! The environment scheme: the variables of the current unit as
//! resources.

use vstd::prelude::*;
use vstd::string::StringSliceAdditionalSpecFns;
use crate::error::{Error, EINVAL};
use crate::schemes::kscheme::{KScheme, Service};
use crate::schemes::resource::ResourceSeek;
use crate::schemes::url::Url;
use crate::schemes::vec_resource::{copy_into, spec_filled};
use crate::text::{copy_range, find, push_all, spec_find, str_bytes, to_vec};

verus! {

pub const COLON: u8 = 0x3A;

pub const EQUALS: u8 = 0x3D;

pub const NEWLINE: u8 = 0x0A;

/// A variable of the environment.
#[derive(Debug, PartialEq, Eq)]
pub struct EnvVar {
    pub name: Vec<u8>,
    pub value: Vec<u8>,
}

/// The environment scheme.
#[derive(Clone, Copy, Debug, PartialEq, Eq, Structural)]
pub struct EnvScheme;

/// A handle on the list of all variables.
#[derive(Clone, Copy, Debug, PartialEq, Eq, Structural)]
pub struct EnvListResource {
    pub pos: usize,
}

/// A handle on one variable.
#[derive(Debug, PartialEq, Eq)]
pub struct EnvVariableResource {
    pub name: Vec<u8>,
    pub pos: usize,
}

/// What the environment scheme hands out.
#[derive(Debug, PartialEq, Eq)]
pub enum EnvResource {
    List(EnvListResource),
    Variable(EnvVariableResource),
}

/// The name of the variable that `url` names: what stands behind the first
/// colon, and nothing where there is none.
pub open spec fn spec_variable(url: Seq<u8>) -> Seq<u8> {
    match spec_find(url, COLON) {
        Some(k) => url.subrange(k + 1, url.len() as int),
        None => Seq::empty(),
    }
}

/// The names and values of the variables, as pairs of sequences.
pub open spec fn spec_vars(vars: Seq<EnvVar>) -> Seq<(Seq<u8>, Seq<u8>)> {
    vars.map_values(|v: EnvVar| (v.name@, v.value@))
}

/// The lines of the first `n` variables: for each its name, an equals
/// sign, its value and a line end.
pub open spec fn spec_lines(vars: Seq<(Seq<u8>, Seq<u8>)>, n: int) -> Seq<u8>
    decreases n,
{
    if n <= 0 {
        Seq::empty()
    } else {
        spec_lines(vars, n - 1) + vars[n - 1].0 + seq![EQUALS] + vars[n - 1].1 + seq![NEWLINE]
    }
}

/// The list of the variables: their lines, without the last line end.
pub open spec fn spec_list(vars: Seq<(Seq<u8>, Seq<u8>)>) -> Seq<u8> {
    let lines = spec_lines(vars, vars.len() as int);
    if lines.len() > 0 {
        lines.drop_last()
    } else {
        lines
    }
}

/// `v` as a machine word, round the ends of its range.
pub open spec fn spec_wrapped(v: int) -> usize {
    if v < 0 {
        (v + usize::MAX + 1) as usize
    } else if v > usize::MAX {
        (v - usize::MAX - 1) as usize
    } else {
        v as usize
    }
}

/// The position after a seek in `len` bytes from the position `pos`. The
/// position is not held inside the bytes.
pub open spec fn spec_seek(len: int, pos: int, seek: ResourceSeek) -> usize {
    match seek {
        ResourceSeek::Start(offset) => offset,
        ResourceSeek::Current(offset) => spec_wrapped(pos + offset),
        ResourceSeek::End(offset) => spec_wrapped(len + offset),
    }
}

/// `v` as a machine word, round the ends of its range.
fn wrapped(v: i128) -> (r: usize)
    requires
        -(usize::MAX as int) - 1 <= v <= 2 * (usize::MAX as int) + 1,
    ensures
        r == spec_wrapped(v as int),
{
    if v < 0 {
        (v + usize::MAX as i128 + 1) as usize
    } else if v > usize::MAX as i128 {
        (v - usize::MAX as i128 - 1) as usize
    } else {
        v as usize
    }
}

/// The position after a seek.
fn seek_to(len: usize, pos: usize, seek: ResourceSeek) -> (r: usize)
    ensures
        r == spec_seek(len as int, pos as int, seek),
{
    match seek {
        ResourceSeek::Start(offset) => offset,
        ResourceSeek::Current(offset) => wrapped(pos as i128 + offset as i128),
        ResourceSeek::End(offset) => wrapped(len as i128 + offset as i128),
    }
}

impl EnvScheme {
    /// Opens the list of the variables, for a URL that names no variable,
    /// or the variable that the URL names. A name with an equals sign
    /// fails with `EINVAL`.
    pub fn resource(url: &[u8]) -> (r: Result<EnvResource, Error>)
        ensures
            spec_find(spec_variable(url@), EQUALS) is Some ==> r == Err::<EnvResource, Error>(
                Error { errno: EINVAL },
            ),
            spec_find(spec_variable(url@), EQUALS) is None && spec_variable(url@).len() == 0 ==> r
                == Ok::<EnvResource, Error>(EnvResource::List(EnvListResource { pos: 0 })),
            spec_find(spec_variable(url@), EQUALS) is None && spec_variable(url@).len() > 0 ==> (r
                matches Ok(EnvResource::Variable(v)) && v.name@ == spec_variable(url@) && v.pos
                == 0),
    {
        let name = match find(url, COLON) {
            Some(k) => {
                assert(k < url.len());
                copy_range(url, k + 1, url.len())
            },
            None => Vec::new(),
        };
        if find(name.as_slice(), EQUALS).is_some() {
            Err(Error::new(EINVAL))
        } else if name.len() == 0 {
            Ok(EnvResource::List(EnvListResource { pos: 0 }))
        } else {
            Ok(EnvResource::Variable(EnvVariableResource { name, pos: 0 }))
        }
    }
}

impl KScheme for EnvScheme {
    type Handle = EnvResource;

    /// The provider has a name and opens.
    open spec fn provides(&self, op: Service) -> bool {
        op == Service::Scheme || op == Service::Open
    }

    /// The name of the scheme: `env`.
    fn scheme(&self) -> (name: Vec<u8>)
        ensures
            name@ == "env".spec_bytes(),
    {
        str_bytes("env")
    }

    /// Opens the list of the variables or one variable.
    fn open(&mut self, url: &Url, flags: usize) -> (r: Result<EnvResource, Error>)
        ensures
            spec_find(spec_variable(url@), EQUALS) is Some ==> r == Err::<EnvResource, Error>(
                Error { errno: EINVAL },
            ),
            spec_find(spec_variable(url@), EQUALS) is None && spec_variable(url@).len() == 0 ==> r
                == Ok::<EnvResource, Error>(EnvResource::List(EnvListResource { pos: 0 })),
            spec_find(spec_variable(url@), EQUALS) is None && spec_variable(url@).len() > 0 ==> (r
                matches Ok(EnvResource::Variable(v)) && v.name@ == spec_variable(url@) && v.pos
                == 0),
    {
        EnvScheme::resource(url.string.as_slice())
    }
}

impl EnvListResource {
    /// The list of the variables `vars`: one to a line, as name, equals
    /// sign and value.
    pub fn get_list_str(vars: &Vec<EnvVar>) -> (list: Vec<u8>)
        ensures
            list@ == spec_list(spec_vars(vars@)),
    {
        let mut list: Vec<u8> = Vec::new();
        let mut k: usize = 0;
        while k < vars.len()
            invariant
                k <= vars.len(),
                list@ == spec_lines(spec_vars(vars@), k as int),
            decreases vars.len() - k,
        {
            push_all(&mut list, vars[k].name.as_slice());
            list.push(EQUALS);
            push_all(&mut list, vars[k].value.as_slice());
            list.push(NEWLINE);
            k += 1;
            assert(list@ =~= spec_lines(spec_vars(vars@), k as int));
        }
        list.pop();
        list
    }

    /// A handle on the list, at its start.
    pub fn dup(&self) -> (r: Result<EnvListResource, Error>)
        ensures
            r == Ok::<EnvListResource, Error>(EnvListResource { pos: 0 }),
    {
        Ok(EnvListResource { pos: 0 })
    }

    /// Copies the list of `vars` from the position on into `buf`, as much
    /// as is there and fits, and moves the position behind it.
    pub fn read(&mut self, vars: &Vec<EnvVar>, buf: &mut [u8]) -> (r: Result<usize, Error>)
        ensures
            final(buf)@.len() == old(buf)@.len(),
            ({
                let list = spec_list(spec_vars(vars@));
                if old(self).pos <= list.len() {
                    let n = if old(buf)@.len() < list.len() - old(self).pos {
                        old(buf)@.len() as int
                    } else {
                        list.len() - old(self).pos
                    };
                    &&& r == Ok::<usize, Error>(n as usize)
                    &&& final(self).pos == old(self).pos + n
                    &&& final(buf)@ == spec_filled(
                        old(buf)@,
                        list.subrange(old(self).pos as int, old(self).pos + n),
                    )
                } else {
                    &&& r == Ok::<usize, Error>(0)
                    &&& final(self).pos == old(self).pos
                    &&& final(buf)@ == old(buf)@
                }
            }),
    {
        let list = EnvListResource::get_list_str(vars);
        if self.pos > list.len() {
            return Ok(0);
        }
        let n = copy_into(buf, list.as_slice(), self.pos);
        self.pos = self.pos + n;
        Ok(n)
    }

    /// Moves the position in the list of `vars`.
    pub fn seek(&mut self, vars: &Vec<EnvVar>, pos: ResourceSeek) -> (r: Result<usize, Error>)
        ensures
            r == Ok::<usize, Error>(final(self).pos),
            final(self).pos == spec_seek(
                spec_list(spec_vars(vars@)).len() as int,
                old(self).pos as int,
                pos,
            ),
    {
        let list = EnvListResource::get_list_str(vars);
        self.pos = seek_to(list.len(), self.pos, pos);
        Ok(self.pos)
    }
}

impl EnvVariableResource {
    /// A handle on the same variable, at its start.
    pub fn dup(&self) -> (r: Result<EnvVariableResource, Error>)
        ensures
            r is Ok,
            r->Ok_0.name@ == self.name@,
            r->Ok_0.pos == 0,
    {
        Ok(EnvVariableResource { name: to_vec(self.name.as_slice()), pos: 0 })
    }

    /// Copies the value `value` of the variable from the position on into
    /// `buf`, as much as is there and fits, and moves the position behind
    /// it.
    pub fn read(&mut self, value: &[u8], buf: &mut [u8]) -> (r: Result<usize, Error>)
        ensures
            final(buf)@.len() == old(buf)@.len(),
            final(self).name == old(self).name,
            old(self).pos <= value@.len() ==> {
                let n = if old(buf)@.len() < value@.len() - old(self).pos {
                    old(buf)@.len() as int
                } else {
                    value@.len() - old(self).pos
                };
                &&& r == Ok::<usize, Error>(n as usize)
                &&& final(self).pos == old(self).pos + n
                &&& final(buf)@ == spec_filled(
                    old(buf)@,
                    value@.subrange(old(self).pos as int, old(self).pos + n),
                )
            },
            old(self).pos > value@.len() ==> {
                &&& r == Ok::<usize, Error>(0)
                &&& final(self).pos == old(self).pos
                &&& final(buf)@ == old(buf)@
            },
    {
        if self.pos > value.len() {
            return Ok(0);
        }
        let n = copy_into(buf, value, self.pos);
        self.pos = self.pos + n;
        Ok(n)
    }

    /// Moves the position in the value of `len` bytes.
    pub fn seek(&mut self, len: usize, pos: ResourceSeek) -> (r: Result<usize, Error>)
        ensures
            r == Ok::<usize, Error>(final(self).pos),
            final(self).pos == spec_seek(len as int, old(self).pos as int, pos),
            final(self).name == old(self).name,
    {
        self.pos = seek_to(len, self.pos, pos);
        Ok(self.pos)
    }
}

} // verus!
