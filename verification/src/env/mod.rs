//! The kernel environment: the table of execution units, the registry of
//! schemes, and the bridges to the schemes that processes provide.

pub mod console;
pub mod scheme;

use vstd::prelude::*;
use crate::env::console::{Console, ConsoleState};
use crate::graphics::{Color, Point, BLACK, WHITE};
use crate::env::scheme::{
    spec_all_wf, spec_call, spec_same_but, spec_server_path, spec_submit, BridgeState, Scheme,
    SchemeInner, SchemeServerResource, SYS_OPEN, SYS_UNLINK,
};
use crate::error::{Error, EEXIST, ENOENT, ESRCH};
use crate::interrupt::{kernel, spec_kernel, Interrupt};
use crate::scheduler::table::{ContextTable, SwitchOutcome};
use crate::schemes::kscheme::{KScheme, Service};
use crate::schemes::url::{spec_reference, spec_scheme, Url};
use crate::schemes::vec_resource::VecResource;
use crate::text::{bytes_eq, to_vec};

verus! {

/// Open flag: create what the URL names.
pub const O_CREAT: usize = 0x200;

pub const NEWLINE: u8 = 0x0A;

/// Who provides a scheme: the kernel, or a process through a bridge.
#[derive(Debug)]
pub enum Provider<S> {
    Kernel(S),
    Bridge(Scheme),
}

/// An entry of the registry: a name and its provider.
#[derive(Debug)]
pub struct SchemeEntry<S> {
    pub name: Vec<u8>,
    pub provider: Provider<S>,
}

/// Where an open goes.
#[derive(Clone, Copy, Debug, PartialEq, Eq, Structural)]
pub enum Route {
    /// To the list of the registered schemes.
    Listing,
    /// To the registration of a new scheme for the calling process.
    Register,
    /// To the provider at this position of the registry.
    Provider(usize),
}

/// What an open gave.
#[derive(Debug)]
pub enum Opened<H> {
    /// The list of the registered schemes.
    Listing(VecResource),
    /// The handle of the provider of a newly registered scheme.
    Server(SchemeServerResource),
    /// What a provider in the kernel handed out.
    Provided(H),
    /// The open was filed as the request `request` on the bridge `scheme`;
    /// the caller yields until the provider has answered.
    Pending { scheme: usize, request: usize },
}

/// The kernel environment.
#[derive(Debug)]
pub struct Environment<S> {
    /// The execution units.
    pub contexts: ContextTable,
    /// The console.
    pub console: Console,
    /// The registry of schemes.
    pub schemes: Vec<SchemeEntry<S>>,
    /// The bridges to the schemes that processes provide. A bridge stays
    /// at its position for good.
    pub bridges: Vec<SchemeInner>,
}

/// The names of the entries, in order.
pub open spec fn spec_names<S>(entries: Seq<SchemeEntry<S>>) -> Seq<Seq<u8>> {
    entries.map_values(|e: SchemeEntry<S>| e.name@)
}

/// No name occurs twice.
pub open spec fn spec_unique(names: Seq<Seq<u8>>) -> bool {
    forall|i: int, j: int| 0 <= i < j < names.len() ==> names[i] != names[j]
}

/// The first position from `from` on that holds `name`.
pub open spec fn spec_lookup(names: Seq<Seq<u8>>, name: Seq<u8>, from: int) -> Option<int>
    decreases names.len() - from,
{
    if from < 0 || from >= names.len() {
        None
    } else if names[from] == name {
        Some(from)
    } else {
        spec_lookup(names, name, from + 1)
    }
}

/// `flags` asks for creation.
pub open spec fn spec_creates(flags: usize) -> bool {
    flags & O_CREAT == O_CREAT
}

/// Where the open of `url` goes, in a registry with the names `names`.
///
/// Without a scheme, an empty reference lists the registry; any other
/// reference registers a scheme of that name where `flags` asks for
/// creation, which fails with `EEXIST` where the name is taken and with
/// `ESRCH` where no execution unit is current; without creation the open
/// fails with `ENOENT`. With a scheme, the open goes to
/// the first provider of that name, and fails with `ENOENT` where there is
/// none.
pub open spec fn spec_resolve(names: Seq<Seq<u8>>, url: Seq<u8>, flags: usize, current: bool) -> Result<
    Route,
    Error,
> {
    let scheme = spec_scheme(url);
    let reference = spec_reference(url);
    if scheme.len() == 0 {
        if reference.len() == 0 {
            Ok(Route::Listing)
        } else if spec_creates(flags) {
            if spec_lookup(names, reference, 0) is Some {
                Err(Error { errno: EEXIST })
            } else if !current {
                Err(Error { errno: ESRCH })
            } else {
                Ok(Route::Register)
            }
        } else {
            Err(Error { errno: ENOENT })
        }
    } else {
        match spec_lookup(names, scheme, 0) {
            Some(k) => Ok(Route::Provider(k as usize)),
            None => Err(Error { errno: ENOENT }),
        }
    }
}

/// The list of the first `n` names: those that are not empty, one to a
/// line.
pub open spec fn spec_listing(names: Seq<Seq<u8>>, n: int) -> Seq<u8>
    decreases n,
{
    if n <= 0 {
        Seq::empty()
    } else {
        let rest = spec_listing(names, n - 1);
        let name = names[n - 1];
        if name.len() == 0 {
            rest
        } else if rest.len() > 0 {
            rest + seq![NEWLINE] + name
        } else {
            name
        }
    }
}

/// A lookup finds a position that holds the name, and finds none only
/// where no position from `from` on holds it.
pub proof fn lemma_lookup(names: Seq<Seq<u8>>, name: Seq<u8>, from: int)
    requires
        0 <= from,
    ensures
        match spec_lookup(names, name, from) {
            Some(k) => from <= k < names.len() && names[k] == name,
            None => forall|j: int| from <= j < names.len() ==> names[j] != name,
        },
    decreases names.len() - from,
{
    if from < names.len() && names[from] != name {
        lemma_lookup(names, name, from + 1);
    }
}

/// Registry uniqueness: once a scheme of the name `reference` is
/// registered, the registration of that name fails with `EEXIST`, whoever
/// asks and whatever else the registry holds.
pub proof fn lemma_registered_name_is_taken(names: Seq<Seq<u8>>, url: Seq<u8>, flags: usize, current: bool)
    requires
        spec_resolve(names, url, flags, true) == Ok::<Route, Error>(Route::Register),
    ensures
        spec_resolve(names.push(spec_reference(url)), url, flags, current) == Err::<Route, Error>(
            Error { errno: EEXIST },
        ),
        spec_unique(names) ==> spec_unique(names.push(spec_reference(url))),
{
    let reference = spec_reference(url);
    let after = names.push(reference);
    lemma_lookup(names, reference, 0);
    lemma_lookup(after, reference, 0);
    assert(after[names.len() as int] == reference);
    if spec_unique(names) {
        assert forall|i: int, j: int| 0 <= i < j < after.len() implies after[i] != after[j] by {
            if j < names.len() {
                assert(names[i] != names[j]);
            } else {
                assert(after[i] == names[i]);
            }
        }
    }
}

impl<S: KScheme> Environment<S> {
    /// The table of units is well formed, no name is registered twice, and
    /// every bridge is well formed.
    pub open spec fn wf(&self) -> bool {
        &&& self.contexts.wf()
        &&& spec_unique(spec_names(self.schemes@))
        &&& spec_all_wf(self.bridges@)
    }

    /// The names of the registered schemes, in order.
    pub open spec fn names(&self) -> Seq<Seq<u8>> {
        spec_names(self.schemes@)
    }

    /// Tells whether the environment is well formed.
    pub fn check(&self) -> (r: bool)
        ensures
            r == self.wf(),
    {
        if !self.contexts.check() || !SchemeInner::check_all(&self.bridges) {
            return false;
        }
        let mut j: usize = 0;
        while j < self.schemes.len()
            invariant
                j <= self.schemes.len(),
                forall|a: int, b: int|
                    0 <= a < b < j ==> (#[trigger] self.names()[a]) != (#[trigger] self.names()[b]),
            decreases self.schemes.len() - j,
        {
            let mut i: usize = 0;
            while i < j
                invariant
                    i <= j < self.schemes.len(),
                    forall|a: int| 0 <= a < i ==> (#[trigger] self.names()[a]) != self.names()[j as int],
                decreases j - i,
            {
                if bytes_eq(self.schemes[i].name.as_slice(), self.schemes[j].name.as_slice()) {
                    assert(self.names()[i as int] == self.names()[j as int]);
                    return false;
                }
                i += 1;
            }
            j += 1;
        }
        assert(spec_unique(self.names())) by {
            let names = self.names();
            assert forall|a: int, b: int| 0 <= a < b < names.len() implies names[a] != names[b] by {
                assert(self.names()[a] != self.names()[b]);
            }
        }
        true
    }

    /// An environment without units, schemes and bridges, with a console
    /// for a display of `width` by `height` pixels.
    pub fn new(width: usize, height: usize) -> (env: Environment<S>)
        ensures
            env.wf(),
            env.schemes@.len() == 0,
            env.bridges@.len() == 0,
            env.contexts.contexts@.len() == 0,
            !env.contexts.enabled,
            env.console.command is None,
            env.console.state() == (ConsoleState {
                width,
                height,
                point: Point { x: 0, y: 0 },
                foreground: Color { data: WHITE },
                background: Color { data: BLACK },
                draw: false,
                redraw: true,
                escape: false,
                escape_sequence: false,
                sequence: Seq::empty(),
            }),
    {
        Environment {
            contexts: ContextTable::new(),
            console: Console::new(width, height),
            schemes: Vec::new(),
            bridges: Vec::new(),
        }
    }

    /// Finds the first entry with the name `name`.
    pub fn lookup(&self, name: &[u8]) -> (r: Option<usize>)
        ensures
            match r {
                Some(k) => spec_lookup(self.names(), name@, 0) == Some(k as int) && k
                    < self.schemes@.len(),
                None => spec_lookup(self.names(), name@, 0) is None,
            },
    {
        let mut k: usize = 0;
        while k < self.schemes.len()
            invariant
                k <= self.schemes.len(),
                spec_lookup(self.names(), name@, k as int) == spec_lookup(self.names(), name@, 0),
            decreases self.schemes.len() - k,
        {
            if bytes_eq(self.schemes[k].name.as_slice(), name) {
                return Some(k);
            }
            k += 1;
        }
        None
    }

    /// Registers the provider `scheme` of the kernel under `name`. Fails
    /// with `EEXIST` where the name is taken.
    pub fn register(&mut self, name: Vec<u8>, scheme: S) -> (r: Result<(), Error>)
        requires
            old(self).wf(),
        ensures
            final(self).wf(),
            final(self).contexts == old(self).contexts,
            final(self).console == old(self).console,
            final(self).bridges == old(self).bridges,
            spec_lookup(old(self).names(), name@, 0) is Some ==> r == Err::<(), Error>(
                Error { errno: EEXIST },
            ) && final(self).schemes == old(self).schemes,
            spec_lookup(old(self).names(), name@, 0) is None ==> r is Ok && final(self).schemes@
                == old(self).schemes@.push(
                SchemeEntry { name, provider: Provider::Kernel(scheme) },
            ),
    {
        if self.lookup(name.as_slice()).is_some() {
            return Err(Error::new(EEXIST));
        }
        proof {
            lemma_lookup(self.names(), name@, 0);
        }
        let ghost before = self.names();
        self.schemes.push(SchemeEntry { name, provider: Provider::Kernel(scheme) });
        proof {
            let after = self.names();
            assert(after =~= before.push(name@));
            assert forall|i: int, j: int| 0 <= i < j < after.len() implies after[i] != after[j] by {
                if j < before.len() {
                    assert(before[i] != before[j]);
                }
            }
        }
        Ok(())
    }

    /// Tells where the open of `url` goes.
    pub fn resolve(&self, url: &Url, flags: usize) -> (r: Result<Route, Error>)
        ensures
            r == spec_resolve(
                self.names(),
                url@,
                flags,
                self.contexts.enabled && self.contexts.current < self.contexts.contexts@.len(),
            ),
            r matches Ok(Route::Provider(k)) ==> k < self.schemes@.len(),
    {
        let scheme = url.scheme();
        let reference = url.reference();
        if scheme.len() == 0 {
            if reference.len() == 0 {
                Ok(Route::Listing)
            } else if flags & O_CREAT == O_CREAT {
                if self.lookup(reference.as_slice()).is_some() {
                    Err(Error::new(EEXIST))
                } else if self.contexts.current().is_none() {
                    Err(Error::new(ESRCH))
                } else {
                    Ok(Route::Register)
                }
            } else {
                Err(Error::new(ENOENT))
            }
        } else {
            match self.lookup(scheme.as_slice()) {
                Some(k) => Ok(Route::Provider(k)),
                None => Err(Error::new(ENOENT)),
            }
        }
    }

    /// The list of the registered schemes: the names that are not empty,
    /// one to a line.
    pub fn listing(&self) -> (list: Vec<u8>)
        ensures
            list@ == spec_listing(self.names(), self.schemes@.len() as int),
    {
        let mut list: Vec<u8> = Vec::new();
        let mut k: usize = 0;
        while k < self.schemes.len()
            invariant
                k <= self.schemes.len(),
                list@ == spec_listing(self.names(), k as int),
            decreases self.schemes.len() - k,
        {
            let name = &self.schemes[k].name;
            let ghost rest = list@;
            if name.len() > 0 {
                if list.len() > 0 {
                    list.push(NEWLINE);
                }
                let mut j: usize = 0;
                let ghost head = list@;
                while j < name.len()
                    invariant
                        j <= name.len(),
                        list@ == head + name@.subrange(0, j as int),
                    decreases name.len() - j,
                {
                    list.push(name[j]);
                    j += 1;
                    assert(list@ =~= head + name@.subrange(0, j as int));
                }
                assert(name@.subrange(0, name@.len() as int) =~= name@);
                assert(list@ =~= if rest.len() > 0 {
                    rest + seq![NEWLINE] + name@
                } else {
                    name@
                });
            }
            k += 1;
        }
        list
    }
}

/// What the removal of a path gave.
#[derive(Clone, Copy, Debug, PartialEq, Eq, Structural)]
pub enum Unlinked {
    /// A provider in the kernel has removed it.
    Done,
    /// The removal was filed as the request `request` on the bridge
    /// `scheme`; the caller yields until the provider has answered.
    Pending { scheme: usize, request: usize },
}

impl<H> Opened<H> {
    /// What an open gives that went to a provider in the kernel and came
    /// back with `result`.
    pub fn provided(result: Result<H, Error>) -> (r: Result<Opened<H>, Error>)
        ensures
            r == match result {
                Ok(handle) => Ok::<Opened<H>, Error>(Opened::Provided(handle)),
                Err(e) => Err::<Opened<H>, Error>(e),
            },
    {
        match result {
            Ok(handle) => Ok(Opened::Provided(handle)),
            Err(e) => Err(e),
        }
    }

    /// What an open gives that was filed on the bridge `scheme` with the
    /// result `result`.
    pub fn pending(scheme: usize, result: Result<usize, Error>) -> (r: Result<Opened<H>, Error>)
        ensures
            r == match result {
                Ok(request) => Ok::<Opened<H>, Error>(Opened::Pending { scheme, request }),
                Err(e) => Err::<Opened<H>, Error>(e),
            },
    {
        match result {
            Ok(request) => Ok(Opened::Pending { scheme, request }),
            Err(e) => Err(e),
        }
    }
}

/// Whether the provider `provider` is one in the kernel that has the
/// service `op`.
pub open spec fn spec_serves<S: KScheme>(provider: Provider<S>, op: Service) -> bool {
    match provider {
        Provider::Kernel(scheme) => scheme.provides(op),
        Provider::Bridge(_) => false,
    }
}

/// Whether `after` is what telling the providers in the kernel of `op` may
/// make of the entries `before`: as many entries, each a provider in the
/// kernel or a bridge as before, and each provider that has no hook for
/// `op`, and each bridge, as it was.
pub open spec fn spec_told<S: KScheme>(
    before: Seq<SchemeEntry<S>>,
    after: Seq<SchemeEntry<S>>,
    op: Service,
) -> bool {
    &&& after.len() == before.len()
    &&& forall|i: int|
        0 <= i < before.len() && !spec_serves(before[i].provider, op) ==> (#[trigger] after[i])
            == before[i]
    &&& forall|i: int|
        0 <= i < before.len() ==> ((#[trigger] after[i]).provider is Kernel) == (
        before[i].provider is Kernel)
}

impl<S: KScheme> Environment<S> {
    /// An execution unit is current.
    pub open spec fn spec_has_current(&self) -> bool {
        self.contexts.enabled && self.contexts.current < self.contexts.contexts@.len()
    }

    /// Tells every provider in the kernel of the interrupt `irq`, in the
    /// order of the registry. What becomes of a provider is for its hook to
    /// say; one that has no hook for interrupts stays as it is, and so do
    /// the bridges of processes, the names and the rest of the environment.
    pub fn on_irq(&mut self, irq: u8)
        requires
            old(self).wf(),
        ensures
            final(self).wf(),
            final(self).names() == old(self).names(),
            final(self).contexts == old(self).contexts,
            final(self).console == old(self).console,
            final(self).bridges == old(self).bridges,
            spec_told(old(self).schemes@, final(self).schemes@, Service::OnIrq),
    {
        let mut k: usize = 0;
        while k < self.schemes.len()
            invariant
                k <= self.schemes.len(),
                self.names() == old(self).names(),
                self.contexts == old(self).contexts,
                self.console == old(self).console,
                self.bridges == old(self).bridges,
                self.schemes@.len() == old(self).schemes@.len(),
                forall|i: int|
                    0 <= i < k && !spec_serves(old(self).schemes@[i].provider, Service::OnIrq)
                        ==> self.schemes@[i] == old(self).schemes@[i],
                forall|i: int|
                    0 <= i < k ==> ((#[trigger] self.schemes@[i]).provider is Kernel)
                        == (old(self).schemes@[i].provider is Kernel),
                forall|i: int|
                    k <= i < self.schemes@.len() ==> self.schemes@[i] == old(self).schemes@[i],
            decreases self.schemes.len() - k,
        {
            let ghost before = self.names();
            match &mut self.schemes[k].provider {
                Provider::Kernel(scheme) => {
                    scheme.on_irq(irq);
                },
                Provider::Bridge(_) => {},
            }
            assert(self.names() =~= before);
            k += 1;
        }
    }

    /// Polls every provider in the kernel, in the order of the registry.
    /// What becomes of a provider is for its hook to say; one that has no
    /// hook for polls stays as it is, and so do the bridges of processes,
    /// the names and the rest of the environment.
    pub fn on_poll(&mut self)
        requires
            old(self).wf(),
        ensures
            final(self).wf(),
            final(self).names() == old(self).names(),
            final(self).contexts == old(self).contexts,
            final(self).console == old(self).console,
            final(self).bridges == old(self).bridges,
            spec_told(old(self).schemes@, final(self).schemes@, Service::OnPoll),
    {
        let mut k: usize = 0;
        while k < self.schemes.len()
            invariant
                k <= self.schemes.len(),
                self.names() == old(self).names(),
                self.contexts == old(self).contexts,
                self.console == old(self).console,
                self.bridges == old(self).bridges,
                self.schemes@.len() == old(self).schemes@.len(),
                forall|i: int|
                    0 <= i < k && !spec_serves(old(self).schemes@[i].provider, Service::OnPoll)
                        ==> self.schemes@[i] == old(self).schemes@[i],
                forall|i: int|
                    0 <= i < k ==> ((#[trigger] self.schemes@[i]).provider is Kernel)
                        == (old(self).schemes@[i].provider is Kernel),
                forall|i: int|
                    k <= i < self.schemes@.len() ==> self.schemes@[i] == old(self).schemes@[i],
            decreases self.schemes.len() - k,
        {
            let ghost before = self.names();
            match &mut self.schemes[k].provider {
                Provider::Kernel(scheme) => {
                    scheme.on_poll();
                },
                Provider::Bridge(_) => {},
            }
            assert(self.names() =~= before);
            k += 1;
        }
    }

    /// Does what the interrupt `interrupt` asks of the environment. The
    /// timer ticks the table of execution units: the current unit loses a
    /// slice, and the table switches where none is left. The interrupt of a
    /// device is told to every provider in the kernel. Every other
    /// interrupt leaves the environment as it is: what it asks for is the
    /// caller's to do. Returns what the interrupt asks, and what a switch
    /// did.
    pub fn interrupt(&mut self, interrupt: usize) -> (r: (Interrupt, SwitchOutcome))
        requires
            old(self).wf(),
        ensures
            final(self).wf(),
            r.0 == spec_kernel(interrupt),
            final(self).names() == old(self).names(),
            final(self).console == old(self).console,
            final(self).bridges == old(self).bridges,
            match spec_kernel(interrupt) {
                Interrupt::Timer => {
                    &&& old(self).contexts.spec_tick(&final(self).contexts, &r.1)
                    &&& final(self).schemes == old(self).schemes
                },
                Interrupt::Irq(irq) => {
                    &&& final(self).contexts == old(self).contexts
                    &&& spec_told(old(self).schemes@, final(self).schemes@, Service::OnIrq)
                    &&& r.1.removed@.len() == 0
                    &&& r.1.transition is None
                },
                _ => {
                    &&& final(self).contexts == old(self).contexts
                    &&& final(self).schemes == old(self).schemes
                    &&& r.1.removed@.len() == 0
                    &&& r.1.transition is None
                },
            },
    {
        let asked = kernel(interrupt);
        match asked {
            Interrupt::Timer => {
                let outcome = self.contexts.tick();
                (asked, outcome)
            },
            Interrupt::Irq(irq) => {
                self.on_irq(irq);
                (asked, SwitchOutcome { removed: Vec::new(), transition: None })
            },
            _ => (asked, SwitchOutcome { removed: Vec::new(), transition: None }),
        }
    }

    /// Opens `url`. `path_address` is where the text of the URL lies for
    /// the provider of a scheme outside the kernel, with a zero byte behind
    /// it.
    ///
    /// Where the open goes is what `resolve` says. The list of the registry
    /// is a resource of its own. A registration adds a bridge and a scheme
    /// of the name of the reference, and gives the handle of its provider.
    /// An open that goes to the bridge of a process is filed there as a
    /// request. An open that goes to a provider in the kernel gives what
    /// that provider hands out, or fails as it does; no other entry of the
    /// registry is touched.
    pub fn open(&mut self, url: &Url, flags: usize, path_address: usize) -> (r: Result<
        Opened<S::Handle>,
        Error,
    >)
        requires
            old(self).wf(),
        ensures
            final(self).wf(),
            final(self).contexts == old(self).contexts,
            final(self).console == old(self).console,
            match spec_resolve(old(self).names(), url@, flags, old(self).spec_has_current()) {
                Err(e) => {
                    &&& r matches Err(x) && x == e
                    &&& final(self).schemes == old(self).schemes
                    &&& final(self).bridges == old(self).bridges
                },
                Ok(Route::Listing) => {
                    &&& r matches Ok(Opened::Listing(list)) && list.wf() && list.path@.len() == 0
                        && list.seek == 0 && list.data@ == spec_listing(
                        old(self).names(),
                        old(self).schemes@.len() as int,
                    )
                    &&& final(self).schemes == old(self).schemes
                    &&& final(self).bridges == old(self).bridges
                },
                Ok(Route::Register) => {
                    let name = spec_reference(url@);
                    let inner = old(self).bridges@.len();
                    &&& r matches Ok(Opened::Server(server)) && server.inner == inner
                        && server.path@ == spec_server_path(name)
                    &&& final(self).names() == old(self).names().push(name)
                    &&& final(self).schemes@.drop_last() == old(self).schemes@
                    &&& final(self).schemes@.last().provider matches Provider::Bridge(scheme)
                        && scheme.inner == inner && scheme.name@ == name
                    &&& final(self).bridges@.drop_last() == old(self).bridges@
                    &&& final(self).bridges@.last().state() == (BridgeState {
                        next_id: 1,
                        todo: Seq::empty(),
                        done: Seq::empty(),
                        owners: 1,
                    })
                },
                Ok(Route::Provider(k)) => {
                    &&& final(self).names() == old(self).names()
                    &&& match old(self).schemes@[k as int].provider {
                        Provider::Bridge(scheme) => {
                            let regs = (SYS_OPEN, path_address, flags, 0usize);
                            &&& final(self).schemes@ == old(self).schemes@
                            &&& spec_same_but(old(self).bridges@, final(self).bridges@, scheme.inner)
                            &&& scheme.inner < old(self).bridges@.len() ==> final(self).bridges@[scheme.inner as int].state() == spec_submit(
                                old(self).bridges@[scheme.inner as int].state(),
                                regs,
                            ).0
                            &&& match spec_call(old(self).bridges@, scheme.inner, regs) {
                                Ok(request) => r matches Ok(Opened::Pending { scheme: s, request: q })
                                    && s == scheme.inner && q == request,
                                Err(e) => r matches Err(x) && x == e,
                            }
                        },
                        Provider::Kernel(provider) => {
                            &&& final(self).bridges == old(self).bridges
                            &&& final(self).schemes@.len() == old(self).schemes@.len()
                            &&& forall|j: int|
                                0 <= j < old(self).schemes@.len() && j != k ==> (
                                #[trigger] final(self).schemes@[j]) == old(self).schemes@[j]
                            &&& final(self).schemes@[k as int].provider is Kernel
                            &&& r is Ok ==> r->Ok_0 is Provided
                            &&& !provider.provides(Service::Open) ==> {
                                &&& r matches Err(e) && e.errno == ENOENT
                                &&& final(self).schemes@ == old(self).schemes@
                            }
                        },
                    }
                },
            },
    {
        let route = self.resolve(url, flags);
        match route {
            Err(e) => Err(e),
            Ok(Route::Listing) => {
                let list = self.listing();
                Ok(Opened::Listing(VecResource::new(Vec::new(), list, 0)))
            },
            Ok(Route::Register) => {
                let name = url.reference();
                proof {
                    lemma_lookup(self.names(), name@, 0);
                }
                let ghost before = self.names();
                let ghost entries = self.schemes@;
                let (scheme, server) = Scheme::new(to_vec(name.as_slice()), &mut self.bridges);
                self.schemes.push(SchemeEntry { name, provider: Provider::Bridge(scheme) });
                proof {
                    let after = self.names();
                    assert(after =~= before.push(name@));
                    assert(self.schemes@.drop_last() =~= entries);
                    assert forall|i: int, j: int| 0 <= i < j < after.len() implies after[i]
                        != after[j] by {
                        if j < before.len() {
                            assert(before[i] != before[j]);
                        }
                    }
                }
                Ok(Opened::Server(server))
            },
            Ok(Route::Provider(k)) => {
                let ghost before = self.names();
                proof {
                    lemma_lookup(before, spec_scheme(url@), 0);
                }
                if let Provider::Bridge(scheme) = &self.schemes[k].provider {
                    let inner = scheme.inner;
                    let result = scheme.open(&mut self.bridges, path_address, flags);
                    return Opened::pending(inner, result);
                }
                let result = match &mut self.schemes[k].provider {
                    Provider::Kernel(scheme) => scheme.open(url, flags),
                    Provider::Bridge(_) => Err(Error::new(ENOENT)),
                };
                assert(self.names() =~= before);
                Opened::provided(result)
            },
        }
    }

    /// Removes what `url` names. A URL without a scheme, or with a scheme
    /// that is not registered, fails with `ENOENT`.
    pub fn unlink(&mut self, url: &Url, path_address: usize) -> (r: Result<Unlinked, Error>)
        requires
            old(self).wf(),
        ensures
            final(self).wf(),
            final(self).contexts == old(self).contexts,
            final(self).console == old(self).console,
            final(self).names() == old(self).names(),
            spec_scheme(url@).len() == 0 || spec_lookup(old(self).names(), spec_scheme(url@), 0)
                is None ==> {
                &&& r == Err::<Unlinked, Error>(Error { errno: ENOENT })
                &&& final(self).schemes == old(self).schemes
                &&& final(self).bridges == old(self).bridges
            },
            spec_scheme(url@).len() > 0 && spec_lookup(old(self).names(), spec_scheme(url@), 0)
                is Some ==> {
                let k = spec_lookup(old(self).names(), spec_scheme(url@), 0)->0;
                match old(self).schemes@[k].provider {
                    Provider::Bridge(scheme) => {
                        let regs = (SYS_UNLINK, path_address, 0usize, 0usize);
                        &&& final(self).schemes@ == old(self).schemes@
                        &&& spec_same_but(old(self).bridges@, final(self).bridges@, scheme.inner)
                        &&& scheme.inner < old(self).bridges@.len() ==> final(self).bridges@[scheme.inner as int].state() == spec_submit(
                            old(self).bridges@[scheme.inner as int].state(),
                            regs,
                        ).0
                        &&& r == match spec_call(old(self).bridges@, scheme.inner, regs) {
                            Ok(request) => Ok(Unlinked::Pending { scheme: scheme.inner, request }),
                            Err(e) => Err(e),
                        }
                    },
                    Provider::Kernel(provider) => {
                        &&& final(self).bridges == old(self).bridges
                        &&& final(self).schemes@.len() == old(self).schemes@.len()
                        &&& forall|j: int|
                            0 <= j < old(self).schemes@.len() && j != k ==> (
                            #[trigger] final(self).schemes@[j]) == old(self).schemes@[j]
                        &&& final(self).schemes@[k].provider is Kernel
                        &&& r is Ok ==> r == Ok::<Unlinked, Error>(Unlinked::Done)
                        &&& !provider.provides(Service::Unlink) ==> {
                            &&& r == Err::<Unlinked, Error>(Error { errno: ENOENT })
                            &&& final(self).schemes@ == old(self).schemes@
                        }
                    },
                }
            },
    {
        let scheme_name = url.scheme();
        if scheme_name.len() == 0 {
            return Err(Error::new(ENOENT));
        }
        match self.lookup(scheme_name.as_slice()) {
            Some(k) => {
                let ghost before = self.names();
                if let Provider::Bridge(scheme) = &self.schemes[k].provider {
                    let inner = scheme.inner;
                    return match scheme.unlink(&mut self.bridges, path_address) {
                        Ok(request) => Ok(Unlinked::Pending { scheme: inner, request }),
                        Err(e) => Err(e),
                    };
                }
                let result = match &mut self.schemes[k].provider {
                    Provider::Kernel(scheme) => scheme.unlink(url),
                    Provider::Bridge(_) => Err(Error::new(ENOENT)),
                };
                assert(self.names() =~= before);
                match result {
                    Ok(()) => Ok(Unlinked::Done),
                    Err(e) => Err(e),
                }
            },
            None => Err(Error::new(ENOENT)),
        }
    }
}

} // verus!
