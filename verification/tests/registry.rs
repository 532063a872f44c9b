use redox_kernel::env::scheme::{Packet, Reply, PACKET_SIZE, SYS_OPEN, SYS_UNLINK};
use redox_kernel::env::{Environment, Opened, Provider, Route, Unlinked, O_CREAT};
use redox_kernel::error::{Error, EBADF, EEXIST, EINVAL, ENOENT, ESRCH};
use redox_kernel::interrupt::Interrupt;
use redox_kernel::schemes::builtin::{Builtin, Handle};
use redox_kernel::schemes::env::{EnvResource, EnvScheme};
use redox_kernel::network::udp::UdpScheme;
use redox_kernel::schemes::debug::{DebugResource, DebugScheme};
use redox_kernel::schemes::kscheme::KScheme;
use redox_kernel::schemes::memory::MemoryScheme;
use redox_kernel::schemes::resource::Resource;
use redox_kernel::schemes::url::Url;

/// A provider that counts what it is told and opens what it is asked for.
#[derive(Debug, Default)]
struct Probe {
    irqs: Vec<u8>,
    polls: usize,
    opened: Vec<(Vec<u8>, usize)>,
    unlinked: Vec<Vec<u8>>,
    fail: bool,
}

impl KScheme for Probe {
    type Handle = usize;

    fn on_irq(&mut self, irq: u8) {
        self.irqs.push(irq);
    }

    fn on_poll(&mut self) {
        self.polls += 1;
    }

    fn open(&mut self, url: &Url, flags: usize) -> Result<usize, Error> {
        if self.fail {
            return Err(Error::new(EBADF));
        }
        self.opened.push((url.to_string(), flags));
        Ok(self.opened.len())
    }

    fn unlink(&mut self, url: &Url) -> Result<(), Error> {
        self.unlinked.push(url.to_string());
        Ok(())
    }
}

/// A provider that implements nothing.
struct Bare;

impl KScheme for Bare {
    type Handle = ();
}

fn with_current() -> Environment<Probe> {
    let mut env: Environment<Probe> = Environment::new(640, 480);
    env.contexts.add_root(0x9000);
    env.contexts.enable();
    env
}

fn names(env: &Environment<Probe>) -> Vec<Vec<u8>> {
    env.schemes.iter().map(|e| e.name.clone()).collect()
}

#[test]
fn registering_a_scheme_twice_fails_with_eexist() {
    let mut env = with_current();
    let first = env.open(&Url::from_str(":foo"), O_CREAT, 0);
    match first {
        Ok(Opened::Server(server)) => {
            assert_eq!(server.path, b":foo".to_vec());
            assert_eq!(server.inner, 0);
        }
        other => panic!("{:?}", other),
    }
    let second = env.open(&Url::from_str(":foo"), O_CREAT, 0);
    assert!(matches!(second, Err(e) if e == Error::new(EEXIST)));
    assert_eq!(names(&env), vec![b"foo".to_vec()]);
    assert_eq!(env.bridges.len(), 1);
    // Another name is fine.
    assert!(matches!(env.open(&Url::from_str(":bar"), O_CREAT, 0), Ok(Opened::Server(_))));
    assert_eq!(names(&env), vec![b"foo".to_vec(), b"bar".to_vec()]);
}

#[test]
fn registering_the_name_of_a_kernel_scheme_fails_with_eexist() {
    let mut env = with_current();
    assert_eq!(env.register(b"disk".to_vec(), Probe::default()), Ok(()));
    assert_eq!(env.register(b"disk".to_vec(), Probe::default()), Err(Error::new(EEXIST)));
    assert!(matches!(
        env.open(&Url::from_str(":disk"), O_CREAT, 0),
        Err(e) if e == Error::new(EEXIST)
    ));
    assert_eq!(env.schemes.len(), 1);
}

#[test]
fn registering_without_a_current_unit_fails_with_esrch() {
    let mut env: Environment<Probe> = Environment::new(640, 480);
    assert!(matches!(
        env.open(&Url::from_str(":foo"), O_CREAT, 0),
        Err(e) if e == Error::new(ESRCH)
    ));
    env.register(b"foo".to_vec(), Probe::default()).unwrap();
    // A name that is taken is told first.
    assert!(matches!(
        env.open(&Url::from_str(":foo"), O_CREAT, 0),
        Err(e) if e == Error::new(EEXIST)
    ));
    assert_eq!(env.schemes.len(), 1);
}

#[test]
fn a_reference_without_create_fails_with_enoent() {
    let mut env = with_current();
    assert!(matches!(env.open(&Url::from_str(":foo"), 0, 0), Err(e) if e == Error::new(ENOENT)));
    assert!(matches!(env.open(&Url::from_str(":foo"), 2, 0), Err(e) if e == Error::new(ENOENT)));
    assert!(env.schemes.is_empty());
}

#[test]
fn an_unknown_scheme_fails_with_enoent() {
    let mut env = with_current();
    env.register(b"disk".to_vec(), Probe::default()).unwrap();
    assert!(matches!(env.open(&Url::from_str("net:x"), 0, 0), Err(e) if e == Error::new(ENOENT)));
    assert!(matches!(env.open(&Url::from_str("dis:x"), O_CREAT, 0), Err(e) if e == Error::new(ENOENT)));
    assert_eq!(env.unlink(&Url::from_str("net:x"), 0), Err(Error::new(ENOENT)));
    assert_eq!(env.unlink(&Url::from_str(":x"), 0), Err(Error::new(ENOENT)));
}

#[test]
fn the_empty_url_lists_the_schemes() {
    let mut env = with_current();
    match env.open(&Url::from_str(""), 0, 0) {
        Ok(Opened::Listing(list)) => assert!(list.data.is_empty()),
        other => panic!("{:?}", other),
    }
    env.register(b"disk".to_vec(), Probe::default()).unwrap();
    env.register(Vec::new(), Probe::default()).unwrap();
    env.open(&Url::from_str(":net"), O_CREAT, 0).unwrap();
    for url in [":", ""] {
        match env.open(&Url::from_str(url), O_CREAT, 0) {
            Ok(Opened::Listing(list)) => {
                assert_eq!(list.data, b"disk\nnet".to_vec());
                assert_eq!(list.seek, 0);
                assert!(list.path.is_empty());
            }
            other => panic!("{:?}", other),
        }
    }
    assert_eq!(env.listing(), b"disk\nnet".to_vec());
    assert_eq!(env.schemes.len(), 3);
}

#[test]
fn a_reference_of_slashes_is_a_name_like_any_other() {
    let mut idle: Environment<Probe> = Environment::new(640, 480);
    for url in [":/", ":///"] {
        assert!(matches!(idle.open(&Url::from_str(url), 0, 0), Err(e) if e == Error::new(ENOENT)));
        assert!(matches!(
            idle.open(&Url::from_str(url), O_CREAT, 0),
            Err(e) if e == Error::new(ESRCH)
        ));
        assert_eq!(idle.resolve(&Url::from_str(url), 0), Err(Error::new(ENOENT)));
        assert_eq!(idle.resolve(&Url::from_str(url), O_CREAT), Err(Error::new(ESRCH)));
    }
    assert!(idle.schemes.is_empty());
    let mut env = with_current();
    assert!(matches!(env.open(&Url::from_str(":/"), 0, 0), Err(e) if e == Error::new(ENOENT)));
    match env.open(&Url::from_str(":/"), O_CREAT, 0) {
        Ok(Opened::Server(server)) => assert_eq!(server.path, b":/".to_vec()),
        other => panic!("{:?}", other),
    }
    assert!(matches!(
        env.open(&Url::from_str(":/"), O_CREAT, 0),
        Err(e) if e == Error::new(EEXIST)
    ));
    assert_eq!(names(&env), vec![b"/".to_vec()]);
}

#[test]
fn resolve_tells_where_an_open_goes() {
    let mut env = with_current();
    env.register(b"a".to_vec(), Probe::default()).unwrap();
    env.register(b"b".to_vec(), Probe::default()).unwrap();
    assert_eq!(env.resolve(&Url::from_str(""), 0), Ok(Route::Listing));
    assert_eq!(env.resolve(&Url::from_str(":c"), O_CREAT), Ok(Route::Register));
    assert_eq!(env.resolve(&Url::from_str(":c"), O_CREAT | 2), Ok(Route::Register));
    assert_eq!(env.resolve(&Url::from_str(":b"), O_CREAT), Err(Error::new(EEXIST)));
    assert_eq!(env.resolve(&Url::from_str(":c"), 0), Err(Error::new(ENOENT)));
    assert_eq!(env.resolve(&Url::from_str("b:x"), 0), Ok(Route::Provider(1)));
    assert_eq!(env.resolve(&Url::from_str("a:"), 0), Ok(Route::Provider(0)));
    // Without a colon the whole text is the scheme.
    assert_eq!(env.resolve(&Url::from_str("b"), 0), Ok(Route::Provider(1)));
    assert_eq!(env.resolve(&Url::from_str("c:x"), 0), Err(Error::new(ENOENT)));
    assert_eq!(env.lookup(b"b"), Some(1));
    assert_eq!(env.lookup(b"c"), None);
}

#[test]
fn an_open_goes_to_the_provider_of_the_scheme() {
    let mut env = with_current();
    env.register(b"a".to_vec(), Probe::default()).unwrap();
    env.register(b"b".to_vec(), Probe::default()).unwrap();
    assert!(matches!(env.open(&Url::from_str("b:/x"), 7, 0), Ok(Opened::Provided(1))));
    assert!(matches!(env.open(&Url::from_str("b:/y"), 0, 0), Ok(Opened::Provided(2))));
    match &env.schemes[1].provider {
        Provider::Kernel(probe) => {
            assert_eq!(probe.opened, vec![(b"b:/x".to_vec(), 7), (b"b:/y".to_vec(), 0)]);
        }
        other => panic!("{:?}", other),
    }
    match &env.schemes[0].provider {
        Provider::Kernel(probe) => assert!(probe.opened.is_empty()),
        other => panic!("{:?}", other),
    }
    assert_eq!(env.unlink(&Url::from_str("a:/z"), 0), Ok(Unlinked::Done));
    match &env.schemes[0].provider {
        Provider::Kernel(probe) => assert_eq!(probe.unlinked, vec![b"a:/z".to_vec()]),
        other => panic!("{:?}", other),
    }
}

#[test]
fn the_error_of_a_provider_is_passed_on() {
    let mut env = with_current();
    env.register(b"a".to_vec(), Probe { fail: true, ..Probe::default() }).unwrap();
    assert!(matches!(env.open(&Url::from_str("a:x"), 0, 0), Err(e) if e == Error::new(EBADF)));
    assert!(matches!(Opened::<usize>::provided(Ok(3)), Ok(Opened::Provided(3))));
    assert!(matches!(Opened::<usize>::provided(Err(Error::new(ENOENT))), Err(e) if e == Error::new(ENOENT)));
    assert!(matches!(
        Opened::<usize>::pending(4, Ok(9)),
        Ok(Opened::Pending { scheme: 4, request: 9 })
    ));
    assert!(matches!(Opened::<usize>::pending(4, Err(Error::new(EBADF))), Err(e) if e == Error::new(EBADF)));
}

#[test]
fn the_defaults_of_a_provider() {
    let mut bare = Bare;
    bare.on_irq(3);
    bare.on_poll();
    assert_eq!(bare.scheme(), Vec::<u8>::new());
    assert_eq!(bare.open(&Url::from_str("x:y"), 0), Err(Error::new(ENOENT)));
    assert_eq!(bare.unlink(&Url::from_str("x:y")), Err(Error::new(ENOENT)));
}

#[test]
fn interrupts_and_polls_reach_every_kernel_provider() {
    let mut env = with_current();
    env.register(b"a".to_vec(), Probe::default()).unwrap();
    env.open(&Url::from_str(":user"), O_CREAT, 0).unwrap();
    env.register(b"b".to_vec(), Probe::default()).unwrap();
    env.on_irq(4);
    env.on_irq(9);
    env.on_poll();
    for k in [0usize, 2] {
        match &env.schemes[k].provider {
            Provider::Kernel(probe) => {
                assert_eq!(probe.irqs, vec![4, 9]);
                assert_eq!(probe.polls, 1);
            }
            other => panic!("{:?}", other),
        }
    }
    assert_eq!(names(&env), vec![b"a".to_vec(), b"user".to_vec(), b"b".to_vec()]);
}

#[test]
fn an_open_on_a_user_scheme_is_filed_on_its_bridge() {
    let mut env = with_current();
    let server = match env.open(&Url::from_str(":user"), O_CREAT, 0) {
        Ok(Opened::Server(server)) => server,
        other => panic!("{:?}", other),
    };
    let (scheme, request) = match env.open(&Url::from_str("user:/file"), 3, 0xABC0) {
        Ok(Opened::Pending { scheme, request }) => (scheme, request),
        other => panic!("{:?}", other),
    };
    assert_eq!((scheme, request), (0, 1));
    // The provider reads the request ...
    let mut buf = [0u8; PACKET_SIZE];
    assert_eq!(server.read(&mut env.bridges, &mut buf), Ok(PACKET_SIZE));
    let packet = Packet::from_bytes(&buf).unwrap();
    assert_eq!(packet, Packet { id: 1, a: SYS_OPEN, b: 0xABC0, c: 3, d: 0 });
    // ... and answers it with the number of the file.
    let answer = Packet { id: 1, a: 42, b: 0, c: 0, d: 0 };
    assert_eq!(server.write(&mut env.bridges, &answer.to_bytes()), Ok(PACKET_SIZE));
    assert_eq!(env.bridges[0].poll(request), Reply::Ready(Ok(42)));

    match env.unlink(&Url::from_str("user:/file"), 0xABC0) {
        Ok(Unlinked::Pending { scheme: 0, request: 2 }) => {}
        other => panic!("{:?}", other),
    }
    assert_eq!(server.read(&mut env.bridges, &mut buf), Ok(PACKET_SIZE));
    assert_eq!(
        Packet::from_bytes(&buf).unwrap(),
        Packet { id: 2, a: SYS_UNLINK, b: 0xABC0, c: 0, d: 0 }
    );
}

#[test]
fn an_open_on_a_dead_user_scheme_fails_with_ebadf() {
    let mut env = with_current();
    let server = match env.open(&Url::from_str(":user"), O_CREAT, 0) {
        Ok(Opened::Server(server)) => server,
        other => panic!("{:?}", other),
    };
    server.close(&mut env.bridges);
    assert!(matches!(env.open(&Url::from_str("user:/file"), 0, 0), Err(e) if e == Error::new(EBADF)));
    assert_eq!(env.unlink(&Url::from_str("user:/file"), 0), Err(Error::new(EBADF)));
    // The name stays taken.
    assert!(matches!(env.open(&Url::from_str(":user"), O_CREAT, 0), Err(e) if e == Error::new(EEXIST)));
}

#[test]
fn kernel_schemes_in_the_registry() {
    let mut env: Environment<MemoryScheme> = Environment::new(640, 480);
    let memory = MemoryScheme { used: 4096 * 1024, free: 123 * 1024 + 5 };
    env.register(memory.scheme(), memory).unwrap();
    match env.open(&Url::from_str("memory:"), 0, 0) {
        Ok(Opened::Provided(mut resource)) => {
            assert_eq!(resource.data, b"Memory Used: 4096 KB\nMemory Free: 123 KB".to_vec());
            assert_eq!(resource.path, b"memory:".to_vec());
            let mut buf = [0u8; 6];
            assert_eq!(resource.read(&mut buf), Ok(6));
            assert_eq!(&buf, b"Memory");
        }
        other => panic!("{:?}", other),
    }
    let mut debug = DebugScheme::new();
    assert_eq!(debug.scheme(), b"debug".to_vec());
    let resource: DebugResource = debug.open(&Url::from_str("debug:"), 0).unwrap();
    assert!(resource.command.is_empty());
    assert!(!resource.line_toggle);
}

#[test]
fn an_open_touches_the_provider_of_the_scheme_only() {
    let mut env = with_current();
    env.register(b"a".to_vec(), Probe::default()).unwrap();
    env.register(b"b".to_vec(), Probe::default()).unwrap();
    env.register(b"c".to_vec(), Probe::default()).unwrap();
    assert!(matches!(env.open(&Url::from_str("b:x"), 1, 0), Ok(Opened::Provided(1))));
    assert_eq!(env.unlink(&Url::from_str("c:y"), 0), Ok(Unlinked::Done));
    let seen: Vec<(usize, usize)> = env
        .schemes
        .iter()
        .map(|entry| match &entry.provider {
            Provider::Kernel(probe) => (probe.opened.len(), probe.unlinked.len()),
            Provider::Bridge(_) => (9, 9),
        })
        .collect();
    assert_eq!(seen, vec![(0, 0), (1, 0), (0, 1)]);
    assert_eq!(names(&env), vec![b"a".to_vec(), b"b".to_vec(), b"c".to_vec()]);
}

#[test]
fn the_timer_interrupt_ticks_the_table() {
    let mut env = with_current();
    env.contexts.spawn(b"a".to_vec(), 0x1111, &vec![], 0x100_0000);
    env.register(b"a".to_vec(), Probe::default()).unwrap();
    let slices = env.contexts.contexts[0].slices;
    assert!(slices > 1);
    for left in (1..slices).rev() {
        let (asked, outcome) = env.interrupt(0x20);
        assert_eq!(asked, Interrupt::Timer);
        assert!(outcome.transition.is_none());
        assert_eq!(env.contexts.contexts[0].slices, left);
        assert_eq!(env.contexts.current, 0);
    }
    let (asked, outcome) = env.interrupt(0x20);
    assert_eq!(asked, Interrupt::Timer);
    let transition = outcome.transition.unwrap();
    assert_eq!((transition.from, transition.to), (0, 1));
    assert_eq!(env.contexts.current, 1);
    assert!(env.contexts.contexts[0].interrupted);
    assert_eq!(env.contexts.contexts[0].slice_total, slices);
    match &env.schemes[0].provider {
        Provider::Kernel(probe) => assert!(probe.irqs.is_empty()),
        other => panic!("{:?}", other),
    }
}

#[test]
fn the_interrupt_of_a_device_is_told_to_the_providers() {
    let mut env = with_current();
    env.register(b"a".to_vec(), Probe::default()).unwrap();
    env.open(&Url::from_str(":user"), O_CREAT, 0).unwrap();
    env.register(b"b".to_vec(), Probe::default()).unwrap();
    let slices = env.contexts.contexts[0].slices;
    let (asked, outcome) = env.interrupt(0x21);
    assert_eq!(asked, Interrupt::Irq(1));
    assert!(outcome.transition.is_none() && outcome.removed.is_empty());
    let (asked, _) = env.interrupt(0x2C);
    assert_eq!(asked, Interrupt::Irq(0xC));
    for k in [0, 2] {
        match &env.schemes[k].provider {
            Provider::Kernel(probe) => assert_eq!(probe.irqs, vec![1, 0xC]),
            other => panic!("{:?}", other),
        }
    }
    assert!(matches!(env.schemes[1].provider, Provider::Bridge(_)));
    assert_eq!(env.contexts.contexts[0].slices, slices);
}

#[test]
fn the_other_interrupts_leave_the_environment_alone() {
    let mut env = with_current();
    env.register(b"a".to_vec(), Probe::default()).unwrap();
    let slices = env.contexts.contexts[0].slices;
    for (interrupt, asked) in [(0x80, Interrupt::Syscall), (0xFF, Interrupt::Init)] {
        let (r, outcome) = env.interrupt(interrupt);
        assert_eq!(r, asked);
        assert!(outcome.transition.is_none() && outcome.removed.is_empty());
    }
    assert!(matches!(env.interrupt(0xE).0, Interrupt::Exception(_)));
    assert!(matches!(env.interrupt(0x22).0, Interrupt::Exception(_)));
    assert_eq!(env.contexts.contexts[0].slices, slices);
    match &env.schemes[0].provider {
        Provider::Kernel(probe) => assert!(probe.irqs.is_empty() && probe.polls == 0),
        other => panic!("{:?}", other),
    }
}

#[test]
fn the_providers_of_the_kernel_open_as_the_providers_that_they_hold() {
    let mut debug = Builtin::Debug(DebugScheme::new());
    assert_eq!(debug.scheme(), b"debug".to_vec());
    assert!(matches!(
        debug.open(&Url::from_str("debug:"), 0),
        Ok(Handle::Debug(DebugResource { command, line_toggle: false })) if command.is_empty()
    ));
    let mut memory = Builtin::Memory(MemoryScheme { used: 1, free: 2 });
    assert_eq!(memory.scheme(), b"memory".to_vec());
    match memory.open(&Url::from_str("memory:"), 0) {
        Ok(Handle::Vec(report)) => {
            assert_eq!(report.path, b"memory:".to_vec());
            assert_eq!(report.data, MemoryScheme { used: 1, free: 2 }.report());
        }
        other => panic!("{:?}", other),
    }
    let mut env = Builtin::Env(EnvScheme);
    assert_eq!(env.scheme(), b"env".to_vec());
    assert!(matches!(env.open(&Url::from_str("env:"), 0), Ok(Handle::Env(EnvResource::List(_)))));
    assert!(matches!(
        env.open(&Url::from_str("env:HOME"), 0),
        Ok(Handle::Env(EnvResource::Variable(v))) if v.name == b"HOME".to_vec()
    ));
    assert!(matches!(env.open(&Url::from_str("env:A=B"), 0), Err(e) if e == Error::new(EINVAL)));
    let mut udp = Builtin::Udp(UdpScheme);
    assert_eq!(udp.scheme(), b"udp".to_vec());
    assert!(matches!(udp.open(&Url::from_str("udp:/53"), 0), Err(e) if e == Error::new(ENOENT)));
    assert_eq!(udp.unlink(&Url::from_str("udp:/53")), Err(Error::new(ENOENT)));
}
