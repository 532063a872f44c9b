use redox_kernel::env::console::Console;
use redox_kernel::env::scheme::SchemeInner;
use redox_kernel::env::Environment;
use redox_kernel::graphics::display::Display;
use redox_kernel::ordered::OrderedMap;
use redox_kernel::scheduler::context::{check_memory, Context, ContextMemory, Handles};
use redox_kernel::scheduler::table::ContextTable;
use redox_kernel::scheme::pipe::{pipe, PipeRead, PipeScheme};
use redox_kernel::schemes::debug::DebugScheme;

#[test]
fn an_ordered_map_is_checked_for_its_order() {
    let mut map: OrderedMap<u8> = OrderedMap::new();
    assert!(map.check());
    map.insert(3, 0);
    map.insert(1, 0);
    assert!(map.check());
    map.entries.push((0, 0));
    assert!(!map.check());
    map.entries = vec![(1, 0), (1, 0)];
    assert!(!map.check());
    map.entries = vec![(5, 0)];
    assert!(map.check());
}

#[test]
fn a_mapping_is_checked_for_its_place() {
    let m = |physical_address, virtual_address, virtual_size| ContextMemory {
        physical_address,
        virtual_address,
        virtual_size,
        writeable: true,
    };
    assert!(m(0, 0, 0).check());
    assert!(m(0x1000, 0x8000_0000, 4096).check());
    assert!(m(usize::MAX - 4096, 0, 4096).check());
    assert!(!m(usize::MAX - 4095, 0, 4096).check());
    assert!(!m(0, usize::MAX - 4095, 1).check());
    assert!(!m(0, 0, usize::MAX).check());
    assert!(m(usize::MAX, usize::MAX, 0).check());
    assert!(check_memory(&vec![m(0, 0, 1), m(1, 1, 1)]));
    assert!(!check_memory(&vec![m(0, 0, 1), m(0, 0, usize::MAX)]));
}

#[test]
fn a_unit_is_checked_for_its_stacks() {
    let handles = Handles { args: 0, cwd: 0, memory: 0, files: 0 };
    let mut unit = Context::root(1, 0, handles);
    assert!(unit.check());
    unit.kernel_stack = usize::MAX - 0x10_0000 - 512;
    assert!(unit.check());
    unit.kernel_stack += 1;
    assert!(!unit.check());
    unit.kernel_stack = 0;
    unit.stack = Some(ContextMemory {
        physical_address: 0,
        virtual_address: usize::MAX,
        virtual_size: 1,
        writeable: true,
    });
    assert!(!unit.check());
}

#[test]
fn a_table_is_checked() {
    let mut table = ContextTable::new();
    assert!(table.check());
    table.add_root(0x9000);
    table.spawn(b"a".to_vec(), 0, &vec![], 0x100_0000);
    assert!(table.check());
    table.current = 2;
    assert!(!table.check());
    table.current = 1;
    assert!(table.check());
    table.next_pid = 65536;
    assert!(!table.check());
    table.next_pid = 2;
    table.contexts[1].memory = 77;
    assert!(!table.check());
    table.contexts[1].memory = table.contexts[0].memory;
    assert!(table.check());
    let memory = table.contexts[0].memory;
    table.memories.set(
        memory,
        vec![ContextMemory {
            physical_address: 0,
            virtual_address: usize::MAX,
            virtual_size: 2,
            writeable: false,
        }],
    );
    assert!(!table.check());
    let mut empty = ContextTable::new();
    empty.current = 1;
    assert!(!empty.check());
}

#[test]
fn a_bridge_is_checked() {
    let mut inner = SchemeInner::new();
    assert!(inner.check());
    inner.submit(1, 2, 3, 4).unwrap();
    assert!(inner.check());
    inner.next_id = 0;
    assert!(!inner.check());
    inner.next_id = 5;
    inner.todo.entries.insert(0, (0, (0, 0, 0, 0)));
    assert!(!inner.check());
    assert!(SchemeInner::check_all(&vec![SchemeInner::new(), SchemeInner::new()]));
    assert!(!SchemeInner::check_all(&vec![SchemeInner::new(), inner]));
}

#[test]
fn an_environment_is_checked_for_its_names() {
    let mut env: Environment<DebugScheme> = Environment::new(640, 480);
    assert!(env.check());
    env.register(b"a".to_vec(), DebugScheme::new()).unwrap();
    env.register(b"b".to_vec(), DebugScheme::new()).unwrap();
    env.register(b"c".to_vec(), DebugScheme::new()).unwrap();
    assert!(env.check());
    env.schemes[2].name = b"a".to_vec();
    assert!(!env.check());
    env.schemes[2].name = b"c".to_vec();
    env.contexts.current = 5;
    assert!(!env.check());
}

#[test]
fn pipes_are_checked() {
    let mut pipes = PipeScheme::new();
    assert!(pipes.check());
    let (read_id, write_id) = pipe(&mut pipes, 0);
    pipes.dup(read_id, b"").unwrap();
    assert!(pipes.check());
    pipes.next_id = 2;
    assert!(!pipes.check());
    pipes.next_id = 3;
    assert!(pipes.check());
    pipes.reads.entries[0].1.queue = 1;
    assert!(!pipes.check());
    pipes.reads.entries[0].1.queue = 0;
    pipes.writes.entries[0].1.queue = 4;
    assert!(!pipes.check());
    pipes.writes.entries[0].1.queue = 0;
    // A number that is both a reading and a writing handle.
    pipes.reads.entries[0] = (write_id, PipeRead { flags: 0, queue: 0 });
    assert!(!pipes.check());
}

#[test]
fn a_console_and_a_display_are_checked() {
    let mut console = Console::new(640, 480);
    assert!(console.check());
    console.point.y = 464;
    assert!(console.check());
    console.point.y = 465;
    assert!(!console.check());
    console.point.y = -16;
    assert!(console.check());
    console.point.y = -17;
    assert!(!console.check());
    console.point.y = 0;
    console.point.x = 641;
    assert!(!console.check());
    assert!(!Console::new(640, 15).check());
    assert!(!Console::new(0x1_0001, 480).check());
    let mut display = Display {
        offscreen: 0x1000,
        onscreen: 0x9000,
        size: 400,
        bytesperrow: 40,
        width: 10,
        height: 10,
        root: false,
    };
    assert!(display.check());
    display.height = 11;
    assert!(!display.check());
    display.height = 10;
    display.width = 11;
    assert!(!display.check());
    display.width = 10;
    display.offscreen = usize::MAX - 399;
    assert!(!display.check());
    display.offscreen = usize::MAX - 400;
    assert!(display.check());
    display.bytesperrow = 0;
    display.width = 0;
    assert!(display.check());
}
