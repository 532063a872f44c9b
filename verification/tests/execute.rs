use redox_kernel::error::{Error, ENOEXEC, ESRCH};
use redox_kernel::scheduler::context::{
    ContextMemory, StackWrite, CLONE_VM, CONTEXT_STACK_ADDR, CONTEXT_STACK_SIZE, WORD_SIZE,
};
use redox_kernel::scheduler::table::{context_clone, context_switch, ContextTable, ShareKind};
use redox_kernel::syscall::execute::{
    execute, load, map_arguments, user_stack, user_stack_mapping, user_words, Argument, LoadStep,
    Segment, USER_CODE, USER_DATA, USER_FLAGS,
};

fn mapping(physical: usize, virt: usize, size: usize, writeable: bool) -> ContextMemory {
    ContextMemory {
        physical_address: physical,
        virtual_address: virt,
        virtual_size: size,
        writeable,
    }
}

#[test]
fn segments_are_mapped_from_the_start_of_their_page() {
    let text = Segment { vaddr: 0x8000_0123, off: 0x40, file_len: 0x500, mem_len: 0x500, flags: 5 };
    let data = Segment { vaddr: 0x8000_2000, off: 0x540, file_len: 0x100, mem_len: 0x300, flags: 6 };
    assert!(text.check());
    assert_eq!(text.size(), 0x500 + 0x123);
    assert_eq!(data.size(), 0x300);
    let (memory, steps) = load(&vec![text, data], &vec![0x10_0000, 0x20_0000]);
    assert_eq!(
        memory,
        vec![
            mapping(0x10_0000, 0x8000_0000, 0x623, false),
            mapping(0x20_0000, 0x8000_2000, 0x300, true),
        ]
    );
    assert_eq!(
        steps,
        vec![
            LoadStep::Copy { off: 0x40, dst: 0x10_0123, len: 0x500 },
            LoadStep::Copy { off: 0x540, dst: 0x20_0000, len: 0x100 },
            LoadStep::Zero { dst: 0x20_0100, len: 0x200 },
        ]
    );
}

#[test]
fn segments_without_memory_are_left_out() {
    let a = Segment { vaddr: 0x1000, off: 0, file_len: 1, mem_len: 1, flags: 0 };
    let (memory, steps) = load(&vec![a, a, a], &vec![0, 0x5000]);
    assert_eq!(memory, vec![mapping(0x5000, 0x1000, 1, false)]);
    assert_eq!(steps, vec![LoadStep::Copy { off: 0, dst: 0x5000, len: 1 }]);
    let (memory, steps) = load(&vec![a], &vec![usize::MAX - 4096]);
    assert!(memory.is_empty());
    assert!(steps.is_empty());
    assert!(load(&vec![], &vec![1, 2]).0.is_empty());
}

#[test]
fn segments_are_checked() {
    let ok = Segment { vaddr: 0x1000, off: 0, file_len: 8, mem_len: 8, flags: 0 };
    assert!(ok.check());
    assert!(!Segment { file_len: 9, ..ok }.check());
    assert!(!Segment { vaddr: usize::MAX - 4096, ..ok }.check());
    assert!(Segment { vaddr: usize::MAX - 4096 - 8, ..ok }.check());
    assert!(!Segment { mem_len: usize::MAX, ..ok }.check());
}

fn table() -> ContextTable {
    let mut table = ContextTable::new();
    table.add_root(0x9000);
    table.spawn(b"sh".to_vec(), 0, &vec![], 0x100_0000);
    table.enable();
    context_switch(&mut table, false);
    let (cwd, memory) = (table.contexts[1].cwd, table.contexts[1].memory);
    table.cwds.set(cwd, b"file:/home/".to_vec());
    table.memories.set(memory, vec![mapping(0x50_0000, 0x8000_0000, 4096, true)]);
    table
}

#[test]
fn execute_gives_the_unit_its_program() {
    let mut table = table();
    let program = vec![mapping(0x60_0000, 0x8000_0000, 8192, false)];
    let done = table.execute(Some(b"ls".to_vec()), 0x8000_0100, program.clone()).unwrap();
    assert_eq!(done.index, 1);
    assert_eq!(done.freed, Some(vec![mapping(0x50_0000, 0x8000_0000, 4096, true)]));
    let unit = &table.contexts[1];
    assert_eq!(unit.name, b"ls".to_vec());
    assert_eq!(table.memories.get(unit.memory), Some(&program));
    assert_eq!(table.cwds.get(unit.cwd), Some(&b"file:/home/".to_vec()));
    assert!(table.check());
    // Without a name the unit keeps its own.
    table.execute(None, 1, program.clone()).unwrap();
    assert_eq!(table.contexts[1].name, b"ls".to_vec());
}

#[test]
fn execute_leaves_what_a_thread_shares() {
    let mut table = table();
    assert!(context_clone(&mut table, 1, CLONE_VM | 0x200, 7, 0x300_0000, 0, &vec![], &vec![]));
    let shared = table.contexts[1].memory;
    let program = vec![mapping(0x60_0000, 0x8000_0000, 8192, false)];
    let done = table.execute(None, 1, program.clone()).unwrap();
    assert_eq!(done.freed, None);
    assert_ne!(table.contexts[1].memory, shared);
    assert_ne!(table.contexts[1].cwd, table.contexts[2].cwd);
    assert_eq!(table.contexts[2].memory, shared);
    assert_eq!(table.memories.get(shared).unwrap().len(), 1);
    assert!(table.shared(1, ShareKind::Args, table.contexts[1].args));
    assert!(!table.shared(1, ShareKind::Memory, table.contexts[1].memory));
    assert!(table.check());
}

#[test]
fn execute_fails_without_a_program_or_a_unit() {
    let mut table = table();
    let program = vec![mapping(0x60_0000, 0x8000_0000, 8192, false)];
    assert!(matches!(table.execute(None, 0, program.clone()), Err(e) if e == Error::new(ENOEXEC)));
    assert!(matches!(table.execute(None, 1, vec![]), Err(e) if e == Error::new(ENOEXEC)));
    let mut off = ContextTable::new();
    assert!(matches!(off.execute(None, 1, program.clone()), Err(e) if e == Error::new(ESRCH)));
    assert!(matches!(off.execute(None, 0, program), Err(e) if e == Error::new(ENOEXEC)));
    assert_eq!(table.contexts[1].name, b"sh".to_vec());
}

#[test]
fn arguments_are_mapped_behind_the_program() {
    let mut memory = vec![mapping(0x60_0000, 0x8000_0000, 8192, false)];
    let arguments = vec![
        Argument { physical_address: 0x70_0000, len: 3, terminated: true },
        Argument { physical_address: 0x70_1000, len: 5000, terminated: true },
    ];
    let addresses = map_arguments(&mut memory, &arguments).unwrap();
    // The last argument is mapped first.
    assert_eq!(addresses, vec![0x8000_2000, 0x8000_4000]);
    assert_eq!(
        memory[1..],
        [
            mapping(0x70_1000, 0x8000_2000, 5000, true),
            mapping(0x70_0000, 0x8000_4000, 3, true),
        ]
    );
    assert_eq!(user_words(&addresses), vec![0, 0, 0x8000_2000, 0x8000_4000, 2]);
    assert_eq!(user_words(&vec![]), vec![0, 0, 0]);
}

#[test]
fn an_argument_without_its_end_stops_the_mapping() {
    let mut memory = vec![];
    let arguments = vec![
        Argument { physical_address: 0x1000, len: 3, terminated: true },
        Argument { physical_address: 0x2000, len: 3, terminated: false },
        Argument { physical_address: 0x3000, len: 3, terminated: true },
    ];
    assert_eq!(map_arguments(&mut memory, &arguments), None);
    assert_eq!(memory, vec![mapping(0x3000, 0, 3, true)]);
    let mut memory = vec![];
    let wide = vec![Argument { physical_address: usize::MAX, len: 3, terminated: true }];
    assert_eq!(map_arguments(&mut memory, &wide), None);
    assert!(memory.is_empty());
    assert_eq!(map_arguments(&mut memory, &vec![]), Some(vec![]));
}

#[test]
fn the_stacks_of_a_program_that_starts() {
    let stack = user_stack_mapping(0x90_0000);
    assert_eq!(stack, mapping(0x90_0000, CONTEXT_STACK_ADDR, CONTEXT_STACK_SIZE, true));
    let words = vec![0, 0, 0x8000_2000, 1];
    let (writes, user_sp) = user_stack(&stack, &words);
    let top = 0x90_0000 + CONTEXT_STACK_SIZE - 128;
    assert_eq!(
        writes,
        vec![
            StackWrite { address: top - WORD_SIZE, value: 0 },
            StackWrite { address: top - 2 * WORD_SIZE, value: 0 },
            StackWrite { address: top - 3 * WORD_SIZE, value: 0x8000_2000 },
            StackWrite { address: top - 4 * WORD_SIZE, value: 1 },
        ]
    );
    assert_eq!(user_sp, CONTEXT_STACK_ADDR + CONTEXT_STACK_SIZE - 128 - 4 * WORD_SIZE);

    let mut table = table();
    let unit = &mut table.contexts[1];
    unit.sp = 5;
    let writes = unit.enter_userspace(stack, user_sp, 0x8000_0100, 0xC0DE);
    let top = 0x100_0000 + CONTEXT_STACK_SIZE - 128;
    assert_eq!(
        writes.iter().map(|w| w.value).collect::<Vec<_>>(),
        vec![USER_DATA, user_sp, USER_FLAGS, USER_CODE, 0x8000_0100, 0xC0DE]
    );
    assert_eq!(writes[0].address, top - WORD_SIZE);
    assert_eq!(writes[5].address, top - 6 * WORD_SIZE);
    assert_eq!(unit.sp, top - 6 * WORD_SIZE);
    assert_eq!(unit.stack, Some(stack));
    assert_eq!((USER_DATA, USER_CODE, USER_FLAGS), (0x23, 0x1B, 0x200));
}

#[test]
fn the_urls_that_are_tried_for_a_program() {
    assert_eq!(
        execute(b"file:/home/", b"prog"),
        (b"file:/home/prog".to_vec(), b"file:/bin/prog".to_vec())
    );
    assert_eq!(
        execute(b"file:/home/", b"other:/x"),
        (b"other:/x".to_vec(), b"file:/bin/other:/x".to_vec())
    );
    assert_eq!(execute(b"", b""), (Vec::new(), b"file:/bin/".to_vec()));
}
