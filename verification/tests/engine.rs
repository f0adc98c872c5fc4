use reverie::elf::parse_elf_symbols;
use reverie::hooks::{find_syscall_hook, hook_from_symbol, resolve_syscall_hooks_from, ElfSymbol};
use reverie::proc::{parse_hex_u64, parse_maps_line, split_lines};
use reverie::regs::{
    inject_syscall_regs, preinit_mmap_regs, restart_syscall_regs, skip_seccomp_syscall_regs,
    syscall_result, UserRegs,
};
use reverie::task::{
    apply_wait_result, event_kind, exec_breakpoint_word, exit_outcome, libsystrace_load_address,
    mark_running, run_action, seccomp_event_is_fatal, ProcessState, PtraceEvent, RunAction,
    TaskState, TracedTask, WaitResult,
};

fn regs0() -> UserRegs {
    UserRegs {
        rip: 0x401002,
        rax: 39,
        orig_rax: 39,
        rdi: 1,
        rsi: 2,
        rdx: 3,
        r10: 4,
        r8: 5,
        r9: 6,
    }
}

#[test]
fn task_lifecycle_reaches_exit() {
    let mut task = TracedTask::new(100, 100, 0);
    assert_eq!(task.state, TaskState::Ready);
    assert_eq!(run_action(&task), RunAction::Resume(None));
    mark_running(&mut task);
    assert_eq!(task.state, TaskState::Running);
    assert_eq!(run_action(&task), RunAction::KeepRunning);
    apply_wait_result(&mut task, WaitResult::Stopped(17));
    assert_eq!(task.state, TaskState::Stopped(17));
    assert_eq!(run_action(&task), RunAction::Resume(Some(17)));
    mark_running(&mut task);
    apply_wait_result(&mut task, WaitResult::PtraceEvent(7));
    assert_eq!(task.state, TaskState::Event(7));
    assert_eq!(run_action(&task), RunAction::HandleEvent(7));
    mark_running(&mut task);
    apply_wait_result(&mut task, WaitResult::Exited(3));
    assert_eq!(task.state, TaskState::Exited(3));
    assert_eq!(task.exited(), Some(3));
}

#[test]
fn task_identity_and_family() {
    let parent = TracedTask::new(100, 90, 0x7f00_0000_0000);
    assert_eq!(parent.gettid(), 100);
    assert_eq!(parent.getpid(), 100);
    assert_eq!(parent.getppid(), 100);
    assert_eq!(parent.getpgid(), 90);
    assert_eq!(parent.ldpreload_address, Some(0x7f00_0000_0000));
    let thread = parent.cloned(101);
    assert_eq!(thread.gettid(), 101);
    assert_eq!(thread.getpid(), 100);
    assert_eq!(thread.ldpreload_address, parent.ldpreload_address);
    assert_eq!(thread.state, TaskState::Ready);
    let child = parent.forked(200, 0x7f00_0000_0000);
    assert_eq!(child.gettid(), 200);
    assert_eq!(child.getpid(), 200);
    assert_eq!(child.getppid(), 100);
    assert_eq!(child.injected_mmap_page, Some(0x7000_0000));
}

#[test]
fn forked_state_is_a_deep_copy() {
    let mut ps = ProcessState::new();
    ps.patched_syscalls.push(0x401002);
    ps.unpatchable_syscalls.push(0x500002);
    let child = ps.duplicate();
    assert_eq!(child.patched_syscalls, ps.patched_syscalls);
    assert_eq!(child.unpatchable_syscalls, ps.unpatchable_syscalls);
    // the copies are independent
    ps.patched_syscalls.push(0x601002);
    assert_eq!(child.patched_syscalls.len(), 1);
}

#[test]
fn ptrace_event_numbers() {
    assert_eq!(event_kind(1), Some(PtraceEvent::Fork));
    assert_eq!(event_kind(2), Some(PtraceEvent::Vfork));
    assert_eq!(event_kind(3), Some(PtraceEvent::CloneThread));
    assert_eq!(event_kind(4), Some(PtraceEvent::Exec));
    assert_eq!(event_kind(5), Some(PtraceEvent::VforkDone));
    assert_eq!(event_kind(6), Some(PtraceEvent::Exit));
    assert_eq!(event_kind(7), Some(PtraceEvent::Seccomp));
    assert_eq!(event_kind(0), None);
    assert_eq!(event_kind(8), None);
}

#[test]
fn exit_codes_aggregate() {
    assert_eq!(exit_outcome(WaitResult::Exited(0), 7), Some(7));
    assert_eq!(exit_outcome(WaitResult::Signaled(9), 0), Some(0x80 | 9));
    assert_eq!(exit_outcome(WaitResult::Stopped(5), 7), None);
    assert!(seccomp_event_is_fatal(0x7fff));
    assert!(!seccomp_event_is_fatal(0));
}

#[test]
fn exec_breakpoint_patches_low_word() {
    let saved: u64 = 0x1122_3344_5566_7788;
    assert_eq!(exec_breakpoint_word(saved), 0x1122_3344_cc05_0fcc);
}

#[test]
fn preload_address_is_page_aligned() {
    assert_eq!(libsystrace_load_address(0), None);
    assert_eq!(
        libsystrace_load_address(0x7f12_3450_0abc),
        Some(0x7f12_3450_0000)
    );
}

#[test]
fn injected_syscall_register_setup() {
    let regs = regs0();
    let r = inject_syscall_regs(&regs, 0x7000_0008, 9, 10, 11, 12, 13, 14, 15);
    assert_eq!(r.rip, 0x7000_0008);
    assert_eq!(r.rax, 9);
    assert_eq!(r.orig_rax, 9);
    assert_eq!(r.rdi, 10);
    assert_eq!(r.rsi, 11);
    assert_eq!(r.rdx, 12);
    assert_eq!(r.r10, 13);
    assert_eq!(r.r8, 14);
    assert_eq!(r.r9, 15);
}

#[test]
fn seccomp_skip_and_restart() {
    let regs = regs0();
    let skipped = skip_seccomp_syscall_regs(&regs);
    assert_eq!(skipped.orig_rax, u64::MAX);
    assert_eq!(skipped.rip, regs.rip);
    let restarted = restart_syscall_regs(&regs);
    assert_eq!(restarted.rip, 0x401000);
    assert_eq!(restarted.rax, regs.orig_rax);
}

#[test]
fn preinit_mmap_register_setup() {
    let r = preinit_mmap_regs(&regs0());
    assert_eq!(r.orig_rax, 9); // mmap
    assert_eq!(r.rdi, 0x7000_0000);
    assert_eq!(r.rsi, 0x4000);
    assert_eq!(r.rdx, 7); // read | write | exec
    assert_eq!(r.r10, 0x32); // private | fixed | anonymous
    assert_eq!(r.r8, u64::MAX);
    assert_eq!(r.r9, 0);
}

#[test]
fn syscall_results_translate_errnos() {
    assert_eq!(syscall_result(0), Ok(0));
    assert_eq!(syscall_result(42), Ok(42));
    assert_eq!(syscall_result(0x7000_0000), Ok(0x7000_0000));
    assert_eq!(syscall_result((-2i64) as u64), Err(2)); // ENOENT
    assert_eq!(syscall_result((-4095i64) as u64), Err(4095));
    assert_eq!(syscall_result((-4096i64) as u64), Ok(-4096));
}

#[test]
fn hook_names_spell_patterns() {
    let name: Vec<u8> = b"_syscall_hook_trampoline_48_3d_01_f0_ff_ff".to_vec();
    let hook = hook_from_symbol(&name, 0x1234).unwrap();
    assert_eq!(hook.offset, 0x1234);
    assert_eq!(hook.instructions, vec![0x48, 0x3d, 0x01, 0xf0, 0xff, 0xff]);
    assert_eq!(hook.symbol, name);
    // a mnemonic token contributes no byte
    let name2: Vec<u8> = b"_syscall_hook_trampoline_c3_nop".to_vec();
    let hook2 = hook_from_symbol(&name2, 0x1).unwrap();
    assert_eq!(hook2.instructions, vec![0xc3]);
    // names without the prefix resolve to nothing
    assert!(hook_from_symbol(&b"_raw_syscall".to_vec(), 0).is_none());
    assert!(hook_from_symbol(&b"_syscall_hook_trampoline".to_vec(), 0).is_none());
}

#[test]
fn resolve_hooks_keeps_table_order() {
    let symbols = vec![
        ElfSymbol { name: b"_init".to_vec(), value: 0x100 },
        ElfSymbol { name: b"_syscall_hook_trampoline_90_90_90".to_vec(), value: 0x200 },
        ElfSymbol { name: b"_raw_syscall".to_vec(), value: 0x300 },
        ElfSymbol { name: b"_syscall_hook_trampoline_ba_01_00_00_00".to_vec(), value: 0x400 },
    ];
    let hooks = resolve_syscall_hooks_from(&symbols);
    assert_eq!(hooks.len(), 2);
    assert_eq!(hooks[0].offset, 0x200);
    assert_eq!(hooks[0].instructions, vec![0x90, 0x90, 0x90]);
    assert_eq!(hooks[1].offset, 0x400);
    assert_eq!(hooks[1].instructions, vec![0xba, 0x01, 0x00, 0x00, 0x00]);
}

#[test]
fn first_matching_hook_wins() {
    let a = hook_from_symbol(&b"_syscall_hook_trampoline_90_90_90".to_vec(), 0x1).unwrap();
    let b = hook_from_symbol(&b"_syscall_hook_trampoline_90_90".to_vec(), 0x2).unwrap();
    let hooks = vec![a, b];
    let mut window: Vec<u8> = vec![0x90; 16];
    assert_eq!(find_syscall_hook(&hooks, &window), Some(0));
    window[2] = 0xc3;
    assert_eq!(find_syscall_hook(&hooks, &window), Some(1));
    window[0] = 0xc3;
    assert_eq!(find_syscall_hook(&hooks, &window), None);
}

#[test]
fn hex_runs_parse_exactly() {
    let line: Vec<u8> = b"00400000-00452000".to_vec();
    let (v, end) = parse_hex_u64(&line, 0).unwrap();
    assert_eq!(v, 0x400000);
    assert_eq!(end, 8);
    let (v2, end2) = parse_hex_u64(&line, 9).unwrap();
    assert_eq!(v2, 0x452000);
    assert_eq!(end2, 17);
    assert!(parse_hex_u64(&line, 8).is_none()); // '-' is no digit
    assert!(parse_hex_u64(&line, 17).is_none()); // end of line
    let long: Vec<u8> = b"123456789012345678".to_vec();
    assert!(parse_hex_u64(&long, 0).is_none()); // more than 16 digits
    let max: Vec<u8> = b"ffffffffffffffff".to_vec();
    assert_eq!(parse_hex_u64(&max, 0).unwrap().0, u64::MAX);
}

#[test]
fn maps_lines_parse_to_entries() {
    let line: Vec<u8> =
        b"00400000-00452000 r-xp 00000000 08:02 173521   /usr/bin/dbus-daemon".to_vec();
    let e = parse_maps_line(&line).unwrap();
    assert_eq!(e.base, 0x400000);
    assert_eq!(e.end, 0x452000);
    assert_eq!(e.perms, b"r-xp".to_vec());
    assert_eq!(e.offset, 0);
    assert_eq!(e.path, b"/usr/bin/dbus-daemon".to_vec());
    let anon: Vec<u8> = b"7f8a3c000000-7f8a3c021000 rw-p 00000000 00:00 0".to_vec();
    let e2 = parse_maps_line(&anon).unwrap();
    assert_eq!(e2.base, 0x7f8a_3c00_0000);
    assert_eq!(e2.end, 0x7f8a_3c02_1000);
    assert_eq!(e2.perms, b"rw-p".to_vec());
    assert_eq!(e2.path, Vec::<u8>::new());
    assert!(parse_maps_line(&b"garbage".to_vec()).is_none());
    assert!(parse_maps_line(&Vec::new()).is_none());
}

fn put16(buf: &mut [u8], off: usize, v: u16) {
    buf[off..off + 2].copy_from_slice(&v.to_le_bytes());
}

fn put32(buf: &mut [u8], off: usize, v: u32) {
    buf[off..off + 4].copy_from_slice(&v.to_le_bytes());
}

fn put64(buf: &mut [u8], off: usize, v: u64) {
    buf[off..off + 8].copy_from_slice(&v.to_le_bytes());
}

#[test]
fn symbols_resolve_from_a_library_image() {
    // a minimal 64-bit object: header, a null section, a dynamic symbol
    // table with two entries, and its string table
    let name = b"_syscall_hook_trampoline_48_3d_01_f0_ff_ff";
    let shoff = 64usize;
    let symoff = shoff + 3 * 64;
    let stroff = symoff + 2 * 24;
    let strtab: Vec<u8> = {
        let mut s = vec![0u8];
        s.extend_from_slice(name);
        s.push(0);
        s
    };
    let mut image = vec![0u8; stroff + strtab.len()];
    image[0] = 0x7f;
    image[1] = 0x45;
    image[2] = 0x4c;
    image[3] = 0x46;
    image[4] = 2; // 64-bit
    image[5] = 1; // little-endian
    put64(&mut image, 40, shoff as u64);
    put16(&mut image, 58, 64); // e_shentsize
    put16(&mut image, 60, 3); // e_shnum
    // section 1: the dynamic symbol table, linked to section 2
    put32(&mut image, shoff + 64 + 4, 11);
    put64(&mut image, shoff + 64 + 24, symoff as u64);
    put64(&mut image, shoff + 64 + 32, 2 * 24);
    put32(&mut image, shoff + 64 + 40, 2);
    // section 2: the string table
    put32(&mut image, shoff + 2 * 64 + 4, 3);
    put64(&mut image, shoff + 2 * 64 + 24, stroff as u64);
    put64(&mut image, shoff + 2 * 64 + 32, strtab.len() as u64);
    // symbol 1 names the trampoline at offset 0x700
    put32(&mut image, symoff + 24, 1);
    put64(&mut image, symoff + 24 + 8, 0x700);
    image[stroff..].copy_from_slice(&strtab);

    let symbols = parse_elf_symbols(&image).unwrap();
    assert_eq!(symbols.len(), 2);
    assert_eq!(symbols[0].name, Vec::<u8>::new());
    assert_eq!(symbols[1].name, name.to_vec());
    assert_eq!(symbols[1].value, 0x700);
    let hooks = resolve_syscall_hooks_from(&symbols);
    assert_eq!(hooks.len(), 1);
    assert_eq!(hooks[0].offset, 0x700);
    assert_eq!(hooks[0].instructions, vec![0x48, 0x3d, 0x01, 0xf0, 0xff, 0xff]);
    // a truncated or foreign image resolves to nothing
    assert!(parse_elf_symbols(&image[..40].to_vec()).is_none());
    assert!(parse_elf_symbols(&vec![0u8; 200]).is_none());
}

#[test]
fn map_listing_splits_into_lines() {
    let text: Vec<u8> = b"a-b\ncd\n\nef".to_vec();
    let lines = split_lines(&text);
    assert_eq!(
        lines,
        vec![b"a-b".to_vec(), b"cd".to_vec(), Vec::new(), b"ef".to_vec()]
    );
    assert_eq!(split_lines(&b"one\n".to_vec()), vec![b"one".to_vec()]);
    assert_eq!(split_lines(&Vec::new()), Vec::<Vec<u8>>::new());
}
