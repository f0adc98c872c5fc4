use reverie::hooks::hook_from_symbol;
use reverie::hooks::SyscallHook;
use reverie::proc::ProcMapsEntry;
use reverie::remote::{nop_sequence, patch_at, search_stub_page, PatchError};
use reverie::task::{
    check_maps_wf, check_process_state_wf, patch_syscall, task_reset, ProcessState, TracedTask,
};

fn entry(base: u64, end: u64) -> ProcMapsEntry {
    ProcMapsEntry { base, end, perms: b"r-xp".to_vec(), offset: 0, path: Vec::new() }
}

fn one_hook_catalog() -> Vec<SyscallHook> {
    let name: Vec<u8> = b"_syscall_hook_trampoline_48_3d_01_f0_ff_ff".to_vec();
    vec![hook_from_symbol(&name, 0x700).unwrap()]
}

fn window_matching() -> Vec<u8> {
    let mut w: Vec<u8> = vec![0x48, 0x3d, 0x01, 0xf0, 0xff, 0xff];
    while w.len() < 16 {
        w.push(0x90);
    }
    w
}

fn fresh_state() -> ProcessState {
    let mut ps = ProcessState::new();
    let maps = vec![
        entry(0x400000, 0x452000),
        entry(0x7f12_3450_0000, 0x7f12_3460_0000),
    ];
    assert!(check_maps_wf(&maps));
    ps.set_memory_map(maps);
    ps
}

const PRELOAD: u64 = 0x7f12_3450_0000;

fn fresh_task() -> TracedTask {
    TracedTask::new(1234, 1234, PRELOAD)
}

#[test]
fn nop_padding_table() {
    let table: [&[u8]; 10] = [
        &[],
        &[0x90],
        &[0x66, 0x90],
        &[0x0f, 0x1f, 0x00],
        &[0x0f, 0x1f, 0x40, 0x00],
        &[0x0f, 0x1f, 0x44, 0x00, 0x00],
        &[0x66, 0x0f, 0x1f, 0x44, 0x00, 0x00],
        &[0x0f, 0x1f, 0x80, 0x00, 0x00, 0x00, 0x00],
        &[0x0f, 0x1f, 0x84, 0x00, 0x00, 0x00, 0x00, 0x00],
        &[0x66, 0x0f, 0x1f, 0x84, 0x00, 0x00, 0x00, 0x00, 0x00],
    ];
    for padding in 0..=9usize {
        let nops = nop_sequence(padding);
        assert_eq!(nops.len(), padding);
        assert_eq!(&nops[..], table[padding]);
    }
}

#[test]
fn emit_patch_length_follows_prologue() {
    // for each padding, a prologue of length padding + 3 yields a
    // replacement of length padding + 5
    for padding in 0..=9usize {
        let prologue_len = padding + 3;
        let mut name: Vec<u8> = b"_syscall_hook_trampoline".to_vec();
        for _ in 0..prologue_len {
            name.extend_from_slice(b"_90");
        }
        let hook = hook_from_symbol(&name, 0x100).unwrap();
        assert_eq!(hook.instructions.len(), prologue_len);
        let plan = patch_at(0x401002, 39, &hook, 0x500000);
        assert_eq!(plan.patch_bytes.len(), padding + 5);
        assert_eq!(plan.patch_bytes[0], 0xe8);
    }
}

#[test]
fn patch_syscall_emits_call_and_stub_region() {
    let task = fresh_task();
    let mut ps = fresh_state();
    let hooks = one_hook_catalog();
    let window = window_matching();
    assert!(check_process_state_wf(&ps));
    let rip: u64 = 0x0040_1002;
    let plan = patch_syscall(&task, &mut ps, &hooks, 39, rip, &window)
        .unwrap()
        .unwrap();
    // the first gap above the 1 MiB sentinel starts at 0x100000
    assert_eq!(plan.ip, 0x401000);
    assert_eq!(plan.rip, 0x401000);
    assert_eq!(plan.rax, 39);
    assert_eq!(plan.stub_slot, 0x100000);
    assert_eq!(plan.page, 0x401000);
    assert_eq!(plan.mprotect_size, 0x1000);
    // call rel32: 0x100000 - 0x401000 - 5 = -0x301005 = 0xffcfeffb
    assert_eq!(
        plan.patch_bytes,
        vec![0xe8, 0xfb, 0xef, 0xcf, 0xff, 0x0f, 0x1f, 0x00]
    );
    // round trip: decode the displacement back to the stub slot
    let rel = i32::from_le_bytes([
        plan.patch_bytes[1],
        plan.patch_bytes[2],
        plan.patch_bytes[3],
        plan.patch_bytes[4],
    ]);
    assert_eq!((plan.ip as i64 + 5 + rel as i64) as u64, plan.stub_slot);
    // the fresh stub region embeds the trampoline address in slot 0
    let alloc = plan.alloc.as_ref().unwrap();
    assert_eq!(alloc.address, 0x100000);
    assert_eq!(alloc.size, 0x2000);
    assert_eq!(alloc.stub_bytes.len(), 0x80);
    let qword = u64::from_le_bytes([
        alloc.stub_bytes[6],
        alloc.stub_bytes[7],
        alloc.stub_bytes[8],
        alloc.stub_bytes[9],
        alloc.stub_bytes[10],
        alloc.stub_bytes[11],
        alloc.stub_bytes[12],
        alloc.stub_bytes[13],
    ]);
    assert_eq!(qword, PRELOAD + 0x700);
    // bookkeeping
    assert_eq!(ps.patched_syscalls, vec![rip]);
    assert!(ps.unpatchable_syscalls.is_empty());
    assert_eq!(ps.stub_pages.len(), 1);
    assert_eq!(ps.stub_pages[0].address, 0x100000);
    assert_eq!(ps.stub_pages[0].size, 0x2000);
    assert_eq!(ps.stub_pages[0].allocated, 0x80);
    assert!(check_process_state_wf(&ps));
}

#[test]
fn patch_syscall_is_idempotent() {
    let task = fresh_task();
    let mut ps = fresh_state();
    let hooks = one_hook_catalog();
    let window = window_matching();
    let rip: u64 = 0x0040_1002;
    let first = patch_syscall(&task, &mut ps, &hooks, 39, rip, &window).unwrap();
    assert!(first.is_some());
    // a second call at the same site succeeds as a no-op
    let second = patch_syscall(&task, &mut ps, &hooks, 39, rip, &window).unwrap();
    assert!(second.is_none());
    assert_eq!(ps.patched_syscalls.len(), 1);
    assert_eq!(ps.stub_pages.len(), 1);
    assert!(ps.unpatchable_syscalls.is_empty());
}

#[test]
fn second_site_reuses_stub_region() {
    let task = fresh_task();
    let mut ps = fresh_state();
    let hooks = one_hook_catalog();
    let window = window_matching();
    patch_syscall(&task, &mut ps, &hooks, 39, 0x0040_1002, &window)
        .unwrap()
        .unwrap();
    let plan2 = patch_syscall(&task, &mut ps, &hooks, 39, 0x0040_2002, &window)
        .unwrap()
        .unwrap();
    assert!(plan2.alloc.is_none());
    assert_eq!(plan2.stub_slot, 0x100000);
    assert_eq!(ps.stub_pages.len(), 1);
    assert_eq!(ps.patched_syscalls, vec![0x0040_1002, 0x0040_2002]);
}

#[test]
fn forked_child_inherits_patched_sites() {
    let task = fresh_task();
    let mut ps = fresh_state();
    let hooks = one_hook_catalog();
    let window = window_matching();
    let rip: u64 = 0x0040_1002;
    patch_syscall(&task, &mut ps, &hooks, 39, rip, &window)
        .unwrap()
        .unwrap();
    // the child starts from a deep copy of the parent's record
    let mut child_ps = ps.duplicate();
    let child = task.forked(4321, PRELOAD);
    assert_eq!(child_ps.patched_syscalls, ps.patched_syscalls);
    assert_eq!(child_ps.memory_map.len(), ps.memory_map.len());
    // the child's first trap at the inherited site is a no-op, not a
    // fresh patch
    let r = patch_syscall(&child, &mut child_ps, &hooks, 39, rip, &window).unwrap();
    assert!(r.is_none());
    assert_eq!(child_ps.patched_syscalls.len(), 1);
    // and the records stay independent
    child_ps.patched_syscalls.clear();
    assert_eq!(ps.patched_syscalls.len(), 1);
}

#[test]
fn unknown_prologue_becomes_unpatchable() {
    let task = fresh_task();
    let mut ps = fresh_state();
    let hooks = one_hook_catalog();
    let window: Vec<u8> = vec![0; 16];
    let rip: u64 = 0x0040_1002;
    let r = patch_syscall(&task, &mut ps, &hooks, 39, rip, &window);
    assert_eq!(r.unwrap_err(), PatchError::NoMatchingHook);
    assert_eq!(ps.unpatchable_syscalls, vec![rip]);
    assert!(ps.patched_syscalls.is_empty());
    // once excluded, the site stays excluded and nothing is written
    let again = patch_syscall(&task, &mut ps, &hooks, 39, rip, &window);
    assert_eq!(again.unwrap_err(), PatchError::NotPatchable);
    assert_eq!(ps.unpatchable_syscalls, vec![rip]);
    assert!(ps.patched_syscalls.is_empty());
    assert!(ps.stub_pages.is_empty());
    // even with a matching window the exclusion holds
    let matching = window_matching();
    let third = patch_syscall(&task, &mut ps, &hooks, 39, rip, &matching);
    assert_eq!(third.unwrap_err(), PatchError::NotPatchable);
    assert_eq!(ps.unpatchable_syscalls, vec![rip]);
}

#[test]
fn too_short_prologue_is_not_patchable() {
    let task = fresh_task();
    let mut ps = fresh_state();
    let name: Vec<u8> = b"_syscall_hook_trampoline_c3_nop".to_vec();
    let hook = hook_from_symbol(&name, 0x700).unwrap();
    assert_eq!(hook.instructions, vec![0xc3]);
    let hooks = vec![hook];
    let mut window: Vec<u8> = vec![0xc3];
    window.resize(16, 0x90);
    let rip: u64 = 0x0040_1002;
    let r = patch_syscall(&task, &mut ps, &hooks, 39, rip, &window);
    assert_eq!(r.unwrap_err(), PatchError::NotPatchable);
    assert_eq!(ps.unpatchable_syscalls, vec![rip]);
}

#[test]
fn vfork_window_patches_nothing() {
    let mut task = fresh_task();
    task.in_vfork = true;
    let mut ps = fresh_state();
    let hooks = one_hook_catalog();
    let window = window_matching();
    let r = patch_syscall(&task, &mut ps, &hooks, 39, 0x0040_1002, &window);
    assert_eq!(r.unwrap_err(), PatchError::InVfork);
    assert!(ps.patched_syscalls.is_empty());
    assert!(ps.unpatchable_syscalls.is_empty());
    assert!(ps.stub_pages.is_empty());
    // after exec, everything is reset and bootstrap runs again
    task_reset(&mut task, &mut ps);
    assert!(!task.in_vfork);
    assert_eq!(task.ldpreload_address, None);
    assert_eq!(task.injected_mmap_page, Some(0x7000_0000));
    assert!(ps.memory_map.is_empty());
    assert!(ps.stub_pages.is_empty());
    assert!(ps.patched_syscalls.is_empty());
    assert!(ps.unpatchable_syscalls.is_empty());
}

#[test]
fn missing_preload_is_reported() {
    let task = TracedTask::new(1234, 1234, 0);
    assert_eq!(task.ldpreload_address, None);
    let mut ps = fresh_state();
    let hooks = one_hook_catalog();
    let window = window_matching();
    let r = patch_syscall(&task, &mut ps, &hooks, 39, 0x0040_1002, &window);
    assert_eq!(r.unwrap_err(), PatchError::PreloadNotLoaded);
    assert!(ps.patched_syscalls.is_empty());
    assert!(ps.unpatchable_syscalls.is_empty());
}

#[test]
fn cross_page_patch_widens_mprotect() {
    // the syscall starts at offset 0xffe of its page and the replacement is
    // 6 bytes, so the write crosses into the next page
    let name: Vec<u8> = b"_syscall_hook_trampoline_48_8b_3c_24".to_vec();
    let hook = hook_from_symbol(&name, 0x700).unwrap();
    assert_eq!(hook.instructions.len(), 4);
    let plan = patch_at(0x0040_1000, 39, &hook, 0x500000);
    assert_eq!(plan.ip, 0x400ffe);
    assert_eq!(plan.patch_bytes.len(), 6);
    assert_eq!(plan.page, 0x400000);
    assert_eq!(plan.mprotect_size, 0x2000);
    // a patch that stays inside one page keeps the narrow span
    let plan2 = patch_at(0x0040_1802, 39, &hook, 0x500000);
    assert_eq!(plan2.mprotect_size, 0x1000);
}

#[test]
fn gap_search_respects_reach_and_mappings() {
    let maps = vec![
        entry(0x400000, 0x452000),
        entry(0x7f12_3450_0000, 0x7f12_3460_0000),
    ];
    assert!(check_maps_wf(&maps));
    // the first fitting gap for a low hint is the 1 MiB sentinel floor
    let got = search_stub_page(&maps, 0x401002, 2).unwrap();
    assert_eq!(got, 0x100000);
    // a hint high up cannot reach the low gaps and lands after its mapping
    let high = search_stub_page(&maps, 0x7f12_3455_0000, 2).unwrap();
    assert_eq!(high, 0x7f12_3460_0000);
    // no gap of the needed size anywhere: one mapping covers everything
    // between the sentinels but a single page
    let full = vec![entry(0x100000, 0xffff_ffff_ffff_8000 - 0x1000)];
    assert!(check_maps_wf(&full));
    let r = search_stub_page(&full, 0x7000_0000, 2);
    assert_eq!(r.unwrap_err(), PatchError::NoReachableGap);
}

#[test]
fn can_find_stub_page() {
    let maps = vec![
        entry(0x400000, 0x452000),
        entry(0x600000, 0x652000),
        entry(0x7f12_3450_0000, 0x7f12_3460_0000),
        entry(0x7fff_a000_0000, 0x7fff_a002_0000),
    ];
    assert!(check_maps_wf(&maps));
    let ranges: Vec<(u64, u64)> = maps.iter().map(|e| (e.base, e.end)).collect();
    let addr_hints: Vec<u64> = maps.iter().map(|e| e.base + 0x234).collect();
    let two_gb = 2u64.wrapping_shl(30);
    for hint in addr_hints {
        let ret_ = search_stub_page(&maps, hint, 1);
        assert!(ret_.is_ok());
        let ret = ret_.unwrap();
        if ret <= hint {
            assert!(hint - ret <= two_gb);
        } else {
            assert!(ret - hint <= two_gb);
        }
        let has_collision = ranges.iter().fold(false, |acc, (start, end)| {
            if acc {
                acc
            } else {
                ret >= *start && ret < *end
            }
        });
        assert!(!has_collision);
    }
}
