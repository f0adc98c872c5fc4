use reverie::consts::{
    REVERIE_LOCAL_BASE, REVERIE_LOCAL_DPC_FUTEX, REVERIE_LOCAL_REVERIE_GLOBAL_STATE,
    REVERIE_LOCAL_REVERIE_LOCAL_STATE, REVERIE_LOCAL_RPC_HELPER, REVERIE_LOCAL_STACK_NESTING_LEVEL,
    REVERIE_LOCAL_STUB_SCRATCH, REVERIE_LOCAL_SYSCALL_HELPER, REVERIE_LOCAL_SYSCALL_HOOK_ADDR,
    REVERIE_LOCAL_SYSCALL_HOOK_SIZE, REVERIE_LOCAL_SYSCALL_PATCH_LOCK,
    REVERIE_LOCAL_SYSCALL_TRAMPOLINE, REVERIE_LOCAL_SYSTOOL_HOOK, REVERIE_LOCAL_SYSTOOL_LOG_LEVEL,
    REVERIE_LOCAL_TLS_GET_ADDR_OFFSET,
};
use reverie::stubs::{extended_jump_pages, extended_jump_size, gen_extended_jump};
use reverie::stubs::gen_extended_jump_stubs;
use reverie::hooks::hook_from_symbol;
use reverie::remote::gen_syscall_sequences_at;
use reverie::remote::u64_from_le_bytes;
use reverie::remote::u64_to_le_bytes;
use reverie::remote::is_syscall_insn;

#[test]
fn det_tls_sanity_check() {
    assert_eq!(REVERIE_LOCAL_SYSCALL_HOOK_SIZE, REVERIE_LOCAL_BASE + 0);
    assert_eq!(REVERIE_LOCAL_SYSCALL_HOOK_ADDR, REVERIE_LOCAL_BASE + 8);
    assert_eq!(REVERIE_LOCAL_STUB_SCRATCH, REVERIE_LOCAL_BASE + 16);
    assert_eq!(REVERIE_LOCAL_STACK_NESTING_LEVEL, REVERIE_LOCAL_BASE + 24);
    assert_eq!(REVERIE_LOCAL_SYSCALL_TRAMPOLINE, REVERIE_LOCAL_BASE + 32);
    assert_eq!(REVERIE_LOCAL_SYSTOOL_HOOK, REVERIE_LOCAL_BASE + 40);
    assert_eq!(REVERIE_LOCAL_SYSCALL_PATCH_LOCK, REVERIE_LOCAL_BASE + 48);
    assert_eq!(REVERIE_LOCAL_SYSTOOL_LOG_LEVEL, REVERIE_LOCAL_BASE + 56);
    assert_eq!(REVERIE_LOCAL_REVERIE_LOCAL_STATE, REVERIE_LOCAL_BASE + 64);
    assert_eq!(REVERIE_LOCAL_REVERIE_GLOBAL_STATE, REVERIE_LOCAL_BASE + 72);
    assert_eq!(REVERIE_LOCAL_SYSCALL_HELPER, REVERIE_LOCAL_BASE + 80);
    assert_eq!(REVERIE_LOCAL_RPC_HELPER, REVERIE_LOCAL_BASE + 88);
    assert_eq!(REVERIE_LOCAL_DPC_FUTEX, REVERIE_LOCAL_BASE + 96);
    assert_eq!(REVERIE_LOCAL_TLS_GET_ADDR_OFFSET, REVERIE_LOCAL_BASE + 104);
}

#[test]
fn extend_jump_sanity() {
    let expected_size = 6 + std::mem::size_of::<u64>();
    assert_eq!(gen_extended_jump(0x0).len(), expected_size);
    assert_eq!(gen_extended_jump(0x12345678).len(), expected_size);
    assert_eq!(gen_extended_jump(0x1234567812345678u64).len(), expected_size);
}

#[test]
fn extended_jump_geometry() {
    assert_eq!(extended_jump_size(), 0x80);
    assert_eq!(extended_jump_pages(), 2);
    assert_eq!(32 * extended_jump_size(), 0x1000);
    assert_eq!(64 * extended_jump_size(), 2 * 0x1000);
    assert!(gen_extended_jump(0xdeadbeef).len() <= extended_jump_size());
}

#[test]
fn extended_jump_encodes_absolute_target() {
    let stub = gen_extended_jump(0x7f12_3450_0700);
    assert_eq!(&stub[0..6], &[0xff, 0x25, 0x00, 0x00, 0x00, 0x00]);
    assert_eq!(
        &stub[6..14],
        &[0x00, 0x07, 0x50, 0x34, 0x12, 0x7f, 0x00, 0x00]
    );
}

#[test]
fn stub_region_one_slot_per_hook() {
    let name: Vec<u8> = b"_syscall_hook_trampoline_48_3d_01_f0_ff_ff".to_vec();
    let hook = hook_from_symbol(&name, 0x700).unwrap();
    let name2: Vec<u8> = b"_syscall_hook_trampoline_48_8b_3c_24".to_vec();
    let hook2 = hook_from_symbol(&name2, 0x800).unwrap();
    let hooks = vec![hook, hook2];
    let region = gen_extended_jump_stubs(&hooks, 0x7f12_3450_0000);
    assert_eq!(region.len(), 2 * 0x80);
    // slot 0 jumps to load base + 0x700
    assert_eq!(&region[0..6], &[0xff, 0x25, 0x00, 0x00, 0x00, 0x00]);
    assert_eq!(
        &region[6..14],
        &[0x00, 0x07, 0x50, 0x34, 0x12, 0x7f, 0x00, 0x00]
    );
    for b in &region[14..0x80] {
        assert_eq!(*b, 0);
    }
    // slot 1 jumps to load base + 0x800
    assert_eq!(&region[0x80..0x86], &[0xff, 0x25, 0x00, 0x00, 0x00, 0x00]);
    assert_eq!(
        &region[0x86..0x8e],
        &[0x00, 0x08, 0x50, 0x34, 0x12, 0x7f, 0x00, 0x00]
    );
}

#[test]
fn gadget_page_bytes_match() {
    let writes = gen_syscall_sequences_at(0x7000_0000);
    assert_eq!(writes.len(), 3);
    assert_eq!(writes[0], (0x7000_0000, 0x90c3050f90c3050f));
    assert_eq!(writes[1], (0x7000_0008, 0x9066ccfffffff3e8));
    assert_eq!(writes[2], (0x7000_0010, 0x9066ccffffffefe8));
    let mut bytes: Vec<u8> = Vec::new();
    for (_, w) in &writes {
        bytes.extend_from_slice(&u64_to_le_bytes(*w));
    }
    let expected: [u8; 24] = [
        0x0f, 0x05, 0xc3, 0x90, // untraced entry
        0x0f, 0x05, 0xc3, 0x90, // traced entry
        0xe8, 0xf3, 0xff, 0xff, 0xff, 0xcc, 0x66, 0x90, // call untraced + int3
        0xe8, 0xef, 0xff, 0xff, 0xff, 0xcc, 0x66, 0x90, // call traced + int3
    ];
    assert_eq!(&bytes[..], &expected[..]);
}

#[test]
fn le_bytes_round_trip() {
    let x: u64 = 0x0123_4567_89ab_cdef;
    let b = u64_to_le_bytes(x);
    assert_eq!(b, vec![0xef, 0xcd, 0xab, 0x89, 0x67, 0x45, 0x23, 0x01]);
    assert_eq!(u64_from_le_bytes(&b), x);
}

#[test]
fn syscall_instruction_recognition() {
    assert!(is_syscall_insn(0x0000_0000_0000_050f));
    assert!(is_syscall_insn(0x1234_5678_9abc_050f));
    assert!(!is_syscall_insn(0x0000_0000_0000_050e));
    assert!(!is_syscall_insn(0x0f05));
}
