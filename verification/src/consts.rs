//! The tracee virtual-memory contract: fixed addresses of the private code
//! page, of the per-process stub data area and of its 8-byte slots, and the
//! encoding of the x86-64 `syscall` instruction.  The helper library that is
//! preloaded into every tracee references these slots by absolute address, so
//! the values are load-bearing and must never change.
use vstd::prelude::*;

verus! {

/// Size in bytes of the x86-64 `syscall` instruction (`0f 05`).
pub const SYSCALL_INSN_SIZE: usize = 2;

/// Mask selecting the two instruction bytes at an address.
pub const SYSCALL_INSN_MASK: u64 = 0xffff;

/// Little-endian encoding of `syscall` (`0f 05`).
pub const SYSCALL_INSN: u64 = 0x050f;

/// Base address of the private code page mapped into every tracee.
pub const REVERIE_PRIVATE_PAGE_OFFSET: u64 = 0x7000_0000;

/// Size of the private code page mapping.
pub const REVERIE_PRIVATE_PAGE_SIZE: u64 = 0x4000;

/// Address of the untraced syscall gadget (`syscall; ret`).
pub const SYSCALL_UNTRACED: u64 = 0x7000_0000;

/// Address of the traced syscall gadget; the seccomp filter lets only
/// syscalls issued from `SYSCALL_UNTRACED + 2` through untraced.
pub const SYSCALL_TRACED: u64 = 0x7000_0004;

/// Gadget that performs one untraced syscall and then hits an `int3`.
pub const SYSCALL_UNTRACED_BP: u64 = 0x7000_0008;

/// Gadget that performs one traced syscall and then hits an `int3`.
pub const SYSCALL_TRACED_BP: u64 = 0x7000_0010;

/// Name of the memfd holding the global state shared by all tracees.
pub const REVERIE_GLOBAL_STATE_FILE: &'static str = "reverie";

/// Address at which tools map the global state into a tracee.
pub const REVERIE_GLOBAL_STATE_ADDR: u64 = 0x7020_0000;

/// Size of one global-state page.
pub const REVERIE_GLOBAL_STATE_SIZE: u64 = 0x1000;

/// Fixed file descriptor of the global-state memfd in every tracee.
pub const REVERIE_GLOBAL_STATE_FD: i32 = 1023;

/// Fixed file descriptor of the RPC socket reserved for tool use.
pub const REVERIE_DPC_SOCKFD: i32 = 1022;

/// Base of the stub data area: the page after the private code page.
pub const REVERIE_LOCAL_BASE: u64 = REVERIE_PRIVATE_PAGE_OFFSET + 0x1000;

/// Slot 0: number of hook records valid in the hook table.
pub const REVERIE_LOCAL_SYSCALL_HOOK_SIZE: u64 = REVERIE_LOCAL_BASE;

/// Slot 1: address of the hook table in the tracee.
pub const REVERIE_LOCAL_SYSCALL_HOOK_ADDR: u64 = REVERIE_LOCAL_SYSCALL_HOOK_SIZE + 8;

/// Slot 2: 8-byte scratch word used by the gadgets.
pub const REVERIE_LOCAL_STUB_SCRATCH: u64 = REVERIE_LOCAL_SYSCALL_HOOK_ADDR + 8;

/// Slot 3: reentrancy counter for hooks.
pub const REVERIE_LOCAL_STACK_NESTING_LEVEL: u64 = REVERIE_LOCAL_STUB_SCRATCH + 8;

/// Slot 4: helper library load base plus trampoline offset.
pub const REVERIE_LOCAL_SYSCALL_TRAMPOLINE: u64 = REVERIE_LOCAL_STACK_NESTING_LEVEL + 8;

/// Slot 5: tool-supplied dispatcher address.
pub const REVERIE_LOCAL_SYSTOOL_HOOK: u64 = REVERIE_LOCAL_SYSCALL_TRAMPOLINE + 8;

/// Slot 6: cross-thread patch futex.
pub const REVERIE_LOCAL_SYSCALL_PATCH_LOCK: u64 = REVERIE_LOCAL_SYSTOOL_HOOK + 8;

/// Slot 7: integer log level consumed by the helper library.
pub const REVERIE_LOCAL_SYSTOOL_LOG_LEVEL: u64 = REVERIE_LOCAL_SYSCALL_PATCH_LOCK + 8;

/// Slot 8: per-process state pointer.
pub const REVERIE_LOCAL_REVERIE_LOCAL_STATE: u64 = REVERIE_LOCAL_SYSTOOL_LOG_LEVEL + 8;

/// Slot 9: mapped global-state pointer.
pub const REVERIE_LOCAL_REVERIE_GLOBAL_STATE: u64 = REVERIE_LOCAL_REVERIE_LOCAL_STATE + 8;

/// Slot 10: alternate syscall helper entry.
pub const REVERIE_LOCAL_SYSCALL_HELPER: u64 = REVERIE_LOCAL_REVERIE_GLOBAL_STATE + 8;

/// Slot 11: RPC entry.
pub const REVERIE_LOCAL_RPC_HELPER: u64 = REVERIE_LOCAL_SYSCALL_HELPER + 8;

/// Slot 12: deferred-procedure-call futex.
pub const REVERIE_LOCAL_DPC_FUTEX: u64 = REVERIE_LOCAL_RPC_HELPER + 8;

/// Slot 13: cached offset into libc thread-local storage.
pub const REVERIE_LOCAL_TLS_GET_ADDR_OFFSET: u64 = REVERIE_LOCAL_DPC_FUTEX + 8;

/// Syscall number of `mmap` on x86-64.
pub const SYS_MMAP: u64 = 9;

/// Syscall number of `mprotect` on x86-64.
pub const SYS_MPROTECT: u64 = 10;

/// Page may be read.
pub const PROT_READ: u64 = 1;

/// Page may be written.
pub const PROT_WRITE: u64 = 2;

/// Page may be executed.
pub const PROT_EXEC: u64 = 4;

/// Private copy-on-write mapping.
pub const MAP_PRIVATE: u64 = 2;

/// Place the mapping exactly at the requested address.
pub const MAP_FIXED: u64 = 0x10;

/// Mapping is not backed by any file.
pub const MAP_ANONYMOUS: u64 = 0x20;

/// Environment variable naming the helper library preloaded into tracees.
pub const REVERIE_TRACEE_PRELOAD: &'static str = "REVERIE_TRACEE_PRELOAD";

/// Environment variable carrying the integer log level into tracees.
pub const REVERIE_ENV_TOOL_LOG_KEY: &'static str = "TOOL_LOG";

/// Every slot of the stub data area sits at `REVERIE_LOCAL_BASE + 8 * index`,
/// in the order the helper library expects.
pub proof fn lemma_stub_slot_layout()
    ensures
        REVERIE_LOCAL_SYSCALL_HOOK_SIZE == REVERIE_LOCAL_BASE + 8 * 0,
        REVERIE_LOCAL_SYSCALL_HOOK_ADDR == REVERIE_LOCAL_BASE + 8 * 1,
        REVERIE_LOCAL_STUB_SCRATCH == REVERIE_LOCAL_BASE + 8 * 2,
        REVERIE_LOCAL_STACK_NESTING_LEVEL == REVERIE_LOCAL_BASE + 8 * 3,
        REVERIE_LOCAL_SYSCALL_TRAMPOLINE == REVERIE_LOCAL_BASE + 8 * 4,
        REVERIE_LOCAL_SYSTOOL_HOOK == REVERIE_LOCAL_BASE + 8 * 5,
        REVERIE_LOCAL_SYSCALL_PATCH_LOCK == REVERIE_LOCAL_BASE + 8 * 6,
        REVERIE_LOCAL_SYSTOOL_LOG_LEVEL == REVERIE_LOCAL_BASE + 8 * 7,
        REVERIE_LOCAL_REVERIE_LOCAL_STATE == REVERIE_LOCAL_BASE + 8 * 8,
        REVERIE_LOCAL_REVERIE_GLOBAL_STATE == REVERIE_LOCAL_BASE + 8 * 9,
        REVERIE_LOCAL_SYSCALL_HELPER == REVERIE_LOCAL_BASE + 8 * 10,
        REVERIE_LOCAL_RPC_HELPER == REVERIE_LOCAL_BASE + 8 * 11,
        REVERIE_LOCAL_DPC_FUTEX == REVERIE_LOCAL_BASE + 8 * 12,
        REVERIE_LOCAL_TLS_GET_ADDR_OFFSET == REVERIE_LOCAL_BASE + 8 * 13,
{
}

} // verus!
