//! The registers of a stopped tracee that the engine reads or writes, and
//! the pure register transformations behind every ptrace round-trip: setting
//! up an injected syscall, making the kernel skip a trapped one, rewinding a
//! site so it re-executes, and reading a syscall's result out of `rax`.
use vstd::prelude::*;

verus! {

/// The slice of the tracee's register file the engine works with.  The
/// caller snapshots the full kernel register set; these are the fields the
/// engine inspects or changes.
#[derive(Clone, Copy, Debug, PartialEq, Eq, Structural)]
pub struct UserRegs {
    pub rip: u64,
    pub rax: u64,
    pub orig_rax: u64,
    pub rdi: u64,
    pub rsi: u64,
    pub rdx: u64,
    pub r10: u64,
    pub r8: u64,
    pub r9: u64,
}

/// Registers for injecting one syscall into a stopped tracee: the number in
/// `rax`/`orig_rax`, the six arguments in the SysV AMD64 syscall registers,
/// and the program counter on a breakpointed syscall gadget.
pub fn inject_syscall_regs(
    regs: &UserRegs,
    gadget_rip: u64,
    nr: u64,
    a0: i64,
    a1: i64,
    a2: i64,
    a3: i64,
    a4: i64,
    a5: i64,
) -> (r: UserRegs)
    ensures
        r.orig_rax == nr,
        r.rax == nr,
        r.rdi == a0 as u64,
        r.rsi == a1 as u64,
        r.rdx == a2 as u64,
        r.r10 == a3 as u64,
        r.r8 == a4 as u64,
        r.r9 == a5 as u64,
        r.rip == gadget_rip,
{
    UserRegs {
        rip: gadget_rip,
        rax: nr,
        orig_rax: nr,
        rdi: a0 as u64,
        rsi: a1 as u64,
        rdx: a2 as u64,
        r10: a3 as u64,
        r8: a4 as u64,
        r9: a5 as u64,
    }
}

/// Registers that make the kernel skip the syscall trapped at a seccomp
/// stop: the syscall number is replaced by an invalid one, so a single step
/// returns `ENOSYS` without running anything.  This is the only safe way to
/// resume from a seccomp stop before touching `rip`.
pub fn skip_seccomp_syscall_regs(regs: &UserRegs) -> (r: UserRegs)
    ensures
        r.orig_rax == u64::MAX,
        r == (UserRegs { orig_rax: u64::MAX, ..*regs }),
{
    UserRegs { orig_rax: u64::MAX, ..*regs }
}

/// Registers that re-execute the trapped syscall site: `rip` is rewound
/// over the 2-byte `syscall` instruction and `rax` gets the attempted
/// syscall number back.  After a successful patch the rewound site runs the
/// freshly written `call`; after a failed one it re-enters the kernel.
pub fn restart_syscall_regs(regs: &UserRegs) -> (r: UserRegs)
    requires
        regs.rip >= 2,
    ensures
        r.rip == regs.rip - 2,
        r.rax == regs.orig_rax,
        r == (UserRegs { rip: (regs.rip - 2) as u64, rax: regs.orig_rax, ..*regs }),
{
    UserRegs { rip: regs.rip - 2, rax: regs.orig_rax, ..*regs }
}

/// Registers for the bootstrap `mmap` injected at the first breakpoint
/// after `exec`: map the private code page, read-write-execute, fixed,
/// anonymous and private.
pub fn preinit_mmap_regs(regs: &UserRegs) -> (r: UserRegs)
    ensures
        r.orig_rax == crate::consts::SYS_MMAP,
        r.rax == crate::consts::SYS_MMAP,
        r.rdi == crate::consts::REVERIE_PRIVATE_PAGE_OFFSET,
        r.rsi == crate::consts::REVERIE_PRIVATE_PAGE_SIZE,
        r.rdx == crate::consts::PROT_READ | crate::consts::PROT_WRITE | crate::consts::PROT_EXEC,
        r.r10 == crate::consts::MAP_PRIVATE | crate::consts::MAP_FIXED
            | crate::consts::MAP_ANONYMOUS,
        r.r8 == u64::MAX,
        r.r9 == 0,
        r.rip == regs.rip,
{
    UserRegs {
        rax: crate::consts::SYS_MMAP,
        orig_rax: crate::consts::SYS_MMAP,
        rdi: crate::consts::REVERIE_PRIVATE_PAGE_OFFSET,
        rsi: crate::consts::REVERIE_PRIVATE_PAGE_SIZE,
        rdx: crate::consts::PROT_READ | crate::consts::PROT_WRITE | crate::consts::PROT_EXEC,
        r10: crate::consts::MAP_PRIVATE | crate::consts::MAP_FIXED | crate::consts::MAP_ANONYMOUS,
        r8: u64::MAX,
        r9: 0,
        ..*regs
    }
}

/// Interpret the `rax` a syscall left behind: values in the last 4095
/// numbers of the range are negated errnos, anything else is the result.
pub fn syscall_result(rax: u64) -> (r: Result<i64, i32>)
    ensures
        rax > 0xffff_ffff_ffff_f000u64 ==> (r matches Err(e) && e as int
            == 0x1_0000_0000_0000_0000 - rax && 0 < e <= 4095),
        rax <= 0xffff_ffff_ffff_f000u64 ==> (r matches Ok(v) && v == rax as i64 && (rax
            < 0x8000_0000_0000_0000u64 ==> v == rax)),
{
    if rax > 0xffff_ffff_ffff_f000 {
        Err(((u64::MAX - rax) + 1) as i32)
    } else {
        Ok(rax as i64)
    }
}

} // verus!
