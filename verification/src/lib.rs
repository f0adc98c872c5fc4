//! A user-space syscall interception engine for Linux/x86-64, modelled as a
//! verified core: the tracee memory-layout contract, the trampoline/stub code
//! generators, the stub-page allocator, the syscall-site patcher and the
//! per-task state machine are all plain functions over integers and byte
//! vectors with proved contracts.  The surrounding process plumbing (ptrace,
//! waitpid, memory maps read from /proc) lives outside the library and hands
//! it plain values.

pub mod consts;
pub mod hooks;
pub mod stubs;
pub mod proc;
pub mod remote;
pub mod regs;
pub mod task;
pub mod elf;
