//! The per-tracee state machine and the syscall-site patch decision.  A
//! task records identity, lifecycle state and helper-library bootstrap
//! state; the per-process collections (memory map, stub regions, patched
//! and unpatchable sites) live in a separate record that threads of one
//! process share and forked processes deep-copy.  Everything the engine
//! decides — how to react to a wait status, to a ptrace event, and whether
//! and how to rewrite a trapped syscall site — is a plain function here;
//! the caller performs the resulting reads and writes on the live tracee.
use vstd::prelude::*;
use crate::hooks::SyscallHook;
use crate::hooks::hook_matches;
use crate::hooks::hook_patchable;
use crate::hooks::find_syscall_hook;
use crate::proc::ProcMapsEntry;
use crate::proc::maps_wf;
use crate::remote::PatchError;
use crate::remote::PatchPlan;
use crate::remote::StubAllocPlan;
use crate::remote::SyscallStubPage;
use crate::remote::gap_fits;
use crate::remote::gap_start;
use crate::remote::patch_code;
use crate::remote::search_stub_page;
use crate::remote::patch_at;
use crate::stubs::stub_region_bytes;
use crate::stubs::gen_extended_jump_stubs;

verus! {

/// Lifecycle state of one traced task, driven by wait statuses and ptrace
/// events.  `Exited` is terminal.
#[derive(Clone, Copy, Debug, PartialEq, Eq, Structural)]
pub enum TaskState {
    /// Created or reset; not yet resumed.
    Ready,
    /// Resumed and running (or waiting inside the kernel).
    Running,
    /// Stopped by a signal that is to be delivered on resume.
    Stopped(i32),
    /// Terminated by a signal.
    Signaled(i32),
    /// Stopped at a ptrace event, carrying the raw event number.
    Event(u64),
    /// Gone, with its exit code.
    Exited(i32),
}

/// A waitpid result for one task, reduced to what the scheduler needs.
#[derive(Clone, Copy, Debug, PartialEq, Eq, Structural)]
pub enum WaitResult {
    /// Stopped by the given signal.
    Stopped(i32),
    /// Killed by the given signal.
    Signaled(i32),
    /// Exited with the given code.
    Exited(i32),
    /// Stopped at the given ptrace event.
    PtraceEvent(u64),
}

/// The ptrace events the engine handles.
#[derive(Clone, Copy, Debug, PartialEq, Eq, Structural)]
pub enum PtraceEvent {
    Fork,
    Vfork,
    CloneThread,
    Exec,
    VforkDone,
    Exit,
    Seccomp,
}

/// What the scheduler must do with a task it popped, decided from the
/// task's state alone.
#[derive(Clone, Copy, Debug, PartialEq, Eq, Structural)]
pub enum RunAction {
    /// The task is already running; just keep it queued.
    KeepRunning,
    /// Resume it, delivering the given signal if any.
    Resume(Option<i32>),
    /// Dispatch the pending ptrace event, carrying the raw event number.
    HandleEvent(u64),
}

/// The collections every thread of one process shares: the memory map, the
/// allocated stub regions, and the sites already patched or given up on.
/// `fork` deep-copies the record, `clone` shares it, `exec` empties it.
pub struct ProcessState {
    pub memory_map: Vec<ProcMapsEntry>,
    pub stub_pages: Vec<SyscallStubPage>,
    pub patched_syscalls: Vec<u64>,
    pub unpatchable_syscalls: Vec<u64>,
}

/// One traced task: identity, lifecycle, vfork flag, bootstrap addresses
/// and a pending signal.  The shared per-process collections are passed
/// alongside, so that threads can share one record.
#[derive(Clone, Copy, Debug, PartialEq, Eq, Structural)]
pub struct TracedTask {
    /// Thread id; this is what every ptrace call addresses.
    pub tid: i32,
    /// Process id.
    pub pid: i32,
    /// Parent process id.
    pub ppid: i32,
    /// Process group id.
    pub pgid: i32,
    /// Between `vfork` and the `exec` that follows it.
    pub in_vfork: bool,
    /// Lifecycle state.
    pub state: TaskState,
    /// Load base of the preloaded helper library, once it announced itself.
    pub ldpreload_address: Option<u64>,
    /// Base of the injected private page, once mapped.
    pub injected_mmap_page: Option<u64>,
    /// A signal observed while injecting, to be delivered on next resume.
    pub signal_to_deliver: Option<i32>,
}

/// The page-aligned helper-library load base, from the word read at the
/// `SYSCALL_TRAMPOLINE` slot of the stub data area: zero means the helper
/// has not announced itself yet.
pub fn libsystrace_load_address(trampoline_word: u64) -> (r: Option<u64>)
    ensures
        trampoline_word != 0 ==> r == Some(trampoline_word & 0xffff_ffff_ffff_f000u64),
        trampoline_word == 0 ==> r is None,
{
    if trampoline_word != 0 {
        Some(trampoline_word & 0xffff_ffff_ffff_f000)
    } else {
        None
    }
}

impl TracedTask {
    /// A fresh task for a just-attached tracee: tid, pid and ppid all name
    /// the tracee itself, the state is `Ready`, nothing is pending.
    pub fn new(tid: i32, pgid: i32, trampoline_word: u64) -> (r: TracedTask)
        ensures
            r.tid == tid,
            r.pid == tid,
            r.ppid == tid,
            r.pgid == pgid,
            r.state == TaskState::Ready,
            !r.in_vfork,
            r.ldpreload_address == libsystrace_load_address_spec(trampoline_word),
            r.injected_mmap_page is None,
            r.signal_to_deliver is None,
    {
        TracedTask {
            tid,
            pid: tid,
            ppid: tid,
            pgid,
            in_vfork: false,
            state: TaskState::Ready,
            ldpreload_address: libsystrace_load_address(trampoline_word),
            injected_mmap_page: None,
            signal_to_deliver: None,
        }
    }

    /// The child task of a `clone` event: a new thread of the same process.
    /// The caller keeps sharing the parent's `ProcessState` with it.
    pub fn cloned(&self, child_tid: i32) -> (r: TracedTask)
        ensures
            r.tid == child_tid,
            r.pid == self.pid,
            r.ppid == self.pid,
            r.pgid == self.pgid,
            r.state == TaskState::Ready,
            !r.in_vfork,
            r.ldpreload_address == self.ldpreload_address,
            r.injected_mmap_page == self.injected_mmap_page,
            r.signal_to_deliver is None,
    {
        TracedTask {
            tid: child_tid,
            pid: self.pid,
            ppid: self.pid,
            pgid: self.pgid,
            in_vfork: false,
            state: TaskState::Ready,
            ldpreload_address: self.ldpreload_address,
            injected_mmap_page: self.injected_mmap_page,
            signal_to_deliver: None,
        }
    }

    /// The child task of a `fork` or `vfork` event: a new process.  The
    /// caller pairs it with a deep copy of the parent's `ProcessState`
    /// (see [`ProcessState::duplicate`]) and, for `vfork`, sets `in_vfork`.
    pub fn forked(&self, child_pid: i32, trampoline_word: u64) -> (r: TracedTask)
        ensures
            r.tid == child_pid,
            r.pid == child_pid,
            r.ppid == self.pid,
            r.pgid == self.pgid,
            r.state == TaskState::Ready,
            !r.in_vfork,
            r.ldpreload_address == libsystrace_load_address_spec(trampoline_word),
            r.injected_mmap_page == Some(crate::consts::REVERIE_PRIVATE_PAGE_OFFSET),
            r.signal_to_deliver is None,
    {
        TracedTask {
            tid: child_pid,
            pid: child_pid,
            ppid: self.pid,
            pgid: self.pgid,
            in_vfork: false,
            state: TaskState::Ready,
            ldpreload_address: libsystrace_load_address(trampoline_word),
            injected_mmap_page: Some(crate::consts::REVERIE_PRIVATE_PAGE_OFFSET),
            signal_to_deliver: None,
        }
    }

    /// The exit code, for a task that has exited.
    pub fn exited(&self) -> (r: Option<i32>)
        ensures
            match self.state {
                TaskState::Exited(code) => r == Some(code),
                _ => r is None,
            },
    {
        match self.state {
            TaskState::Exited(code) => Some(code),
            _ => None,
        }
    }

    /// Thread id.
    pub fn gettid(&self) -> (r: i32)
        ensures
            r == self.tid,
    {
        self.tid
    }

    /// Process id.
    pub fn getpid(&self) -> (r: i32)
        ensures
            r == self.pid,
    {
        self.pid
    }

    /// Parent process id.
    pub fn getppid(&self) -> (r: i32)
        ensures
            r == self.ppid,
    {
        self.ppid
    }

    /// Process group id.
    pub fn getpgid(&self) -> (r: i32)
        ensures
            r == self.pgid,
    {
        self.pgid
    }
}

/// What `libsystrace_load_address` returns, as a spec-level function so that
/// constructors can state it.
pub open spec fn libsystrace_load_address_spec(trampoline_word: u64) -> Option<u64> {
    if trampoline_word != 0 {
        Some(trampoline_word & 0xffff_ffff_ffff_f000u64)
    } else {
        None
    }
}

/// The lifecycle relation: `Ready` leads into `Running`; a running task is
/// next seen stopped, signaled, at an event, or exited; a stopped, signaled
/// or event-stopped task is resumed into `Running`; `Exited` is terminal.
pub open spec fn task_step_ok(pre: TaskState, post: TaskState) -> bool {
    match pre {
        TaskState::Ready => post == TaskState::Running,
        TaskState::Running => match post {
            TaskState::Stopped(_) => true,
            TaskState::Signaled(_) => true,
            TaskState::Event(_) => true,
            TaskState::Exited(_) => true,
            _ => false,
        },
        TaskState::Stopped(_) => post == TaskState::Running,
        TaskState::Signaled(_) => post == TaskState::Running,
        TaskState::Event(_) => post == TaskState::Running,
        TaskState::Exited(_) => false,
    }
}

/// No transition leaves `Exited`: once a task has exited, no step relates
/// it to any further state.
pub proof fn lemma_exited_terminal(pre: TaskState, post: TaskState)
    ensures
        (pre matches TaskState::Exited(_)) ==> !task_step_ok(pre, post),
{
}

/// Mark a task as resumed.  Legal from every state but `Running` and
/// `Exited`, and always a legal lifecycle step.
pub fn mark_running(task: &mut TracedTask)
    requires
        !(old(task).state matches TaskState::Running),
        !(old(task).state matches TaskState::Exited(_)),
    ensures
        final(task).state == TaskState::Running,
        task_step_ok(old(task).state, final(task).state),
        *final(task) == (TracedTask { state: TaskState::Running, ..*old(task) }),
{
    task.state = TaskState::Running;
}

/// Record what `waitpid` reported for a running task.  Always a legal
/// lifecycle step.
pub fn apply_wait_result(task: &mut TracedTask, w: WaitResult)
    requires
        old(task).state matches TaskState::Running,
    ensures
        final(task).state == state_after_wait(w),
        task_step_ok(old(task).state, final(task).state),
        *final(task) == (TracedTask { state: state_after_wait(w), ..*old(task) }),
{
    let next = match w {
        WaitResult::Stopped(sig) => TaskState::Stopped(sig),
        WaitResult::Signaled(sig) => TaskState::Signaled(sig),
        WaitResult::Exited(code) => TaskState::Exited(code),
        WaitResult::PtraceEvent(ev) => TaskState::Event(ev),
    };
    task.state = next;
}

/// The task state each wait status translates to.
pub open spec fn state_after_wait(w: WaitResult) -> TaskState {
    match w {
        WaitResult::Stopped(sig) => TaskState::Stopped(sig),
        WaitResult::Signaled(sig) => TaskState::Signaled(sig),
        WaitResult::Exited(code) => TaskState::Exited(code),
        WaitResult::PtraceEvent(ev) => TaskState::Event(ev),
    }
}

/// What to do with a popped task.  A task that already exited is never
/// run again (`Exited` is terminal), so the caller must not ask.
pub fn run_action(task: &TracedTask) -> (r: RunAction)
    requires
        !(task.state matches TaskState::Exited(_)),
    ensures
        match task.state {
            TaskState::Running => r == RunAction::KeepRunning,
            TaskState::Ready => r == RunAction::Resume(None::<i32>),
            TaskState::Stopped(sig) => r == RunAction::Resume(Some(sig)),
            TaskState::Signaled(sig) => r == RunAction::Resume(Some(sig)),
            TaskState::Event(ev) => r == RunAction::HandleEvent(ev),
            TaskState::Exited(_) => false,
        },
{
    match task.state {
        TaskState::Running => RunAction::KeepRunning,
        TaskState::Ready => RunAction::Resume(None),
        TaskState::Stopped(sig) => RunAction::Resume(Some(sig)),
        TaskState::Signaled(sig) => RunAction::Resume(Some(sig)),
        TaskState::Event(ev) => RunAction::HandleEvent(ev),
        TaskState::Exited(_) => RunAction::KeepRunning,
    }
}

/// Decode a raw ptrace event number; unknown numbers are per-task-fatal
/// and decode to nothing.
pub fn event_kind(raw: u64) -> (r: Option<PtraceEvent>)
    ensures
        r == Some(PtraceEvent::Fork) <==> raw == 1,
        r == Some(PtraceEvent::Vfork) <==> raw == 2,
        r == Some(PtraceEvent::CloneThread) <==> raw == 3,
        r == Some(PtraceEvent::Exec) <==> raw == 4,
        r == Some(PtraceEvent::VforkDone) <==> raw == 5,
        r == Some(PtraceEvent::Exit) <==> raw == 6,
        r == Some(PtraceEvent::Seccomp) <==> raw == 7,
        r is None <==> !(1 <= raw <= 7),
{
    if raw == 1 {
        Some(PtraceEvent::Fork)
    } else if raw == 2 {
        Some(PtraceEvent::Vfork)
    } else if raw == 3 {
        Some(PtraceEvent::CloneThread)
    } else if raw == 4 {
        Some(PtraceEvent::Exec)
    } else if raw == 5 {
        Some(PtraceEvent::VforkDone)
    } else if raw == 6 {
        Some(PtraceEvent::Exit)
    } else if raw == 7 {
        Some(PtraceEvent::Seccomp)
    } else {
        None
    }
}

/// The exit code a task reports after its exit event: the event payload
/// when it exited, `0x80 | signal` when a signal killed it, and nothing —
/// per-task-fatal — on any other wait status.
pub fn exit_outcome(w: WaitResult, event_payload: i64) -> (r: Option<i32>)
    ensures
        match w {
            WaitResult::Exited(_) => r == Some(event_payload as i32),
            WaitResult::Signaled(sig) => r == Some(0x80i32 | sig),
            _ => r is None,
        },
{
    match w {
        WaitResult::Exited(_) => Some(event_payload as i32),
        WaitResult::Signaled(sig) => Some(0x80 | sig),
        _ => None,
    }
}

/// A seccomp event whose payload says no filter matched is fatal: the
/// tracer's filter must see every syscall.
pub fn seccomp_event_is_fatal(event_payload: i64) -> (r: bool)
    ensures
        r == (event_payload == 0x7fff),
{
    event_payload == 0x7fff
}

/// The word that arms the bootstrap breakpoint at the `exec` stop: the low
/// four saved bytes are replaced by `int3; syscall; int3`.
pub fn exec_breakpoint_word(saved: u64) -> (r: u64)
    ensures
        r == (saved & 0xffff_ffff_0000_0000u64) | 0xcc050fccu64,
{
    (saved & 0xffff_ffff_0000_0000) | 0xcc050fcc
}

/// Two memory-map entries describe the same range the same way.
pub open spec fn entry_like(a: ProcMapsEntry, b: ProcMapsEntry) -> bool {
    &&& a.base == b.base
    &&& a.end == b.end
    &&& a.perms@ == b.perms@
    &&& a.offset == b.offset
    &&& a.path@ == b.path@
}

/// Two memory maps hold the same entries.
pub open spec fn maps_like(a: Seq<ProcMapsEntry>, b: Seq<ProcMapsEntry>) -> bool {
    &&& a.len() == b.len()
    &&& forall|i: int| 0 <= i < a.len() ==> entry_like(#[trigger] a[i], #[trigger] b[i])
}

/// Entry-wise sameness preserves well-formedness of a map.
pub proof fn lemma_maps_like_wf(a: Seq<ProcMapsEntry>, b: Seq<ProcMapsEntry>)
    requires
        maps_like(a, b),
        maps_wf(a),
    ensures
        maps_wf(b),
{
    assert forall|i: int| 0 <= i < b.len() implies (#[trigger] b[i]).base <= b[i].end by {
        assert(entry_like(a[i], b[i]));
    }
    assert forall|i: int| 0 <= i < b.len() - 1 implies (#[trigger] b[i]).end <= b[i + 1].base by {
        assert(entry_like(a[i], b[i]));
        assert(entry_like(a[i + 1], b[i + 1]));
    }
    if b.len() > 0 {
        assert(entry_like(a[0], b[0]));
        assert(entry_like(a[a.len() - 1], b[b.len() - 1]));
    }
}

/// A per-process record is well formed when its memory map is, its stub
/// regions are the two-page regions the allocator makes, and no site is
/// both patched and unpatchable.
pub open spec fn process_state_wf(ps: ProcessState) -> bool {
    &&& maps_wf(ps.memory_map@)
    &&& forall|i: int|
        0 <= i < ps.stub_pages@.len() ==> (#[trigger] ps.stub_pages@[i]).size == 0x2000
            && ps.stub_pages@[i].address + 0x2000 <= u64::MAX
    &&& forall|a: u64|
        #[trigger] ps.patched_syscalls@.contains(a) ==> !ps.unpatchable_syscalls@.contains(a)
}

/// Nothing in the record changed.
pub open spec fn ps_unchanged(a: ProcessState, b: ProcessState) -> bool {
    &&& a.memory_map@ == b.memory_map@
    &&& a.stub_pages@ == b.stub_pages@
    &&& a.patched_syscalls@ == b.patched_syscalls@
    &&& a.unpatchable_syscalls@ == b.unpatchable_syscalls@
}

/// Copy a byte vector.
fn copy_bytes(src: &Vec<u8>) -> (r: Vec<u8>)
    ensures
        r@ == src@,
{
    let mut v: Vec<u8> = Vec::new();
    let mut i: usize = 0;
    while i < src.len()
        invariant
            i <= src@.len(),
            v@ == src@.take(i as int),
        decreases src@.len() - i,
    {
        v.push(src[i]);
        proof {
            assert(v@ =~= src@.take(i + 1));
        }
        i = i + 1;
    }
    proof {
        assert(src@.take(src@.len() as int) =~= src@);
    }
    v
}

/// Copy a vector of site addresses.
fn copy_u64s(src: &Vec<u64>) -> (r: Vec<u64>)
    ensures
        r@ == src@,
{
    let mut v: Vec<u64> = Vec::new();
    let mut i: usize = 0;
    while i < src.len()
        invariant
            i <= src@.len(),
            v@ == src@.take(i as int),
        decreases src@.len() - i,
    {
        v.push(src[i]);
        proof {
            assert(v@ =~= src@.take(i + 1));
        }
        i = i + 1;
    }
    proof {
        assert(src@.take(src@.len() as int) =~= src@);
    }
    v
}

/// Copy a vector of stub-region records.
fn copy_stub_pages(src: &Vec<SyscallStubPage>) -> (r: Vec<SyscallStubPage>)
    ensures
        r@ == src@,
{
    let mut v: Vec<SyscallStubPage> = Vec::new();
    let mut i: usize = 0;
    while i < src.len()
        invariant
            i <= src@.len(),
            v@ == src@.take(i as int),
        decreases src@.len() - i,
    {
        v.push(src[i]);
        proof {
            assert(v@ =~= src@.take(i + 1));
        }
        i = i + 1;
    }
    proof {
        assert(src@.take(src@.len() as int) =~= src@);
    }
    v
}

/// Copy a memory map entry by entry.
fn copy_maps(src: &Vec<ProcMapsEntry>) -> (r: Vec<ProcMapsEntry>)
    ensures
        maps_like(src@, r@),
{
    let mut v: Vec<ProcMapsEntry> = Vec::new();
    let mut i: usize = 0;
    while i < src.len()
        invariant
            i <= src@.len(),
            v@.len() == i,
            forall|k: int| 0 <= k < i ==> entry_like(#[trigger] src@[k], #[trigger] v@[k]),
        decreases src@.len() - i,
    {
        let e = &src[i];
        let copy = ProcMapsEntry {
            base: e.base,
            end: e.end,
            perms: copy_bytes(&e.perms),
            offset: e.offset,
            path: copy_bytes(&e.path),
        };
        v.push(copy);
        i = i + 1;
    }
    v
}

impl ProcessState {
    /// An empty record, as a fresh or just-`exec`ed process has it.
    pub fn new() -> (r: ProcessState)
        ensures
            r.memory_map@.len() == 0,
            r.stub_pages@.len() == 0,
            r.patched_syscalls@.len() == 0,
            r.unpatchable_syscalls@.len() == 0,
            process_state_wf(r),
    {
        ProcessState {
            memory_map: Vec::new(),
            stub_pages: Vec::new(),
            patched_syscalls: Vec::new(),
            unpatchable_syscalls: Vec::new(),
        }
    }

    /// The deep copy a forked child starts with: same contents, separate
    /// storage, so the two processes' records evolve independently.
    pub fn duplicate(&self) -> (r: ProcessState)
        ensures
            maps_like(self.memory_map@, r.memory_map@),
            r.stub_pages@ == self.stub_pages@,
            r.patched_syscalls@ == self.patched_syscalls@,
            r.unpatchable_syscalls@ == self.unpatchable_syscalls@,
            process_state_wf(*self) ==> process_state_wf(r),
    {
        let r = ProcessState {
            memory_map: copy_maps(&self.memory_map),
            stub_pages: copy_stub_pages(&self.stub_pages),
            patched_syscalls: copy_u64s(&self.patched_syscalls),
            unpatchable_syscalls: copy_u64s(&self.unpatchable_syscalls),
        };
        proof {
            if process_state_wf(*self) {
                lemma_maps_like_wf(self.memory_map@, r.memory_map@);
            }
        }
        r
    }

    /// Replace the memory map with a freshly read one; the caller checks it
    /// with [`check_maps_wf`] first.
    pub fn set_memory_map(&mut self, maps: Vec<ProcMapsEntry>)
        requires
            maps_wf(maps@),
        ensures
            final(self).memory_map@ == maps@,
            final(self).stub_pages@ == old(self).stub_pages@,
            final(self).patched_syscalls@ == old(self).patched_syscalls@,
            final(self).unpatchable_syscalls@ == old(self).unpatchable_syscalls@,
            process_state_wf(*old(self)) ==> process_state_wf(*final(self)),
    {
        self.memory_map = maps;
    }
}

/// Decide whether a freshly read memory map is well formed, so that it may
/// be handed to [`ProcessState::set_memory_map`].
pub fn check_maps_wf(maps: &Vec<ProcMapsEntry>) -> (r: bool)
    ensures
        r == maps_wf(maps@),
{
    let n = maps.len();
    if n == 0 {
        return true;
    }
    if maps[0].base < 0x100000 {
        return false;
    }
    if maps[n - 1].end > 0xffff_ffff_ffff_8000 {
        return false;
    }
    let mut i: usize = 0;
    while i < n
        invariant
            n == maps@.len(),
            i <= n,
            forall|k: int| 0 <= k < i ==> (#[trigger] maps@[k]).base <= maps@[k].end,
            forall|k: int| 0 <= k < i && k < n - 1 ==> (#[trigger] maps@[k]).end <= maps@[k
                + 1].base,
            maps@[0].base >= 0x100000,
            maps@[n - 1].end <= 0xffff_ffff_ffff_8000u64,
        decreases n - i,
    {
        if maps[i].base > maps[i].end {
            return false;
        }
        if i + 1 < n && maps[i].end > maps[i + 1].base {
            return false;
        }
        i = i + 1;
    }
    true
}

/// Clear a task and its per-process record after `exec`: the new image has
/// no helper library yet, no stub regions, no known map, and no patched or
/// unpatchable sites; bootstrap runs again from `Ready`.
pub fn task_reset(task: &mut TracedTask, ps: &mut ProcessState)
    ensures
        *final(task) == (TracedTask {
            in_vfork: false,
            state: TaskState::Ready,
            ldpreload_address: None,
            injected_mmap_page: Some(crate::consts::REVERIE_PRIVATE_PAGE_OFFSET),
            signal_to_deliver: None,
            ..*old(task)
        }),
        final(ps).memory_map@.len() == 0,
        final(ps).stub_pages@.len() == 0,
        final(ps).patched_syscalls@.len() == 0,
        final(ps).unpatchable_syscalls@.len() == 0,
        process_state_wf(*final(ps)),
{
    task.ldpreload_address = None;
    task.injected_mmap_page = Some(crate::consts::REVERIE_PRIVATE_PAGE_OFFSET);
    task.signal_to_deliver = None;
    task.state = TaskState::Ready;
    task.in_vfork = false;
    ps.memory_map = Vec::new();
    ps.stub_pages = Vec::new();
    ps.patched_syscalls = Vec::new();
    ps.unpatchable_syscalls = Vec::new();
}

/// Decide well-formedness of a per-process record, so that an unverified
/// caller can test it before asking for a patch decision.
pub fn check_process_state_wf(ps: &ProcessState) -> (r: bool)
    ensures
        r == process_state_wf(*ps),
{
    if !check_maps_wf(&ps.memory_map) {
        return false;
    }
    let mut i: usize = 0;
    while i < ps.stub_pages.len()
        invariant
            i <= ps.stub_pages@.len(),
            forall|k: int|
                0 <= k < i ==> (#[trigger] ps.stub_pages@[k]).size == 0x2000
                    && ps.stub_pages@[k].address + 0x2000 <= u64::MAX,
        decreases ps.stub_pages@.len() - i,
    {
        let p = &ps.stub_pages[i];
        if p.size != 0x2000 || p.address > u64::MAX - 0x2000 {
            proof {
                assert(ps.stub_pages@[i as int].size != 0x2000 || ps.stub_pages@[i as int].address
                    + 0x2000 > u64::MAX);
            }
            return false;
        }
        i = i + 1;
    }
    let mut j: usize = 0;
    while j < ps.patched_syscalls.len()
        invariant
            j <= ps.patched_syscalls@.len(),
            forall|k: int|
                0 <= k < j ==> !ps.unpatchable_syscalls@.contains(
                    #[trigger] ps.patched_syscalls@[k],
                ),
        decreases ps.patched_syscalls@.len() - j,
    {
        if contains_u64(&ps.unpatchable_syscalls, ps.patched_syscalls[j]) {
            proof {
                assert(ps.patched_syscalls@.contains(ps.patched_syscalls@[j as int]));
            }
            return false;
        }
        j = j + 1;
    }
    proof {
        assert forall|a: u64| #[trigger] ps.patched_syscalls@.contains(a)
            implies !ps.unpatchable_syscalls@.contains(a) by {
            let k = choose|k: int|
                0 <= k < ps.patched_syscalls@.len() && ps.patched_syscalls@[k] == a;
            assert(!ps.unpatchable_syscalls@.contains(ps.patched_syscalls@[k]));
        }
    }
    true
}

/// A stub region already allocated for this process can serve a site
/// trapped at `rip` when every slot of it stays within the conservative
/// `call rel32` budget the allocator itself uses.
pub open spec fn stub_reachable(p: SyscallStubPage, rip: u64) -> bool {
    if p.address + p.size <= rip {
        rip - p.address <= 0x7ff0_0000
    } else if p.address >= rip {
        p.address + 0x2000 - rip <= 0x7ff0_0000
    } else {
        false
    }
}

/// Decide reachability of one stub region.
pub fn stub_is_reachable(p: &SyscallStubPage, rip: u64) -> (r: bool)
    requires
        p.size == 0x2000,
        p.address + 0x2000 <= u64::MAX,
    ensures
        r == stub_reachable(*p, rip),
{
    let start = p.address;
    let end = p.address + (p.size as u64);
    if end <= rip {
        rip - start <= 0x7ff0_0000
    } else if start >= rip {
        start + 0x2000 - rip <= 0x7ff0_0000
    } else {
        false
    }
}

/// Find the first already-allocated stub region reachable from `rip`.
pub fn find_reachable_stub_page(stub_pages: &Vec<SyscallStubPage>, rip: u64) -> (r: Option<u64>)
    requires
        forall|i: int|
            0 <= i < stub_pages@.len() ==> (#[trigger] stub_pages@[i]).size == 0x2000
                && stub_pages@[i].address + 0x2000 <= u64::MAX,
    ensures
        match r {
            Some(a) => exists|i: int|
                0 <= i < stub_pages@.len() && stub_reachable(#[trigger] stub_pages@[i], rip) && a
                    == stub_pages@[i].address && (forall|j: int|
                    0 <= j < i ==> !stub_reachable(stub_pages@[j], rip)),
            None => forall|i: int|
                0 <= i < stub_pages@.len() ==> !stub_reachable(#[trigger] stub_pages@[i], rip),
        },
{
    let mut i: usize = 0;
    while i < stub_pages.len()
        invariant
            i <= stub_pages@.len(),
            forall|j: int| 0 <= j < i ==> !stub_reachable(#[trigger] stub_pages@[j], rip),
            forall|k: int|
                0 <= k < stub_pages@.len() ==> (#[trigger] stub_pages@[k]).size == 0x2000
                    && stub_pages@[k].address + 0x2000 <= u64::MAX,
        decreases stub_pages@.len() - i,
    {
        if stub_is_reachable(&stub_pages[i], rip) {
            return Some(stub_pages[i].address);
        }
        i = i + 1;
    }
    None
}

/// The task's guards let patching proceed: it is not in a vfork window and
/// the helper library has announced itself.
pub open spec fn patch_guards_ok(task: TracedTask) -> bool {
    !task.in_vfork && task.ldpreload_address is Some
}

/// Hook `i` is the first catalog entry matching the code window.
pub open spec fn first_match_is(hooks: Seq<SyscallHook>, window: Seq<u8>, i: int) -> bool {
    &&& 0 <= i < hooks.len()
    &&& hook_matches(hooks[i], window)
    &&& forall|j: int| 0 <= j < i ==> !hook_matches(hooks[j], window)
}

/// No catalog entry matches the code window.
pub open spec fn no_match(hooks: Seq<SyscallHook>, window: Seq<u8>) -> bool {
    forall|i: int| 0 <= i < hooks.len() ==> !hook_matches(#[trigger] hooks[i], window)
}

/// The first matching catalog entry cannot be patched in place.
pub open spec fn matched_unpatchable(hooks: Seq<SyscallHook>, window: Seq<u8>) -> bool {
    exists|i: int| #[trigger] first_match_is(hooks, window, i) && !hook_patchable(hooks[i])
}

/// The first matching catalog entry can be patched in place.
pub open spec fn matched_patchable(hooks: Seq<SyscallHook>, window: Seq<u8>) -> bool {
    exists|i: int| #[trigger] first_match_is(hooks, window, i) && hook_patchable(hooks[i])
}

/// Some already-allocated stub region is reachable from `rip`.
pub open spec fn some_stub_reachable(pages: Seq<SyscallStubPage>, rip: u64) -> bool {
    exists|k: int| 0 <= k < pages.len() && stub_reachable(#[trigger] pages[k], rip)
}

/// Some gap of the memory map fits a fresh two-page stub region near `rip`.
pub open spec fn some_gap_fits(maps: Seq<ProcMapsEntry>, rip: u64) -> bool {
    exists|i: int| 0 <= i <= maps.len() && #[trigger] gap_fits(maps, rip, 2, i)
}

/// The hook catalog is sane: at most the 64 slots of one stub region, and
/// no pattern longer than a slot.
pub open spec fn hooks_wf(hooks: Seq<SyscallHook>) -> bool {
    &&& hooks.len() <= 64
    &&& forall|i: int| 0 <= i < hooks.len() ==> (#[trigger] hooks[i]).instructions@.len() <= 0x80
}

/// Linear search for a site address.
pub fn contains_u64(v: &Vec<u64>, x: u64) -> (r: bool)
    ensures
        r == v@.contains(x),
{
    let mut i: usize = 0;
    while i < v.len()
        invariant
            i <= v@.len(),
            forall|j: int| 0 <= j < i ==> v@[j] != x,
        decreases v@.len() - i,
    {
        if v[i] == x {
            return true;
        }
        i = i + 1;
    }
    false
}

/// Membership in a sequence extended by one element.
proof fn lemma_push_contains_u64(s: Seq<u64>, x: u64, a: u64)
    ensures
        s.push(x).contains(a) <==> (s.contains(a) || a == x),
{
    if s.push(x).contains(a) {
        let k = choose|k: int| 0 <= k < s.push(x).len() && s.push(x)[k] == a;
        if k < s.len() {
            assert(s[k] == a);
        }
    }
    if s.contains(a) {
        let k = choose|k: int| 0 <= k < s.len() && s[k] == a;
        assert(s.push(x)[k] == a);
    }
    if a == x {
        assert(s.push(x)[s.len() as int] == a);
    }
}

/// There is at most one first match.
proof fn lemma_first_match_unique(hooks: Seq<SyscallHook>, window: Seq<u8>, i: int, j: int)
    requires
        first_match_is(hooks, window, i),
        first_match_is(hooks, window, j),
    ensures
        i == j,
{
}

/// A fitting gap starts low enough that the whole region stays under the
/// top sentinel.
proof fn lemma_gap_start_bound(ms: Seq<ProcMapsEntry>, hint: u64, pages: int, i: int)
    requires
        maps_wf(ms),
        0 <= i <= ms.len(),
        gap_fits(ms, hint, pages, i),
        pages >= 0,
    ensures
        gap_start(ms, i) + pages * 0x1000 <= 0xffff_ffff_ffff_8000u64,
{
    if i < ms.len() {
        assert(ms[i].base <= ms[i].end);
        crate::proc::lemma_maps_end_mono(ms, i, ms.len() - 1);
    }
}

/// What a successful patch decision hands back: the first matching hook is
/// patchable, the plan's bytes are the exact `call rel32` plus NOP padding
/// for that hook, the register rewind re-runs the site, and the targeted
/// stub slot lies either in an already recorded stub region or in the fresh
/// one the plan allocates — which is then disjoint from every known mapping
/// and within reach of the site.
pub open spec fn patched_plan_ok(
    task: TracedTask,
    pre: ProcessState,
    post: ProcessState,
    hooks: Seq<SyscallHook>,
    syscall: u64,
    rip: u64,
    window: Seq<u8>,
    plan: PatchPlan,
) -> bool {
    exists|i: int|
        #[trigger] first_match_is(hooks, window, i) && hook_patchable(hooks[i])
            && patched_plan_check_body(task, pre, post, hooks, syscall, rip, window, plan, i)
}

/// Decide the rewrite of the syscall site trapped with its program counter
/// at `rip` (the `syscall` instruction starts at `rip - 2`).  `syscall` is
/// the attempted syscall number, `window` the 16 bytes of code read at
/// `rip`.  On `Ok(Some(plan))` the caller performs the writes the plan
/// lists and resumes from the rewound registers; the site is recorded as
/// patched.  `Ok(None)` says the site was already patched and nothing
/// changed.  Failures that condemn the site record it as unpatchable; a
/// vfork window or a missing helper library leave everything untouched.
#[verifier::rlimit(100)]
pub fn patch_syscall(
    task: &TracedTask,
    ps: &mut ProcessState,
    hooks: &Vec<SyscallHook>,
    syscall: u64,
    rip: u64,
    window: &Vec<u8>,
) -> (r: Result<Option<PatchPlan>, PatchError>)
    requires
        process_state_wf(*old(ps)),
        hooks_wf(hooks@),
        window@.len() == 16,
        2 <= rip < 0x8000_0000_0000u64,
        old(ps).memory_map@.len() < usize::MAX,
        (task.ldpreload_address matches Some(p) ==> forall|i: int|
            0 <= i < hooks@.len() ==> (#[trigger] hooks@[i]).offset + p <= u64::MAX),
    ensures
        process_state_wf(*final(ps)),
        final(ps).memory_map@ == old(ps).memory_map@,
        final(ps).unpatchable_syscalls@ == old(ps).unpatchable_syscalls@ || final(ps).unpatchable_syscalls@ == old(ps).unpatchable_syscalls@.push(rip),
        (r matches Err(PatchError::InVfork)) <==> task.in_vfork,
        task.in_vfork ==> ps_unchanged(*old(ps), *final(ps)),
        (r matches Err(PatchError::PreloadNotLoaded)) <==> (!task.in_vfork
            && task.ldpreload_address is None),
        task.ldpreload_address is None ==> ps_unchanged(*old(ps), *final(ps)),
        (r matches Ok(None)) <==> (patch_guards_ok(*task) && old(ps).patched_syscalls@.contains(
            rip,
        )),
        (r matches Ok(None)) ==> ps_unchanged(*old(ps), *final(ps)),
        (patch_guards_ok(*task) && !old(ps).patched_syscalls@.contains(rip) && old(ps).unpatchable_syscalls@.contains(rip)) ==> ((r matches Err(PatchError::NotPatchable))
            && ps_unchanged(*old(ps), *final(ps))),
        (r matches Err(PatchError::NoMatchingHook)) <==> (patch_guards_ok(*task) && !old(ps).patched_syscalls@.contains(rip) && !old(ps).unpatchable_syscalls@.contains(rip)
            && no_match(hooks@, window@)),
        (r matches Err(PatchError::NotPatchable)) <==> (patch_guards_ok(*task) && !old(ps).patched_syscalls@.contains(rip) && (old(ps).unpatchable_syscalls@.contains(rip) || (!old(ps).unpatchable_syscalls@.contains(rip) && matched_unpatchable(hooks@, window@)))),
        (r matches Err(PatchError::NoReachableGap)) <==> (patch_guards_ok(*task) && !old(ps).patched_syscalls@.contains(rip) && !old(ps).unpatchable_syscalls@.contains(rip)
            && matched_patchable(hooks@, window@) && !some_stub_reachable(
            old(ps).stub_pages@,
            rip,
        ) && !some_gap_fits(old(ps).memory_map@, rip)),
        (r matches Ok(Some(_))) <==> (patch_guards_ok(*task) && !old(ps).patched_syscalls@.contains(rip) && !old(ps).unpatchable_syscalls@.contains(rip)
            && matched_patchable(hooks@, window@) && (some_stub_reachable(old(ps).stub_pages@, rip)
            || some_gap_fits(old(ps).memory_map@, rip))),
        ((r matches Err(PatchError::NoMatchingHook)) || (r matches Err(
            PatchError::NoReachableGap,
        )) || ((r matches Err(PatchError::NotPatchable)) && !old(ps).unpatchable_syscalls@.contains(
            rip,
        ))) ==> final(ps).unpatchable_syscalls@ == old(ps).unpatchable_syscalls@.push(rip),
        ((r matches Err(PatchError::NoMatchingHook)) || (r matches Err(
            PatchError::NoReachableGap,
        )) || (r matches Err(PatchError::NotPatchable))) ==> final(ps).unpatchable_syscalls@.contains(rip),
        (r matches Ok(Some(_))) ==> final(ps).patched_syscalls@ == old(ps).patched_syscalls@.push(rip),
        !(r matches Ok(Some(_))) ==> final(ps).patched_syscalls@ == old(ps).patched_syscalls@,
        (r matches Err(_)) ==> final(ps).stub_pages@ == old(ps).stub_pages@,
        r matches Ok(Some(plan)) ==> patched_plan_ok(
            *task,
            *old(ps),
            *final(ps),
            hooks@,
            syscall,
            rip,
            window@,
            plan,
        ),
{
    if task.in_vfork {
        return Err(PatchError::InVfork);
    }
    let preload: u64;
    match task.ldpreload_address {
        None => {
            return Err(PatchError::PreloadNotLoaded);
        },
        Some(p) => {
            preload = p;
        },
    }
    if contains_u64(&ps.patched_syscalls, rip) {
        return Ok(None);
    }
    if contains_u64(&ps.unpatchable_syscalls, rip) {
        return Err(PatchError::NotPatchable);
    }
    let hook_idx: usize;
    match find_syscall_hook(hooks, window) {
        None => {
            ps.unpatchable_syscalls.push(rip);
            proof {
                assert forall|a: u64| #[trigger] ps.patched_syscalls@.contains(a)
                    implies !ps.unpatchable_syscalls@.contains(a) by {
                    lemma_push_contains_u64(old(ps).unpatchable_syscalls@, rip, a);
                }
                lemma_push_contains_u64(old(ps).unpatchable_syscalls@, rip, rip);
            }
            return Err(PatchError::NoMatchingHook);
        },
        Some(i) => {
            hook_idx = i;
        },
    }
    proof {
        assert(first_match_is(hooks@, window@, hook_idx as int));
    }
    let prologue_len = hooks[hook_idx].instructions.len();
    if prologue_len < 3 || prologue_len > 12 {
        ps.unpatchable_syscalls.push(rip);
        proof {
            assert(!hook_patchable(hooks@[hook_idx as int]));
            assert(matched_unpatchable(hooks@, window@));
            assert(!matched_patchable(hooks@, window@)) by {
                if matched_patchable(hooks@, window@) {
                    let j = choose|j: int|
                        #[trigger] first_match_is(hooks@, window@, j) && hook_patchable(hooks@[j]);
                    lemma_first_match_unique(hooks@, window@, hook_idx as int, j);
                }
            }
            assert forall|a: u64| #[trigger] ps.patched_syscalls@.contains(a)
                implies !ps.unpatchable_syscalls@.contains(a) by {
                lemma_push_contains_u64(old(ps).unpatchable_syscalls@, rip, a);
            }
            lemma_push_contains_u64(old(ps).unpatchable_syscalls@, rip, rip);
        }
        return Err(PatchError::NotPatchable);
    }
    proof {
        assert(hook_patchable(hooks@[hook_idx as int]));
        assert(matched_patchable(hooks@, window@));
        assert(!matched_unpatchable(hooks@, window@)) by {
            if matched_unpatchable(hooks@, window@) {
                let j = choose|j: int|
                    #[trigger] first_match_is(hooks@, window@, j) && !hook_patchable(hooks@[j]);
                lemma_first_match_unique(hooks@, window@, hook_idx as int, j);
            }
        }
        assert(!no_match(hooks@, window@));
    }
    let page_addr: u64;
    let mut alloc: Option<StubAllocPlan> = None;
    let ghost mut reuse_index: int = 0;
    match find_reachable_stub_page(&ps.stub_pages, rip) {
        Some(a) => {
            page_addr = a;
            proof {
                let k = choose|k: int|
                    0 <= k < ps.stub_pages@.len() && stub_reachable(
                        #[trigger] ps.stub_pages@[k],
                        rip,
                    ) && a == ps.stub_pages@[k].address && (forall|j: int|
                        0 <= j < k ==> !stub_reachable(ps.stub_pages@[j], rip));
                reuse_index = k;
                assert(some_stub_reachable(ps.stub_pages@, rip));
            }
        },
        None => {
            match search_stub_page(&ps.memory_map, rip, 2) {
                Err(_) => {
                    ps.unpatchable_syscalls.push(rip);
                    proof {
                        assert(!some_gap_fits(old(ps).memory_map@, rip));
                        assert(!some_stub_reachable(old(ps).stub_pages@, rip));
                        assert forall|a: u64| #[trigger] ps.patched_syscalls@.contains(a)
                            implies !ps.unpatchable_syscalls@.contains(a) by {
                            lemma_push_contains_u64(old(ps).unpatchable_syscalls@, rip, a);
                        }
                        lemma_push_contains_u64(old(ps).unpatchable_syscalls@, rip, rip);
                    }
                    return Err(PatchError::NoReachableGap);
                },
                Ok(at) => {
                    proof {
                        let gi = choose|gi: int|
                            0 <= gi <= old(ps).memory_map@.len() && #[trigger] gap_fits(
                                old(ps).memory_map@,
                                rip,
                                2,
                                gi,
                            ) && at == gap_start(old(ps).memory_map@, gi) && (forall|j: int|
                                0 <= j < gi ==> !gap_fits(old(ps).memory_map@, rip, 2, j));
                        lemma_gap_start_bound(old(ps).memory_map@, rip, 2, gi);
                        assert(some_gap_fits(old(ps).memory_map@, rip));
                    }
                    let stub_bytes = gen_extended_jump_stubs(hooks, preload);
                    let n = stub_bytes.len();
                    ps.stub_pages.push(
                        SyscallStubPage { address: at, size: 0x2000, allocated: n },
                    );
                    alloc = Some(StubAllocPlan { address: at, size: 0x2000, stub_bytes });
                    page_addr = at;
                },
            }
        },
    }
    proof {
        assert(page_addr + 0x2000 <= u64::MAX);
        assert(hook_idx < 64);
        assert((hook_idx as int) * 0x80 <= 63 * 0x80);
    }
    let target = page_addr + (hook_idx as u64) * 0x80;
    proof {
        if alloc is None {
            let k = reuse_index;
            assert(stub_reachable(ps.stub_pages@[k], rip));
            assert(ps.stub_pages@[k].size == 0x2000);
            if ps.stub_pages@[k].address + ps.stub_pages@[k].size <= rip {
                assert(rip - page_addr <= 0x7ff0_0000);
            } else {
                assert(page_addr >= rip && page_addr + 0x2000 - rip <= 0x7ff0_0000);
            }
        }
        assert(-0x8000_0000 <= target - (rip - 2) - 5 <= 0x7fff_ffff);
        assert(target < 0x8000_0000_0000_0000u64);
    }
    let mut plan = patch_at(rip, syscall, &hooks[hook_idx], target);
    plan.alloc = alloc;
    ps.patched_syscalls.push(rip);
    proof {
        assert forall|a: u64| #[trigger] ps.patched_syscalls@.contains(a)
            implies !ps.unpatchable_syscalls@.contains(a) by {
            lemma_push_contains_u64(old(ps).patched_syscalls@, rip, a);
        }
        assert(first_match_is(hooks@, window@, hook_idx as int) && hook_patchable(
            hooks@[hook_idx as int],
        ) && patched_plan_check_body(
            *task,
            *old(ps),
            *ps,
            hooks@,
            syscall,
            rip,
            window@,
            plan,
            hook_idx as int,
        ));
        assert(patched_plan_ok(*task, *old(ps), *ps, hooks@, syscall, rip, window@, plan));
    }
    Ok(Some(plan))
}

/// The body of [`patched_plan_ok`] for one specific hook index, named so the
/// patcher can point at its witness.
pub open spec fn patched_plan_check_body(
    task: TracedTask,
    pre: ProcessState,
    post: ProcessState,
    hooks: Seq<SyscallHook>,
    syscall: u64,
    rip: u64,
    window: Seq<u8>,
    plan: PatchPlan,
    i: int,
) -> bool {
    &&& plan.ip == rip - 2
    &&& plan.rip == rip - 2
    &&& plan.rax == syscall
    &&& plan.patch_bytes@ == patch_code(
        (rip - 2) as u64,
        plan.stub_slot,
        hooks[i].instructions@.len() as int,
    )
    &&& plan.patch_bytes@.len() == 2 + hooks[i].instructions@.len()
    &&& plan.page == (rip - 2) as u64 / 0x1000 * 0x1000
    &&& plan.mprotect_size == crate::remote::mprotect_span(
        (rip - 2) as u64,
        2 + hooks[i].instructions@.len() as int,
    )
    &&& -0x8000_0000 <= plan.stub_slot - (rip - 2) - 5 <= 0x7fff_ffff
    &&& match plan.alloc {
        Some(a) => {
            &&& a.size == 0x2000
            &&& (task.ldpreload_address matches Some(p) && a.stub_bytes@ == stub_region_bytes(
                hooks,
                p,
            ))
            &&& plan.stub_slot == a.address + 0x80 * i
            &&& post.stub_pages@ == pre.stub_pages@.push(
                SyscallStubPage {
                    address: a.address,
                    size: 0x2000,
                    allocated: a.stub_bytes@.len() as usize,
                },
            )
            &&& forall|k: int|
                0 <= k < pre.memory_map@.len() ==> a.address + 0x2000 <= (
                #[trigger] pre.memory_map@[k]).base || a.address >= pre.memory_map@[k].end
            &&& (a.address <= rip ==> rip - a.address <= 0x7ff0_0000)
            &&& (a.address >= rip ==> a.address - rip <= 0x7ff0_0000)
        },
        None => {
            &&& exists|k: int|
                0 <= k < pre.stub_pages@.len() && stub_reachable(#[trigger] pre.stub_pages@[k], rip)
                    && plan.stub_slot == pre.stub_pages@[k].address + 0x80 * i
            &&& post.stub_pages@ == pre.stub_pages@
        },
    }
}

/// Round trip of a committed patch: the written bytes start with `e8`, the
/// four bytes after it recompose to a displacement that, added to the
/// patched site plus the 5-byte call length, lands exactly on the targeted
/// stub slot; and when the plan also lays out a fresh stub region, the
/// qword embedded in that slot is the helper library load base plus the
/// matched hook's trampoline offset.
pub proof fn lemma_patch_round_trip(
    hooks: Seq<SyscallHook>,
    preload: u64,
    rip: u64,
    plan: PatchPlan,
    i: int,
)
    requires
        0 <= i < hooks.len(),
        2 <= rip,
        plan.ip == rip - 2,
        hook_patchable(hooks[i]),
        plan.patch_bytes@ == patch_code(
            (rip - 2) as u64,
            plan.stub_slot,
            hooks[i].instructions@.len() as int,
        ),
        -0x8000_0000 <= plan.stub_slot - (rip - 2) - 5 <= 0x7fff_ffff,
        hooks[i].offset + preload <= u64::MAX,
        plan.alloc matches Some(a) ==> (a.stub_bytes@ == stub_region_bytes(hooks, preload)
            && plan.stub_slot == a.address + 0x80 * i),
    ensures
        plan.patch_bytes@.len() == 2 + hooks[i].instructions@.len(),
        plan.patch_bytes@[0] == 0xe8,
        plan.ip + 5 + crate::remote::i32_of_le_bytes(plan.patch_bytes@.subrange(1, 5))
            == plan.stub_slot,
        plan.alloc matches Some(a) ==> crate::stubs::u64_of_le_bytes(
            a.stub_bytes@.subrange(0x80 * i + 6, 0x80 * i + 14),
        ) == preload + hooks[i].offset,
{
    let ip = (rip - 2) as u64;
    let ll = hooks[i].instructions@.len() as int;
    let rela = (plan.stub_slot - ip - 5) as i64;
    let rel_bytes = Seq::new(4nat, |k: int| crate::remote::i64_le_byte(rela, k));
    crate::remote::lemma_nop_bytes_len(ll - 3);
    assert(plan.patch_bytes@.subrange(1, 5) =~= rel_bytes);
    crate::remote::lemma_rel32_roundtrip(rela);
    if plan.alloc is Some {
        let a = plan.alloc->Some_0;
        let target = (hooks[i].offset + preload) as u64;
        crate::stubs::lemma_stub_region_len(hooks, preload);
        crate::stubs::lemma_stub_region_slot(hooks, preload, i);
        assert(a.stub_bytes@.subrange(0x80 * i, 0x80 * (i + 1)) == crate::stubs::stub_slot_bytes(
            hooks,
            preload,
            i,
        ));
        assert forall|k: int| 0 <= k < 8 implies a.stub_bytes@[0x80 * i + 6 + k]
            == crate::stubs::u64_le_byte(target, k) by {
            assert(a.stub_bytes@.subrange(0x80 * i, 0x80 * (i + 1))[6 + k] == a.stub_bytes@[0x80 * i
                + 6 + k]);
            assert(crate::stubs::stub_slot_bytes(hooks, preload, i)[6 + k]
                == crate::stubs::extended_jump_bytes(target)[6 + k]);
            assert(crate::stubs::extended_jump_bytes(target)[6 + k] == crate::stubs::u64_le_byte(
                target,
                k,
            ));
        }
        assert(a.stub_bytes@.subrange(0x80 * i + 6, 0x80 * i + 14) =~= Seq::new(
            8nat,
            |k: int| crate::stubs::u64_le_byte(target, k),
        ));
        crate::stubs::lemma_u64_le_roundtrip(target);
    }
}

} // verus!
