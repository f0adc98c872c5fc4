//! Remote-memory vocabulary of the tracer: addresses in a tracee's address
//! space, records of allocated stub regions, the gadget words written into
//! the tracee's private code page, and the stub-page gap search that places a
//! new stub region within `call rel32` reach of a patch site.
use vstd::prelude::*;
use core::marker::PhantomData;
use crate::proc::ProcMapsEntry;
use crate::proc::maps_wf;
use crate::proc::lemma_maps_end_mono;
use crate::proc::lemma_maps_base_mono;

verus! {

/// Why a syscall site could not be (or was not) patched.  `InVfork` and
/// `PreloadNotLoaded` leave the site untouched; the others record it as
/// permanently unpatchable so that it is always handled through ptrace.
#[derive(Clone, Copy, Debug, PartialEq, Eq, Structural)]
pub enum PatchError {
    /// The task is between `vfork` and the `exec` that follows it; patches
    /// would be thrown away by the `exec`, so none are made.
    InVfork,
    /// The helper library has not announced itself in the tracee yet.
    PreloadNotLoaded,
    /// The site was recorded as unpatchable by an earlier attempt.
    NotPatchable,
    /// No catalog pattern matches the bytes following the `syscall`.
    NoMatchingHook,
    /// No free region of the needed size lies within `call rel32` reach.
    NoReachableGap,
}

/// One allocated stub region in a tracee: a two-page mapping at `address`
/// of `size` bytes, of which `allocated` are filled with jump slots.
#[derive(Clone, Copy, Debug, PartialEq, Eq, Structural)]
pub struct SyscallStubPage {
    pub address: u64,
    pub size: usize,
    pub allocated: usize,
}

/// A non-null address in the traced process.  The tracer never dereferences
/// it; it only hands it to the kernel, so it is carried as a plain number
/// tagged with the type the remote bytes are read as.
#[derive(Debug)]
pub struct RemotePtr<T> {
    addr: u64,
    phantom: PhantomData<T>,
}

impl<T> View for RemotePtr<T> {
    type V = u64;

    closed spec fn view(&self) -> u64 {
        self.addr
    }
}

impl<T> RemotePtr<T> {
    /// Wrap a remote address, which must be non-null.
    pub fn new(not_null: u64) -> (r: Self)
        requires
            not_null != 0,
        ensures
            r@ == not_null,
            r.wf(),
    {
        RemotePtr { addr: not_null, phantom: PhantomData }
    }

    /// The raw remote address.
    pub fn as_ptr(self) -> (r: u64)
        ensures
            r == self@,
            self.wf() ==> r != 0,
    {
        self.addr
    }

    /// Reinterpret the pointee type; the address is unchanged.
    pub fn cast<U>(self) -> (r: RemotePtr<U>)
        ensures
            r@ == self@,
            r.wf() == self.wf(),
    {
        RemotePtr { addr: self.addr, phantom: PhantomData }
    }

    /// A remote pointer is well formed when it is non-null; `new` is the only
    /// constructor and establishes this.
    pub closed spec fn wf(&self) -> bool {
        self.addr != 0
    }
}

impl<T> Clone for RemotePtr<T> {
    fn clone(&self) -> (r: Self)
        ensures
            r@ == self@,
            r.wf() == self.wf(),
    {
        RemotePtr { addr: self.addr, phantom: PhantomData }
    }
}

impl<T> Copy for RemotePtr<T> {

}

/// Injecting one syscall into a stopped tracee, through the breakpointed
/// gadgets of its private page.  Implemented outside the library by the
/// ptrace-driving task type; errors carry the raw negated errno.
pub trait RemoteSyscall {
    fn untraced_syscall(
        &mut self,
        nr: i64,
        a0: i64,
        a1: i64,
        a2: i64,
        a3: i64,
        a4: i64,
        a5: i64,
    ) -> Result<i64, i32>;

    fn traced_syscall(
        &mut self,
        nr: i64,
        a0: i64,
        a1: i64,
        a2: i64,
        a3: i64,
        a4: i64,
        a5: i64,
    ) -> Result<i64, i32>;
}

/// Reading and writing a stopped tracee's memory and registers.  Implemented
/// outside the library over ptrace; errors carry the raw negated errno.
pub trait Remote {
    fn peek_bytes(&self, addr: RemotePtr<u8>, size: usize) -> Result<Vec<u8>, i32>;

    fn poke_bytes(&self, addr: RemotePtr<u8>, bytes: &Vec<u8>) -> Result<(), i32>;

    fn getevent(&self) -> Result<i64, i32>;

    fn resume(&self, sig: Option<i32>) -> Result<(), i32>;
}

/// Does a 16-bit load taken at some address hold the `syscall` instruction
/// (`0f 05`) in its low two bytes?
pub fn is_syscall_insn(insn: u64) -> (r: bool)
    ensures
        r == (insn & crate::consts::SYSCALL_INSN_MASK == crate::consts::SYSCALL_INSN),
{
    insn & crate::consts::SYSCALL_INSN_MASK == crate::consts::SYSCALL_INSN
}

/// The 24 bytes of the gadget prelude, in the exact layout the helper
/// library and the seccomp filter rely on: untraced `syscall; ret; nop`,
/// traced `syscall; ret; nop`, then a `call` to each entry followed by
/// `int3` and a two-byte `nop`.
pub open spec fn gadget_page_bytes() -> Seq<u8> {
    seq![
        0x0fu8, 0x05u8, 0xc3u8, 0x90u8,
        0x0fu8, 0x05u8, 0xc3u8, 0x90u8,
        0xe8u8, 0xf3u8, 0xffu8, 0xffu8, 0xffu8, 0xccu8, 0x66u8, 0x90u8,
        0xe8u8, 0xefu8, 0xffu8, 0xffu8, 0xffu8, 0xccu8, 0x66u8, 0x90u8,
    ]
}

/// The three 8-byte stores that lay the gadget prelude down at
/// `page_address`: one `(remote address, word)` pair per store.  Written
/// with 8-byte pokes because right after `exec` the tracee may not yet
/// support wider transfers.
pub fn gen_syscall_sequences_at(page_address: u64) -> (r: Vec<(u64, u64)>)
    requires
        page_address + 24 <= u64::MAX,
    ensures
        r@.len() == 3,
        forall|k: int| 0 <= k < 3 ==> (#[trigger] r@[k]).0 == page_address + 8 * k,
        r@[0].1 == 0x90c3050f90c3050fu64,
        r@[1].1 == 0x9066ccfffffff3e8u64,
        r@[2].1 == 0x9066ccffffffefe8u64,
{
    let mut res: Vec<(u64, u64)> = Vec::new();
    res.push((page_address, 0x90c3050f90c3050f));
    res.push((page_address + 8, 0x9066ccfffffff3e8));
    res.push((page_address + 16, 0x9066ccffffffefe8));
    res
}

/// The three gadget words are, little-endian, exactly the 24 gadget bytes:
/// word `k` recomposes from bytes `8k .. 8k + 8` of the prelude.
pub proof fn lemma_gadget_words_encode()
    ensures
        crate::stubs::u64_of_le_bytes(gadget_page_bytes().subrange(0, 8))
            == 0x90c3050f90c3050fu64,
        crate::stubs::u64_of_le_bytes(gadget_page_bytes().subrange(8, 16))
            == 0x9066ccfffffff3e8u64,
        crate::stubs::u64_of_le_bytes(gadget_page_bytes().subrange(16, 24))
            == 0x9066ccffffffefe8u64,
{
    assert((0x0fu8 as u64)
        | (0x05u8 as u64) << 8
        | (0xc3u8 as u64) << 16
        | (0x90u8 as u64) << 24
        | (0x0fu8 as u64) << 32
        | (0x05u8 as u64) << 40
        | (0xc3u8 as u64) << 48
        | (0x90u8 as u64) << 56 == 0x90c3050f90c3050fu64) by (bit_vector);
    assert((0xe8u8 as u64)
        | (0xf3u8 as u64) << 8
        | (0xffu8 as u64) << 16
        | (0xffu8 as u64) << 24
        | (0xffu8 as u64) << 32
        | (0xccu8 as u64) << 40
        | (0x66u8 as u64) << 48
        | (0x90u8 as u64) << 56 == 0x9066ccfffffff3e8u64) by (bit_vector);
    assert((0xe8u8 as u64)
        | (0xefu8 as u64) << 8
        | (0xffu8 as u64) << 16
        | (0xffu8 as u64) << 24
        | (0xffu8 as u64) << 32
        | (0xccu8 as u64) << 40
        | (0x66u8 as u64) << 48
        | (0x90u8 as u64) << 56 == 0x9066ccffffffefe8u64) by (bit_vector);
}

/// Recompose a `u64` from eight little-endian bytes, for typed reads of
/// remote words out of a byte buffer.
pub fn u64_from_le_bytes(b: &Vec<u8>) -> (r: u64)
    requires
        b@.len() == 8,
    ensures
        r == crate::stubs::u64_of_le_bytes(b@),
{
    (b[0] as u64)
        | (b[1] as u64) << 8
        | (b[2] as u64) << 16
        | (b[3] as u64) << 24
        | (b[4] as u64) << 32
        | (b[5] as u64) << 40
        | (b[6] as u64) << 48
        | (b[7] as u64) << 56
}

/// Decompose a `u64` into its eight little-endian bytes, for typed writes of
/// remote words through a byte buffer.
pub fn u64_to_le_bytes(x: u64) -> (r: Vec<u8>)
    ensures
        r@.len() == 8,
        r@ == Seq::new(8nat, |i: int| crate::stubs::u64_le_byte(x, i)),
        crate::stubs::u64_of_le_bytes(r@) == x,
{
    let mut res: Vec<u8> = Vec::new();
    res.push((x & 0xff) as u8);
    res.push(((x >> 8) & 0xff) as u8);
    res.push(((x >> 16) & 0xff) as u8);
    res.push(((x >> 24) & 0xff) as u8);
    res.push(((x >> 32) & 0xff) as u8);
    res.push(((x >> 40) & 0xff) as u8);
    res.push(((x >> 48) & 0xff) as u8);
    res.push(((x >> 56) & 0xff) as u8);
    proof {
        assert(x >> 0 == x) by (bit_vector);
        assert(res@ =~= Seq::new(8nat, |i: int| crate::stubs::u64_le_byte(x, i)));
        crate::stubs::lemma_u64_le_roundtrip(x);
    }
    res
}

/// The canonical multi-byte NOP encoding of each length from 0 to 9, used to
/// pad the 5-byte `call` up to the exact number of bytes it replaces.
pub open spec fn nop_bytes(padding: int) -> Seq<u8> {
    if padding == 1 {
        seq![0x90u8]
    } else if padding == 2 {
        seq![0x66u8, 0x90u8]
    } else if padding == 3 {
        seq![0x0fu8, 0x1fu8, 0x00u8]
    } else if padding == 4 {
        seq![0x0fu8, 0x1fu8, 0x40u8, 0x00u8]
    } else if padding == 5 {
        seq![0x0fu8, 0x1fu8, 0x44u8, 0x00u8, 0x00u8]
    } else if padding == 6 {
        seq![0x66u8, 0x0fu8, 0x1fu8, 0x44u8, 0x00u8, 0x00u8]
    } else if padding == 7 {
        seq![0x0fu8, 0x1fu8, 0x80u8, 0x00u8, 0x00u8, 0x00u8, 0x00u8]
    } else if padding == 8 {
        seq![0x0fu8, 0x1fu8, 0x84u8, 0x00u8, 0x00u8, 0x00u8, 0x00u8, 0x00u8]
    } else if padding == 9 {
        seq![0x66u8, 0x0fu8, 0x1fu8, 0x84u8, 0x00u8, 0x00u8, 0x00u8, 0x00u8, 0x00u8]
    } else {
        Seq::<u8>::empty()
    }
}

/// Each NOP encoding has exactly its nominal length.
pub proof fn lemma_nop_bytes_len(padding: int)
    requires
        0 <= padding <= 9,
    ensures
        nop_bytes(padding).len() == padding,
{
}

/// Emit the NOP encoding of the given length.
pub fn nop_sequence(padding: usize) -> (r: Vec<u8>)
    requires
        padding <= 9,
    ensures
        r@ == nop_bytes(padding as int),
        r@.len() == padding,
{
    let mut v: Vec<u8> = Vec::new();
    if padding == 1 {
        v.push(0x90);
    } else if padding == 2 {
        v.push(0x66);
        v.push(0x90);
    } else if padding == 3 {
        v.push(0x0f);
        v.push(0x1f);
        v.push(0x00);
    } else if padding == 4 {
        v.push(0x0f);
        v.push(0x1f);
        v.push(0x40);
        v.push(0x00);
    } else if padding == 5 {
        v.push(0x0f);
        v.push(0x1f);
        v.push(0x44);
        v.push(0x00);
        v.push(0x00);
    } else if padding == 6 {
        v.push(0x66);
        v.push(0x0f);
        v.push(0x1f);
        v.push(0x44);
        v.push(0x00);
        v.push(0x00);
    } else if padding == 7 {
        v.push(0x0f);
        v.push(0x1f);
        v.push(0x80);
        v.push(0x00);
        v.push(0x00);
        v.push(0x00);
        v.push(0x00);
    } else if padding == 8 {
        v.push(0x0f);
        v.push(0x1f);
        v.push(0x84);
        v.push(0x00);
        v.push(0x00);
        v.push(0x00);
        v.push(0x00);
        v.push(0x00);
    } else if padding == 9 {
        v.push(0x66);
        v.push(0x0f);
        v.push(0x1f);
        v.push(0x84);
        v.push(0x00);
        v.push(0x00);
        v.push(0x00);
        v.push(0x00);
        v.push(0x00);
    }
    proof {
        assert(v@ =~= nop_bytes(padding as int));
    }
    v
}

/// Byte `i` (0-based, least significant first) of the little-endian
/// encoding of a signed displacement.
pub open spec fn i64_le_byte(x: i64, i: int) -> u8 {
    ((x >> (8 * i)) & 0xff) as u8
}

/// Reassemble a signed 32-bit displacement from its four little-endian
/// bytes.
pub open spec fn i32_of_le_bytes(b: Seq<u8>) -> i32
    recommends
        b.len() == 4,
{
    ((b[0] as u32) | (b[1] as u32) << 8 | (b[2] as u32) << 16 | (b[3] as u32) << 24) as i32
}

/// The four displacement bytes emitted into a patch recompose to exactly
/// the displacement.
pub proof fn lemma_rel32_roundtrip(r: i64)
    requires
        -0x8000_0000 <= r <= 0x7fff_ffff,
    ensures
        i32_of_le_bytes(Seq::new(4nat, |i: int| i64_le_byte(r, i))) == r,
{
    let b = Seq::new(4nat, |i: int| i64_le_byte(r, i));
    assert(i32_of_le_bytes(b) == ((((r >> 0) & 0xff) as u8 as u32)
        | ((((r >> 8) & 0xff) as u8 as u32)) << 8
        | ((((r >> 16) & 0xff) as u8 as u32)) << 16
        | ((((r >> 24) & 0xff) as u8 as u32)) << 24) as i32);
    assert(((((r >> 0) & 0xff) as u8 as u32)
        | ((((r >> 8) & 0xff) as u8 as u32)) << 8
        | ((((r >> 16) & 0xff) as u8 as u32)) << 16
        | ((((r >> 24) & 0xff) as u8 as u32)) << 24) as i32 == r) by (bit_vector)
        requires
            -0x8000_0000 <= r <= 0x7fff_ffff,
    ;
}

/// The full replacement sequence for a patch site: a `call rel32` to
/// `target` written at `ip`, padded with the canonical NOP of length
/// `prologue_len - 3` so that exactly `2 + prologue_len` bytes (the
/// `syscall` and the matched pattern behind it) are overwritten.
pub open spec fn patch_code(ip: u64, target: u64, prologue_len: int) -> Seq<u8> {
    seq![0xe8u8] + Seq::new(4nat, |i: int| i64_le_byte((target - ip - 5) as i64, i)) + nop_bytes(
        prologue_len - 3,
    )
}

/// Number of bytes the write must be able to touch: two pages when the
/// replacement crosses a page boundary, else one.
pub open spec fn mprotect_span(ip: u64, len: int) -> u64 {
    if ip % 0x1000 + len > 0x1000 {
        0x2000u64
    } else {
        0x1000u64
    }
}

/// Everything the patch of one syscall site writes into the tracee, computed
/// up front: the bytes, where they go, the page span to unprotect around
/// them, and the register rewind that re-runs the site.  When no stub region
/// was reachable, `alloc` carries the region to map and fill first.
#[derive(Debug)]
pub struct PatchPlan {
    /// Address the replacement bytes are written at: the `syscall` itself.
    pub ip: u64,
    /// The `call rel32` plus NOP padding.
    pub patch_bytes: Vec<u8>,
    /// Page base the `mprotect` bracketing starts at.
    pub page: u64,
    /// Span of the `mprotect` bracketing: one page, or two when the
    /// replacement crosses a page boundary.
    pub mprotect_size: u64,
    /// Where `rip` is rewound to before resuming: the patched site.
    pub rip: u64,
    /// Value restored into `rax`: the syscall number the kernel was made
    /// to skip.
    pub rax: u64,
    /// Address of the indirect-jump slot the emitted `call` lands on.
    pub stub_slot: u64,
    /// A stub region to map and fill before writing the patch, if none was
    /// reachable yet.
    pub alloc: Option<StubAllocPlan>,
}

/// A fresh stub region: map `size` bytes at `address` (read-write-execute,
/// fixed, anonymous, private), write `stub_bytes` there, then re-protect to
/// read-execute.
#[derive(Debug)]
pub struct StubAllocPlan {
    pub address: u64,
    pub size: u64,
    pub stub_bytes: Vec<u8>,
}

/// Compute the replacement for the syscall site trapped with its program
/// counter at `rip` (so the `syscall` itself starts at `rip - 2`), matched
/// by `hook`, redirecting to the stub slot at `target`.  The plan carries no
/// allocation; the caller adds one when the slot lies in a region still to
/// be mapped.
pub fn patch_at(rip: u64, orig_rax: u64, hook: &crate::hooks::SyscallHook, target: u64) -> (r:
    PatchPlan)
    requires
        rip >= 2,
        rip < 0x8000_0000_0000_0000,
        target < 0x8000_0000_0000_0000,
        crate::hooks::hook_patchable(*hook),
        -0x8000_0000 <= target - (rip - 2) - 5 <= 0x7fff_ffff,
    ensures
        r.ip == rip - 2,
        r.rip == rip - 2,
        r.rax == orig_rax,
        r.stub_slot == target,
        r.alloc is None,
        r.patch_bytes@ == patch_code((rip - 2) as u64, target, hook.instructions@.len() as int),
        r.patch_bytes@.len() == 2 + hook.instructions@.len(),
        r.page == (rip - 2) / 0x1000 * 0x1000,
        r.mprotect_size == mprotect_span((rip - 2) as u64, 2 + hook.instructions@.len() as int),
{
    let ip = rip - 2;
    let rela: i64 = (target as i64) - (ip as i64) - 5;
    let mut patch_bytes: Vec<u8> = Vec::new();
    patch_bytes.push(0xe8);
    patch_bytes.push((rela & 0xff) as u8);
    patch_bytes.push(((rela >> 8) & 0xff) as u8);
    patch_bytes.push(((rela >> 16) & 0xff) as u8);
    patch_bytes.push(((rela >> 24) & 0xff) as u8);
    let padding_size = crate::consts::SYSCALL_INSN_SIZE + hook.instructions.len() - 5;
    let mut nops = nop_sequence(padding_size);
    patch_bytes.append(&mut nops);
    proof {
        assert(rela >> 0 == rela) by (bit_vector);
        assert(patch_bytes@ =~= patch_code(ip, target, hook.instructions@.len() as int));
        lemma_nop_bytes_len(hook.instructions@.len() - 3);
    }
    let page = ip / 0x1000 * 0x1000;
    let off = ip % 0x1000;
    let size: u64 = if off + (patch_bytes.len() as u64) > 0x1000 {
        0x2000
    } else {
        0x1000
    };
    PatchPlan {
        ip,
        patch_bytes,
        page,
        mprotect_size: size,
        rip: ip,
        rax: orig_rax,
        stub_slot: target,
        alloc: None,
    }
}

/// Lowest address of gap `i`: the end of mapping `i - 1`, or the 1 MiB
/// sentinel below the first mapping.
pub open spec fn gap_start(ms: Seq<ProcMapsEntry>, i: int) -> u64 {
    if i == 0 {
        0x100000u64
    } else {
        ms[i - 1].end
    }
}

/// First address past gap `i`: the base of mapping `i`, or the
/// top-of-address-space sentinel above the last mapping.
pub open spec fn gap_end(ms: Seq<ProcMapsEntry>, i: int) -> u64 {
    if i == ms.len() {
        0xffff_ffff_ffff_8000u64
    } else {
        ms[i].base
    }
}

/// Gap `i` can host `pages` pages of stubs reachable from `hint`: it is
/// large enough, and its start lies within `2^31 - 2^20` bytes of `hint`
/// (leaving room for the region itself when it sits above the hint).
pub open spec fn gap_fits(ms: Seq<ProcMapsEntry>, hint: u64, pages: int, i: int) -> bool {
    let s = gap_start(ms, i);
    let e = gap_end(ms, i);
    let need = pages * 0x1000;
    &&& e >= s + need
    &&& ((s <= hint && hint <= s + 0x7ff0_0000) || (s >= hint && s - hint <= 0x7ff0_0000 - need))
}

/// Search the ordered memory map for the first spare region of `pages`
/// pages whose start a 32-bit relative `call` can reach from `addr_hint`.
/// The returned address starts the first fitting gap; it is within
/// `2^31 - 2^20` bytes of the hint and the whole region is disjoint from
/// every current mapping.  `NoReachableGap` comes back exactly when no gap
/// fits.
pub fn search_stub_page(mappings: &Vec<ProcMapsEntry>, addr_hint: u64, pages: usize) -> (r: Result<
    u64,
    PatchError,
>)
    requires
        maps_wf(mappings@),
        mappings@.len() < usize::MAX,
        pages * 0x1000 <= u64::MAX,
    ensures
        match r {
            Ok(addr) => {
                &&& exists|i: int|
                    0 <= i <= mappings@.len() && #[trigger] gap_fits(
                        mappings@,
                        addr_hint,
                        pages as int,
                        i,
                    ) && addr == gap_start(mappings@, i) && (forall|j: int|
                        0 <= j < i ==> !gap_fits(mappings@, addr_hint, pages as int, j))
                &&& addr <= addr_hint ==> addr_hint - addr <= 0x7ff0_0000
                &&& addr >= addr_hint ==> addr - addr_hint <= 0x7ff0_0000
                &&& forall|k: int|
                    0 <= k < mappings@.len() ==> addr + pages * 0x1000 <= (
                    #[trigger] mappings@[k]).base || addr >= mappings@[k].end
            },
            Err(e) => {
                &&& e == PatchError::NoReachableGap
                &&& forall|i: int|
                    0 <= i <= mappings@.len() ==> !gap_fits(mappings@, addr_hint, pages as int, i)
            },
        },
{
    let len = mappings.len();
    let need: u64 = (pages as u64) * 0x1000;
    let mut i: usize = 0;
    while i <= len
        invariant
            len == mappings@.len(),
            len < usize::MAX,
            i <= len + 1,
            need == pages * 0x1000,
            pages * 0x1000 <= u64::MAX,
            maps_wf(mappings@),
            forall|j: int| 0 <= j < i ==> !gap_fits(mappings@, addr_hint, pages as int, j),
        decreases len + 1 - i,
    {
        let s: u64 = if i == 0 {
            0x100000
        } else {
            mappings[i - 1].end
        };
        let e: u64 = if i == len {
            0xffff_ffff_ffff_8000
        } else {
            mappings[i].base
        };
        proof {
            assert(s == gap_start(mappings@, i as int));
            assert(e == gap_end(mappings@, i as int));
            if i > 0 && i < len {
                assert(mappings@[i - 1].end <= mappings@[i as int].base);
            }
            if i == 0 && len > 0 {
                assert(mappings@[0].base >= 0x100000);
            }
            if i > 0 && i == len {
                lemma_maps_end_mono(mappings@, i - 1, len - 1);
            }
            assert(e >= s);
        }
        let space = e - s;
        let cond_a = s <= addr_hint && addr_hint - s <= 0x7ff0_0000;
        let cond_b = s >= addr_hint && need <= 0x7ff0_0000 && s - addr_hint <= 0x7ff0_0000 - need;
        if space >= need && (cond_a || cond_b) {
            proof {
                let gi = i as int;
                assert(gap_fits(mappings@, addr_hint, pages as int, gi));
                assert forall|k: int| 0 <= k < mappings@.len() implies s + pages * 0x1000 <= (
                #[trigger] mappings@[k]).base || s >= mappings@[k].end by {
                    if k < gi {
                        lemma_maps_end_mono(mappings@, k, gi - 1);
                    } else {
                        lemma_maps_base_mono(mappings@, gi, k);
                    }
                }
            }
            return Ok(s);
        }
        i = i + 1;
    }
    Err(PatchError::NoReachableGap)
}

} // verus!
