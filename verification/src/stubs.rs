//! Indirect-jump stub generation.  Each hook gets one 14-byte stub,
//! `ff 25 00 00 00 00` (`jmp qword ptr [rip+0]`) followed by the 64-bit
//! absolute address of its trampoline, padded with zero bytes to a fixed
//! 128-byte slot; 32 slots fill one 4 KiB page, and stub regions are two
//! pages, so one region carries 64 slots.
use vstd::prelude::*;
use crate::hooks::SyscallHook;

verus! {

/// Byte `i` (0-based, least significant first) of the little-endian
/// encoding of `x`.
pub open spec fn u64_le_byte(x: u64, i: int) -> u8 {
    ((x >> (8 * i)) & 0xff) as u8
}

/// The 14 bytes of one indirect-jump stub: `jmp qword ptr [rip+0]` and the
/// absolute target right behind it.
pub open spec fn extended_jump_bytes(target: u64) -> Seq<u8> {
    seq![0xffu8, 0x25u8, 0u8, 0u8, 0u8, 0u8] + Seq::new(8nat, |i: int| u64_le_byte(target, i))
}

/// Recompose a `u64` from its eight little-endian bytes.
pub open spec fn u64_of_le_bytes(b: Seq<u8>) -> u64
    recommends
        b.len() == 8,
{
    (b[0] as u64)
        | (b[1] as u64) << 8
        | (b[2] as u64) << 16
        | (b[3] as u64) << 24
        | (b[4] as u64) << 32
        | (b[5] as u64) << 40
        | (b[6] as u64) << 48
        | (b[7] as u64) << 56
}

/// Little-endian byte decomposition is injective: the eight bytes of a stub's
/// embedded target recompose to exactly that target.
pub proof fn lemma_u64_le_roundtrip(x: u64)
    ensures
        u64_of_le_bytes(Seq::new(8nat, |i: int| u64_le_byte(x, i))) == x,
{
    let b = Seq::new(8nat, |i: int| u64_le_byte(x, i));
    assert(u64_of_le_bytes(b) == (((x >> 0) & 0xff) as u8 as u64)
        | ((((x >> 8) & 0xff) as u8 as u64)) << 8
        | ((((x >> 16) & 0xff) as u8 as u64)) << 16
        | ((((x >> 24) & 0xff) as u8 as u64)) << 24
        | ((((x >> 32) & 0xff) as u8 as u64)) << 32
        | ((((x >> 40) & 0xff) as u8 as u64)) << 40
        | ((((x >> 48) & 0xff) as u8 as u64)) << 48
        | ((((x >> 56) & 0xff) as u8 as u64)) << 56);
    assert((((x >> 0) & 0xff) as u8 as u64)
        | ((((x >> 8) & 0xff) as u8 as u64)) << 8
        | ((((x >> 16) & 0xff) as u8 as u64)) << 16
        | ((((x >> 24) & 0xff) as u8 as u64)) << 24
        | ((((x >> 32) & 0xff) as u8 as u64)) << 32
        | ((((x >> 40) & 0xff) as u8 as u64)) << 40
        | ((((x >> 48) & 0xff) as u8 as u64)) << 48
        | ((((x >> 56) & 0xff) as u8 as u64)) << 56 == x) by (bit_vector);
}

/// Emit the 14-byte indirect jump whose absolute target is `jump_address`.
pub fn gen_extended_jump(jump_address: u64) -> (r: Vec<u8>)
    ensures
        r@ == extended_jump_bytes(jump_address),
        r@.len() == 14,
{
    let mut res: Vec<u8> = Vec::new();
    res.push(0xff);
    res.push(0x25);
    res.push(0x00);
    res.push(0x00);
    res.push(0x00);
    res.push(0x00);
    res.push((jump_address & 0xff) as u8);
    res.push(((jump_address >> 8) & 0xff) as u8);
    res.push(((jump_address >> 16) & 0xff) as u8);
    res.push(((jump_address >> 24) & 0xff) as u8);
    res.push(((jump_address >> 32) & 0xff) as u8);
    res.push(((jump_address >> 40) & 0xff) as u8);
    res.push(((jump_address >> 48) & 0xff) as u8);
    res.push(((jump_address >> 56) & 0xff) as u8);
    proof {
        assert(jump_address >> 0 == jump_address) by (bit_vector);
        assert(res@ =~= extended_jump_bytes(jump_address));
    }
    res
}

/// Size in bytes of one stub slot.
pub fn extended_jump_size() -> (r: usize)
    ensures
        r == 0x80,
{
    0x80
}

/// Number of 4 KiB pages in one stub region (64 slots per region).
pub fn extended_jump_pages() -> (r: usize)
    ensures
        r == 2,
{
    2
}

/// Stub geometry: every stub is 14 bytes and fits its 128-byte slot with
/// room to spare, 32 slots fill one 4 KiB page, and one two-page region
/// holds 64 slots.
pub proof fn lemma_stub_slot_geometry(x: u64)
    ensures
        extended_jump_bytes(x).len() == 14,
        14 <= 0x80,
        32 * 0x80 == 0x1000,
        64 * 0x80 == 0x2000,
{
}

/// Contents of slot `i` of a stub region for `hooks`, loaded at `addr`:
/// the 14 jump bytes targeting `addr + hooks[i].offset`, zero-padded to 128.
pub open spec fn stub_slot_bytes(hooks: Seq<SyscallHook>, addr: u64, i: int) -> Seq<u8> {
    extended_jump_bytes((hooks[i].offset + addr) as u64) + Seq::new((0x80 - 14) as nat, |j: int| 0u8)
}

/// All slots of a stub region, one per hook, in catalog order.
pub open spec fn stub_region_bytes(hooks: Seq<SyscallHook>, addr: u64) -> Seq<u8>
    decreases hooks.len(),
{
    if hooks.len() == 0 {
        Seq::empty()
    } else {
        stub_region_bytes(hooks.drop_last(), addr)
            + stub_slot_bytes(hooks, addr, hooks.len() - 1)
    }
}

/// The region is one 128-byte slot per hook.
pub proof fn lemma_stub_region_len(hooks: Seq<SyscallHook>, addr: u64)
    ensures
        stub_region_bytes(hooks, addr).len() == 0x80 * hooks.len(),
    decreases hooks.len(),
{
    if hooks.len() > 0 {
        lemma_stub_region_len(hooks.drop_last(), addr);
    }
}

/// Slot `i` of the region sits at offset `0x80 * i`.
pub proof fn lemma_stub_region_slot(hooks: Seq<SyscallHook>, addr: u64, i: int)
    requires
        0 <= i < hooks.len(),
    ensures
        stub_region_bytes(hooks, addr).subrange(0x80 * i, 0x80 * (i + 1))
            == stub_slot_bytes(hooks, addr, i),
    decreases hooks.len(),
{
    lemma_stub_region_len(hooks, addr);
    lemma_stub_region_len(hooks.drop_last(), addr);
    if i == hooks.len() - 1 {
        assert(stub_region_bytes(hooks, addr).subrange(0x80 * i, 0x80 * (i + 1))
            =~= stub_slot_bytes(hooks, addr, i));
    } else {
        lemma_stub_region_slot(hooks.drop_last(), addr, i);
        assert(stub_slot_bytes(hooks.drop_last(), addr, i) =~= stub_slot_bytes(hooks, addr, i));
        assert(stub_region_bytes(hooks, addr).subrange(0x80 * i, 0x80 * (i + 1))
            =~= stub_region_bytes(hooks.drop_last(), addr).subrange(0x80 * i, 0x80 * (i + 1)));
    }
}

/// Generate the indirect-jump stubs for the whole catalog, one 128-byte slot
/// per hook, each targeting the hook's trampoline inside the helper library
/// loaded at `addr`.
pub fn gen_extended_jump_stubs(hooks: &Vec<SyscallHook>, addr: u64) -> (r: Vec<u8>)
    requires
        forall|i: int| 0 <= i < hooks@.len() ==> #[trigger] hooks@[i].instructions@.len() <= 0x80,
        forall|i: int| 0 <= i < hooks@.len() ==> #[trigger] hooks@[i].offset + addr <= u64::MAX,
    ensures
        r@ == stub_region_bytes(hooks@, addr),
        r@.len() == 0x80 * hooks@.len(),
{
    let mut res: Vec<u8> = Vec::new();
    let mut i: usize = 0;
    while i < hooks.len()
        invariant
            i <= hooks@.len(),
            res@ == stub_region_bytes(hooks@.take(i as int), addr),
            res@.len() == 0x80 * i,
            forall|k: int| 0 <= k < hooks@.len()
                ==> #[trigger] hooks@[k].instructions@.len() <= 0x80,
            forall|k: int| 0 <= k < hooks@.len() ==> #[trigger] hooks@[k].offset + addr <= u64::MAX,
        decreases hooks@.len() - i,
    {
        proof {
            lemma_stub_region_len(hooks@.take(i as int), addr);
        }
        let hook = &hooks[i];
        assert(hook.instructions@.len() <= 0x80);
        let mut stub = gen_extended_jump(hook.offset + addr);
        let pad = 0x80 - stub.len();
        res.append(&mut stub);
        let mut j: usize = 0;
        while j < pad
            invariant
                j <= pad,
                pad == 0x80 - 14,
                res@.len() == 0x80 * i + 14 + j,
                res@ == stub_region_bytes(hooks@.take(i as int), addr)
                    + extended_jump_bytes((hooks@[i as int].offset + addr) as u64)
                    + Seq::new(j as nat, |k: int| 0u8),
                i < hooks@.len(),
            decreases pad - j,
        {
            res.push(0);
            proof {
                assert(Seq::new(j as nat, |k: int| 0u8).push(0u8)
                    =~= Seq::new((j + 1) as nat, |k: int| 0u8));
                assert(res@ =~= stub_region_bytes(hooks@.take(i as int), addr)
                    + extended_jump_bytes((hooks@[i as int].offset + addr) as u64)
                    + Seq::new((j + 1) as nat, |k: int| 0u8));
            }
            j = j + 1;
        }
        proof {
            let taken = hooks@.take(i + 1 as int);
            assert(taken.drop_last() =~= hooks@.take(i as int));
            assert(stub_slot_bytes(taken, addr, i as int)
                =~= extended_jump_bytes((hooks@[i as int].offset + addr) as u64)
                    + Seq::new((0x80 - 14) as nat, |k: int| 0u8));
            assert(res@ =~= stub_region_bytes(taken, addr));
        }
        i = i + 1;
    }
    proof {
        assert(hooks@.take(hooks@.len() as int) =~= hooks@);
        lemma_stub_region_len(hooks@, addr);
    }
    res
}

} // verus!
