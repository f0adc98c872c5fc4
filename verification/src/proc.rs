//! The tracer's view of a tracee's memory map: one entry per line of the
//! kernel's per-process map listing, ordered by address.  The stub-page
//! allocator walks the gaps between entries, so the library states here what
//! a well-formed map is: ordered, non-overlapping, and inside the sentinel
//! bounds the allocator braces the search with.
use vstd::prelude::*;

verus! {

/// One mapped range of a tracee: `[base, end)` with its permission
/// characters, file offset and backing path as the kernel reports them.
#[derive(Clone, Debug, PartialEq, Eq)]
pub struct ProcMapsEntry {
    pub base: u64,
    pub end: u64,
    pub perms: Vec<u8>,
    pub offset: u64,
    pub path: Vec<u8>,
}

impl ProcMapsEntry {
    /// First address of the range.
    pub fn base(&self) -> (r: u64)
        ensures
            r == self.base,
    {
        self.base
    }

    /// First address past the range.
    pub fn end(&self) -> (r: u64)
        ensures
            r == self.end,
    {
        self.end
    }
}

/// A map listing as the kernel produces it: each range is forward, ranges
/// are ordered and disjoint, and everything lies between the low 1 MiB
/// sentinel and the top-of-address-space sentinel.
pub open spec fn maps_wf(ms: Seq<ProcMapsEntry>) -> bool {
    &&& forall|i: int| 0 <= i < ms.len() ==> (#[trigger] ms[i]).base <= ms[i].end
    &&& forall|i: int| 0 <= i < ms.len() - 1 ==> (#[trigger] ms[i]).end <= ms[i + 1].base
    &&& (ms.len() > 0 ==> ms[0].base >= 0x100000)
    &&& (ms.len() > 0 ==> ms[ms.len() - 1].end <= 0xffff_ffff_ffff_8000u64)
}

/// Value of a run of lowercase hex digits, most significant first.
pub open spec fn hex_seq_val(s: Seq<u8>) -> int
    decreases s.len(),
{
    if s.len() == 0 {
        0
    } else {
        16 * hex_seq_val(s.drop_last()) + crate::hooks::hex_val(s.last())
    }
}

/// Sixteen to the `n`.
pub open spec fn pow16(n: int) -> int
    decreases n,
{
    if n <= 0 {
        1
    } else {
        16 * pow16(n - 1)
    }
}

/// First index at or after `i` that does not hold a hex digit.
pub open spec fn hex_run_end(s: Seq<u8>, i: int) -> int
    decreases s.len() - i
        when 0 <= i <= s.len()
{
    if i >= s.len() {
        i
    } else if !crate::hooks::is_hex_digit(s[i]) {
        i
    } else {
        hex_run_end(s, i + 1)
    }
}

/// A scan over hex digits that stopped at `e` identifies `hex_run_end`.
pub proof fn lemma_hex_run_at(s: Seq<u8>, i: int, e: int)
    requires
        0 <= i <= e <= s.len(),
        forall|j: int| i <= j < e ==> crate::hooks::is_hex_digit(s[j]),
        e < s.len() ==> !crate::hooks::is_hex_digit(s[e]),
    ensures
        hex_run_end(s, i) == e,
    decreases e - i,
{
    if i < e {
        assert(crate::hooks::is_hex_digit(s[i]));
        lemma_hex_run_at(s, i + 1, e);
    }
}

/// Parse the run of hex digits starting at `start`.  Succeeds exactly when
/// a digit stands at `start` and the run is at most 16 digits (so its value
/// fits a `u64`); the value and the index just past the run come back.
pub fn parse_hex_u64(line: &Vec<u8>, start: usize) -> (r: Option<(u64, usize)>)
    requires
        start <= line@.len(),
    ensures
        match r {
            Some((v, end)) => {
                &&& start < end <= line@.len()
                &&& end - start <= 16
                &&& end == hex_run_end(line@, start as int)
                &&& v == hex_seq_val(line@.subrange(start as int, end as int))
            },
            None => start == line@.len() || !crate::hooks::is_hex_digit(line@[start as int])
                || hex_run_end(line@, start as int) - start > 16,
        },
{
    let n = line.len();
    if start == n || !crate::hooks::is_hex_digit_e(line[start]) {
        return None;
    }
    let mut k: usize = start;
    let mut v: u64 = 0;
    while k < n && crate::hooks::is_hex_digit_e(line[k])
        invariant
            start <= k <= n,
            n == line@.len(),
            k - start <= 16,
            forall|j: int| start <= j < k ==> crate::hooks::is_hex_digit(line@[j]),
            v == hex_seq_val(line@.subrange(start as int, k as int)),
            v < pow16(k - start),
        decreases n - k,
    {
        if k - start == 16 {
            proof {
                lemma_hex_run_gt(line@, start as int, k as int);
            }
            return None;
        }
        let d = crate::hooks::hex_val_e(line[k]);
        proof {
            lemma_pow16_mono(k - start + 1, 16);
            reveal_with_fuel(pow16, 18);
            assert(pow16(16) == 0x1_0000_0000_0000_0000);
            assert(16 * pow16(k - start) == pow16(k - start + 1));
            assert(v * 16 <= (pow16(k - start) - 1) * 16) by (nonlinear_arith)
                requires
                    v < pow16(k - start),
                    v >= 0,
            ;
            assert(pow16(15) * 16 == pow16(16));
            lemma_pow16_mono(k - start, 15);
        }
        v = v * 16 + (d as u64);
        proof {
            let sub = line@.subrange(start as int, k + 1);
            assert(sub.drop_last() =~= line@.subrange(start as int, k as int));
            assert(sub.last() == line@[k as int]);
        }
        k = k + 1;
    }
    proof {
        lemma_hex_run_at(line@, start as int, k as int);
    }
    Some((v, k))
}

/// A hex run of more than 16 digits overruns any 16-digit scan point.
proof fn lemma_hex_run_gt(s: Seq<u8>, i: int, k: int)
    requires
        0 <= i <= k <= s.len(),
        forall|j: int| i <= j < k ==> crate::hooks::is_hex_digit(s[j]),
        k < s.len(),
        crate::hooks::is_hex_digit(s[k]),
    ensures
        hex_run_end(s, i) > k,
    decreases k - i,
{
    if i < k {
        lemma_hex_run_gt(s, i + 1, k);
    } else {
        assert(hex_run_end(s, i) == hex_run_end(s, i + 1));
        lemma_hex_run_ge(s, i + 1);
    }
}

/// The run end never lies before its start.
proof fn lemma_hex_run_ge(s: Seq<u8>, i: int)
    requires
        0 <= i <= s.len(),
    ensures
        hex_run_end(s, i) >= i,
    decreases s.len() - i,
{
    if i < s.len() && crate::hooks::is_hex_digit(s[i]) {
        lemma_hex_run_ge(s, i + 1);
    }
}

/// Powers of sixteen grow with the exponent.
proof fn lemma_pow16_mono(a: int, b: int)
    requires
        a <= b,
    ensures
        pow16(a) <= pow16(b),
        pow16(a) >= 1,
    decreases b - a,
{
    if a < b {
        lemma_pow16_mono(a, b - 1);
    } else {
        lemma_pow16_pos(a);
    }
}

/// Powers of sixteen are positive.
proof fn lemma_pow16_pos(a: int)
    ensures
        pow16(a) >= 1,
    decreases (if a > 0 {
        a
    } else {
        0
    }),
{
    if a > 0 {
        lemma_pow16_pos(a - 1);
    }
}

/// First index at or after `i` that holds a space, or the end.
pub open spec fn nonspace_run_end(s: Seq<u8>, i: int) -> int
    decreases s.len() - i
        when 0 <= i <= s.len()
{
    if i >= s.len() {
        i
    } else if s[i] == 0x20 {
        i
    } else {
        nonspace_run_end(s, i + 1)
    }
}

/// First index at or after `i` that holds something other than a space, or
/// the end.
pub open spec fn space_run_end(s: Seq<u8>, i: int) -> int
    decreases s.len() - i
        when 0 <= i <= s.len()
{
    if i >= s.len() {
        i
    } else if s[i] != 0x20 {
        i
    } else {
        space_run_end(s, i + 1)
    }
}

/// A scan over non-spaces that stopped at `e` identifies `nonspace_run_end`.
pub proof fn lemma_nonspace_run_at(s: Seq<u8>, i: int, e: int)
    requires
        0 <= i <= e <= s.len(),
        forall|j: int| i <= j < e ==> s[j] != 0x20,
        e < s.len() ==> s[e] == 0x20,
    ensures
        nonspace_run_end(s, i) == e,
    decreases e - i,
{
    if i < e {
        lemma_nonspace_run_at(s, i + 1, e);
    }
}

/// A scan over spaces that stopped at `e` identifies `space_run_end`.
pub proof fn lemma_space_run_at(s: Seq<u8>, i: int, e: int)
    requires
        0 <= i <= e <= s.len(),
        forall|j: int| i <= j < e ==> s[j] == 0x20,
        e < s.len() ==> s[e] != 0x20,
    ensures
        space_run_end(s, i) == e,
    decreases e - i,
{
    if i < e {
        lemma_space_run_at(s, i + 1, e);
    }
}

/// One line of the kernel's map listing follows the fixed grammar: a hex
/// range `base-end`, a space, four permission characters, a space, a hex
/// file offset, a space, the device field, a space, the inode field, and —
/// after any run of spaces — the backing path, possibly empty.
pub open spec fn maps_line_ok(line: Seq<u8>) -> bool {
    let p1 = hex_run_end(line, 0);
    let p2 = hex_run_end(line, p1 + 1);
    let p3 = hex_run_end(line, p2 + 6);
    &&& 0 < p1 <= 16
    &&& p1 < line.len() && line[p1] == 0x2d
    &&& 1 <= p2 - (p1 + 1) <= 16
    &&& p2 < line.len() && line[p2] == 0x20
    &&& p2 + 5 < line.len() && line[p2 + 5] == 0x20
    &&& 1 <= p3 - (p2 + 6) <= 16
    &&& p3 < line.len() && line[p3] == 0x20
    &&& {
        let q1 = nonspace_run_end(line, p3 + 1);
        &&& q1 > p3 + 1
        &&& q1 < line.len()
        &&& nonspace_run_end(line, q1 + 1) > q1 + 1
    }
}

/// The entry a well-formed line describes.
pub open spec fn maps_line_entry(line: Seq<u8>, e: ProcMapsEntry) -> bool {
    let p1 = hex_run_end(line, 0);
    let p2 = hex_run_end(line, p1 + 1);
    let p3 = hex_run_end(line, p2 + 6);
    let q1 = nonspace_run_end(line, p3 + 1);
    let q2 = nonspace_run_end(line, q1 + 1);
    let q3 = space_run_end(line, q2);
    &&& e.base == hex_seq_val(line.subrange(0, p1))
    &&& e.end == hex_seq_val(line.subrange(p1 + 1, p2))
    &&& e.perms@ == line.subrange(p2 + 1, p2 + 5)
    &&& e.offset == hex_seq_val(line.subrange(p2 + 6, p3))
    &&& e.path@ == line.subrange(q3, line.len() as int)
}

/// Parse one line of the map listing.  Succeeds exactly on lines that
/// follow the grammar; the entry carries the parsed range, permissions,
/// offset and path.
pub fn parse_maps_line(line: &Vec<u8>) -> (r: Option<ProcMapsEntry>)
    ensures
        (r is Some) == maps_line_ok(line@),
        r matches Some(e) ==> maps_line_entry(line@, e),
{
    let n = line.len();
    let (base, p1) = match parse_hex_u64(line, 0) {
        None => {
            return None;
        },
        Some(x) => x,
    };
    if !(p1 < n && line[p1] == 0x2d) {
        return None;
    }
    let (endaddr, p2) = match parse_hex_u64(line, p1 + 1) {
        None => {
            return None;
        },
        Some(x) => x,
    };
    if !(p2 < n && line[p2] == 0x20) {
        return None;
    }
    if !(p2 + 5 < n && line[p2 + 5] == 0x20) {
        return None;
    }
    let mut perms: Vec<u8> = Vec::new();
    perms.push(line[p2 + 1]);
    perms.push(line[p2 + 2]);
    perms.push(line[p2 + 3]);
    perms.push(line[p2 + 4]);
    proof {
        assert(perms@ =~= line@.subrange(p2 + 1, p2 + 5));
    }
    let (offset, p3) = match parse_hex_u64(line, p2 + 6) {
        None => {
            return None;
        },
        Some(x) => x,
    };
    if !(p3 < n && line[p3] == 0x20) {
        return None;
    }
    let mut q1: usize = p3 + 1;
    while q1 < n && line[q1] != 0x20
        invariant
            p3 + 1 <= q1 <= n,
            n == line@.len(),
            forall|j: int| p3 + 1 <= j < q1 ==> line@[j] != 0x20,
        decreases n - q1,
    {
        q1 = q1 + 1;
    }
    proof {
        lemma_nonspace_run_at(line@, p3 + 1, q1 as int);
    }
    if !(q1 > p3 + 1 && q1 < n) {
        return None;
    }
    let mut q2: usize = q1 + 1;
    while q2 < n && line[q2] != 0x20
        invariant
            q1 + 1 <= q2 <= n,
            n == line@.len(),
            forall|j: int| q1 + 1 <= j < q2 ==> line@[j] != 0x20,
        decreases n - q2,
    {
        q2 = q2 + 1;
    }
    proof {
        lemma_nonspace_run_at(line@, q1 + 1, q2 as int);
    }
    if !(q2 > q1 + 1) {
        return None;
    }
    let mut q3: usize = q2;
    while q3 < n && line[q3] == 0x20
        invariant
            q2 <= q3 <= n,
            n == line@.len(),
            forall|j: int| q2 <= j < q3 ==> line@[j] == 0x20,
        decreases n - q3,
    {
        q3 = q3 + 1;
    }
    proof {
        lemma_space_run_at(line@, q2 as int, q3 as int);
    }
    let mut path: Vec<u8> = Vec::new();
    let mut i: usize = q3;
    while i < n
        invariant
            q3 <= i <= n,
            n == line@.len(),
            path@ == line@.subrange(q3 as int, i as int),
        decreases n - i,
    {
        path.push(line[i]);
        proof {
            assert(path@ =~= line@.subrange(q3 as int, i + 1));
        }
        i = i + 1;
    }
    Some(ProcMapsEntry { base, end: endaddr, perms, offset, path })
}

/// First index at or after `i` that holds a newline, or the end.
pub open spec fn newline_run_end(s: Seq<u8>, i: int) -> int
    decreases s.len() - i
        when 0 <= i <= s.len()
{
    if i >= s.len() {
        i
    } else if s[i] == 0x0a {
        i
    } else {
        newline_run_end(s, i + 1)
    }
}

/// A scan that stopped at `e` identifies `newline_run_end`.
pub proof fn lemma_newline_run_at(s: Seq<u8>, i: int, e: int)
    requires
        0 <= i <= e <= s.len(),
        forall|j: int| i <= j < e ==> s[j] != 0x0a,
        e < s.len() ==> s[e] == 0x0a,
    ensures
        newline_run_end(s, i) == e,
    decreases e - i,
{
    if i < e {
        lemma_newline_run_at(s, i + 1, e);
    }
}

/// The newline-separated segments of a text; a trailing newline closes the
/// last segment without opening an empty one.
pub open spec fn lines_of(s: Seq<u8>) -> Seq<Seq<u8>>
    decreases s.len(),
{
    if s.len() == 0 {
        Seq::empty()
    } else {
        let k = if 0 <= newline_run_end(s, 0) <= s.len() {
            newline_run_end(s, 0)
        } else {
            s.len() as int
        };
        let rest = if k == s.len() {
            Seq::<u8>::empty()
        } else {
            s.skip(k + 1)
        };
        seq![s.take(k)] + lines_of(rest)
    }
}

/// Split a map listing into its lines.
pub fn split_lines(text: &Vec<u8>) -> (r: Vec<Vec<u8>>)
    ensures
        r.deep_view() == lines_of(text@),
{
    let n = text.len();
    let mut r: Vec<Vec<u8>> = Vec::new();
    let mut pos: usize = 0;
    proof {
        assert(text@.skip(0) =~= text@);
        assert(r.deep_view() =~~= Seq::<Seq<u8>>::empty());
        assert(r.deep_view() + lines_of(text@.skip(0)) =~~= lines_of(text@));
    }
    while pos < n
        invariant
            pos <= n,
            n == text@.len(),
            r.deep_view() + lines_of(text@.skip(pos as int)) == lines_of(text@),
        decreases n - pos,
    {
        let ghost s = text@.skip(pos as int);
        let mut k: usize = pos;
        while k < n && text[k] != 0x0a
            invariant
                pos <= k <= n,
                n == text@.len(),
                forall|j: int| pos <= j < k ==> text@[j] != 0x0a,
            decreases n - k,
        {
            k = k + 1;
        }
        proof {
            assert forall|j: int| 0 <= j < k - pos implies s[j] != 0x0a by {
                assert(text@[pos + j] != 0x0a);
            }
            if (k as int) < n {
                assert(s[k - pos] == text@[k as int]);
            }
            lemma_newline_run_at(s, 0, k - pos);
        }
        let mut seg: Vec<u8> = Vec::new();
        let mut i: usize = pos;
        while i < k
            invariant
                pos <= i <= k <= n,
                n == text@.len(),
                seg@ == text@.subrange(pos as int, i as int),
            decreases k - i,
        {
            seg.push(text[i]);
            proof {
                assert(seg@ =~= text@.subrange(pos as int, i + 1));
            }
            i = i + 1;
        }
        proof {
            assert(seg@ =~= s.take(k - pos));
        }
        let ghost prev = r.deep_view();
        r.push(seg);
        proof {
            assert(seg.deep_view() =~= seg@);
            assert(r.deep_view() =~~= prev.push(s.take(k - pos)));
            let rest = if k == n {
                Seq::<u8>::empty()
            } else {
                s.skip(k - pos + 1)
            };
            assert(lines_of(s) == seq![s.take(k - pos)] + lines_of(rest));
            assert(r.deep_view() + lines_of(rest) =~~= lines_of(text@));
            if k < n {
                assert(rest =~= text@.skip(k as int + 1));
            }
        }
        if k == n {
            pos = n;
        } else {
            pos = k + 1;
        }
    }
    proof {
        assert(lines_of(text@.skip(pos as int)) == Seq::<Seq<u8>>::empty());
        assert(r.deep_view() =~~= lines_of(text@));
    }
    r
}

/// In a well-formed map, range ends grow with the index.
pub proof fn lemma_maps_end_mono(ms: Seq<ProcMapsEntry>, a: int, b: int)
    requires
        maps_wf(ms),
        0 <= a <= b < ms.len(),
    ensures
        ms[a].end <= ms[b].end,
    decreases b - a,
{
    if a < b {
        assert(ms[a].end <= ms[a + 1].base);
        assert(ms[a + 1].base <= ms[a + 1].end);
        lemma_maps_end_mono(ms, a + 1, b);
    }
}

/// In a well-formed map, range bases grow with the index.
pub proof fn lemma_maps_base_mono(ms: Seq<ProcMapsEntry>, a: int, b: int)
    requires
        maps_wf(ms),
        0 <= a <= b < ms.len(),
    ensures
        ms[a].base <= ms[b].base,
    decreases b - a,
{
    if a < b {
        assert(ms[a].base <= ms[a].end);
        assert(ms[a].end <= ms[a + 1].base);
        lemma_maps_base_mono(ms, a + 1, b);
    }
}

} // verus!
