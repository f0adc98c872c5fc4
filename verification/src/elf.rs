//! A reader for the helper library's symbol table: just enough of the
//! 64-bit little-endian object format to walk the section headers, find the
//! dynamic (or plain) symbol table, and hand out each symbol's name and
//! value.  The hook catalog is resolved from these symbols.
use vstd::prelude::*;
use crate::hooks::ElfSymbol;

verus! {

/// The 16-bit little-endian number at offset `i`.
pub open spec fn le16_at(s: Seq<u8>, i: int) -> int
    recommends
        0 <= i,
        i + 2 <= s.len(),
{
    s[i] + 0x100 * s[i + 1]
}

/// The 32-bit little-endian number at offset `i`.
pub open spec fn le32_at(s: Seq<u8>, i: int) -> int
    recommends
        0 <= i,
        i + 4 <= s.len(),
{
    s[i] + 0x100 * s[i + 1] + 0x1_0000 * s[i + 2] + 0x100_0000 * s[i + 3]
}

/// The 64-bit little-endian number at offset `i`.
pub open spec fn le64_at(s: Seq<u8>, i: int) -> int
    recommends
        0 <= i,
        i + 8 <= s.len(),
{
    s[i] + 0x100 * s[i + 1] + 0x1_0000 * s[i + 2] + 0x100_0000 * s[i + 3] + 0x1_0000_0000 * s[i + 4]
        + 0x100_0000_0000 * s[i + 5] + 0x1_0000_0000_0000 * s[i + 6] + 0x100_0000_0000_0000 * s[i
        + 7]
}

/// First index at or after `i` holding a zero byte, or the end.
pub open spec fn nul_end(s: Seq<u8>, i: int) -> int
    decreases s.len() - i
        when 0 <= i <= s.len()
{
    if i >= s.len() {
        i
    } else if s[i] == 0 {
        i
    } else {
        nul_end(s, i + 1)
    }
}

/// A scan that stopped at `e` identifies `nul_end`.
pub proof fn lemma_nul_end_at(s: Seq<u8>, i: int, e: int)
    requires
        0 <= i <= e <= s.len(),
        forall|j: int| i <= j < e ==> s[j] != 0,
        e < s.len() ==> s[e] == 0,
    ensures
        nul_end(s, i) == e,
    decreases e - i,
{
    if i < e {
        lemma_nul_end_at(s, i + 1, e);
    }
}

/// Read the 16-bit little-endian number at `i`.
pub fn read_le16(image: &Vec<u8>, i: usize) -> (r: u64)
    requires
        i + 2 <= image@.len(),
    ensures
        r == le16_at(image@, i as int),
{
    let n = image.len();
    assert(i + 2 <= n);
    (image[i] as u64) + 0x100 * (image[i + 1] as u64)
}

/// Read the 32-bit little-endian number at `i`.
pub fn read_le32(image: &Vec<u8>, i: usize) -> (r: u64)
    requires
        i + 4 <= image@.len(),
    ensures
        r == le32_at(image@, i as int),
{
    let n = image.len();
    assert(i + 4 <= n);
    (image[i] as u64) + 0x100 * (image[i + 1] as u64) + 0x1_0000 * (image[i + 2] as u64)
        + 0x100_0000 * (image[i + 3] as u64)
}

/// Read the 64-bit little-endian number at `i`.
pub fn read_le64(image: &Vec<u8>, i: usize) -> (r: u64)
    requires
        i + 8 <= image@.len(),
    ensures
        r == le64_at(image@, i as int),
{
    let n = image.len();
    assert(i + 8 <= n);
    let lo = (image[i] as u64) + 0x100 * (image[i + 1] as u64) + 0x1_0000 * (image[i + 2] as u64)
        + 0x100_0000 * (image[i + 3] as u64);
    let hi = (image[i + 4] as u64) + 0x100 * (image[i + 5] as u64) + 0x1_0000 * (image[i
        + 6] as u64) + 0x100_0000 * (image[i + 7] as u64);
    lo + 0x1_0000_0000 * hi
}

/// A plausible 64-bit little-endian object: magic, class and data bytes,
/// and a section header table of 64-byte entries that lies inside the
/// image.
pub open spec fn elf_header_wf(s: Seq<u8>) -> bool {
    &&& s.len() >= 64
    &&& s[0] == 0x7f
    &&& s[1] == 0x45
    &&& s[2] == 0x4c
    &&& s[3] == 0x46
    &&& s[4] == 2
    &&& s[5] == 1
    &&& le16_at(s, 58) == 64
    &&& le64_at(s, 40) + 64 * le16_at(s, 60) <= s.len()
}

/// Offset of section header `t`.
pub open spec fn section_off(s: Seq<u8>, t: int) -> int {
    le64_at(s, 40) + 64 * t
}

/// The section's type word.
pub open spec fn section_type(s: Seq<u8>, t: int) -> int {
    le32_at(s, section_off(s, t) + 4)
}

/// The name and value of symbol `j` of the table held by section `t`: the
/// value is the 64-bit word 8 bytes into the 24-byte entry, the name is the
/// zero-terminated string the entry's first word points into the linked
/// string section at.
pub open spec fn symbol_fields_ok(
    s: Seq<u8>,
    t: int,
    j: int,
    sym: ElfSymbol,
) -> bool {
    let symoff = le64_at(s, section_off(s, t) + 24);
    let strtab = le64_at(s, 40) + 64 * le32_at(s, section_off(s, t) + 40);
    let stroff = le64_at(s, strtab + 24);
    let entry = symoff + 24 * j;
    let name_start = stroff + le32_at(s, entry);
    &&& sym.value == le64_at(s, entry + 8)
    &&& sym.name@ == s.subrange(name_start, nul_end(s, name_start))
}

/// Section `t` is the first of type `ty` in the section header table.
pub open spec fn first_section_of_type(s: Seq<u8>, ty: int, t: int) -> bool {
    &&& 0 <= t < le16_at(s, 60)
    &&& section_type(s, t) == ty
    &&& forall|j: int| 0 <= j < t ==> section_type(s, j) != ty
}

/// Some section of the table has type `ty`.
pub open spec fn has_section_of_type(s: Seq<u8>, ty: int) -> bool {
    exists|t: int| 0 <= t < le16_at(s, 60) && #[trigger] section_type(s, t) == ty
}

/// The section the walk settles on: the first dynamic symbol table when the
/// image has one, else its first plain symbol table.
pub open spec fn chosen_symtab(s: Seq<u8>, t: int) -> bool {
    if has_section_of_type(s, 11) {
        first_section_of_type(s, 11, t)
    } else {
        first_section_of_type(s, 2, t)
    }
}

/// The chosen table is usable: its string-table link names a section, both
/// tables lie inside the image, and every entry's name offset lies inside
/// the string table.
pub open spec fn symtab_wf(s: Seq<u8>, t: int) -> bool {
    let symoff = le64_at(s, section_off(s, t) + 24);
    let symsize = le64_at(s, section_off(s, t) + 32);
    let link = le32_at(s, section_off(s, t) + 40);
    let stroff = le64_at(s, section_off(s, link) + 24);
    let strsize = le64_at(s, section_off(s, link) + 32);
    &&& link < le16_at(s, 60)
    &&& stroff <= s.len()
    &&& strsize <= s.len() - stroff
    &&& symoff <= s.len()
    &&& symsize / 24 <= (s.len() - symoff) / 24
    &&& forall|j: int| 0 <= j < symsize / 24 ==> #[trigger] le32_at(s, symoff + 24 * j) < strsize
}

/// The image yields a symbol catalog: the header is well formed, a symbol
/// table is there to choose, and the chosen one is usable.
pub open spec fn elf_symbols_ok(s: Seq<u8>) -> bool {
    &&& elf_header_wf(s)
    &&& exists|t: int| #[trigger] chosen_symtab(s, t) && symtab_wf(s, t)
}

/// At most one section is the first of its type.
proof fn lemma_first_section_unique(s: Seq<u8>, ty: int, t1: int, t2: int)
    requires
        first_section_of_type(s, ty, t1),
        first_section_of_type(s, ty, t2),
    ensures
        t1 == t2,
{
}

/// The walk settles on at most one section.
proof fn lemma_chosen_symtab_unique(s: Seq<u8>, t1: int, t2: int)
    requires
        chosen_symtab(s, t1),
        chosen_symtab(s, t2),
    ensures
        t1 == t2,
{
    if has_section_of_type(s, 11) {
        lemma_first_section_unique(s, 11, t1, t2);
    } else {
        lemma_first_section_unique(s, 2, t1, t2);
    }
}

/// A chosen table that is not usable refutes the whole image.
proof fn lemma_chosen_symtab_refutes(s: Seq<u8>, t: int)
    requires
        chosen_symtab(s, t),
        !symtab_wf(s, t),
    ensures
        !elf_symbols_ok(s),
{
    if elf_symbols_ok(s) {
        let t2 = choose|t2: int| #[trigger] chosen_symtab(s, t2) && symtab_wf(s, t2);
        lemma_chosen_symtab_unique(s, t, t2);
    }
}

/// Walk the image's section headers for its symbol table — the first
/// dynamic one if present, else the first plain one — and return every
/// symbol's name and value, in table order.  The walk succeeds exactly when
/// the image is a well-formed 64-bit little-endian object whose chosen
/// symbol table is usable (`elf_symbols_ok`).
pub fn parse_elf_symbols(image: &Vec<u8>) -> (r: Option<Vec<ElfSymbol>>)
    ensures
        (r is Some) == elf_symbols_ok(image@),
        r matches Some(syms) ==> exists|t: int|
            {
                &&& #[trigger] chosen_symtab(image@, t)
                &&& symtab_wf(image@, t)
                &&& syms@.len() == le64_at(image@, section_off(image@, t) + 32) / 24
                &&& forall|j: int|
                    0 <= j < syms@.len() ==> symbol_fields_ok(image@, t, j, #[trigger] syms@[j])
            },
{
    let n = image.len();
    if n < 64 {
        return None;
    }
    if !(image[0] == 0x7f && image[1] == 0x45 && image[2] == 0x4c && image[3] == 0x46
        && image[4] == 2 && image[5] == 1) {
        return None;
    }
    let shentsize = read_le16(image, 58);
    if shentsize != 64 {
        return None;
    }
    let shoff = read_le64(image, 40);
    let shnum = read_le16(image, 60);
    if shoff > u64::MAX - 64 * shnum || shoff + 64 * shnum > n as u64 {
        return None;
    }
    // pick the symbol table: the dynamic one wins, else the plain one
    let mut dynsym: Option<usize> = None;
    let mut symtab: Option<usize> = None;
    let mut i: usize = 0;
    while i < shnum as usize
        invariant
            i <= le16_at(image@, 60),
            shnum == le16_at(image@, 60),
            shoff == le64_at(image@, 40),
            shoff + 64 * shnum <= n,
            n == image@.len(),
            dynsym matches Some(t) ==> t < i && first_section_of_type(image@, 11, t as int),
            dynsym is None ==> forall|j: int|
                0 <= j < i ==> #[trigger] section_type(image@, j) != 11,
            symtab matches Some(t) ==> t < i && first_section_of_type(image@, 2, t as int),
            symtab is None ==> forall|j: int|
                0 <= j < i ==> #[trigger] section_type(image@, j) != 2,
        decreases le16_at(image@, 60) - i,
    {
        let off = (shoff as usize) + 64 * i;
        proof {
            assert(off == section_off(image@, i as int));
        }
        let ty = read_le32(image, off + 4);
        if ty == 11 && dynsym.is_none() {
            dynsym = Some(i);
        }
        if ty == 2 && symtab.is_none() {
            symtab = Some(i);
        }
        i = i + 1;
    }
    let t = match dynsym {
        Some(t) => t,
        None => match symtab {
            Some(t) => t,
            None => {
                proof {
                    assert(!has_section_of_type(image@, 11)) by {
                        if has_section_of_type(image@, 11) {
                            let w = choose|w: int|
                                0 <= w < le16_at(image@, 60) && #[trigger] section_type(
                                    image@,
                                    w,
                                ) == 11;
                            assert(section_type(image@, w) != 11);
                        }
                    }
                    assert(!has_section_of_type(image@, 2)) by {
                        if has_section_of_type(image@, 2) {
                            let w = choose|w: int|
                                0 <= w < le16_at(image@, 60) && #[trigger] section_type(
                                    image@,
                                    w,
                                ) == 2;
                            assert(section_type(image@, w) != 2);
                        }
                    }
                    assert(!elf_symbols_ok(image@)) by {
                        if elf_symbols_ok(image@) {
                            let w = choose|w: int|
                                #[trigger] chosen_symtab(image@, w) && symtab_wf(image@, w);
                        }
                    }
                }
                return None;
            },
        },
    };
    proof {
        if dynsym is Some {
            assert(has_section_of_type(image@, 11)) by {
                assert(section_type(image@, t as int) == 11);
            }
        } else {
            assert(!has_section_of_type(image@, 11)) by {
                if has_section_of_type(image@, 11) {
                    let w = choose|w: int|
                        0 <= w < le16_at(image@, 60) && #[trigger] section_type(image@, w) == 11;
                    assert(section_type(image@, w) != 11);
                }
            }
        }
        assert(chosen_symtab(image@, t as int));
    }
    let sec = (shoff as usize) + 64 * t;
    proof {
        assert(sec == section_off(image@, t as int));
    }
    let symoff = read_le64(image, sec + 24);
    let symsize = read_le64(image, sec + 32);
    let link = read_le32(image, sec + 40);
    if link >= shnum {
        proof {
            assert(!symtab_wf(image@, t as int));
            lemma_chosen_symtab_refutes(image@, t as int);
        }
        return None;
    }
    let strsec = (shoff as usize) + 64 * (link as usize);
    proof {
        assert(strsec == section_off(image@, link as int));
    }
    let stroff = read_le64(image, strsec + 24);
    let strsize = read_le64(image, strsec + 32);
    if stroff > n as u64 || strsize > n as u64 - stroff {
        proof {
            assert(!symtab_wf(image@, t as int));
            lemma_chosen_symtab_refutes(image@, t as int);
        }
        return None;
    }
    let count = symsize / 24;
    if symoff > n as u64 || count > (n as u64 - symoff) / 24 {
        proof {
            assert(!symtab_wf(image@, t as int));
            lemma_chosen_symtab_refutes(image@, t as int);
        }
        return None;
    }
    let mut syms: Vec<ElfSymbol> = Vec::new();
    let mut j: usize = 0;
    while j < count as usize
        invariant
            j <= count,
            count == le64_at(image@, section_off(image@, t as int) + 32) / 24,
            symoff == le64_at(image@, section_off(image@, t as int) + 24),
            stroff == le64_at(
                image@,
                le64_at(image@, 40) + 64 * le32_at(image@, section_off(image@, t as int) + 40)
                    + 24,
            ),
            sec == le64_at(image@, 40) + 64 * t,
            symoff + count * 24 <= n,
            stroff + strsize <= n,
            strsize == le64_at(
                image@,
                le64_at(image@, 40) + 64 * le32_at(image@, section_off(image@, t as int) + 40)
                    + 32,
            ),
            n == image@.len(),
            shoff == le64_at(image@, 40),
            link == le32_at(image@, section_off(image@, t as int) + 40),
            chosen_symtab(image@, t as int),
            count == symsize / 24,
            symsize == le64_at(image@, section_off(image@, t as int) + 32),
            stroff <= n,
            symoff <= n,
            count <= (n - symoff) / 24,
            syms@.len() == j,
            forall|k: int|
                0 <= k < j ==> symbol_fields_ok(image@, t as int, k, #[trigger] syms@[k]),
            forall|k: int|
                0 <= k < j ==> #[trigger] le32_at(image@, symoff + 24 * k) < strsize,
        decreases count - j,
    {
        let entry = (symoff as usize) + 24 * j;
        proof {
            assert(entry == symoff + 24 * (j as int));
        }
        let st_name = read_le32(image, entry);
        let value = read_le64(image, entry + 8);
        if st_name >= strsize {
            proof {
                assert(le32_at(image@, symoff + 24 * (j as int)) >= strsize);
                assert(!symtab_wf(image@, t as int));
                lemma_chosen_symtab_refutes(image@, t as int);
            }
            return None;
        }
        let name_start = (stroff as usize) + (st_name as usize);
        let mut e: usize = name_start;
        while e < n && image[e] != 0
            invariant
                name_start <= e <= n,
                n == image@.len(),
                forall|q: int| name_start <= q < e ==> image@[q] != 0,
            decreases n - e,
        {
            e = e + 1;
        }
        proof {
            lemma_nul_end_at(image@, name_start as int, e as int);
        }
        let mut name: Vec<u8> = Vec::new();
        let mut q: usize = name_start;
        while q < e
            invariant
                name_start <= q <= e <= n,
                n == image@.len(),
                name@ == image@.subrange(name_start as int, q as int),
            decreases e - q,
        {
            name.push(image[q]);
            proof {
                assert(name@ =~= image@.subrange(name_start as int, q + 1));
            }
            q = q + 1;
        }
        syms.push(ElfSymbol { name, value });
        j = j + 1;
    }
    proof {
        assert(symtab_wf(image@, t as int));
        assert(elf_symbols_ok(image@));
    }
    Some(syms)
}

} // verus!
