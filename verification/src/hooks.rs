//! The hook catalog: each record pairs the byte pattern that must follow a
//! `syscall` instruction at a candidate patch site with the offset, inside the
//! preloaded helper library, of the trampoline that handles such a site.  The
//! catalog is built once at tracer startup from the helper library's exported
//! trampoline symbols and is immutable afterwards.
use vstd::prelude::*;

verus! {

/// One site-rewriting rule: if the bytes after a `syscall` instruction start
/// with `instructions`, the site may be redirected to the trampoline found
/// `offset` bytes into the helper library.
#[derive(Clone, Debug, PartialEq, Eq)]
pub struct SyscallHook {
    /// Exported symbol name the record was resolved from.
    pub symbol: Vec<u8>,
    /// Offset of the trampoline within the helper library image.
    pub offset: u64,
    /// Byte pattern that the code following the `syscall` must begin with.
    pub instructions: Vec<u8>,
}

/// A hook matches a window of tracee code (read just after the `syscall`
/// instruction) when the window begins with the hook's byte pattern.
pub open spec fn hook_matches(hook: SyscallHook, window: Seq<u8>) -> bool {
    hook.instructions@.len() <= window.len()
        && window.subrange(0, hook.instructions@.len() as int) == hook.instructions@
}

/// A hook is patchable when replacing the 2-byte `syscall` plus its pattern
/// by the 5-byte `call` leaves between 0 and 9 bytes of NOP padding.
pub open spec fn hook_patchable(hook: SyscallHook) -> bool {
    3 <= hook.instructions@.len() <= 12
}

/// Select the first catalog entry whose byte pattern is a prefix of `window`,
/// the 16 bytes of tracee code following a trapped `syscall` instruction.
pub fn find_syscall_hook(hooks: &Vec<SyscallHook>, window: &Vec<u8>) -> (r: Option<usize>)
    ensures
        match r {
            Some(i) => {
                &&& i < hooks@.len()
                &&& hook_matches(hooks@[i as int], window@)
                &&& forall|j: int| 0 <= j < i ==> !hook_matches(hooks@[j], window@)
            },
            None => forall|j: int| 0 <= j < hooks@.len() ==> !hook_matches(hooks@[j], window@),
        },
{
    let mut i: usize = 0;
    while i < hooks.len()
        invariant
            i <= hooks@.len(),
            forall|j: int| 0 <= j < i ==> !hook_matches(hooks@[j], window@),
        decreases hooks@.len() - i,
    {
        if hook_matches_window(&hooks[i], window) {
            return Some(i);
        }
        i = i + 1;
    }
    None
}

/// The prefix every trampoline export of the helper library carries; the
/// rest of the name spells, in hex byte pairs separated by underscores, the
/// code pattern the trampoline serves.
pub open spec fn trampoline_prefix() -> Seq<u8> {
    seq![
        0x5fu8, 0x73u8, 0x79u8, 0x73u8, 0x63u8, 0x61u8, 0x6cu8, 0x6cu8, 0x5fu8, 0x68u8, 0x6fu8,
        0x6fu8, 0x6bu8, 0x5fu8, 0x74u8, 0x72u8, 0x61u8, 0x6du8, 0x70u8, 0x6fu8, 0x6cu8, 0x69u8,
        0x6eu8, 0x65u8, 0x5fu8,
    ]
}

/// A lowercase hexadecimal digit.
pub open spec fn is_hex_digit(c: u8) -> bool {
    (0x30 <= c <= 0x39) || (0x61 <= c <= 0x66)
}

/// Value of a lowercase hexadecimal digit.
pub open spec fn hex_val(c: u8) -> u8
    recommends
        is_hex_digit(c),
{
    if c <= 0x39 {
        (c - 0x30) as u8
    } else {
        (c - 0x61 + 10) as u8
    }
}

/// Index of the first underscore in `s`, or `s.len()` if there is none.
pub open spec fn first_sep(s: Seq<u8>) -> int
    decreases s.len(),
{
    if s.len() == 0 {
        0
    } else if s[0] == 0x5f {
        0
    } else {
        1 + first_sep(s.skip(1))
    }
}

/// A token spelling one byte: exactly two lowercase hex digits.
pub open spec fn token_is_hex_pair(tok: Seq<u8>) -> bool {
    tok.len() == 2 && is_hex_digit(tok[0]) && is_hex_digit(tok[1])
}

/// The byte a two-digit token spells.
pub open spec fn token_byte_val(tok: Seq<u8>) -> u8
    recommends
        token_is_hex_pair(tok),
{
    (hex_val(tok[0]) * 16 + hex_val(tok[1])) as u8
}

/// The code pattern spelled by an underscore-separated name suffix: every
/// two-hex-digit token contributes its byte, any other token (such as a
/// mnemonic) is passed over.
pub open spec fn pattern_of_suffix(s: Seq<u8>) -> Seq<u8>
    decreases s.len(),
{
    if s.len() == 0 {
        Seq::empty()
    } else {
        let k = first_sep_capped(s);
        let tok = s.take(k);
        let rest = if k == s.len() {
            Seq::<u8>::empty()
        } else {
            s.skip(k + 1)
        };
        let cur = if token_is_hex_pair(tok) {
            seq![token_byte_val(tok)]
        } else {
            Seq::<u8>::empty()
        };
        cur + pattern_of_suffix(rest)
    }
}

/// `first_sep`, clamped into the string; equal to `first_sep` (which never
/// leaves the string anyway) but lets the recursion above terminate by
/// construction.
pub open spec fn first_sep_capped(s: Seq<u8>) -> int {
    if 0 <= first_sep(s) <= s.len() {
        first_sep(s)
    } else {
        s.len() as int
    }
}

/// One exported symbol of the helper library, as its dynamic symbol table
/// lists it: the name and the symbol value (the trampoline's offset within
/// the library image).
#[derive(Clone, Debug, PartialEq, Eq)]
pub struct ElfSymbol {
    pub name: Vec<u8>,
    pub value: u64,
}

/// A symbol name that contributes a hook: it starts with the trampoline
/// prefix, underscore included.
pub open spec fn symbol_is_hook(name: Seq<u8>) -> bool {
    name.len() >= 25 && name.take(25) == trampoline_prefix()
}

/// The symbols of the table that contribute hooks, in table order.
pub open spec fn hook_symbols(syms: Seq<ElfSymbol>) -> Seq<ElfSymbol>
    decreases syms.len(),
{
    if syms.len() == 0 {
        Seq::empty()
    } else {
        hook_symbols(syms.drop_last()) + if symbol_is_hook(syms.last().name@) {
            seq![syms.last()]
        } else {
            Seq::<ElfSymbol>::empty()
        }
    }
}

/// Decide a lowercase hex digit.
pub fn is_hex_digit_e(c: u8) -> (r: bool)
    ensures
        r == is_hex_digit(c),
{
    (0x30 <= c && c <= 0x39) || (0x61 <= c && c <= 0x66)
}

/// Value of a lowercase hex digit.
pub fn hex_val_e(c: u8) -> (r: u8)
    requires
        is_hex_digit(c),
    ensures
        r == hex_val(c),
        r <= 15,
{
    if c <= 0x39 {
        c - 0x30
    } else {
        c - 0x61 + 10
    }
}

/// The trampoline prefix as runtime bytes.
fn trampoline_prefix_vec() -> (r: Vec<u8>)
    ensures
        r@ == trampoline_prefix(),
        r@.len() == 25,
{
    let mut v: Vec<u8> = Vec::new();
    v.push(0x5f);
    v.push(0x73);
    v.push(0x79);
    v.push(0x73);
    v.push(0x63);
    v.push(0x61);
    v.push(0x6c);
    v.push(0x6c);
    v.push(0x5f);
    v.push(0x68);
    v.push(0x6f);
    v.push(0x6f);
    v.push(0x6b);
    v.push(0x5f);
    v.push(0x74);
    v.push(0x72);
    v.push(0x61);
    v.push(0x6d);
    v.push(0x70);
    v.push(0x6f);
    v.push(0x6c);
    v.push(0x69);
    v.push(0x6e);
    v.push(0x65);
    v.push(0x5f);
    proof {
        assert(v@ =~= trampoline_prefix());
    }
    v
}

/// A separator scan that stopped at `i` identifies `first_sep`.
proof fn lemma_first_sep_at(s: Seq<u8>, i: int)
    requires
        0 <= i <= s.len(),
        forall|j: int| 0 <= j < i ==> s[j] != 0x5f,
        i < s.len() ==> s[i] == 0x5f,
    ensures
        first_sep(s) == i,
    decreases i,
{
    if i > 0 {
        assert(s[0] != 0x5f);
        assert forall|j: int| 0 <= j < i - 1 implies s.skip(1)[j] != 0x5f by {
            assert(s[j + 1] != 0x5f);
        }
        lemma_first_sep_at(s.skip(1), i - 1);
    } else {
        if s.len() > 0 {
            assert(s[0] == 0x5f);
        }
    }
}

/// Build the hook a trampoline export describes: the symbol value is the
/// trampoline's offset, and the hex byte pairs of the name's suffix are the
/// code pattern.  A name without the trampoline prefix describes none.
pub fn hook_from_symbol(name: &Vec<u8>, value: u64) -> (r: Option<SyscallHook>)
    ensures
        match r {
            Some(h) => {
                &&& symbol_is_hook(name@)
                &&& h.symbol@ == name@
                &&& h.offset == value
                &&& h.instructions@ == pattern_of_suffix(name@.skip(25))
            },
            None => !symbol_is_hook(name@),
        },
{
    let n = name.len();
    let prefix = trampoline_prefix_vec();
    if n < 25 {
        return None;
    }
    let mut c: usize = 0;
    while c < 25
        invariant
            c <= 25,
            25 <= n == name@.len(),
            prefix@ == trampoline_prefix(),
            forall|j: int| 0 <= j < c ==> name@[j] == trampoline_prefix()[j],
        decreases 25 - c,
    {
        if name[c] != prefix[c] {
            proof {
                assert(name@.take(25)[c as int] != trampoline_prefix()[c as int]);
            }
            return None;
        }
        c = c + 1;
    }
    proof {
        assert(name@.take(25) =~= trampoline_prefix());
    }
    let mut instructions: Vec<u8> = Vec::new();
    let mut pos: usize = 25;
    while pos < n
        invariant
            25 <= pos <= n,
            n == name@.len(),
            instructions@ + pattern_of_suffix(name@.skip(pos as int)) == pattern_of_suffix(
                name@.skip(25),
            ),
        decreases n - pos,
    {
        let ghost s = name@.skip(pos as int);
        let mut k: usize = pos;
        while k < n && name[k] != 0x5f
            invariant
                pos <= k <= n,
                n == name@.len(),
                forall|j: int| pos <= j < k ==> name@[j] != 0x5f,
            decreases n - k,
        {
            k = k + 1;
        }
        proof {
            assert forall|j: int| 0 <= j < k - pos implies s[j] != 0x5f by {
                assert(name@[pos + j] != 0x5f);
            }
            if (k as int) < n {
                assert(s[k - pos] == name@[k as int]);
            }
            lemma_first_sep_at(s, k - pos);
        }
        let ghost tok = s.take(k - pos);
        let ghost rest = if k == n {
            Seq::<u8>::empty()
        } else {
            s.skip(k - pos + 1)
        };
        let tok_ok = k - pos == 2 && is_hex_digit_e(name[pos]) && is_hex_digit_e(
            name[pos + 1],
        );
        proof {
            assert(s.len() > 0);
            if k - pos == 2 {
                assert(tok[0] == name@[pos as int]);
                assert(tok[1] == name@[pos as int + 1]);
            }
            assert(tok_ok == token_is_hex_pair(tok));
        }
        if tok_ok {
            let b = hex_val_e(name[pos]) * 16 + hex_val_e(name[pos + 1]);
            instructions.push(b);
            proof {
                assert(b == token_byte_val(tok));
            }
        }
        proof {
            let cur: Seq<u8> = if token_is_hex_pair(tok) {
                seq![token_byte_val(tok)]
            } else {
                Seq::<u8>::empty()
            };
            assert(pattern_of_suffix(s) == cur + pattern_of_suffix(rest));
            assert(instructions@ + pattern_of_suffix(rest) =~= pattern_of_suffix(name@.skip(25)));
            if k < n {
                assert(rest =~= name@.skip(k as int + 1));
            }
        }
        if k == n {
            pos = n;
        } else {
            pos = k + 1;
        }
    }
    proof {
        assert(pattern_of_suffix(name@.skip(pos as int)) == Seq::<u8>::empty());
        assert(instructions@ =~= pattern_of_suffix(name@.skip(25)));
    }
    let mut symbol: Vec<u8> = Vec::new();
    let mut i: usize = 0;
    while i < n
        invariant
            i <= n,
            n == name@.len(),
            symbol@ == name@.take(i as int),
        decreases n - i,
    {
        symbol.push(name[i]);
        proof {
            assert(symbol@ =~= name@.take(i + 1));
        }
        i = i + 1;
    }
    proof {
        assert(name@.take(n as int) =~= name@);
    }
    Some(SyscallHook { symbol, offset: value, instructions })
}

/// One resolved hook corresponds to one contributing symbol.
pub open spec fn hook_resolves(h: SyscallHook, s: ElfSymbol) -> bool {
    &&& h.symbol@ == s.name@
    &&& h.offset == s.value
    &&& h.instructions@ == pattern_of_suffix(s.name@.skip(25))
}

/// Build the hook catalog from the helper library's exported symbols: one
/// hook per trampoline export, in table order.
pub fn resolve_syscall_hooks_from(symbols: &Vec<ElfSymbol>) -> (r: Vec<SyscallHook>)
    ensures
        r@.len() == hook_symbols(symbols@).len(),
        forall|j: int|
            0 <= j < r@.len() ==> hook_resolves(#[trigger] r@[j], hook_symbols(symbols@)[j]),
{
    let mut res: Vec<SyscallHook> = Vec::new();
    let mut i: usize = 0;
    while i < symbols.len()
        invariant
            i <= symbols@.len(),
            res@.len() == hook_symbols(symbols@.take(i as int)).len(),
            forall|j: int|
                0 <= j < res@.len() ==> hook_resolves(
                    #[trigger] res@[j],
                    hook_symbols(symbols@.take(i as int))[j],
                ),
        decreases symbols@.len() - i,
    {
        proof {
            assert(symbols@.take(i + 1).drop_last() =~= symbols@.take(i as int));
            assert(symbols@.take(i + 1).last() == symbols@[i as int]);
        }
        match hook_from_symbol(&symbols[i].name, symbols[i].value) {
            Some(h) => {
                let ghost prev = res@;
                let ghost hv = h;
                res.push(h);
                proof {
                    let next = hook_symbols(symbols@.take(i + 1));
                    assert(next =~= hook_symbols(symbols@.take(i as int)) + seq![
                        symbols@[i as int],
                    ]);
                    assert forall|j: int| 0 <= j < res@.len() implies hook_resolves(
                        #[trigger] res@[j],
                        next[j],
                    ) by {
                        if j < prev.len() {
                            assert(res@[j] == prev[j]);
                            assert(next[j] == hook_symbols(symbols@.take(i as int))[j]);
                        } else {
                            assert(res@[j] == hv);
                            assert(next[j] == symbols@[i as int]);
                            assert(hook_resolves(hv, symbols@[i as int]));
                        }
                    }
                }
            },
            None => {
                proof {
                    assert(hook_symbols(symbols@.take(i + 1)) =~= hook_symbols(
                        symbols@.take(i as int),
                    ));
                }
            },
        }
        i = i + 1;
    }
    proof {
        assert(symbols@.take(symbols@.len() as int) =~= symbols@);
    }
    res
}

/// Decide whether a catalog satisfies the patcher's sanity bound.
pub fn check_hooks_wf(hooks: &Vec<SyscallHook>) -> (r: bool)
    ensures
        r == crate::task::hooks_wf(hooks@),
{
    if hooks.len() > 64 {
        return false;
    }
    let mut i: usize = 0;
    while i < hooks.len()
        invariant
            i <= hooks@.len(),
            hooks@.len() <= 64,
            forall|k: int| 0 <= k < i ==> (#[trigger] hooks@[k]).instructions@.len() <= 0x80,
        decreases hooks@.len() - i,
    {
        if hooks[i].instructions.len() > 0x80 {
            return false;
        }
        i = i + 1;
    }
    true
}

/// Decide whether one hook's pattern is a prefix of the code window.
pub fn hook_matches_window(hook: &SyscallHook, window: &Vec<u8>) -> (r: bool)
    ensures
        r == hook_matches(*hook, window@),
{
    let n = hook.instructions.len();
    if n > window.len() {
        return false;
    }
    let mut k: usize = 0;
    while k < n
        invariant
            k <= n,
            n == hook.instructions@.len(),
            n <= window@.len(),
            forall|j: int| 0 <= j < k ==> window@[j] == hook.instructions@[j],
        decreases n - k,
    {
        if hook.instructions[k] != window[k] {
            assert(!hook_matches(*hook, window@)) by {
                assert(window@.subrange(0, n as int)[k as int] != hook.instructions@[k as int]);
            }
            return false;
        }
        k = k + 1;
    }
    assert(window@.subrange(0, n as int) =~= hook.instructions@);
    true
}

} // verus!
