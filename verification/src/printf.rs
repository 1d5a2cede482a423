//! The guarded printf renderer behind the guest `vfprintf`/`vsnprintf`
//! shims: an AAPCS64 `va_list` stepper, a parser for the format string, and
//! the renderer of the common conversions (%s %c %p %d %i %u %x %X, and a
//! marker for floats), with a bounded copy into the guest buffer.

use vstd::prelude::*;
use crate::shims::{ptr_ok, spec_ptr_ok};
use crate::bytes::{c_str, c_str_len, from_le_u32, from_le_u64, read_le_u32, read_le_u64};

verus! {

/// The AAPCS64 `va_list`: `{ __stack, __gr_top, __vr_top, __gr_offs,
/// __vr_offs }`. General-register arguments are read at
/// `__gr_top + __gr_offs` while `__gr_offs < 0` (it grows by 8 per
/// argument), then from `__stack` (which grows by 8).
#[derive(Clone, Copy, Debug)]
pub struct VaList {
    pub stack: u64,
    pub gr_top: u64,
    pub vr_top: u64,
    pub gr_offs: i32,
    pub vr_offs: i32,
}

/// A va_list slot address the renderer may read: 8-aligned, at or above
/// 0x1_0000_0000 and with a clear top byte.
pub open spec fn slot_readable(p: u64) -> bool {
    p & 7 == 0 && p >= 0x1_0000_0000 && p >> 56u64 == 0
}

/// `a + b` wrapped into 64 bits (for `b` of either sign, |b| < 2^64).
pub open spec fn wrap64(a: int, b: int) -> u64 {
    let s = a + b;
    if s < 0 {
        (s + 0x1_0000_0000_0000_0000) as u64
    } else if s > u64::MAX {
        (s - 0x1_0000_0000_0000_0000) as u64
    } else {
        s as u64
    }
}

/// The address of the next general-register argument.
pub open spec fn spec_next_slot(ap: VaList) -> u64 {
    if ap.gr_offs < 0 {
        wrap64(ap.gr_top as int, ap.gr_offs as int)
    } else {
        ap.stack
    }
}

/// The va_list after one general-register argument has been read.
pub open spec fn spec_advance(ap: VaList) -> VaList {
    if ap.gr_offs < 0 {
        VaList { gr_offs: (ap.gr_offs + 8) as i32, ..ap }
    } else {
        VaList { stack: wrap64(ap.stack as int, 8), ..ap }
    }
}

impl VaList {
    /// The all-zero va_list (what an unaligned `ap` pointer decodes to).
    pub fn zeroed() -> (ap: VaList)
        ensures
            ap.stack == 0 && ap.gr_top == 0 && ap.vr_top == 0 && ap.gr_offs == 0 && ap.vr_offs == 0,
    {
        VaList { stack: 0, gr_top: 0, vr_top: 0, gr_offs: 0, vr_offs: 0 }
    }

    /// The address of the next general-register argument, if it is one
    /// the renderer may read; `None` means the read fails (and the va_list
    /// does not move).
    pub fn next_gp_slot(&self) -> (r: Option<u64>)
        ensures
            r == (if slot_readable(spec_next_slot(*self)) {
                Some(spec_next_slot(*self))
            } else {
                None::<u64>
            }),
    {
        let addr = if self.gr_offs < 0 {
            let back = (0i64 - self.gr_offs as i64) as u64;
            self.gr_top.wrapping_sub(back)
        } else {
            self.stack
        };
        if addr & 7 == 0 && addr >= 0x1_0000_0000 && addr >> 56u64 == 0 {
            Some(addr)
        } else {
            None
        }
    }

    /// Step past the argument just read.
    pub fn advance_gp(&mut self)
        ensures
            *final(self) == spec_advance(*old(self)),
    {
        if self.gr_offs < 0 {
            self.gr_offs = self.gr_offs + 8;
        } else {
            self.stack = self.stack.wrapping_add(8);
        }
    }
}

/// Decode the AAPCS64 `va_list` stored in the 32-byte area `area`:
/// `__stack`, `__gr_top` and `__vr_top` little-endian at 0, 8 and 16,
/// `__gr_offs` at 24; `__vr_offs` is not used by the renderer and reads as 0.
pub fn decode_va_list(area: &[u8]) -> (ap: VaList)
    requires
        area@.len() >= 32,
    ensures
        ap.stack == from_le_u64(area@, 0),
        ap.gr_top == from_le_u64(area@, 8),
        ap.vr_top == from_le_u64(area@, 16),
        ap.gr_offs == from_le_u32(area@, 24) as i32,
        ap.vr_offs == 0,
{
    VaList {
        stack: read_le_u64(area, 0),
        gr_top: read_le_u64(area, 8),
        vr_top: read_le_u64(area, 16),
        gr_offs: read_le_u32(area, 24) as i32,
        vr_offs: 0,
    }
}

/// Whether a guest `va_list` pointer is aligned so its fields are read;
/// an unaligned one decodes as all zeros.
pub fn va_list_pointer_ok(ap: u64) -> (r: bool)
    ensures
        r == (ap & 7 == 0),
{
    ap & 7 == 0
}

/// A conversion the renderer consumes an argument for.
#[derive(Clone, Copy, Debug, PartialEq, Eq, Structural)]
pub enum ConvKind {
    /// `%s` / `%S`: a C string.
    Str,
    /// `%c`: the low byte.
    Char,
    /// `%p`: `0x` and lowercase hex.
    Ptr,
    /// `%d` / `%i` / `%u`: the 64-bit word in unsigned decimal.
    Dec,
    /// `%x` / `%X`: `0x` and lowercase hex.
    Hex,
    /// `%f` / `%e` / `%g`: floats travel in vector registers, so a marker.
    Float,
}

/// One element of a parsed format string.
#[derive(Clone, Copy, Debug, PartialEq, Eq, Structural)]
pub enum FmtPiece {
    /// A byte copied to the output.
    Lit(u8),
    /// A conversion that reads the next argument.
    Conv(ConvKind),
}

pub open spec fn is_ascii_alpha(c: u8) -> bool {
    (0x41 <= c <= 0x5a) || (0x61 <= c <= 0x7a)
}

/// Bytes between `%` and the conversion: ASCII, not a letter, not `%`.
pub open spec fn is_flag_byte(c: u8) -> bool {
    c < 0x80 && !is_ascii_alpha(c) && c != 0x25
}

/// Length modifiers skipped before the conversion: l h z t j.
pub open spec fn is_len_mod(c: u8) -> bool {
    c == 0x6c || c == 0x68 || c == 0x7a || c == 0x74 || c == 0x6a
}

/// The first index at or after `j` that is not a flag byte (or the end).
pub open spec fn skip_flags(b: Seq<u8>, j: int) -> int
    decreases b.len() - j,
{
    if j >= b.len() || !is_flag_byte(b[j]) {
        j
    } else {
        skip_flags(b, j + 1)
    }
}

/// The index after the length modifiers starting at `r` (`ll` counts as one).
pub open spec fn skip_len(b: Seq<u8>, r: int) -> int
    decreases b.len() - r,
{
    if r >= b.len() || !is_len_mod(b[r]) {
        r
    } else if b[r] == 0x6c && r + 1 < b.len() && b[r + 1] == 0x6c {
        skip_len(b, r + 2)
    } else {
        skip_len(b, r + 1)
    }
}

/// The conversion a conversion byte names, if the renderer handles it.
pub open spec fn conv_of(c: u8) -> Option<ConvKind> {
    if c == 0x73 || c == 0x53 {
        Some(ConvKind::Str)
    } else if c == 0x63 {
        Some(ConvKind::Char)
    } else if c == 0x70 {
        Some(ConvKind::Ptr)
    } else if c == 0x64 || c == 0x69 || c == 0x75 {
        Some(ConvKind::Dec)
    } else if c == 0x78 || c == 0x58 {
        Some(ConvKind::Hex)
    } else if c == 0x66 || c == 0x65 || c == 0x67 {
        Some(ConvKind::Float)
    } else {
        None
    }
}

/// The pieces of format `b` from index `i` on: ordinary bytes are copied;
/// `%%` is a literal `%`; a `%` with nothing but flag bytes after it is a
/// literal `%` (the flags then follow as ordinary bytes); otherwise the
/// flags and length modifiers are skipped and a handled conversion becomes a
/// conversion piece, while the byte of an unhandled one is copied literally.
pub open spec fn parse_from(b: Seq<u8>, i: int) -> Seq<FmtPiece>
    decreases b.len() + 1 - i,
{
    if i < 0 || i >= b.len() {
        Seq::empty()
    } else if b[i] != 0x25 {
        seq![FmtPiece::Lit(b[i])] + parse_from(b, i + 1)
    } else {
        let j = skip_flags(b, i + 1);
        proof {
            lemma_skip_flags(b, i + 1);
        }
        if j >= b.len() {
            seq![FmtPiece::Lit(0x25u8)] + parse_from(b, i + 1)
        } else if b[j] == 0x25 {
            seq![FmtPiece::Lit(0x25u8)] + parse_from(b, j + 1)
        } else {
            let r = skip_len(b, j);
            proof {
                lemma_skip_len(b, j);
            }
            let piece = if r < b.len() && conv_of(b[r]) is Some {
                seq![FmtPiece::Conv(conv_of(b[r])->0)]
            } else if r < b.len() {
                seq![FmtPiece::Lit(b[r])]
            } else {
                Seq::empty()
            };
            piece + parse_from(b, r + 1)
        }
    }
}

pub proof fn lemma_skip_flags(b: Seq<u8>, j: int)
    requires
        0 <= j,
    ensures
        j <= skip_flags(b, j),
        skip_flags(b, j) >= b.len() || !is_flag_byte(b[skip_flags(b, j)]),
    decreases b.len() - j,
{
    if j < b.len() && is_flag_byte(b[j]) {
        lemma_skip_flags(b, j + 1);
    }
}

pub proof fn lemma_skip_len(b: Seq<u8>, r: int)
    requires
        0 <= r,
    ensures
        r <= skip_len(b, r),
        r <= b.len() ==> skip_len(b, r) <= b.len(),
        skip_len(b, r) < b.len() ==> !is_len_mod(b[skip_len(b, r)]),
    decreases b.len() - r,
{
    if r < b.len() && is_len_mod(b[r]) {
        if b[r] == 0x6c && r + 1 < b.len() && b[r + 1] == 0x6c {
            lemma_skip_len(b, r + 2);
        } else {
            lemma_skip_len(b, r + 1);
        }
    }
}

fn is_flag(c: u8) -> (r: bool)
    ensures
        r == is_flag_byte(c),
{
    c < 0x80 && !((0x41 <= c && c <= 0x5a) || (0x61 <= c && c <= 0x7a)) && c != 0x25
}

fn is_len_modifier(c: u8) -> (r: bool)
    ensures
        r == is_len_mod(c),
{
    c == 0x6c || c == 0x68 || c == 0x7a || c == 0x74 || c == 0x6a
}

fn conv_kind(c: u8) -> (r: Option<ConvKind>)
    ensures
        r == conv_of(c),
{
    if c == 0x73 || c == 0x53 {
        Some(ConvKind::Str)
    } else if c == 0x63 {
        Some(ConvKind::Char)
    } else if c == 0x70 {
        Some(ConvKind::Ptr)
    } else if c == 0x64 || c == 0x69 || c == 0x75 {
        Some(ConvKind::Dec)
    } else if c == 0x78 || c == 0x58 {
        Some(ConvKind::Hex)
    } else if c == 0x66 || c == 0x65 || c == 0x67 {
        Some(ConvKind::Float)
    } else {
        None
    }
}

/// The bytes `printf` takes as a conversion: s S c p d i u x X f e g.
pub open spec fn is_conversion_byte(c: u8) -> bool {
    c == 0x73 || c == 0x53 || c == 0x63 || c == 0x70 || c == 0x64 || c == 0x69 || c == 0x75
        || c == 0x78 || c == 0x58 || c == 0x66 || c == 0x65 || c == 0x67
}

/// The standard length modifiers: l, ll, h, hh, z, t, j.
pub open spec fn is_length_modifier(m: Seq<u8>) -> bool {
    m == seq![0x6cu8] || m == seq![0x6cu8, 0x6cu8] || m == seq![0x68u8] || m == seq![
        0x68u8,
        0x68u8,
    ] || m == seq![0x7au8] || m == seq![0x74u8] || m == seq![0x6au8]
}

/// Each conversion byte names its conversion: `%s`/`%S` a string, `%c` a
/// character, `%p` a pointer, `%d`/`%i`/`%u` a decimal, `%x`/`%X` hex and
/// `%f`/`%e`/`%g` the float marker; the format `%` + that byte is exactly
/// that one conversion.
pub proof fn law_conversion_bytes(c: u8)
    requires
        is_conversion_byte(c),
    ensures
        parse_from(seq![0x25u8, c], 0) == seq![
            FmtPiece::Conv(
                if c == 0x73 || c == 0x53 {
                    ConvKind::Str
                } else if c == 0x63 {
                    ConvKind::Char
                } else if c == 0x70 {
                    ConvKind::Ptr
                } else if c == 0x64 || c == 0x69 || c == 0x75 {
                    ConvKind::Dec
                } else if c == 0x78 || c == 0x58 {
                    ConvKind::Hex
                } else {
                    ConvKind::Float
                },
            ),
        ],
{
    let b = seq![0x25u8, c];
    reveal_with_fuel(parse_from, 2);
    assert(skip_flags(b, 1) == 1);
    assert(skip_len(b, 1) == 1);
    assert(parse_from(b, 2) =~= Seq::<FmtPiece>::empty());
}

/// Length modifiers are transparent: for every standard length modifier
/// `m` and conversion byte `c`, the format `%` `m` `c` parses exactly as
/// `%` `c` (so `%hd` renders its argument as `%d` does, and consumes one
/// argument).
pub proof fn law_length_modifiers_transparent(m: Seq<u8>, c: u8)
    requires
        is_length_modifier(m),
        is_conversion_byte(c),
    ensures
        parse_from(seq![0x25u8] + m + seq![c], 0) == parse_from(seq![0x25u8, c], 0),
{
    let b = seq![0x25u8] + m + seq![c];
    let b2 = seq![0x25u8, c];
    let n: int = m.len() as int + 1;
    reveal_with_fuel(parse_from, 2);
    reveal_with_fuel(skip_len, 3);
    assert(b[0] == 0x25u8);
    assert(b[1] == m[0]);
    assert(b[n] == c);
    if m.len() == 2 {
        assert(b[2] == m[1]);
    }
    assert(skip_flags(b, 1) == 1);
    assert(skip_len(b, 1) == n);
    assert(skip_flags(b2, 1) == 1);
    assert(skip_len(b2, 1) == 1);
    assert(parse_from(b, n + 1) =~= Seq::<FmtPiece>::empty());
    assert(parse_from(b2, 2) =~= Seq::<FmtPiece>::empty());
}

/// Parse a guest format string (its bytes before the NUL) into pieces.
pub fn parse_format(fmt: &[u8]) -> (p: Vec<FmtPiece>)
    ensures
        p@ == parse_from(c_str(fmt@), 0),
{
    let mut out: Vec<FmtPiece> = Vec::new();
    let mut i: usize = 0;
    let n = c_str_len(fmt);
    let ghost b = fmt@.subrange(0, n as int);
    while i < n
        invariant
            n == b.len(),
                b == fmt@.subrange(0, n as int),
                n <= fmt@.len(),
            i <= n,
            out@ + parse_from(b, i as int) == parse_from(b, 0),
        decreases n - i,
    {
        let ghost gi = i as int;
        let c = fmt[i];
        if c != 0x25u8 {
            out.push(FmtPiece::Lit(c));
            proof {
                assert(out@ + parse_from(b, gi + 1) =~= old_out_plus(out@, parse_from(b, gi + 1)));
            }
            i = i + 1;
            continue;
        }
        let mut j = i + 1;
        while j < n && is_flag(fmt[j])
            invariant
                n == b.len(),
                b == fmt@.subrange(0, n as int),
                n <= fmt@.len(),
                i < j <= n,
                skip_flags(b, j as int) == skip_flags(b, gi + 1),
            decreases n - j,
        {
            j = j + 1;
        }
        assert(j as int == skip_flags(b, gi + 1));
        if j >= n {
            out.push(FmtPiece::Lit(0x25u8));
            i = i + 1;
            continue;
        }
        if fmt[j] == 0x25u8 {
            out.push(FmtPiece::Lit(0x25u8));
            i = j + 1;
            continue;
        }
        let mut r = j;
        proof {
            lemma_skip_len(b, j as int);
        }
        loop
            invariant
                n == b.len(),
                b == fmt@.subrange(0, n as int),
                n <= fmt@.len(),
                j <= r <= n,
                skip_len(b, r as int) == skip_len(b, j as int),
            ensures
                r as int == skip_len(b, j as int),
                r <= n,
            decreases n - r,
        {
            if r >= n || !is_len_modifier(fmt[r]) {
                break;
            }
            if fmt[r] == 0x6cu8 && r + 1 < n && fmt[r + 1] == 0x6cu8 {
                r = r + 2;
            } else {
                r = r + 1;
            }
        }
        assert(r as int == skip_len(b, j as int));
        if r >= n {
            proof {
                assert(parse_from(b, r as int + 1) =~= Seq::<FmtPiece>::empty());
                assert(parse_from(b, gi) =~= Seq::<FmtPiece>::empty());
                assert(parse_from(b, n as int) =~= Seq::<FmtPiece>::empty());
                assert(out@ + parse_from(b, n as int) =~= out@);
                assert(out@ + parse_from(b, gi) =~= out@);
            }
            i = n;
        } else {
            match conv_kind(fmt[r]) {
                Some(k) => {
                    out.push(FmtPiece::Conv(k));
                },
                None => {
                    out.push(FmtPiece::Lit(fmt[r]));
                },
            }
            i = r + 1;
        }
    }
    assert(parse_from(b, i as int) =~= Seq::<FmtPiece>::empty());
    assert(out@ =~= out@ + Seq::<FmtPiece>::empty());
    out
}

spec fn old_out_plus(a: Seq<FmtPiece>, b: Seq<FmtPiece>) -> Seq<FmtPiece> {
    a + b
}

/// One argument as the renderer consumes it: the 64-bit word read from the
/// va_list and, for `%s`, the bytes of the C string it points at, or
/// `None` when that memory could not be read.
pub struct GuestArg {
    pub word: u64,
    pub text: Option<Vec<u8>>,
}

/// The string bytes an argument carries, if it was readable.
pub open spec fn arg_text(a: GuestArg) -> Option<Seq<u8>> {
    match a.text {
        Some(t) => Some(t@),
        None => None,
    }
}

/// Unsigned decimal digits of `v` (no leading zeros; "0" for zero).
pub open spec fn dec_digits(v: nat) -> Seq<u8>
    decreases v,
{
    if v < 10 {
        seq![(48 + v) as u8]
    } else {
        dec_digits(v / 10) + seq![(48 + v % 10) as u8]
    }
}

/// The lowercase hex digit of `d` (< 16).
pub open spec fn hex_digit(d: nat) -> u8 {
    if d < 10 {
        (48 + d) as u8
    } else {
        (87 + d) as u8
    }
}

/// Lowercase hex digits of `v` (no leading zeros; "0" for zero).
pub open spec fn hex_digits(v: nat) -> Seq<u8>
    decreases v,
{
    if v < 16 {
        seq![hex_digit(v)]
    } else {
        hex_digits(v / 16) + seq![hex_digit(v % 16)]
    }
}

/// "(null)"
pub open spec fn null_text() -> Seq<u8> {
    seq![0x28u8, 0x6eu8, 0x75u8, 0x6cu8, 0x6cu8, 0x29u8]
}

/// "(bad-ptr)"
pub open spec fn bad_ptr_text() -> Seq<u8> {
    seq![0x28u8, 0x62u8, 0x61u8, 0x64u8, 0x2du8, 0x70u8, 0x74u8, 0x72u8, 0x29u8]
}

/// "<fp>"
pub open spec fn float_text() -> Seq<u8> {
    seq![0x3cu8, 0x66u8, 0x70u8, 0x3eu8]
}

/// The text a conversion renders for an argument: `%s` "(null)" for a null
/// pointer, "(bad-ptr)" for one outside the safe pointer domain
/// (`spec_ptr_ok`) or whose memory could not be read, else its string
/// (possibly empty); `%c`
/// the low byte; `%p`/`%x`/`%X` "0x" and lowercase hex; `%d`/`%i`/`%u` the
/// word in decimal; floats "<fp>".
pub open spec fn conv_text(c: ConvKind, word: u64, text: Option<Seq<u8>>) -> Seq<u8> {
    match c {
        ConvKind::Str => if word == 0 {
            null_text()
        } else if !spec_ptr_ok(word) || text is None {
            bad_ptr_text()
        } else {
            text->0
        },
        ConvKind::Char => seq![word as u8],
        ConvKind::Ptr => seq![0x30u8, 0x78u8] + hex_digits(word as nat),
        ConvKind::Hex => seq![0x30u8, 0x78u8] + hex_digits(word as nat),
        ConvKind::Dec => dec_digits(word as nat),
        ConvKind::Float => float_text(),
    }
}

/// Number of conversion pieces in `p`.
pub open spec fn conv_count(p: Seq<FmtPiece>) -> nat
    decreases p.len(),
{
    if p.len() == 0 {
        0
    } else {
        conv_count(p.drop_last()) + if p.last() is Conv {
            1nat
        } else {
            0nat
        }
    }
}

/// The text of one piece when it is conversion number `k`: the `k`-th
/// argument's rendering, or nothing when that argument could not be read.
pub open spec fn piece_text(piece: FmtPiece, args: Seq<GuestArg>, k: nat) -> Seq<u8> {
    match piece {
        FmtPiece::Lit(b) => seq![b],
        FmtPiece::Conv(c) => if k < args.len() {
            conv_text(c, args[k as int].word, arg_text(args[k as int]))
        } else {
            Seq::empty()
        },
    }
}

/// The rendering of pieces `p`, conversion `k` taking argument `k`.
pub open spec fn render(p: Seq<FmtPiece>, args: Seq<GuestArg>) -> Seq<u8>
    decreases p.len(),
{
    if p.len() == 0 {
        Seq::empty()
    } else {
        render(p.drop_last(), args) + piece_text(p.last(), args, conv_count(p.drop_last()))
    }
}

fn push_all(out: &mut Vec<u8>, b: &[u8])
    ensures
        final(out)@ == old(out)@ + b@,
{
    let mut i: usize = 0;
    while i < b.len()
        invariant
            i <= b@.len(),
            out@ == old(out)@ + b@.subrange(0, i as int),
        decreases b@.len() - i,
    {
        out.push(b[i]);
        proof {
            assert(b@.subrange(0, i + 1) =~= b@.subrange(0, i as int).push(b@[i as int]));
        }
        i = i + 1;
    }
    assert(b@.subrange(0, b@.len() as int) =~= b@);
}

fn push_dec(out: &mut Vec<u8>, v: u64)
    ensures
        final(out)@ == old(out)@ + dec_digits(v as nat),
    decreases v,
{
    if v >= 10 {
        push_dec(out, v / 10);
    }
    out.push((48 + v % 10) as u8);
    proof {
        assert(final(out)@ =~= old(out)@ + dec_digits(v as nat));
    }
}

fn hex_digit_byte(d: u64) -> (b: u8)
    requires
        d < 16,
    ensures
        b == hex_digit(d as nat),
{
    if d < 10 {
        (48 + d) as u8
    } else {
        (87 + d) as u8
    }
}

fn push_hex(out: &mut Vec<u8>, v: u64)
    ensures
        final(out)@ == old(out)@ + hex_digits(v as nat),
    decreases v,
{
    if v >= 16 {
        push_hex(out, v / 16);
    }
    out.push(hex_digit_byte(v % 16));
    proof {
        assert(final(out)@ =~= old(out)@ + hex_digits(v as nat));
    }
}

fn push_conv(out: &mut Vec<u8>, c: ConvKind, a: &GuestArg)
    ensures
        final(out)@ == old(out)@ + conv_text(c, a.word, arg_text(*a)),
{
    match c {
        ConvKind::Str => {
            if a.word == 0 {
                push_all(out, vec![0x28u8, 0x6eu8, 0x75u8, 0x6cu8, 0x6cu8, 0x29u8].as_slice());
            } else {
                match &a.text {
                    Some(t) => {
                        if ptr_ok(a.word) {
                            push_all(out, t.as_slice());
                        } else {
                            push_all(
                                out,
                                vec![0x28u8, 0x62u8, 0x61u8, 0x64u8, 0x2du8, 0x70u8, 0x74u8, 0x72u8, 0x29u8].as_slice(),
                            );
                        }
                    },
                    None => {
                        push_all(
                            out,
                            vec![0x28u8, 0x62u8, 0x61u8, 0x64u8, 0x2du8, 0x70u8, 0x74u8, 0x72u8, 0x29u8].as_slice(),
                        );
                    },
                }
            }
        },
        ConvKind::Char => {
            out.push(a.word as u8);
            assert(out@ =~= old(out)@ + seq![a.word as u8]);
        },
        ConvKind::Ptr | ConvKind::Hex => {
            out.push(0x30u8);
            out.push(0x78u8);
            push_hex(out, a.word);
            assert(out@ =~= old(out)@ + (seq![0x30u8, 0x78u8] + hex_digits(a.word as nat)));
        },
        ConvKind::Dec => {
            push_dec(out, a.word);
        },
        ConvKind::Float => {
            push_all(out, vec![0x3cu8, 0x66u8, 0x70u8, 0x3eu8].as_slice());
        },
    }
}

/// Render parsed pieces: literals are copied and conversion `k` renders
/// argument `k` (nothing once the arguments run out, as when the va_list
/// read fails).
pub fn render_pieces(pieces: &[FmtPiece], args: &[GuestArg]) -> (out: Vec<u8>)
    ensures
        out@ == render(pieces@, args@),
{
    let mut out: Vec<u8> = Vec::new();
    let mut i: usize = 0;
    let mut k: usize = 0;
    while i < pieces.len()
        invariant
            i <= pieces@.len(),
            k as nat == conv_count(pieces@.subrange(0, i as int)),
            k <= i,
            out@ == render(pieces@.subrange(0, i as int), args@),
        decreases pieces@.len() - i,
    {
        let ghost pre = pieces@.subrange(0, i as int);
        let ghost next = pieces@.subrange(0, i + 1);
        proof {
            assert(next.drop_last() =~= pre);
            assert(next.last() == pieces@[i as int]);
        }
        match pieces[i] {
            FmtPiece::Lit(b) => {
                out.push(b);
                assert(out@ =~= render(pre, args@) + seq![b]);
            },
            FmtPiece::Conv(c) => {
                if k < args.len() {
                    push_conv(&mut out, c, &args[k]);
                } else {
                    assert(out@ =~= render(pre, args@) + Seq::<u8>::empty());
                }
                k = k + 1;
            },
        }
        i = i + 1;
    }
    assert(pieces@.subrange(0, pieces@.len() as int) =~= pieces@);
    out
}

/// The conversion kinds of `p`, in order.
pub open spec fn conv_seq(p: Seq<FmtPiece>) -> Seq<ConvKind>
    decreases p.len(),
{
    if p.len() == 0 {
        Seq::empty()
    } else {
        conv_seq(p.drop_last()) + match p.last() {
            FmtPiece::Conv(c) => seq![c],
            FmtPiece::Lit(_) => Seq::empty(),
        }
    }
}

/// There is one conversion kind per conversion piece.
pub proof fn lemma_conv_seq_len(p: Seq<FmtPiece>)
    ensures
        conv_seq(p).len() == conv_count(p),
    decreases p.len(),
{
    if p.len() > 0 {
        lemma_conv_seq_len(p.drop_last());
    }
}

/// The conversions of `pieces`, in order: which arguments the caller must
/// read from the va_list (a `%s` also needs its string).
pub fn conversions(pieces: &[FmtPiece]) -> (cs: Vec<ConvKind>)
    ensures
        cs@ == conv_seq(pieces@),
        cs@.len() == conv_count(pieces@),
{
    let mut cs: Vec<ConvKind> = Vec::new();
    let mut i: usize = 0;
    while i < pieces.len()
        invariant
            i <= pieces@.len(),
            cs@ == conv_seq(pieces@.subrange(0, i as int)),
        decreases pieces@.len() - i,
    {
        proof {
            assert(pieces@.subrange(0, i + 1).drop_last() =~= pieces@.subrange(0, i as int));
        }
        match pieces[i] {
            FmtPiece::Conv(c) => {
                cs.push(c);
                assert(cs@ =~= conv_seq(pieces@.subrange(0, i + 1)));
            },
            FmtPiece::Lit(_) => {
                assert(cs@ =~= conv_seq(pieces@.subrange(0, i + 1)));
            },
        }
        i = i + 1;
    }
    assert(pieces@.subrange(0, pieces@.len() as int) =~= pieces@);
    proof {
        lemma_conv_seq_len(pieces@);
    }
    cs
}

/// Render a guest `vfprintf` format (its bytes before the NUL) with the
/// arguments read from its va_list.
pub fn render_vfprintf(fmt: &[u8], args: &[GuestArg]) -> (out: Vec<u8>)
    ensures
        out@ == render(parse_from(c_str(fmt@), 0), args@),
{
    let pieces = parse_format(fmt);
    render_pieces(pieces.as_slice(), args)
}

/// How many rendered bytes fit a guest buffer of `size` bytes with room for
/// the NUL: min(size - 1, len), 0 when size is 0.
pub open spec fn spec_avail(size: u64, len: nat) -> nat {
    let room: nat = if size == 0 {
        0
    } else {
        (size - 1) as nat
    };
    if room < len {
        room
    } else {
        len
    }
}

/// The bounded copy of rendered output `out` into a guest buffer of `size`
/// bytes: the byte count written (not counting the NUL) and the bytes to
/// store, which are the first that many bytes and a NUL terminator, or
/// nothing at all when `size` is 0.
pub fn render_to_buf(out: &[u8], size: u64) -> (r: (u64, Vec<u8>))
    ensures
        r.0 == spec_avail(size, out@.len()),
        size == 0 ==> r.1@.len() == 0,
        size != 0 ==> r.1@ == out@.subrange(0, r.0 as int).push(0u8),
{
    let room = size.saturating_sub(1);
    let len = out.len() as u64;
    let avail = if room < len {
        room
    } else {
        len
    };
    let mut bytes: Vec<u8> = Vec::new();
    if size != 0 {
        let mut i: usize = 0;
        while (i as u64) < avail
            invariant
                avail <= out@.len(),
                i <= avail,
                bytes@ == out@.subrange(0, i as int),
            decreases avail - i,
        {
            bytes.push(out[i]);
            proof {
                assert(out@.subrange(0, i + 1) =~= out@.subrange(0, i as int).push(out@[i as int]));
            }
            i = i + 1;
        }
        bytes.push(0u8);
    }
    (avail, bytes)
}

/// A bounded render never overruns: what it stores (including the NUL)
/// fits the buffer, and an unbounded size copies the whole rendering.
pub proof fn law_bounded_render_fits(size: u64, len: nat)
    ensures
        size != 0 ==> spec_avail(size, len) + 1 <= size,
        spec_avail(size, len) <= len,
        size == u64::MAX && len < u64::MAX ==> spec_avail(size, len) == len,
{
}

} // verus!
