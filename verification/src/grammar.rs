//! What a reader finds at a position of a byte string.
//!
//! For each kind of value there is a function `.._at(s, pos)` that gives the
//! value that stands at `pos` and the position just behind it, or nothing.
//! The reader is generous. It takes a number in any integer form that holds
//! it, an array under any of the three heads, and a name under any string or
//! binary head. The writer always uses the shortest form, and whatever the
//! writer writes the reader finds (`.._complete`).

use crate::model::{ColorSpace, Scalar};
use crate::wire::{
    array_head, be16, be32, bool_wire, byte_wire, color_space_name, color_space_place,
    color_space_wire, opt_scalar_wire, opt_uint_wire, scalar_wire, uint_wire, ARRAY16, ARRAY32,
    FALSE, FIXARRAY, FLOAT32, MAX_ITEMS, NIL, TRUE, UINT16, UINT32, UINT8,
};

use vstd::prelude::*;

verus! {

/// The marker of a `uint 64`; eight bytes follow.
pub const UINT64: u8 = 0xcf;

/// The marker of an `int 8`; one byte follows.
pub const INT8: u8 = 0xd0;

/// The marker of an `int 16`; two bytes follow.
pub const INT16: u8 = 0xd1;

/// The marker of an `int 32`; four bytes follow.
pub const INT32: u8 = 0xd2;

/// The marker of an `int 64`; eight bytes follow.
pub const INT64: u8 = 0xd3;

/// The marker of a `fixstr` of no bytes; the length, below 32, is added.
pub const FIXSTR: u8 = 0xa0;

/// The marker of a `str 8`; one byte of length follows.
pub const STR8: u8 = 0xd9;

/// The marker of a `str 16`; two bytes of length follow.
pub const STR16: u8 = 0xda;

/// The marker of a `str 32`; four bytes of length follow.
pub const STR32: u8 = 0xdb;

/// The marker of a `bin 8`; one byte of length follows.
pub const BIN8: u8 = 0xc4;

/// The marker of a `bin 16`; two bytes of length follow.
pub const BIN16: u8 = 0xc5;

/// The marker of a `bin 32`; four bytes of length follow.
pub const BIN32: u8 = 0xc6;

/// The marker of a `fixmap` without entries; the count, below 16, is added.
pub const FIXMAP: u8 = 0x80;

/// The marker of a `map 16`; two bytes of count follow.
pub const MAP16: u8 = 0xde;

/// The marker of a `map 32`; four bytes of count follow.
pub const MAP32: u8 = 0xdf;

/// The bytes `w` are in `s`, starting at `pos`.
#[verifier::opaque]
pub open spec fn stands_at(s: Seq<u8>, pos: int, w: Seq<u8>) -> bool {
    0 <= pos && pos + w.len() <= s.len() && s.subrange(pos, pos + w.len()) == w
}

/// Two parts that stand one behind the other stand there as one.
pub proof fn lemma_stands_join(s: Seq<u8>, pos: int, a: Seq<u8>, b: Seq<u8>)
    requires
        stands_at(s, pos, a),
        stands_at(s, pos + a.len(), b),
    ensures
        stands_at(s, pos, a + b),
        (a + b).len() == a.len() + b.len(),
{
    reveal(stands_at);
    assert(s.subrange(pos, pos + (a + b).len()) =~= s.subrange(pos, pos + a.len()) + s.subrange(
        pos + a.len(),
        pos + a.len() + b.len(),
    ));
}

/// Where two parts stand as one, each stands in its place.
pub proof fn lemma_stands_parts(s: Seq<u8>, pos: int, a: Seq<u8>, b: Seq<u8>)
    requires
        stands_at(s, pos, a + b),
    ensures
        stands_at(s, pos, a),
        stands_at(s, pos + a.len(), b),
        (a + b).len() == a.len() + b.len(),
{
    reveal(stands_at);
    let whole = s.subrange(pos, pos + (a + b).len());
    assert(s.subrange(pos, pos + a.len()) =~= whole.subrange(0, a.len() as int));
    assert((a + b).subrange(0, a.len() as int) =~= a);
    assert(s.subrange(pos + a.len(), pos + a.len() + b.len()) =~= whole.subrange(
        a.len() as int,
        (a + b).len() as int,
    ));
    assert((a + b).subrange(a.len() as int, (a + b).len() as int) =~= b);
}

/// The number that two bytes hold, most significant first.
pub open spec fn word16(s: Seq<u8>, pos: int) -> int {
    s[pos] * 0x100 + s[pos + 1]
}

/// The number that four bytes hold, most significant first.
pub open spec fn word32(s: Seq<u8>, pos: int) -> int {
    s[pos] * 0x100_0000 + s[pos + 1] * 0x1_0000 + s[pos + 2] * 0x100 + s[pos + 3]
}

/// Two bytes are the two digits, to the base 256, of the number they hold.
pub proof fn lemma_digits16(b0: int, b1: int)
    requires
        0 <= b0 < 0x100,
        0 <= b1 < 0x100,
    ensures
        0 <= b0 * 0x100 + b1 < 0x1_0000,
        (b0 * 0x100 + b1) / 0x100 == b0,
        (b0 * 0x100 + b1) % 0x100 == b1,
{
    let v = b0 * 0x100 + b1;
    assert(v / 0x100 == b0 && v % 0x100 == b1) by (nonlinear_arith)
        requires
            v == b0 * 0x100 + b1,
            0 <= b0 < 0x100,
            0 <= b1 < 0x100,
    ;
}

/// Four bytes are the four digits, to the base 256, of the number they hold.
pub proof fn lemma_digits32(b0: int, b1: int, b2: int, b3: int)
    requires
        0 <= b0 < 0x100,
        0 <= b1 < 0x100,
        0 <= b2 < 0x100,
        0 <= b3 < 0x100,
    ensures
        0 <= b0 * 0x100_0000 + b1 * 0x1_0000 + b2 * 0x100 + b3 <= u32::MAX,
        (b0 * 0x100_0000 + b1 * 0x1_0000 + b2 * 0x100 + b3) / 0x100_0000 == b0,
        ((b0 * 0x100_0000 + b1 * 0x1_0000 + b2 * 0x100 + b3) / 0x1_0000) % 0x100 == b1,
        ((b0 * 0x100_0000 + b1 * 0x1_0000 + b2 * 0x100 + b3) / 0x100) % 0x100 == b2,
        (b0 * 0x100_0000 + b1 * 0x1_0000 + b2 * 0x100 + b3) % 0x100 == b3,
{
    let v = b0 * 0x100_0000 + b1 * 0x1_0000 + b2 * 0x100 + b3;
    let hi = b0 * 0x100 + b1;
    let mid = hi * 0x100 + b2;
    lemma_digits16(b0, b1);
    assert(mid / 0x100 == hi && mid % 0x100 == b2) by (nonlinear_arith)
        requires
            mid == hi * 0x100 + b2,
            0 <= hi,
            0 <= b2 < 0x100,
    ;
    assert(v / 0x100 == mid && v % 0x100 == b3) by (nonlinear_arith)
        requires
            v == mid * 0x100 + b3,
            0 <= mid,
            0 <= b3 < 0x100,
    ;
    assert(v / 0x1_0000 == hi) by (nonlinear_arith)
        requires
            v == hi * 0x1_0000 + (b2 * 0x100 + b3),
            0 <= hi,
            0 <= b2 * 0x100 + b3 < 0x1_0000,
    ;
    assert(v / 0x100_0000 == b0) by (nonlinear_arith)
        requires
            v == b0 * 0x100_0000 + (b1 * 0x1_0000 + b2 * 0x100 + b3),
            0 <= b0,
            0 <= b1 * 0x1_0000 + b2 * 0x100 + b3 < 0x100_0000,
    ;
}

/// A number below 2^32 is the sum of its four digits to the base 256.
pub proof fn lemma_split32(v: int)
    requires
        0 <= v <= u32::MAX,
    ensures
        v == (v / 0x100_0000) * 0x100_0000 + ((v / 0x1_0000) % 0x100) * 0x1_0000 + ((v / 0x100)
            % 0x100) * 0x100 + v % 0x100,
        0 <= v / 0x100_0000 < 0x100,
{
    let a = v / 0x100;
    let b = v / 0x1_0000;
    let c = v / 0x100_0000;
    assert(v == a * 0x100 + v % 0x100 && 0 <= a) by (nonlinear_arith)
        requires
            a == v / 0x100,
            0 <= v,
    ;
    assert(a == b * 0x100 + a % 0x100 && b == a / 0x100) by (nonlinear_arith)
        requires
            a == v / 0x100,
            b == v / 0x1_0000,
            0 <= v,
    ;
    assert(b == c * 0x100 + b % 0x100 && c == b / 0x100 && 0 <= c < 0x100) by (nonlinear_arith)
        requires
            b == v / 0x1_0000,
            c == v / 0x100_0000,
            0 <= v <= 0xffff_ffff,
    ;
}

/// Where the two bytes of a number stand, the string holds that number.
pub proof fn lemma_be16_word(s: Seq<u8>, pos: int, v: int)
    requires
        0 <= v < 0x1_0000,
        stands_at(s, pos, be16(v)),
    ensures
        word16(s, pos) == v,
{
    reveal(stands_at);
    reveal(be16);
    let w = s.subrange(pos, pos + 2);
    assert(w[0] == s[pos] && w[1] == s[pos + 1]);
    assert(v == (v / 0x100) * 0x100 + v % 0x100 && 0 <= v / 0x100 < 0x100) by (nonlinear_arith)
        requires
            0 <= v < 0x1_0000,
    ;
}

/// Where the four bytes of a number stand, the string holds that number.
pub proof fn lemma_be32_word(s: Seq<u8>, pos: int, v: u32)
    requires
        stands_at(s, pos, be32(v)),
    ensures
        word32(s, pos) == v,
{
    reveal(stands_at);
    reveal(be32);
    let w = s.subrange(pos, pos + 4);
    assert(w[0] == s[pos] && w[1] == s[pos + 1] && w[2] == s[pos + 2] && w[3] == s[pos + 3]);
    lemma_split32(v as int);
}

/// An unsigned integer below 2^32, in any integer form that holds it: the
/// one-byte form, `uint 8` to `uint 64`, or `int 8` to `int 64` where the
/// number is not negative.
#[verifier::opaque]
pub open spec fn uint_at(s: Seq<u8>, pos: int) -> Option<(u32, int)> {
    if pos < 0 || pos >= s.len() {
        None
    } else if s[pos] < 0x80 {
        Some((s[pos] as u32, pos + 1))
    } else if s[pos] == UINT8 || s[pos] == INT8 {
        if pos + 2 <= s.len() && (s[pos] == UINT8 || s[pos + 1] < 0x80) {
            Some((s[pos + 1] as u32, pos + 2))
        } else {
            None
        }
    } else if s[pos] == UINT16 || s[pos] == INT16 {
        if pos + 3 <= s.len() && (s[pos] == UINT16 || s[pos + 1] < 0x80) {
            Some((word16(s, pos + 1) as u32, pos + 3))
        } else {
            None
        }
    } else if s[pos] == UINT32 || s[pos] == INT32 {
        if pos + 5 <= s.len() && (s[pos] == UINT32 || s[pos + 1] < 0x80) {
            Some((word32(s, pos + 1) as u32, pos + 5))
        } else {
            None
        }
    } else if s[pos] == UINT64 || s[pos] == INT64 {
        if pos + 9 <= s.len() && word32(s, pos + 1) == 0 {
            Some((word32(s, pos + 5) as u32, pos + 9))
        } else {
            None
        }
    } else {
        None
    }
}

/// An unsigned integer written at `pos` is found there by [`uint_at`].
pub proof fn lemma_uint_complete(s: Seq<u8>, pos: int, v: u32)
    requires
        stands_at(s, pos, uint_wire(v)),
    ensures
        uint_at(s, pos) == Some((v, pos + uint_wire(v).len())),
{
    reveal(stands_at);
    reveal(be16);
    reveal(be32);
    reveal(uint_at);
    reveal(uint_wire);
    let w = s.subrange(pos, pos + uint_wire(v).len());
    assert(w[0] == s[pos]);
    if v < 0x80 {
    } else if v < 0x100 {
        assert(w[1] == s[pos + 1]);
    } else if v < 0x1_0000 {
        lemma_stands_parts(s, pos, seq![UINT16], be16(v as int));
        lemma_be16_word(s, pos + 1, v as int);
    } else {
        lemma_stands_parts(s, pos, seq![UINT32], be32(v));
        lemma_be32_word(s, pos + 1, v);
    }
}

/// One channel value: an unsigned integer below 256, in any integer form.
pub open spec fn byte_at(s: Seq<u8>, pos: int) -> Option<(u8, int)> {
    match uint_at(s, pos) {
        Some((v, end)) => if v < 0x100 {
            Some((v as u8, end))
        } else {
            None
        },
        None => None,
    }
}

/// A channel value written at `pos` is found there by [`byte_at`].
pub proof fn lemma_byte_complete(s: Seq<u8>, pos: int, b: u8)
    requires
        stands_at(s, pos, byte_wire(b)),
    ensures
        byte_at(s, pos) == Some((b, pos + byte_wire(b).len())),
{
    lemma_uint_complete(s, pos, b as u32);
}

/// A scalar at `pos`, and the position behind it: a `float 32` and no other
/// form. A `float 64` would have to be rounded and an integer converted.
#[verifier::opaque]
pub open spec fn scalar_at(s: Seq<u8>, pos: int) -> Option<(Scalar, int)> {
    if 0 <= pos && pos + 5 <= s.len() && s[pos] == FLOAT32 {
        Some((Scalar { bits: word32(s, pos + 1) as u32 }, pos + 5))
    } else {
        None
    }
}

/// A scalar written at `pos` is found there by [`scalar_at`].
pub proof fn lemma_scalar_complete(s: Seq<u8>, pos: int, x: Scalar)
    requires
        stands_at(s, pos, scalar_wire(x)),
    ensures
        scalar_at(s, pos) == Some((x, pos + scalar_wire(x).len())),
{
    reveal(stands_at);
    reveal(be32);
    reveal(scalar_at);
    reveal(scalar_wire);
    let w = s.subrange(pos, pos + scalar_wire(x).len());
    assert(w[0] == s[pos]);
    lemma_stands_parts(s, pos, seq![FLOAT32], be32(x.bits));
    lemma_be32_word(s, pos + 1, x.bits);
}

/// A boolean at `pos`, and the position behind it.
#[verifier::opaque]
pub open spec fn bool_at(s: Seq<u8>, pos: int) -> Option<(bool, int)> {
    if 0 <= pos < s.len() && s[pos] == TRUE {
        Some((true, pos + 1))
    } else if 0 <= pos < s.len() && s[pos] == FALSE {
        Some((false, pos + 1))
    } else {
        None
    }
}

/// A boolean written at `pos` is found there by [`bool_at`].
pub proof fn lemma_bool_complete(s: Seq<u8>, pos: int, b: bool)
    requires
        stands_at(s, pos, bool_wire(b)),
    ensures
        bool_at(s, pos) == Some((b, pos + bool_wire(b).len())),
{
    reveal(stands_at);
    reveal(bool_at);
    reveal(bool_wire);
    let w = s.subrange(pos, pos + 1);
    assert(w[0] == s[pos]);
}

/// `nil` for an absent index, otherwise the index.
#[verifier::opaque]
pub open spec fn opt_uint_at(s: Seq<u8>, pos: int) -> Option<(Option<u32>, int)> {
    if 0 <= pos < s.len() && s[pos] == NIL {
        Some((None, pos + 1))
    } else {
        match uint_at(s, pos) {
            Some((v, end)) => Some((Some(v), end)),
            None => None,
        }
    }
}

/// An optional index written at `pos` is found there by [`opt_uint_at`].
pub proof fn lemma_opt_uint_complete(s: Seq<u8>, pos: int, o: Option<u32>)
    requires
        stands_at(s, pos, opt_uint_wire(o)),
    ensures
        opt_uint_at(s, pos) == Some((o, pos + opt_uint_wire(o).len())),
{
    reveal(stands_at);
    reveal(opt_uint_at);
    reveal(opt_uint_wire);
    reveal(uint_wire);
    reveal(uint_at);
    let w = s.subrange(pos, pos + opt_uint_wire(o).len());
    assert(w[0] == s[pos]);
    match o {
        Some(v) => {
            lemma_uint_complete(s, pos, v);
        },
        None => {},
    }
}

/// An optional scalar at `pos`, and the position behind it.
#[verifier::opaque]
pub open spec fn opt_scalar_at(s: Seq<u8>, pos: int) -> Option<(Option<Scalar>, int)> {
    if 0 <= pos < s.len() && s[pos] == NIL {
        Some((None, pos + 1))
    } else {
        match scalar_at(s, pos) {
            Some((x, end)) => Some((Some(x), end)),
            None => None,
        }
    }
}

/// An optional scalar written at `pos` is found there by [`opt_scalar_at`].
pub proof fn lemma_opt_scalar_complete(s: Seq<u8>, pos: int, o: Option<Scalar>)
    requires
        stands_at(s, pos, opt_scalar_wire(o)),
    ensures
        opt_scalar_at(s, pos) == Some((o, pos + opt_scalar_wire(o).len())),
{
    reveal(stands_at);
    reveal(opt_scalar_at);
    reveal(opt_scalar_wire);
    reveal(scalar_wire);
    reveal(scalar_at);
    let w = s.subrange(pos, pos + opt_scalar_wire(o).len());
    assert(w[0] == s[pos]);
    match o {
        Some(x) => {
            lemma_scalar_complete(s, pos, x);
        },
        None => {},
    }
}

/// A count under one of three heads: a one-byte head that starts at `fix`
/// and holds a count below 16, or the head `wide`, or the head `wide + 1`,
/// with two and four bytes of count.
pub open spec fn count_at(s: Seq<u8>, pos: int, fix: u8, wide: u8) -> Option<(u32, int)> {
    if pos < 0 || pos >= s.len() {
        None
    } else if fix <= s[pos] < fix + 16 {
        Some(((s[pos] - fix) as u32, pos + 1))
    } else if s[pos] == wide {
        if pos + 3 <= s.len() {
            Some((word16(s, pos + 1) as u32, pos + 3))
        } else {
            None
        }
    } else if s[pos] == wide + 1 {
        if pos + 5 <= s.len() {
            Some((word32(s, pos + 1) as u32, pos + 5))
        } else {
            None
        }
    } else {
        None
    }
}

/// An array head in any of its three forms: the number of items it
/// announces.
#[verifier::opaque]
pub open spec fn head_at(s: Seq<u8>, pos: int) -> Option<(u32, int)> {
    count_at(s, pos, FIXARRAY, ARRAY16)
}

/// A map head in any of its three forms: the number of entries it announces.
#[verifier::opaque]
pub open spec fn map_head_at(s: Seq<u8>, pos: int) -> Option<(u32, int)> {
    count_at(s, pos, FIXMAP, MAP16)
}

/// An array head written at `pos` is found there by [`head_at`].
pub proof fn lemma_head_complete(s: Seq<u8>, pos: int, n: nat)
    requires
        n <= MAX_ITEMS,
        stands_at(s, pos, array_head(n)),
    ensures
        head_at(s, pos) == Some((n as u32, pos + array_head(n).len())),
{
    reveal(stands_at);
    reveal(be16);
    reveal(be32);
    reveal(head_at);
    reveal(array_head);
    let w = s.subrange(pos, pos + array_head(n).len());
    assert(w[0] == s[pos]);
    if n < 16 {
    } else if n < 0x1_0000 {
        lemma_stands_parts(s, pos, seq![ARRAY16], be16(n as int));
        lemma_be16_word(s, pos + 1, n as int);
    } else {
        lemma_stands_parts(s, pos, seq![ARRAY32], be32(n as u32));
        lemma_be32_word(s, pos + 1, n as u32);
    }
}

/// The head of a record of exactly `n` fields, written as an array.
pub open spec fn fields_at(s: Seq<u8>, pos: int, n: u32) -> Option<int> {
    match head_at(s, pos) {
        Some((found, end)) => if found == n {
            Some(end)
        } else {
            None
        },
        None => None,
    }
}

/// A run of bytes under a string or a binary head of any form: where the
/// bytes begin, and the position behind them.
#[verifier::opaque]
pub open spec fn blob_at(s: Seq<u8>, pos: int) -> Option<(int, int)> {
    if pos < 0 || pos >= s.len() {
        None
    } else if FIXSTR <= s[pos] < FIXSTR + 32 {
        if pos + 1 + (s[pos] - FIXSTR) <= s.len() {
            Some((pos + 1, pos + 1 + (s[pos] - FIXSTR)))
        } else {
            None
        }
    } else if s[pos] == STR8 || s[pos] == BIN8 {
        if pos + 2 <= s.len() && pos + 2 + s[pos + 1] <= s.len() {
            Some((pos + 2, pos + 2 + s[pos + 1]))
        } else {
            None
        }
    } else if s[pos] == STR16 || s[pos] == BIN16 {
        if pos + 3 <= s.len() && pos + 3 + word16(s, pos + 1) <= s.len() {
            Some((pos + 3, pos + 3 + word16(s, pos + 1)))
        } else {
            None
        }
    } else if s[pos] == STR32 || s[pos] == BIN32 {
        if pos + 5 <= s.len() && pos + 5 + word32(s, pos + 1) <= s.len() {
            Some((pos + 5, pos + 5 + word32(s, pos + 1)))
        } else {
            None
        }
    } else {
        None
    }
}

/// A run of bytes under a binary head of any form: where the bytes begin,
/// and the position behind them.
#[verifier::opaque]
pub open spec fn bin_at(s: Seq<u8>, pos: int) -> Option<(int, int)> {
    if pos < 0 || pos >= s.len() {
        None
    } else if s[pos] == BIN8 {
        if pos + 2 <= s.len() && pos + 2 + s[pos + 1] <= s.len() {
            Some((pos + 2, pos + 2 + s[pos + 1]))
        } else {
            None
        }
    } else if s[pos] == BIN16 {
        if pos + 3 <= s.len() && pos + 3 + word16(s, pos + 1) <= s.len() {
            Some((pos + 3, pos + 3 + word16(s, pos + 1)))
        } else {
            None
        }
    } else if s[pos] == BIN32 {
        if pos + 5 <= s.len() && pos + 5 + word32(s, pos + 1) <= s.len() {
            Some((pos + 5, pos + 5 + word32(s, pos + 1)))
        } else {
            None
        }
    } else {
        None
    }
}

/// A number that counts from zero, in one of the unsigned forms: the
/// one-byte form or `uint 8` to `uint 64`. This is how a field or a variant
/// may be named by its place.
#[verifier::opaque]
pub open spec fn index_at(s: Seq<u8>, pos: int) -> Option<(int, int)> {
    if pos < 0 || pos >= s.len() {
        None
    } else if s[pos] < 0x80 {
        Some((s[pos] as int, pos + 1))
    } else if s[pos] == UINT8 {
        if pos + 2 <= s.len() {
            Some((s[pos + 1] as int, pos + 2))
        } else {
            None
        }
    } else if s[pos] == UINT16 {
        if pos + 3 <= s.len() {
            Some((word16(s, pos + 1), pos + 3))
        } else {
            None
        }
    } else if s[pos] == UINT32 {
        if pos + 5 <= s.len() {
            Some((word32(s, pos + 1), pos + 5))
        } else {
            None
        }
    } else if s[pos] == UINT64 {
        if pos + 9 <= s.len() {
            Some((word32(s, pos + 1) * 0x1_0000_0000 + word32(s, pos + 5), pos + 9))
        } else {
            None
        }
    } else {
        None
    }
}

/// The color space that the bytes `name` spell, if they spell one.
pub open spec fn color_space_named(name: Seq<u8>) -> Option<ColorSpace> {
    if name == color_space_name(ColorSpace::SRGB) {
        Some(ColorSpace::SRGB)
    } else {
        None
    }
}

/// The color space that stands at the place `place`, if one does.
pub open spec fn color_space_placed(place: int) -> Option<ColorSpace> {
    if place == color_space_place(ColorSpace::SRGB) {
        Some(ColorSpace::SRGB)
    } else {
        None
    }
}

/// A variant at `pos`: its name under any string or binary head, or its
/// place among the variants.
#[verifier::opaque]
pub open spec fn variant_at(s: Seq<u8>, pos: int) -> Option<(ColorSpace, int)> {
    match blob_at(s, pos) {
        Some((start, end)) => match color_space_named(s.subrange(start, end)) {
            Some(c) => Some((c, end)),
            None => None,
        },
        None => match index_at(s, pos) {
            Some((place, end)) => match color_space_placed(place) {
                Some(c) => Some((c, end)),
                None => None,
            },
            None => None,
        },
    }
}

/// A color space at `pos`: the variant alone, or a map of one entry from
/// the variant to `nil`.
#[verifier::opaque]
pub open spec fn color_space_at(s: Seq<u8>, pos: int) -> Option<(ColorSpace, int)> {
    match map_head_at(s, pos) {
        Some((n, start)) => if n == 1 {
            match variant_at(s, start) {
                Some((c, end)) => if 0 <= end < s.len() && s[end] == NIL {
                    Some((c, end + 1))
                } else {
                    None
                },
                None => None,
            }
        } else {
            None
        },
        None => variant_at(s, pos),
    }
}

/// A color space written at `pos` is found there by [`color_space_at`].
pub proof fn lemma_color_space_complete(s: Seq<u8>, pos: int, c: ColorSpace)
    requires
        stands_at(s, pos, color_space_wire(c)),
    ensures
        color_space_at(s, pos) == Some((c, pos + color_space_wire(c).len())),
{
    reveal(stands_at);
    reveal(color_space_at);
    reveal(variant_at);
    reveal(map_head_at);
    reveal(color_space_wire);
    reveal(blob_at);
    let w = s.subrange(pos, pos + 5);
    assert(w[0] == s[pos] && w[1] == s[pos + 1] && w[2] == s[pos + 2] && w[3] == s[pos + 3]
        && w[4] == s[pos + 4]);
    assert(s.subrange(pos + 1, pos + 5) =~= color_space_name(c));
}

/// What one value takes for itself, and how many values are nested in it:
/// the position behind its head and its own bytes, and the number of items
/// of an array or of keys and values of a map that follow.
#[verifier::opaque]
pub open spec fn value_head_at(s: Seq<u8>, pos: int) -> Option<(int, nat)> {
    if pos < 0 || pos >= s.len() {
        None
    } else {
        let m = s[pos];
        let step: Option<(int, nat)> = if m < 0x80 || m >= 0xe0 || m == NIL || m == FALSE || m
            == TRUE {
            Some((pos + 1, 0nat))
        } else if m < 0x90 {
            Some((pos + 1, (2 * (m - FIXMAP)) as nat))
        } else if m < 0xa0 {
            Some((pos + 1, (m - FIXARRAY) as nat))
        } else if m < 0xc0 {
            Some((pos + 1 + (m - FIXSTR), 0nat))
        } else if m == 0xc1 {
            None
        } else if m == BIN8 || m == STR8 {
            if pos + 2 <= s.len() {
                Some((pos + 2 + s[pos + 1], 0nat))
            } else {
                None
            }
        } else if m == BIN16 || m == STR16 {
            if pos + 3 <= s.len() {
                Some((pos + 3 + word16(s, pos + 1), 0nat))
            } else {
                None
            }
        } else if m == BIN32 || m == STR32 {
            if pos + 5 <= s.len() {
                Some((pos + 5 + word32(s, pos + 1), 0nat))
            } else {
                None
            }
        } else if m == 0xc7 {
            if pos + 2 <= s.len() {
                Some((pos + 3 + s[pos + 1], 0nat))
            } else {
                None
            }
        } else if m == 0xc8 {
            if pos + 3 <= s.len() {
                Some((pos + 4 + word16(s, pos + 1), 0nat))
            } else {
                None
            }
        } else if m == 0xc9 {
            if pos + 5 <= s.len() {
                Some((pos + 6 + word32(s, pos + 1), 0nat))
            } else {
                None
            }
        } else if m == FLOAT32 || m == UINT32 || m == INT32 {
            Some((pos + 5, 0nat))
        } else if m == 0xcb || m == UINT64 || m == INT64 {
            Some((pos + 9, 0nat))
        } else if m == UINT8 || m == INT8 {
            Some((pos + 2, 0nat))
        } else if m == UINT16 || m == INT16 {
            Some((pos + 3, 0nat))
        } else if m == 0xd4 {
            Some((pos + 3, 0nat))
        } else if m == 0xd5 {
            Some((pos + 4, 0nat))
        } else if m == 0xd6 {
            Some((pos + 6, 0nat))
        } else if m == 0xd7 {
            Some((pos + 10, 0nat))
        } else if m == 0xd8 {
            Some((pos + 18, 0nat))
        } else if m == ARRAY16 {
            if pos + 3 <= s.len() {
                Some((pos + 3, word16(s, pos + 1) as nat))
            } else {
                None
            }
        } else if m == ARRAY32 {
            if pos + 5 <= s.len() {
                Some((pos + 5, word32(s, pos + 1) as nat))
            } else {
                None
            }
        } else if m == MAP16 {
            if pos + 3 <= s.len() {
                Some((pos + 3, (2 * word16(s, pos + 1)) as nat))
            } else {
                None
            }
        } else {
            if pos + 5 <= s.len() {
                Some((pos + 5, (2 * word32(s, pos + 1)) as nat))
            } else {
                None
            }
        };
        match step {
            Some((next, nested)) => if next <= s.len() {
                Some((next, nested))
            } else {
                None
            },
            None => None,
        }
    }
}

/// The position behind `pending` values of any kind, one after another,
/// each with all that is nested in it.
pub open spec fn skip_at(s: Seq<u8>, pos: int, pending: nat) -> Option<int>
    decreases s.len() - pos,
{
    if pending == 0 {
        Some(pos)
    } else if pos < 0 || pending > s.len() - pos {
        None
    } else {
        match value_head_at(s, pos) {
            Some((next, nested)) => if pos < next <= s.len() {
                skip_at(s, next, (pending - 1 + nested) as nat)
            } else {
                None
            },
            None => None,
        }
    }
}

} // verus!
