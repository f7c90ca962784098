//! The reader: from the bytes of a document to a container.
//!
//! Every function reads at a position and gives the value together with the
//! position behind it, exactly as the grammar says. Nothing is read past the
//! end of the input and nothing is allocated on the word of a head: a
//! sequence grows only as its items are found.

use crate::document::{
    container_at, container_names, container_row_at, image_at, image_finder, image_names,
    image_row_at, model_at, model_finder, model_names, model_row_at, reads_as,
};
use crate::grammar::{
    bin_at, blob_at, bool_at, byte_at, color_space_at, variant_at, count_at, fields_at, head_at, index_at,
    map_head_at, opt_scalar_at, opt_uint_at, scalar_at, skip_at, uint_at, value_head_at, word16,
    word32, BIN16, BIN32, BIN8, FIXMAP, FIXSTR, INT16, INT32, INT64, INT8, MAP16, STR16, STR32,
    STR8, UINT64,
};
use crate::lists::{
    byte_finder, indices_at, items_at, list_at, material_finder, pixels_at, uint_finder,
    vertex_finder, widened,
};
use crate::maps::{entries_at, find_name, kept, kept_or_absent, key_at, map_at, no_slots, start_of};
use crate::model::{
    image_values, model_values, ColorSpace, Molehill, Molemage, Moledel, Moleterial, Moletex,
    Scalar, Vec2, Vec3, Vec4,
};
use crate::records::{
    color_at, color_in, mapping_at, mapping_in, material_at, material_names, material_of,
    material_row_at, surface_at, surface_in, vec2_at, vec3_at, vec4_at, vertex_at, vertex_names,
    vertex_row_at, MaterialColor, MaterialMapping, MaterialSurface,
};
use crate::wire::{
    color_space_name, ARRAY16, FALSE, FIXARRAY, FLOAT32, NIL, TRUE, UINT16, UINT32, UINT8,
};
use vstd::prelude::*;

verus! {

/// An exec result agrees with what the grammar finds, and ends inside the
/// input, behind where it began.
spec fn agrees<T>(
    result: Option<(T, usize)>,
    found: Option<(T, int)>,
    pos: usize,
    len: nat,
) -> bool {
    match result {
        Some((v, end)) => found == Some((v, end as int)) && pos < end <= len,
        None => found is None,
    }
}

/// A slot of the reader, as the grammar has it.
spec fn slot_of(slot: Option<(usize, usize)>) -> Option<(int, int)> {
    match slot {
        Some((start, end)) => Some((start as int, end as int)),
        None => None,
    }
}

/// The slots of the reader, as the grammar has them.
spec fn slots_of(slots: Seq<Option<(usize, usize)>>) -> Seq<Option<(int, int)>> {
    Seq::new(slots.len(), |i: int| slot_of(slots[i]))
}

/// The names of a table, as the grammar has them.
spec fn names_of(names: Seq<Vec<u8>>) -> Seq<Seq<u8>> {
    Seq::new(names.len(), |i: int| names[i]@)
}

/// Every slot that is filled lies inside the input.
spec fn slots_inside(slots: Seq<Option<(usize, usize)>>, len: nat) -> bool {
    forall|i: int|
        0 <= i < slots.len() ==> ((#[trigger] slots[i]) matches Some((start, end)) ==> start
            <= end <= len)
}

fn get16(bytes: &[u8], pos: usize) -> (v: u32)
    requires
        pos + 2 <= bytes@.len(),
    ensures
        v == word16(bytes@, pos as int),
{
    bytes[pos] as u32 * 0x100 + bytes[pos + 1] as u32
}

fn get32(bytes: &[u8], pos: usize) -> (v: u32)
    requires
        pos + 4 <= bytes@.len(),
    ensures
        v == word32(bytes@, pos as int),
{
    bytes[pos] as u32 * 0x100_0000 + bytes[pos + 1] as u32 * 0x1_0000 + bytes[pos + 2] as u32
        * 0x100 + bytes[pos + 3] as u32
}

fn read_uint(bytes: &[u8], pos: usize) -> (r: Option<(u32, usize)>)
    requires
        pos <= bytes@.len(),
    ensures
        agrees(r, uint_at(bytes@, pos as int), pos, bytes@.len()),
{
    proof {
        reveal(uint_at);
    }
    let len: usize = bytes.len();
    if pos >= len {
        return None;
    }
    let marker: u8 = bytes[pos];
    let room: usize = len - pos;
    if marker < 0x80 {
        Some((marker as u32, pos + 1))
    } else if marker == UINT8 || marker == INT8 {
        if room >= 2 && (marker == UINT8 || bytes[pos + 1] < 0x80) {
            Some((bytes[pos + 1] as u32, pos + 2))
        } else {
            None
        }
    } else if marker == UINT16 || marker == INT16 {
        if room >= 3 && (marker == UINT16 || bytes[pos + 1] < 0x80) {
            Some((get16(bytes, pos + 1), pos + 3))
        } else {
            None
        }
    } else if marker == UINT32 || marker == INT32 {
        if room >= 5 && (marker == UINT32 || bytes[pos + 1] < 0x80) {
            Some((get32(bytes, pos + 1), pos + 5))
        } else {
            None
        }
    } else if marker == UINT64 || marker == INT64 {
        if room >= 9 && get32(bytes, pos + 1) == 0 {
            Some((get32(bytes, pos + 5), pos + 9))
        } else {
            None
        }
    } else {
        None
    }
}

fn read_byte(bytes: &[u8], pos: usize) -> (r: Option<(u8, usize)>)
    requires
        pos <= bytes@.len(),
    ensures
        agrees(r, byte_at(bytes@, pos as int), pos, bytes@.len()),
{
    match read_uint(bytes, pos) {
        Some((v, end)) => if v < 0x100 {
            Some((v as u8, end))
        } else {
            None
        },
        None => None,
    }
}

fn read_scalar(bytes: &[u8], pos: usize) -> (r: Option<(Scalar, usize)>)
    requires
        pos <= bytes@.len(),
    ensures
        agrees(r, scalar_at(bytes@, pos as int), pos, bytes@.len()),
{
    proof {
        reveal(scalar_at);
    }
    let len: usize = bytes.len();
    if len - pos >= 5 && bytes[pos] == FLOAT32 {
        Some((Scalar { bits: get32(bytes, pos + 1) }, pos + 5))
    } else {
        None
    }
}

fn read_bool(bytes: &[u8], pos: usize) -> (r: Option<(bool, usize)>)
    requires
        pos <= bytes@.len(),
    ensures
        agrees(r, bool_at(bytes@, pos as int), pos, bytes@.len()),
{
    proof {
        reveal(bool_at);
    }
    if pos >= bytes.len() {
        return None;
    }
    let marker: u8 = bytes[pos];
    if marker == TRUE {
        Some((true, pos + 1))
    } else if marker == FALSE {
        Some((false, pos + 1))
    } else {
        None
    }
}

fn read_opt_uint(bytes: &[u8], pos: usize) -> (r: Option<(Option<u32>, usize)>)
    requires
        pos <= bytes@.len(),
    ensures
        agrees(r, opt_uint_at(bytes@, pos as int), pos, bytes@.len()),
{
    proof {
        reveal(opt_uint_at);
    }
    if pos < bytes.len() && bytes[pos] == NIL {
        return Some((None, pos + 1));
    }
    match read_uint(bytes, pos) {
        Some((v, end)) => Some((Some(v), end)),
        None => None,
    }
}

fn read_opt_scalar(bytes: &[u8], pos: usize) -> (r: Option<(Option<Scalar>, usize)>)
    requires
        pos <= bytes@.len(),
    ensures
        agrees(r, opt_scalar_at(bytes@, pos as int), pos, bytes@.len()),
{
    proof {
        reveal(opt_scalar_at);
    }
    if pos < bytes.len() && bytes[pos] == NIL {
        return Some((None, pos + 1));
    }
    match read_scalar(bytes, pos) {
        Some((x, end)) => Some((Some(x), end)),
        None => None,
    }
}

/// Reads a count under a one-byte head from `fix` on, or under the heads
/// `wide` and `wide + 1`.
fn read_count(bytes: &[u8], pos: usize, fix: u8, wide: u8) -> (r: Option<(u32, usize)>)
    requires
        pos <= bytes@.len(),
        fix <= 0xf0,
        wide < 0xff,
    ensures
        agrees(r, count_at(bytes@, pos as int, fix, wide), pos, bytes@.len()),
{
    let len: usize = bytes.len();
    if pos >= len {
        return None;
    }
    let marker: u8 = bytes[pos];
    if fix <= marker && marker - fix < 16 {
        Some(((marker - fix) as u32, pos + 1))
    } else if marker == wide {
        if len - pos >= 3 {
            Some((get16(bytes, pos + 1), pos + 3))
        } else {
            None
        }
    } else if marker == wide + 1 {
        if len - pos >= 5 {
            Some((get32(bytes, pos + 1), pos + 5))
        } else {
            None
        }
    } else {
        None
    }
}

fn read_head(bytes: &[u8], pos: usize) -> (r: Option<(u32, usize)>)
    requires
        pos <= bytes@.len(),
    ensures
        agrees(r, head_at(bytes@, pos as int), pos, bytes@.len()),
{
    proof {
        reveal(head_at);
    }
    read_count(bytes, pos, FIXARRAY, ARRAY16)
}

fn read_map_head(bytes: &[u8], pos: usize) -> (r: Option<(u32, usize)>)
    requires
        pos <= bytes@.len(),
    ensures
        agrees(r, map_head_at(bytes@, pos as int), pos, bytes@.len()),
{
    proof {
        reveal(map_head_at);
    }
    read_count(bytes, pos, FIXMAP, MAP16)
}

/// Reads the head of a record of `n` fields that is written as an array.
fn read_fields(bytes: &[u8], pos: usize, n: u32) -> (r: Option<usize>)
    requires
        pos <= bytes@.len(),
    ensures
        match r {
            Some(end) => fields_at(bytes@, pos as int, n) == Some(end as int) && pos < end
                <= bytes@.len(),
            None => fields_at(bytes@, pos as int, n) is None,
        },
{
    match read_head(bytes, pos) {
        Some((found, end)) => if found == n {
            Some(end)
        } else {
            None
        },
        None => None,
    }
}

/// A run of `size` bytes from `start` on, if the input holds it.
fn run(bytes: &[u8], start: usize, size: usize) -> (r: Option<(usize, usize)>)
    requires
        start <= bytes@.len(),
    ensures
        match r {
            Some((a, b)) => a == start && b == start + size && b <= bytes@.len(),
            None => start + size > bytes@.len(),
        },
{
    if size <= bytes.len() - start {
        Some((start, start + size))
    } else {
        None
    }
}

fn read_bin(bytes: &[u8], pos: usize) -> (r: Option<(usize, usize)>)
    requires
        pos <= bytes@.len(),
    ensures
        match r {
            Some((start, end)) => bin_at(bytes@, pos as int) == Some((start as int, end as int))
                && pos < start <= end <= bytes@.len(),
            None => bin_at(bytes@, pos as int) is None,
        },
{
    proof {
        reveal(bin_at);
    }
    let len: usize = bytes.len();
    if pos >= len {
        return None;
    }
    let marker: u8 = bytes[pos];
    let room: usize = len - pos;
    if marker == BIN8 {
        if room >= 2 {
            run(bytes, pos + 2, bytes[pos + 1] as usize)
        } else {
            None
        }
    } else if marker == BIN16 {
        if room >= 3 {
            run(bytes, pos + 3, get16(bytes, pos + 1) as usize)
        } else {
            None
        }
    } else if marker == BIN32 {
        if room >= 5 {
            run(bytes, pos + 5, get32(bytes, pos + 1) as usize)
        } else {
            None
        }
    } else {
        None
    }
}

fn read_blob(bytes: &[u8], pos: usize) -> (r: Option<(usize, usize)>)
    requires
        pos <= bytes@.len(),
    ensures
        match r {
            Some((start, end)) => blob_at(bytes@, pos as int) == Some((start as int, end as int))
                && pos < start <= end <= bytes@.len(),
            None => blob_at(bytes@, pos as int) is None,
        },
{
    proof {
        reveal(blob_at);
    }
    let len: usize = bytes.len();
    if pos >= len {
        return None;
    }
    let marker: u8 = bytes[pos];
    let room: usize = len - pos;
    if FIXSTR <= marker && marker - FIXSTR < 32 {
        run(bytes, pos + 1, (marker - FIXSTR) as usize)
    } else if marker == STR8 || marker == BIN8 {
        if room >= 2 {
            run(bytes, pos + 2, bytes[pos + 1] as usize)
        } else {
            None
        }
    } else if marker == STR16 || marker == BIN16 {
        if room >= 3 {
            run(bytes, pos + 3, get16(bytes, pos + 1) as usize)
        } else {
            None
        }
    } else if marker == STR32 || marker == BIN32 {
        if room >= 5 {
            run(bytes, pos + 5, get32(bytes, pos + 1) as usize)
        } else {
            None
        }
    } else {
        None
    }
}

fn read_index(bytes: &[u8], pos: usize) -> (r: Option<(u64, usize)>)
    requires
        pos <= bytes@.len(),
    ensures
        match r {
            Some((place, end)) => index_at(bytes@, pos as int) == Some((place as int, end as int))
                && pos < end <= bytes@.len(),
            None => index_at(bytes@, pos as int) is None,
        },
{
    proof {
        reveal(index_at);
    }
    let len: usize = bytes.len();
    if pos >= len {
        return None;
    }
    let marker: u8 = bytes[pos];
    let room: usize = len - pos;
    if marker < 0x80 {
        Some((marker as u64, pos + 1))
    } else if marker == UINT8 {
        if room >= 2 {
            Some((bytes[pos + 1] as u64, pos + 2))
        } else {
            None
        }
    } else if marker == UINT16 {
        if room >= 3 {
            Some((get16(bytes, pos + 1) as u64, pos + 3))
        } else {
            None
        }
    } else if marker == UINT32 {
        if room >= 5 {
            Some((get32(bytes, pos + 1) as u64, pos + 5))
        } else {
            None
        }
    } else if marker == UINT64 {
        if room >= 9 {
            let high: u64 = get32(bytes, pos + 1) as u64;
            let low: u64 = get32(bytes, pos + 5) as u64;
            Some((high * 0x1_0000_0000 + low, pos + 9))
        } else {
            None
        }
    } else {
        None
    }
}

/// Whether the bytes from `start` to `end` are the bytes of `name`.
fn same(bytes: &[u8], start: usize, end: usize, name: &Vec<u8>) -> (r: bool)
    requires
        start <= end <= bytes@.len(),
    ensures
        r == (bytes@.subrange(start as int, end as int) == name@),
{
    let n: usize = name.len();
    if end - start != n {
        return false;
    }
    let mut i: usize = 0;
    while i < n
        invariant
            i <= n,
            n == name@.len(),
            n == end - start,
            start <= end <= bytes@.len(),
            forall|j: int| 0 <= j < i ==> bytes@[start + j] == name@[j],
        decreases n - i,
    {
        if bytes[start + i] != name[i] {
            assert(bytes@.subrange(start as int, end as int)[i as int] != name@[i as int]);
            return false;
        }
        i += 1;
    }
    assert(bytes@.subrange(start as int, end as int) =~= name@);
    true
}

fn read_variant(bytes: &[u8], pos: usize) -> (r: Option<(ColorSpace, usize)>)
    requires
        pos <= bytes@.len(),
    ensures
        agrees(r, variant_at(bytes@, pos as int), pos, bytes@.len()),
{
    proof {
        reveal(variant_at);
    }
    match read_blob(bytes, pos) {
        Some((start, end)) => {
            let name: Vec<u8> = vec![0x53, 0x52, 0x47, 0x42];
            assert(name@ =~= color_space_name(ColorSpace::SRGB));
            if same(bytes, start, end, &name) {
                Some((ColorSpace::SRGB, end))
            } else {
                None
            }
        },
        None => match read_index(bytes, pos) {
            Some((place, end)) => if place == 0 {
                Some((ColorSpace::SRGB, end))
            } else {
                None
            },
            None => None,
        },
    }
}

fn read_color_space(bytes: &[u8], pos: usize) -> (r: Option<(ColorSpace, usize)>)
    requires
        pos <= bytes@.len(),
    ensures
        agrees(r, color_space_at(bytes@, pos as int), pos, bytes@.len()),
{
    proof {
        reveal(color_space_at);
    }
    match read_map_head(bytes, pos) {
        Some((n, start)) => if n == 1 {
            match read_variant(bytes, start) {
                Some((c, end)) => if end < bytes.len() && bytes[end] == NIL {
                    Some((c, end + 1))
                } else {
                    None
                },
                None => None,
            }
        } else {
            None
        },
        None => read_variant(bytes, pos),
    }
}

/// Reads what one value takes for itself and how many values are nested in
/// it.
fn read_value_head(bytes: &[u8], pos: usize) -> (r: Option<(usize, u64)>)
    requires
        pos <= bytes@.len(),
    ensures
        match r {
            Some((next, nested)) => value_head_at(bytes@, pos as int) == Some(
                (next as int, nested as nat),
            ) && pos < next <= bytes@.len() && nested <= 0x1_ffff_fffe,
            None => value_head_at(bytes@, pos as int) is None,
        },
{
    proof {
        reveal(value_head_at);
    }
    let len: usize = bytes.len();
    if pos >= len {
        return None;
    }
    let m: u8 = bytes[pos];
    let room: usize = len - pos;
    // The bytes that the value takes behind its marker, and the values nested in it.
    let (own, nested): (u64, u64) = if m < 0x80 || m >= 0xe0 || m == NIL || m == FALSE || m
        == TRUE {
        (0, 0)
    } else if m < 0x90 {
        (0, 2 * ((m - FIXMAP) as u64))
    } else if m < 0xa0 {
        (0, (m - FIXARRAY) as u64)
    } else if m < 0xc0 {
        ((m - FIXSTR) as u64, 0)
    } else if m == 0xc1 {
        return None;
    } else if m == BIN8 || m == STR8 {
        if room < 2 {
            return None;
        }
        (1 + bytes[pos + 1] as u64, 0)
    } else if m == BIN16 || m == STR16 {
        if room < 3 {
            return None;
        }
        (2 + get16(bytes, pos + 1) as u64, 0)
    } else if m == BIN32 || m == STR32 {
        if room < 5 {
            return None;
        }
        (4 + get32(bytes, pos + 1) as u64, 0)
    } else if m == 0xc7 {
        if room < 2 {
            return None;
        }
        (2 + bytes[pos + 1] as u64, 0)
    } else if m == 0xc8 {
        if room < 3 {
            return None;
        }
        (3 + get16(bytes, pos + 1) as u64, 0)
    } else if m == 0xc9 {
        if room < 5 {
            return None;
        }
        (5 + get32(bytes, pos + 1) as u64, 0)
    } else if m == FLOAT32 || m == UINT32 || m == INT32 {
        (4, 0)
    } else if m == 0xcb || m == UINT64 || m == INT64 {
        (8, 0)
    } else if m == UINT8 || m == INT8 {
        (1, 0)
    } else if m == UINT16 || m == INT16 {
        (2, 0)
    } else if m == 0xd4 {
        (2, 0)
    } else if m == 0xd5 {
        (3, 0)
    } else if m == 0xd6 {
        (5, 0)
    } else if m == 0xd7 {
        (9, 0)
    } else if m == 0xd8 {
        (17, 0)
    } else if m == ARRAY16 {
        if room < 3 {
            return None;
        }
        (2, get16(bytes, pos + 1) as u64)
    } else if m == ARRAY16 + 1 {
        if room < 5 {
            return None;
        }
        (4, get32(bytes, pos + 1) as u64)
    } else if m == MAP16 {
        if room < 3 {
            return None;
        }
        (2, 2 * (get16(bytes, pos + 1) as u64))
    } else {
        if room < 5 {
            return None;
        }
        (4, 2 * (get32(bytes, pos + 1) as u64))
    };
    if own < room as u64 {
        Some((pos + 1 + own as usize, nested))
    } else {
        None
    }
}

/// Passes over one value of any kind with all that is nested in it.
fn skip(bytes: &[u8], pos: usize) -> (r: Option<usize>)
    requires
        pos <= bytes@.len(),
    ensures
        match r {
            Some(end) => skip_at(bytes@, pos as int, 1) == Some(end as int) && pos < end
                <= bytes@.len(),
            None => skip_at(bytes@, pos as int, 1) is None,
        },
{
    let len: usize = bytes.len();
    let mut at: usize = pos;
    let mut pending: u128 = 1;
    if pos >= len {
        return None;
    }
    match read_value_head(bytes, at) {
        Some((next, nested)) => {
            at = next;
            pending = nested as u128;
        },
        None => {
            return None;
        },
    }
    while pending > 0
        invariant
            pos < at <= bytes@.len(),
            len == bytes@.len(),
            pending <= 0x1_0000_0002_0000_0000,
            skip_at(bytes@, pos as int, 1) == skip_at(bytes@, at as int, pending as nat),
        decreases bytes@.len() - at,
    {
        if pending > (len - at) as u128 {
            return None;
        }
        match read_value_head(bytes, at) {
            Some((next, nested)) => {
                at = next;
                pending = pending - 1 + nested as u128;
            },
            None => {
                return None;
            },
        }
    }
    Some(at)
}

/// Finds the field that the bytes from `start` to `end` name.
fn find_field(bytes: &[u8], start: usize, end: usize, names: &Vec<Vec<u8>>) -> (r: Option<usize>)
    requires
        start <= end <= bytes@.len(),
    ensures
        match r {
            Some(place) => find_name(
                names_of(names@),
                bytes@.subrange(start as int, end as int),
                0,
            ) == Some(place as int) && place < names@.len(),
            None => find_name(names_of(names@), bytes@.subrange(start as int, end as int), 0)
                is None,
        },
{
    let n: usize = names.len();
    let mut i: usize = 0;
    while i < n
        invariant
            i <= n,
            n == names@.len(),
            start <= end <= bytes@.len(),
            find_name(names_of(names@), bytes@.subrange(start as int, end as int), 0)
                == find_name(
                names_of(names@),
                bytes@.subrange(start as int, end as int),
                i as int,
            ),
        decreases n - i,
    {
        assert(names_of(names@)[i as int] == names@[i as int]@);
        if same(bytes, start, end, &names[i]) {
            return Some(i);
        }
        i += 1;
    }
    None
}

/// Reads a key: the field that it names, if it names one.
fn read_key(bytes: &[u8], pos: usize, names: &Vec<Vec<u8>>) -> (r: Option<(Option<usize>, usize)>)
    requires
        pos <= bytes@.len(),
    ensures
        match r {
            Some((field, end)) => key_at(bytes@, pos as int, names_of(names@)) == Some(
                (
                    match field {
                        Some(place) => Some(place as int),
                        None => None,
                    },
                    end as int,
                ),
            ) && pos < end <= bytes@.len() && (field matches Some(place) ==> place
                < names@.len()),
            None => key_at(bytes@, pos as int, names_of(names@)) is None,
        },
{
    match read_blob(bytes, pos) {
        Some((start, end)) => Some((find_field(bytes, start, end, names), end)),
        None => match read_index(bytes, pos) {
            Some((place, end)) => if place < names.len() as u64 {
                Some((Some(place as usize), end))
            } else {
                Some((None, end))
            },
            None => None,
        },
    }
}

/// Reads a map whose keys are taken from `names`: for each field where its
/// value stands.
fn read_map(bytes: &[u8], pos: usize, names: &Vec<Vec<u8>>) -> (r: Option<
    (Vec<Option<(usize, usize)>>, usize),
>)
    requires
        pos <= bytes@.len(),
    ensures
        match r {
            Some((slots, end)) => map_at(bytes@, pos as int, names_of(names@)) == Some(
                (slots_of(slots@), end as int),
            ) && pos < end <= bytes@.len() && slots@.len() == names@.len() && slots_inside(
                slots@,
                bytes@.len(),
            ),
            None => map_at(bytes@, pos as int, names_of(names@)) is None,
        },
{
    let (n, first) = match read_map_head(bytes, pos) {
        Some(found) => found,
        None => {
            return None;
        },
    };
    let fields: usize = names.len();
    let mut slots: Vec<Option<(usize, usize)>> = Vec::new();
    let mut k: usize = 0;
    while k < fields
        invariant
            k <= fields,
            slots@.len() == k,
            forall|j: int| 0 <= j < k ==> (#[trigger] slots@[j]) is None,
        decreases fields - k,
    {
        slots.push(None);
        k += 1;
    }
    assert(slots_of(slots@) =~= no_slots(names_of(names@).len()));
    let mut at: usize = first;
    let mut i: u32 = 0;
    while i < n
        invariant
            i <= n,
            pos < first <= at <= bytes@.len(),
            fields == names@.len(),
            slots@.len() == fields,
            slots_inside(slots@, bytes@.len()),
            map_head_at(bytes@, pos as int) == Some((n, first as int)),
            entries_at(
                bytes@,
                first as int,
                n as nat,
                names_of(names@),
                no_slots(names_of(names@).len()),
            ) == entries_at(
                bytes@,
                at as int,
                (n - i) as nat,
                names_of(names@),
                slots_of(slots@),
            ),
        decreases n - i,
    {
        let (field, start) = match read_key(bytes, at, names) {
            Some(found) => found,
            None => {
                return None;
            },
        };
        let end: usize = match skip(bytes, start) {
            Some(found) => found,
            None => {
                return None;
            },
        };
        match field {
            Some(place) => {
                let ghost before = slots@;
                assert(slots_of(before)[place as int] == slot_of(before[place as int]));
                if slots[place].is_some() {
                    return None;
                }
                slots.set(place, Some((start, end)));
                assert(slots_of(slots@) =~= slots_of(before).update(
                    place as int,
                    Some((start as int, end as int)),
                ));
            },
            None => {},
        }
        at = end;
        i += 1;
    }
    Some((slots, at))
}

fn vertex_names_table() -> (names: Vec<Vec<u8>>)
    ensures
        names_of(names@) == vertex_names(),
{
    let mut names: Vec<Vec<u8>> = Vec::new();
    names.push(vec![0x70, 0x6f, 0x73, 0x69, 0x74, 0x69, 0x6f, 0x6e]);
    names.push(vec![0x74, 0x65, 0x78, 0x5f, 0x63, 0x6f, 0x6f, 0x72, 0x64]);
    names.push(vec![0x6e, 0x6f, 0x72, 0x6d, 0x61, 0x6c]);
    proof {
        assert(names@[0]@ =~= vertex_names()[0]);
        assert(names@[1]@ =~= vertex_names()[1]);
        assert(names@[2]@ =~= vertex_names()[2]);
        assert(names_of(names@) =~= vertex_names());
    }
    names
}

fn material_names_table() -> (names: Vec<Vec<u8>>)
    ensures
        names_of(names@) == material_names(),
{
    let mut names: Vec<Vec<u8>> = Vec::new();
    names.push(vec![0x61, 0x6c, 0x62, 0x65, 0x64, 0x6f]);
    names.push(vec![0x61, 0x6c, 0x62, 0x65, 0x64, 0x6f, 0x5f, 0x74, 0x65, 0x78, 0x74, 0x75, 0x72, 0x65]);
    names.push(vec![0x61, 0x6c, 0x70, 0x68, 0x61, 0x5f, 0x63, 0x6c, 0x69, 0x70, 0x5f, 0x74, 0x68, 0x72, 0x65, 0x73, 0x68, 0x6f, 0x6c, 0x64]);
    names.push(vec![0x74, 0x65, 0x78, 0x5f, 0x63, 0x6f, 0x6f, 0x72, 0x64, 0x5f, 0x73, 0x63, 0x61, 0x6c, 0x65]);
    names.push(vec![0x74, 0x65, 0x78, 0x5f, 0x63, 0x6f, 0x6f, 0x72, 0x64, 0x5f, 0x6f, 0x66, 0x66, 0x73, 0x65, 0x74]);
    names.push(vec![0x64, 0x6f, 0x75, 0x62, 0x6c, 0x65, 0x5f, 0x73, 0x69, 0x64, 0x65, 0x64]);
    names.push(vec![0x72, 0x6f, 0x75, 0x67, 0x68, 0x6e, 0x65, 0x73, 0x73]);
    names.push(vec![0x72, 0x6f, 0x75, 0x67, 0x68, 0x6e, 0x65, 0x73, 0x73, 0x5f, 0x74, 0x65, 0x78, 0x74, 0x75, 0x72, 0x65]);
    names.push(vec![0x6d, 0x65, 0x74, 0x61, 0x6c, 0x6e, 0x65, 0x73, 0x73]);
    names.push(vec![0x6d, 0x65, 0x74, 0x61, 0x6c, 0x6e, 0x65, 0x73, 0x73, 0x5f, 0x74, 0x65, 0x78, 0x74, 0x75, 0x72, 0x65]);
    names.push(vec![0x6e, 0x6f, 0x72, 0x6d, 0x61, 0x6c, 0x5f, 0x6d, 0x61, 0x70]);
    proof {
        assert(names@[0]@ =~= material_names()[0]);
        assert(names@[1]@ =~= material_names()[1]);
        assert(names@[2]@ =~= material_names()[2]);
        assert(names@[3]@ =~= material_names()[3]);
        assert(names@[4]@ =~= material_names()[4]);
        assert(names@[5]@ =~= material_names()[5]);
        assert(names@[6]@ =~= material_names()[6]);
        assert(names@[7]@ =~= material_names()[7]);
        assert(names@[8]@ =~= material_names()[8]);
        assert(names@[9]@ =~= material_names()[9]);
        assert(names@[10]@ =~= material_names()[10]);
        assert(names_of(names@) =~= material_names());
    }
    names
}

fn image_names_table() -> (names: Vec<Vec<u8>>)
    ensures
        names_of(names@) == image_names(),
{
    let mut names: Vec<Vec<u8>> = Vec::new();
    names.push(vec![0x63, 0x6f, 0x6c, 0x6f, 0x72, 0x5f, 0x73, 0x70, 0x61, 0x63, 0x65]);
    names.push(vec![0x77, 0x69, 0x64, 0x74, 0x68]);
    names.push(vec![0x68, 0x65, 0x69, 0x67, 0x68, 0x74]);
    names.push(vec![0x70, 0x69, 0x78, 0x65, 0x6c, 0x73]);
    proof {
        assert(names@[0]@ =~= image_names()[0]);
        assert(names@[1]@ =~= image_names()[1]);
        assert(names@[2]@ =~= image_names()[2]);
        assert(names@[3]@ =~= image_names()[3]);
        assert(names_of(names@) =~= image_names());
    }
    names
}

fn model_names_table() -> (names: Vec<Vec<u8>>)
    ensures
        names_of(names@) == model_names(),
{
    let mut names: Vec<Vec<u8>> = Vec::new();
    names.push(vec![0x76, 0x65, 0x72, 0x74, 0x69, 0x63, 0x65, 0x73]);
    names.push(vec![0x69, 0x6e, 0x64, 0x69, 0x63, 0x65, 0x73]);
    names.push(vec![0x6d, 0x61, 0x74, 0x65, 0x72, 0x69, 0x61, 0x6c]);
    proof {
        assert(names@[0]@ =~= model_names()[0]);
        assert(names@[1]@ =~= model_names()[1]);
        assert(names@[2]@ =~= model_names()[2]);
        assert(names_of(names@) =~= model_names());
    }
    names
}

fn container_names_table() -> (names: Vec<Vec<u8>>)
    ensures
        names_of(names@) == container_names(),
{
    let mut names: Vec<Vec<u8>> = Vec::new();
    names.push(vec![0x6d, 0x6f, 0x64, 0x65, 0x6c, 0x73]);
    names.push(vec![0x6d, 0x61, 0x74, 0x65, 0x72, 0x69, 0x61, 0x6c, 0x73]);
    names.push(vec![0x69, 0x6d, 0x61, 0x67, 0x65, 0x73]);
    proof {
        assert(names@[0]@ =~= container_names()[0]);
        assert(names@[1]@ =~= container_names()[1]);
        assert(names@[2]@ =~= container_names()[2]);
        assert(names_of(names@) =~= container_names());
    }
    names
}

fn read_vec2(bytes: &[u8], pos: usize) -> (r: Option<(Vec2, usize)>)
    requires
        pos <= bytes@.len(),
    ensures
        agrees(r, vec2_at(bytes@, pos as int), pos, bytes@.len()),
{
    let p0: usize = match read_fields(bytes, pos, 2) {
        Some(end) => end,
        None => {
            return None;
        },
    };
    let (x, p1) = match read_scalar(bytes, p0) {
        Some(found) => found,
        None => {
            return None;
        },
    };
    let (y, p2) = match read_scalar(bytes, p1) {
        Some(found) => found,
        None => {
            return None;
        },
    };
    Some((Vec2 { x, y }, p2))
}

fn read_vec3(bytes: &[u8], pos: usize) -> (r: Option<(Vec3, usize)>)
    requires
        pos <= bytes@.len(),
    ensures
        agrees(r, vec3_at(bytes@, pos as int), pos, bytes@.len()),
{
    let p0: usize = match read_fields(bytes, pos, 3) {
        Some(end) => end,
        None => {
            return None;
        },
    };
    let (x, p1) = match read_scalar(bytes, p0) {
        Some(found) => found,
        None => {
            return None;
        },
    };
    let (y, p2) = match read_scalar(bytes, p1) {
        Some(found) => found,
        None => {
            return None;
        },
    };
    let (z, p3) = match read_scalar(bytes, p2) {
        Some(found) => found,
        None => {
            return None;
        },
    };
    Some((Vec3 { x, y, z }, p3))
}

fn read_vec4(bytes: &[u8], pos: usize) -> (r: Option<(Vec4, usize)>)
    requires
        pos <= bytes@.len(),
    ensures
        agrees(r, vec4_at(bytes@, pos as int), pos, bytes@.len()),
{
    let p0: usize = match read_fields(bytes, pos, 4) {
        Some(end) => end,
        None => {
            return None;
        },
    };
    let (x, p1) = match read_scalar(bytes, p0) {
        Some(found) => found,
        None => {
            return None;
        },
    };
    let (y, p2) = match read_scalar(bytes, p1) {
        Some(found) => found,
        None => {
            return None;
        },
    };
    let (z, p3) = match read_scalar(bytes, p2) {
        Some(found) => found,
        None => {
            return None;
        },
    };
    let (w, p4) = match read_scalar(bytes, p3) {
        Some(found) => found,
        None => {
            return None;
        },
    };
    Some((Vec4 { x, y, z, w }, p4))
}

fn kept_vec2(bytes: &[u8], slot: Option<(usize, usize)>) -> (r: Option<Vec2>)
    requires
        slot matches Some((start, end)) ==> start <= bytes@.len(),
    ensures
        match r {
            Some(v) => kept(vec2_at(bytes@, start_of(slot_of(slot))), slot_of(slot)) == Some(v),
            None => kept(vec2_at(bytes@, start_of(slot_of(slot))), slot_of(slot)) is None,
        },
{
    match slot {
        Some((start, end)) => match read_vec2(bytes, start) {
            Some((v, behind)) => if behind == end {
                Some(v)
            } else {
                None
            },
            None => None,
        },
        None => None,
    }
}

fn kept_vec3(bytes: &[u8], slot: Option<(usize, usize)>) -> (r: Option<Vec3>)
    requires
        slot matches Some((start, end)) ==> start <= bytes@.len(),
    ensures
        match r {
            Some(v) => kept(vec3_at(bytes@, start_of(slot_of(slot))), slot_of(slot)) == Some(v),
            None => kept(vec3_at(bytes@, start_of(slot_of(slot))), slot_of(slot)) is None,
        },
{
    match slot {
        Some((start, end)) => match read_vec3(bytes, start) {
            Some((v, behind)) => if behind == end {
                Some(v)
            } else {
                None
            },
            None => None,
        },
        None => None,
    }
}

fn kept_vec4(bytes: &[u8], slot: Option<(usize, usize)>) -> (r: Option<Vec4>)
    requires
        slot matches Some((start, end)) ==> start <= bytes@.len(),
    ensures
        match r {
            Some(v) => kept(vec4_at(bytes@, start_of(slot_of(slot))), slot_of(slot)) == Some(v),
            None => kept(vec4_at(bytes@, start_of(slot_of(slot))), slot_of(slot)) is None,
        },
{
    match slot {
        Some((start, end)) => match read_vec4(bytes, start) {
            Some((v, behind)) => if behind == end {
                Some(v)
            } else {
                None
            },
            None => None,
        },
        None => None,
    }
}

fn kept_scalar(bytes: &[u8], slot: Option<(usize, usize)>) -> (r: Option<Scalar>)
    requires
        slot matches Some((start, end)) ==> start <= bytes@.len(),
    ensures
        match r {
            Some(v) => kept(scalar_at(bytes@, start_of(slot_of(slot))), slot_of(slot)) == Some(v),
            None => kept(scalar_at(bytes@, start_of(slot_of(slot))), slot_of(slot)) is None,
        },
{
    match slot {
        Some((start, end)) => match read_scalar(bytes, start) {
            Some((v, behind)) => if behind == end {
                Some(v)
            } else {
                None
            },
            None => None,
        },
        None => None,
    }
}

fn kept_bool(bytes: &[u8], slot: Option<(usize, usize)>) -> (r: Option<bool>)
    requires
        slot matches Some((start, end)) ==> start <= bytes@.len(),
    ensures
        match r {
            Some(v) => kept(bool_at(bytes@, start_of(slot_of(slot))), slot_of(slot)) == Some(v),
            None => kept(bool_at(bytes@, start_of(slot_of(slot))), slot_of(slot)) is None,
        },
{
    match slot {
        Some((start, end)) => match read_bool(bytes, start) {
            Some((v, behind)) => if behind == end {
                Some(v)
            } else {
                None
            },
            None => None,
        },
        None => None,
    }
}

fn kept_uint(bytes: &[u8], slot: Option<(usize, usize)>) -> (r: Option<u32>)
    requires
        slot matches Some((start, end)) ==> start <= bytes@.len(),
    ensures
        match r {
            Some(v) => kept(uint_at(bytes@, start_of(slot_of(slot))), slot_of(slot)) == Some(v),
            None => kept(uint_at(bytes@, start_of(slot_of(slot))), slot_of(slot)) is None,
        },
{
    match slot {
        Some((start, end)) => match read_uint(bytes, start) {
            Some((v, behind)) => if behind == end {
                Some(v)
            } else {
                None
            },
            None => None,
        },
        None => None,
    }
}

fn kept_opt_uint(bytes: &[u8], slot: Option<(usize, usize)>) -> (r: Option<Option<u32>>)
    requires
        slot matches Some((start, end)) ==> start <= bytes@.len(),
    ensures
        match r {
            Some(v) => kept_or_absent(opt_uint_at(bytes@, start_of(slot_of(slot))), slot_of(slot)) == Some(v),
            None => kept_or_absent(opt_uint_at(bytes@, start_of(slot_of(slot))), slot_of(slot)) is None,
        },
{
    match slot {
        Some((start, end)) => match read_opt_uint(bytes, start) {
            Some((v, behind)) => if behind == end {
                Some(v)
            } else {
                None
            },
            None => None,
        },
        None => Some(None),
    }
}

fn kept_opt_scalar(bytes: &[u8], slot: Option<(usize, usize)>) -> (r: Option<Option<Scalar>>)
    requires
        slot matches Some((start, end)) ==> start <= bytes@.len(),
    ensures
        match r {
            Some(v) => kept_or_absent(opt_scalar_at(bytes@, start_of(slot_of(slot))), slot_of(slot)) == Some(v),
            None => kept_or_absent(opt_scalar_at(bytes@, start_of(slot_of(slot))), slot_of(slot)) is None,
        },
{
    match slot {
        Some((start, end)) => match read_opt_scalar(bytes, start) {
            Some((v, behind)) => if behind == end {
                Some(v)
            } else {
                None
            },
            None => None,
        },
        None => Some(None),
    }
}

fn kept_color_space(bytes: &[u8], slot: Option<(usize, usize)>) -> (r: Option<ColorSpace>)
    requires
        slot matches Some((start, end)) ==> start <= bytes@.len(),
    ensures
        match r {
            Some(v) => kept(color_space_at(bytes@, start_of(slot_of(slot))), slot_of(slot)) == Some(v),
            None => kept(color_space_at(bytes@, start_of(slot_of(slot))), slot_of(slot)) is None,
        },
{
    match slot {
        Some((start, end)) => match read_color_space(bytes, start) {
            Some((v, behind)) => if behind == end {
                Some(v)
            } else {
                None
            },
            None => None,
        },
        None => None,
    }
}

fn read_vertex_row(bytes: &[u8], p0: usize) -> (r: Option<(Moletex, usize)>)
    requires
        p0 <= bytes@.len(),
    ensures
        agrees(r, vertex_row_at(bytes@, p0 as int), p0, bytes@.len()),
{
    let (position, p1) = match read_vec3(bytes, p0) {
        Some(found) => found,
        None => {
            return None;
        },
    };
    let (tex_coord, p2) = match read_vec2(bytes, p1) {
        Some(found) => found,
        None => {
            return None;
        },
    };
    let (normal, p3) = match read_vec3(bytes, p2) {
        Some(found) => found,
        None => {
            return None;
        },
    };
    Some((Moletex { position, tex_coord, normal }, p3))
}

fn read_vertex(bytes: &[u8], pos: usize) -> (r: Option<(Moletex, usize)>)
    requires
        pos <= bytes@.len(),
    ensures
        agrees(r, vertex_at(bytes@, pos as int), pos, bytes@.len()),
{
    match read_fields(bytes, pos, 3) {
        Some(p0) => read_vertex_row(bytes, p0),
        None => {
            let names = vertex_names_table();
            let (slots, end) = match read_map(bytes, pos, &names) {
                Some(found) => found,
                None => {
                    return None;
                },
            };
            proof {
                assert(slots_of(slots@)[0] == slot_of(slots@[0]));
                assert(slots_of(slots@)[1] == slot_of(slots@[1]));
                assert(slots_of(slots@)[2] == slot_of(slots@[2]));
            }
            let position = match kept_vec3(bytes, slots[0]) {
                Some(v) => v,
                None => {
                    return None;
                },
            };
            let tex_coord = match kept_vec2(bytes, slots[1]) {
                Some(v) => v,
                None => {
                    return None;
                },
            };
            let normal = match kept_vec3(bytes, slots[2]) {
                Some(v) => v,
                None => {
                    return None;
                },
            };
            Some((Moletex { position, tex_coord, normal }, end))
        },
    }
}

fn read_color(bytes: &[u8], pos: usize) -> (r: Option<(MaterialColor, usize)>)
    requires
        pos <= bytes@.len(),
    ensures
        agrees(r, color_at(bytes@, pos as int), pos, bytes@.len()),
{
    let (albedo, p1) = match read_vec4(bytes, pos) {
        Some(found) => found,
        None => {
            return None;
        },
    };
    let (albedo_texture, p2) = match read_opt_uint(bytes, p1) {
        Some(found) => found,
        None => {
            return None;
        },
    };
    let (alpha_clip_threshold, p3) = match read_opt_scalar(bytes, p2) {
        Some(found) => found,
        None => {
            return None;
        },
    };
    Some((MaterialColor { albedo, albedo_texture, alpha_clip_threshold }, p3))
}

fn read_mapping(bytes: &[u8], pos: usize) -> (r: Option<(MaterialMapping, usize)>)
    requires
        pos <= bytes@.len(),
    ensures
        agrees(r, mapping_at(bytes@, pos as int), pos, bytes@.len()),
{
    let (tex_coord_scale, p1) = match read_vec2(bytes, pos) {
        Some(found) => found,
        None => {
            return None;
        },
    };
    let (tex_coord_offset, p2) = match read_vec2(bytes, p1) {
        Some(found) => found,
        None => {
            return None;
        },
    };
    let (double_sided, p3) = match read_bool(bytes, p2) {
        Some(found) => found,
        None => {
            return None;
        },
    };
    Some((MaterialMapping { tex_coord_scale, tex_coord_offset, double_sided }, p3))
}

fn read_surface(bytes: &[u8], pos: usize) -> (r: Option<(MaterialSurface, usize)>)
    requires
        pos <= bytes@.len(),
    ensures
        agrees(r, surface_at(bytes@, pos as int), pos, bytes@.len()),
{
    let (roughness, p1) = match read_scalar(bytes, pos) {
        Some(found) => found,
        None => {
            return None;
        },
    };
    let (roughness_texture, p2) = match read_opt_uint(bytes, p1) {
        Some(found) => found,
        None => {
            return None;
        },
    };
    let (metalness, p3) = match read_scalar(bytes, p2) {
        Some(found) => found,
        None => {
            return None;
        },
    };
    let (metalness_texture, p4) = match read_opt_uint(bytes, p3) {
        Some(found) => found,
        None => {
            return None;
        },
    };
    let (normal_map, p5) = match read_opt_uint(bytes, p4) {
        Some(found) => found,
        None => {
            return None;
        },
    };
    Some(
        (
            MaterialSurface {
                roughness,
                roughness_texture,
                metalness,
                metalness_texture,
                normal_map,
            },
            p5,
        ),
    )
}

fn read_color_in(bytes: &[u8], slots: &Vec<Option<(usize, usize)>>) -> (r: Option<MaterialColor>)
    requires
        slots@.len() == 11,
        slots_inside(slots@, bytes@.len()),
    ensures
        match r {
            Some(v) => color_in(bytes@, slots_of(slots@)) == Some(v),
            None => color_in(bytes@, slots_of(slots@)) is None,
        },
{
    proof {
        assert(slots_of(slots@)[0] == slot_of(slots@[0]));
        assert(slots_of(slots@)[1] == slot_of(slots@[1]));
        assert(slots_of(slots@)[2] == slot_of(slots@[2]));
    }
    let albedo = match kept_vec4(bytes, slots[0]) {
        Some(v) => v,
        None => {
            return None;
        },
    };
    let albedo_texture = match kept_opt_uint(bytes, slots[1]) {
        Some(v) => v,
        None => {
            return None;
        },
    };
    let alpha_clip_threshold = match kept_opt_scalar(bytes, slots[2]) {
        Some(v) => v,
        None => {
            return None;
        },
    };
    Some(MaterialColor { albedo, albedo_texture, alpha_clip_threshold })
}

fn read_mapping_in(bytes: &[u8], slots: &Vec<Option<(usize, usize)>>) -> (r: Option<MaterialMapping>)
    requires
        slots@.len() == 11,
        slots_inside(slots@, bytes@.len()),
    ensures
        match r {
            Some(v) => mapping_in(bytes@, slots_of(slots@)) == Some(v),
            None => mapping_in(bytes@, slots_of(slots@)) is None,
        },
{
    proof {
        assert(slots_of(slots@)[3] == slot_of(slots@[3]));
        assert(slots_of(slots@)[4] == slot_of(slots@[4]));
        assert(slots_of(slots@)[5] == slot_of(slots@[5]));
    }
    let tex_coord_scale = match kept_vec2(bytes, slots[3]) {
        Some(v) => v,
        None => {
            return None;
        },
    };
    let tex_coord_offset = match kept_vec2(bytes, slots[4]) {
        Some(v) => v,
        None => {
            return None;
        },
    };
    let double_sided = match kept_bool(bytes, slots[5]) {
        Some(v) => v,
        None => {
            return None;
        },
    };
    Some(MaterialMapping { tex_coord_scale, tex_coord_offset, double_sided })
}

fn read_surface_in(bytes: &[u8], slots: &Vec<Option<(usize, usize)>>) -> (r: Option<MaterialSurface>)
    requires
        slots@.len() == 11,
        slots_inside(slots@, bytes@.len()),
    ensures
        match r {
            Some(v) => surface_in(bytes@, slots_of(slots@)) == Some(v),
            None => surface_in(bytes@, slots_of(slots@)) is None,
        },
{
    proof {
        assert(slots_of(slots@)[6] == slot_of(slots@[6]));
        assert(slots_of(slots@)[7] == slot_of(slots@[7]));
        assert(slots_of(slots@)[8] == slot_of(slots@[8]));
        assert(slots_of(slots@)[9] == slot_of(slots@[9]));
        assert(slots_of(slots@)[10] == slot_of(slots@[10]));
    }
    let roughness = match kept_scalar(bytes, slots[6]) {
        Some(v) => v,
        None => {
            return None;
        },
    };
    let roughness_texture = match kept_opt_uint(bytes, slots[7]) {
        Some(v) => v,
        None => {
            return None;
        },
    };
    let metalness = match kept_scalar(bytes, slots[8]) {
        Some(v) => v,
        None => {
            return None;
        },
    };
    let metalness_texture = match kept_opt_uint(bytes, slots[9]) {
        Some(v) => v,
        None => {
            return None;
        },
    };
    let normal_map = match kept_opt_uint(bytes, slots[10]) {
        Some(v) => v,
        None => {
            return None;
        },
    };
    Some(MaterialSurface { roughness, roughness_texture, metalness, metalness_texture, normal_map })
}

fn material_from(c: MaterialColor, g: MaterialMapping, f: MaterialSurface) -> (m: Moleterial)
    ensures
        m == material_of(c, g, f),
{
    Moleterial {
        albedo: c.albedo,
        albedo_texture: c.albedo_texture,
        alpha_clip_threshold: c.alpha_clip_threshold,
        tex_coord_scale: g.tex_coord_scale,
        tex_coord_offset: g.tex_coord_offset,
        double_sided: g.double_sided,
        roughness: f.roughness,
        roughness_texture: f.roughness_texture,
        metalness: f.metalness,
        metalness_texture: f.metalness_texture,
        normal_map: f.normal_map,
    }
}

fn read_material_row(bytes: &[u8], p0: usize) -> (r: Option<(Moleterial, usize)>)
    requires
        p0 <= bytes@.len(),
    ensures
        agrees(r, material_row_at(bytes@, p0 as int), p0, bytes@.len()),
{
    let (c, p1) = match read_color(bytes, p0) {
        Some(found) => found,
        None => {
            return None;
        },
    };
    let (g, p2) = match read_mapping(bytes, p1) {
        Some(found) => found,
        None => {
            return None;
        },
    };
    let (f, p3) = match read_surface(bytes, p2) {
        Some(found) => found,
        None => {
            return None;
        },
    };
    Some((material_from(c, g, f), p3))
}

fn read_material(bytes: &[u8], pos: usize) -> (r: Option<(Moleterial, usize)>)
    requires
        pos <= bytes@.len(),
    ensures
        agrees(r, material_at(bytes@, pos as int), pos, bytes@.len()),
{
    match read_fields(bytes, pos, 11) {
        Some(p0) => read_material_row(bytes, p0),
        None => {
            let names = material_names_table();
            let (slots, end) = match read_map(bytes, pos, &names) {
                Some(found) => found,
                None => {
                    return None;
                },
            };
            let c = match read_color_in(bytes, &slots) {
                Some(v) => v,
                None => {
                    return None;
                },
            };
            let g = match read_mapping_in(bytes, &slots) {
                Some(v) => v,
                None => {
                    return None;
                },
            };
            let f = match read_surface_in(bytes, &slots) {
                Some(v) => v,
                None => {
                    return None;
                },
            };
            Some((material_from(c, g, f), end))
        },
    }
}

fn read_byte_items(bytes: &[u8], pos: usize, n: u32, start: usize) -> (r: Option<(Vec<u8>, usize)>)
    requires
        pos < start <= bytes@.len(),
        head_at(bytes@, pos as int) == Some((n, start as int)),
    ensures
        match r {
            Some((items, end)) => list_at(bytes@, pos as int, byte_finder()) == Some((items@, end as int))
                && pos < end <= bytes@.len(),
            None => list_at(bytes@, pos as int, byte_finder()) is None,
        },
{
    let mut items: Vec<u8> = Vec::new();
    let mut at: usize = start;
    let mut i: u32 = 0;
    assert(items@ =~= Seq::empty());
    while i < n
        invariant
            i <= n,
            pos < start <= at <= bytes@.len(),
            head_at(bytes@, pos as int) == Some((n, start as int)),
            items_at(bytes@, start as int, n as nat, byte_finder(), Seq::empty()) == items_at(
                bytes@,
                at as int,
                (n - i) as nat,
                byte_finder(),
                items@,
            ),
        decreases n - i,
    {
        let ghost before = items@;
        match read_byte(bytes, at) {
            Some((item, next)) => {
                items.push(item);
                at = next;
            },
            None => {
                return None;
            },
        }
        i += 1;
    }
    Some((items, at))
}

fn read_uint_items(bytes: &[u8], pos: usize, n: u32, start: usize) -> (r: Option<(Vec<u32>, usize)>)
    requires
        pos < start <= bytes@.len(),
        head_at(bytes@, pos as int) == Some((n, start as int)),
    ensures
        match r {
            Some((items, end)) => list_at(bytes@, pos as int, uint_finder()) == Some((items@, end as int))
                && pos < end <= bytes@.len(),
            None => list_at(bytes@, pos as int, uint_finder()) is None,
        },
{
    let mut items: Vec<u32> = Vec::new();
    let mut at: usize = start;
    let mut i: u32 = 0;
    assert(items@ =~= Seq::empty());
    while i < n
        invariant
            i <= n,
            pos < start <= at <= bytes@.len(),
            head_at(bytes@, pos as int) == Some((n, start as int)),
            items_at(bytes@, start as int, n as nat, uint_finder(), Seq::empty()) == items_at(
                bytes@,
                at as int,
                (n - i) as nat,
                uint_finder(),
                items@,
            ),
        decreases n - i,
    {
        let ghost before = items@;
        match read_uint(bytes, at) {
            Some((item, next)) => {
                items.push(item);
                at = next;
            },
            None => {
                return None;
            },
        }
        i += 1;
    }
    Some((items, at))
}

fn read_vertices_items(bytes: &[u8], pos: usize, n: u32, start: usize) -> (r: Option<(Vec<Moletex>, usize)>)
    requires
        pos < start <= bytes@.len(),
        head_at(bytes@, pos as int) == Some((n, start as int)),
    ensures
        match r {
            Some((items, end)) => list_at(bytes@, pos as int, vertex_finder()) == Some((items@, end as int))
                && pos < end <= bytes@.len(),
            None => list_at(bytes@, pos as int, vertex_finder()) is None,
        },
{
    let mut items: Vec<Moletex> = Vec::new();
    let mut at: usize = start;
    let mut i: u32 = 0;
    assert(items@ =~= Seq::empty());
    while i < n
        invariant
            i <= n,
            pos < start <= at <= bytes@.len(),
            head_at(bytes@, pos as int) == Some((n, start as int)),
            items_at(bytes@, start as int, n as nat, vertex_finder(), Seq::empty()) == items_at(
                bytes@,
                at as int,
                (n - i) as nat,
                vertex_finder(),
                items@,
            ),
        decreases n - i,
    {
        let ghost before = items@;
        match read_vertex(bytes, at) {
            Some((item, next)) => {
                items.push(item);
                at = next;
            },
            None => {
                return None;
            },
        }
        i += 1;
    }
    Some((items, at))
}

fn read_vertices(bytes: &[u8], pos: usize) -> (r: Option<(Vec<Moletex>, usize)>)
    requires
        pos <= bytes@.len(),
    ensures
        match r {
            Some((items, end)) => list_at(bytes@, pos as int, vertex_finder()) == Some((items@, end as int))
                && pos < end <= bytes@.len(),
            None => list_at(bytes@, pos as int, vertex_finder()) is None,
        },
{
    match read_head(bytes, pos) {
        Some((n, start)) => read_vertices_items(bytes, pos, n, start),
        None => match read_bin(bytes, pos) {
            Some((start, end)) => if start == end {
                let items: Vec<Moletex> = Vec::new();
                assert(items@ =~= Seq::empty());
                Some((items, end))
            } else {
                None
            },
            None => None,
        },
    }
}

fn read_materials_items(bytes: &[u8], pos: usize, n: u32, start: usize) -> (r: Option<(Vec<Moleterial>, usize)>)
    requires
        pos < start <= bytes@.len(),
        head_at(bytes@, pos as int) == Some((n, start as int)),
    ensures
        match r {
            Some((items, end)) => list_at(bytes@, pos as int, material_finder()) == Some((items@, end as int))
                && pos < end <= bytes@.len(),
            None => list_at(bytes@, pos as int, material_finder()) is None,
        },
{
    let mut items: Vec<Moleterial> = Vec::new();
    let mut at: usize = start;
    let mut i: u32 = 0;
    assert(items@ =~= Seq::empty());
    while i < n
        invariant
            i <= n,
            pos < start <= at <= bytes@.len(),
            head_at(bytes@, pos as int) == Some((n, start as int)),
            items_at(bytes@, start as int, n as nat, material_finder(), Seq::empty()) == items_at(
                bytes@,
                at as int,
                (n - i) as nat,
                material_finder(),
                items@,
            ),
        decreases n - i,
    {
        let ghost before = items@;
        match read_material(bytes, at) {
            Some((item, next)) => {
                items.push(item);
                at = next;
            },
            None => {
                return None;
            },
        }
        i += 1;
    }
    Some((items, at))
}

fn read_materials(bytes: &[u8], pos: usize) -> (r: Option<(Vec<Moleterial>, usize)>)
    requires
        pos <= bytes@.len(),
    ensures
        match r {
            Some((items, end)) => list_at(bytes@, pos as int, material_finder()) == Some((items@, end as int))
                && pos < end <= bytes@.len(),
            None => list_at(bytes@, pos as int, material_finder()) is None,
        },
{
    match read_head(bytes, pos) {
        Some((n, start)) => read_materials_items(bytes, pos, n, start),
        None => match read_bin(bytes, pos) {
            Some((start, end)) => if start == end {
                let items: Vec<Moleterial> = Vec::new();
                assert(items@ =~= Seq::empty());
                Some((items, end))
            } else {
                None
            },
            None => None,
        },
    }
}

fn read_pixels(bytes: &[u8], pos: usize) -> (r: Option<(Vec<u8>, usize)>)
    requires
        pos <= bytes@.len(),
    ensures
        match r {
            Some((items, end)) => pixels_at(bytes@, pos as int) == Some((items@, end as int))
                && pos < end <= bytes@.len(),
            None => pixels_at(bytes@, pos as int) is None,
        },
{
    match read_head(bytes, pos) {
        Some((n, start)) => read_byte_items(bytes, pos, n, start),
        None => match read_bin(bytes, pos) {
            Some((start, end)) => {
                let mut items: Vec<u8> = Vec::new();
                let mut at: usize = start;
                while at < end
                    invariant
                        start <= at <= end <= bytes@.len(),
                        items@ == bytes@.subrange(start as int, at as int),
                    decreases end - at,
                {
                    items.push(bytes[at]);
                    at += 1;
                    assert(items@ =~= bytes@.subrange(start as int, at as int));
                }
                Some((items, end))
            },
            None => None,
        },
    }
}

fn read_indices(bytes: &[u8], pos: usize) -> (r: Option<(Vec<u32>, usize)>)
    requires
        pos <= bytes@.len(),
    ensures
        match r {
            Some((items, end)) => indices_at(bytes@, pos as int) == Some((items@, end as int))
                && pos < end <= bytes@.len(),
            None => indices_at(bytes@, pos as int) is None,
        },
{
    match read_head(bytes, pos) {
        Some((n, start)) => read_uint_items(bytes, pos, n, start),
        None => match read_bin(bytes, pos) {
            Some((start, end)) => {
                let mut items: Vec<u32> = Vec::new();
                let mut at: usize = start;
                while at < end
                    invariant
                        start <= at <= end <= bytes@.len(),
                        items@ == widened(bytes@.subrange(start as int, at as int)),
                    decreases end - at,
                {
                    items.push(bytes[at] as u32);
                    at += 1;
                    assert(items@ =~= widened(bytes@.subrange(start as int, at as int)));
                }
                Some((items, end))
            },
            None => None,
        },
    }
}

fn kept_pixels(bytes: &[u8], slot: Option<(usize, usize)>) -> (r: Option<Vec<u8>>)
    requires
        slot matches Some((start, end)) ==> start <= bytes@.len(),
    ensures
        match r {
            Some(v) => kept(pixels_at(bytes@, start_of(slot_of(slot))), slot_of(slot)) == Some(v@),
            None => kept(pixels_at(bytes@, start_of(slot_of(slot))), slot_of(slot)) is None,
        },
{
    match slot {
        Some((start, end)) => match read_pixels(bytes, start) {
            Some((v, behind)) => if behind == end {
                Some(v)
            } else {
                None
            },
            None => None,
        },
        None => None,
    }
}

fn kept_indices(bytes: &[u8], slot: Option<(usize, usize)>) -> (r: Option<Vec<u32>>)
    requires
        slot matches Some((start, end)) ==> start <= bytes@.len(),
    ensures
        match r {
            Some(v) => kept(indices_at(bytes@, start_of(slot_of(slot))), slot_of(slot)) == Some(v@),
            None => kept(indices_at(bytes@, start_of(slot_of(slot))), slot_of(slot)) is None,
        },
{
    match slot {
        Some((start, end)) => match read_indices(bytes, start) {
            Some((v, behind)) => if behind == end {
                Some(v)
            } else {
                None
            },
            None => None,
        },
        None => None,
    }
}

fn kept_vertices(bytes: &[u8], slot: Option<(usize, usize)>) -> (r: Option<Vec<Moletex>>)
    requires
        slot matches Some((start, end)) ==> start <= bytes@.len(),
    ensures
        match r {
            Some(v) => kept(list_at(bytes@, start_of(slot_of(slot)), vertex_finder()), slot_of(slot)) == Some(v@),
            None => kept(list_at(bytes@, start_of(slot_of(slot)), vertex_finder()), slot_of(slot)) is None,
        },
{
    match slot {
        Some((start, end)) => match read_vertices(bytes, start) {
            Some((v, behind)) => if behind == end {
                Some(v)
            } else {
                None
            },
            None => None,
        },
        None => None,
    }
}

fn kept_materials(bytes: &[u8], slot: Option<(usize, usize)>) -> (r: Option<Vec<Moleterial>>)
    requires
        slot matches Some((start, end)) ==> start <= bytes@.len(),
    ensures
        match r {
            Some(v) => kept(list_at(bytes@, start_of(slot_of(slot)), material_finder()), slot_of(slot)) == Some(v@),
            None => kept(list_at(bytes@, start_of(slot_of(slot)), material_finder()), slot_of(slot)) is None,
        },
{
    match slot {
        Some((start, end)) => match read_materials(bytes, start) {
            Some((v, behind)) => if behind == end {
                Some(v)
            } else {
                None
            },
            None => None,
        },
        None => None,
    }
}

fn read_image_row(bytes: &[u8], p0: usize) -> (r: Option<(Molemage, usize)>)
    requires
        p0 <= bytes@.len(),
    ensures
        match r {
            Some((v, end)) => image_row_at(bytes@, p0 as int) == Some((v@, end as int)) && p0 < end
                <= bytes@.len(),
            None => image_row_at(bytes@, p0 as int) is None,
        },
{
    let (color_space, p1) = match read_color_space(bytes, p0) {
        Some(found) => found,
        None => {
            return None;
        },
    };
    let (width, p2) = match read_uint(bytes, p1) {
        Some(found) => found,
        None => {
            return None;
        },
    };
    let (height, p3) = match read_uint(bytes, p2) {
        Some(found) => found,
        None => {
            return None;
        },
    };
    let (pixels, p4) = match read_pixels(bytes, p3) {
        Some(found) => found,
        None => {
            return None;
        },
    };
    Some((Molemage { color_space, width, height, pixels }, p4))
}

fn read_image(bytes: &[u8], pos: usize) -> (r: Option<(Molemage, usize)>)
    requires
        pos <= bytes@.len(),
    ensures
        match r {
            Some((v, end)) => image_at(bytes@, pos as int) == Some((v@, end as int)) && pos < end
                <= bytes@.len(),
            None => image_at(bytes@, pos as int) is None,
        },
{
    match read_fields(bytes, pos, 4) {
        Some(p0) => read_image_row(bytes, p0),
        None => {
            let names = image_names_table();
            let (slots, end) = match read_map(bytes, pos, &names) {
                Some(found) => found,
                None => {
                    return None;
                },
            };
            proof {
                assert(slots_of(slots@)[0] == slot_of(slots@[0]));
                assert(slots_of(slots@)[1] == slot_of(slots@[1]));
                assert(slots_of(slots@)[2] == slot_of(slots@[2]));
                assert(slots_of(slots@)[3] == slot_of(slots@[3]));
            }
            let color_space = match kept_color_space(bytes, slots[0]) {
                Some(v) => v,
                None => {
                    return None;
                },
            };
            let width = match kept_uint(bytes, slots[1]) {
                Some(v) => v,
                None => {
                    return None;
                },
            };
            let height = match kept_uint(bytes, slots[2]) {
                Some(v) => v,
                None => {
                    return None;
                },
            };
            let pixels = match kept_pixels(bytes, slots[3]) {
                Some(v) => v,
                None => {
                    return None;
                },
            };
            Some((Molemage { color_space, width, height, pixels }, end))
        },
    }
}

fn read_model_row(bytes: &[u8], p0: usize) -> (r: Option<(Moledel, usize)>)
    requires
        p0 <= bytes@.len(),
    ensures
        match r {
            Some((v, end)) => model_row_at(bytes@, p0 as int) == Some((v@, end as int)) && p0 < end
                <= bytes@.len(),
            None => model_row_at(bytes@, p0 as int) is None,
        },
{
    let (vertices, p1) = match read_vertices(bytes, p0) {
        Some(found) => found,
        None => {
            return None;
        },
    };
    let (indices, p2) = match read_indices(bytes, p1) {
        Some(found) => found,
        None => {
            return None;
        },
    };
    let (material, p3) = match read_uint(bytes, p2) {
        Some(found) => found,
        None => {
            return None;
        },
    };
    Some((Moledel { vertices, indices, material }, p3))
}

fn read_model(bytes: &[u8], pos: usize) -> (r: Option<(Moledel, usize)>)
    requires
        pos <= bytes@.len(),
    ensures
        match r {
            Some((v, end)) => model_at(bytes@, pos as int) == Some((v@, end as int)) && pos < end
                <= bytes@.len(),
            None => model_at(bytes@, pos as int) is None,
        },
{
    match read_fields(bytes, pos, 3) {
        Some(p0) => read_model_row(bytes, p0),
        None => {
            let names = model_names_table();
            let (slots, end) = match read_map(bytes, pos, &names) {
                Some(found) => found,
                None => {
                    return None;
                },
            };
            proof {
                assert(slots_of(slots@)[0] == slot_of(slots@[0]));
                assert(slots_of(slots@)[1] == slot_of(slots@[1]));
                assert(slots_of(slots@)[2] == slot_of(slots@[2]));
            }
            let vertices = match kept_vertices(bytes, slots[0]) {
                Some(v) => v,
                None => {
                    return None;
                },
            };
            let indices = match kept_indices(bytes, slots[1]) {
                Some(v) => v,
                None => {
                    return None;
                },
            };
            let material = match kept_uint(bytes, slots[2]) {
                Some(v) => v,
                None => {
                    return None;
                },
            };
            Some((Moledel { vertices, indices, material }, end))
        },
    }
}

fn read_images_items(bytes: &[u8], pos: usize, n: u32, start: usize) -> (r: Option<(Vec<Molemage>, usize)>)
    requires
        pos < start <= bytes@.len(),
        head_at(bytes@, pos as int) == Some((n, start as int)),
    ensures
        match r {
            Some((items, end)) => list_at(bytes@, pos as int, image_finder()) == Some((image_values(items@), end as int))
                && pos < end <= bytes@.len(),
            None => list_at(bytes@, pos as int, image_finder()) is None,
        },
{
    let mut items: Vec<Molemage> = Vec::new();
    let mut at: usize = start;
    let mut i: u32 = 0;
    assert(image_values(items@) =~= Seq::empty());
    while i < n
        invariant
            i <= n,
            pos < start <= at <= bytes@.len(),
            head_at(bytes@, pos as int) == Some((n, start as int)),
            items_at(bytes@, start as int, n as nat, image_finder(), Seq::empty()) == items_at(
                bytes@,
                at as int,
                (n - i) as nat,
                image_finder(),
                image_values(items@),
            ),
        decreases n - i,
    {
        let ghost before = items@;
        match read_image(bytes, at) {
            Some((item, next)) => {
                items.push(item);
                at = next;
                assert(image_values(items@) =~= image_values(before).push(item@));
            },
            None => {
                return None;
            },
        }
        i += 1;
    }
    Some((items, at))
}

fn read_images(bytes: &[u8], pos: usize) -> (r: Option<(Vec<Molemage>, usize)>)
    requires
        pos <= bytes@.len(),
    ensures
        match r {
            Some((items, end)) => list_at(bytes@, pos as int, image_finder()) == Some((image_values(items@), end as int))
                && pos < end <= bytes@.len(),
            None => list_at(bytes@, pos as int, image_finder()) is None,
        },
{
    match read_head(bytes, pos) {
        Some((n, start)) => read_images_items(bytes, pos, n, start),
        None => match read_bin(bytes, pos) {
            Some((start, end)) => if start == end {
                let items: Vec<Molemage> = Vec::new();
                assert(image_values(items@) =~= Seq::empty());
                Some((items, end))
            } else {
                None
            },
            None => None,
        },
    }
}

fn read_models_items(bytes: &[u8], pos: usize, n: u32, start: usize) -> (r: Option<(Vec<Moledel>, usize)>)
    requires
        pos < start <= bytes@.len(),
        head_at(bytes@, pos as int) == Some((n, start as int)),
    ensures
        match r {
            Some((items, end)) => list_at(bytes@, pos as int, model_finder()) == Some((model_values(items@), end as int))
                && pos < end <= bytes@.len(),
            None => list_at(bytes@, pos as int, model_finder()) is None,
        },
{
    let mut items: Vec<Moledel> = Vec::new();
    let mut at: usize = start;
    let mut i: u32 = 0;
    assert(model_values(items@) =~= Seq::empty());
    while i < n
        invariant
            i <= n,
            pos < start <= at <= bytes@.len(),
            head_at(bytes@, pos as int) == Some((n, start as int)),
            items_at(bytes@, start as int, n as nat, model_finder(), Seq::empty()) == items_at(
                bytes@,
                at as int,
                (n - i) as nat,
                model_finder(),
                model_values(items@),
            ),
        decreases n - i,
    {
        let ghost before = items@;
        match read_model(bytes, at) {
            Some((item, next)) => {
                items.push(item);
                at = next;
                assert(model_values(items@) =~= model_values(before).push(item@));
            },
            None => {
                return None;
            },
        }
        i += 1;
    }
    Some((items, at))
}

fn read_models(bytes: &[u8], pos: usize) -> (r: Option<(Vec<Moledel>, usize)>)
    requires
        pos <= bytes@.len(),
    ensures
        match r {
            Some((items, end)) => list_at(bytes@, pos as int, model_finder()) == Some((model_values(items@), end as int))
                && pos < end <= bytes@.len(),
            None => list_at(bytes@, pos as int, model_finder()) is None,
        },
{
    match read_head(bytes, pos) {
        Some((n, start)) => read_models_items(bytes, pos, n, start),
        None => match read_bin(bytes, pos) {
            Some((start, end)) => if start == end {
                let items: Vec<Moledel> = Vec::new();
                assert(model_values(items@) =~= Seq::empty());
                Some((items, end))
            } else {
                None
            },
            None => None,
        },
    }
}

fn kept_images(bytes: &[u8], slot: Option<(usize, usize)>) -> (r: Option<Vec<Molemage>>)
    requires
        slot matches Some((start, end)) ==> start <= bytes@.len(),
    ensures
        match r {
            Some(v) => kept(list_at(bytes@, start_of(slot_of(slot)), image_finder()), slot_of(slot)) == Some(image_values(v@)),
            None => kept(list_at(bytes@, start_of(slot_of(slot)), image_finder()), slot_of(slot)) is None,
        },
{
    match slot {
        Some((start, end)) => match read_images(bytes, start) {
            Some((v, behind)) => if behind == end {
                Some(v)
            } else {
                None
            },
            None => None,
        },
        None => None,
    }
}

fn kept_models(bytes: &[u8], slot: Option<(usize, usize)>) -> (r: Option<Vec<Moledel>>)
    requires
        slot matches Some((start, end)) ==> start <= bytes@.len(),
    ensures
        match r {
            Some(v) => kept(list_at(bytes@, start_of(slot_of(slot)), model_finder()), slot_of(slot)) == Some(model_values(v@)),
            None => kept(list_at(bytes@, start_of(slot_of(slot)), model_finder()), slot_of(slot)) is None,
        },
{
    match slot {
        Some((start, end)) => match read_models(bytes, start) {
            Some((v, behind)) => if behind == end {
                Some(v)
            } else {
                None
            },
            None => None,
        },
        None => None,
    }
}

fn read_container_row(bytes: &[u8], p0: usize) -> (r: Option<(Molehill, usize)>)
    requires
        p0 <= bytes@.len(),
    ensures
        match r {
            Some((v, end)) => container_row_at(bytes@, p0 as int) == Some((v@, end as int)) && p0 < end
                <= bytes@.len(),
            None => container_row_at(bytes@, p0 as int) is None,
        },
{
    let (models, p1) = match read_models(bytes, p0) {
        Some(found) => found,
        None => {
            return None;
        },
    };
    let (materials, p2) = match read_materials(bytes, p1) {
        Some(found) => found,
        None => {
            return None;
        },
    };
    let (images, p3) = match read_images(bytes, p2) {
        Some(found) => found,
        None => {
            return None;
        },
    };
    Some((Molehill { models, materials, images }, p3))
}

fn read_container(bytes: &[u8], pos: usize) -> (r: Option<(Molehill, usize)>)
    requires
        pos <= bytes@.len(),
    ensures
        match r {
            Some((v, end)) => container_at(bytes@, pos as int) == Some((v@, end as int)) && pos < end
                <= bytes@.len(),
            None => container_at(bytes@, pos as int) is None,
        },
{
    match read_fields(bytes, pos, 3) {
        Some(p0) => read_container_row(bytes, p0),
        None => {
            let names = container_names_table();
            let (slots, end) = match read_map(bytes, pos, &names) {
                Some(found) => found,
                None => {
                    return None;
                },
            };
            proof {
                assert(slots_of(slots@)[0] == slot_of(slots@[0]));
                assert(slots_of(slots@)[1] == slot_of(slots@[1]));
                assert(slots_of(slots@)[2] == slot_of(slots@[2]));
            }
            let models = match kept_models(bytes, slots[0]) {
                Some(v) => v,
                None => {
                    return None;
                },
            };
            let materials = match kept_materials(bytes, slots[1]) {
                Some(v) => v,
                None => {
                    return None;
                },
            };
            let images = match kept_images(bytes, slots[2]) {
                Some(v) => v,
                None => {
                    return None;
                },
            };
            Some((Molehill { models, materials, images }, end))
        },
    }
}

/// Reads a document.
///
/// The result is the container that the bytes read as, and absent where they
/// read as none. The reader takes the document that the writer writes, and
/// other forms of the same values beside it:
///
/// - a number in any integer form that holds it;
/// - an array under any of its three heads;
/// - a record as a map from the names or the places of its fields to their
///   values, in any order, where an entry under another key is passed over
///   and an optional field may be left out;
/// - the color space by its name under any string or binary head, or by its
///   place, alone or as the one key of a map to `nil`;
/// - channel values and indices as a run of bytes under a binary head;
/// - any bytes behind the container.
///
/// It does not take a `float 64` or an integer where a scalar stands: the
/// one would have to be rounded and the other converted, and a scalar is
/// kept here by its bits alone. It sets no bound on how deep an entry that
/// is passed over may be nested, since it passes over it without recursion.
///
/// The indices inside the container are not looked at. A document whose
/// indices point nowhere, or whose image buffer does not match its
/// dimensions, is read as it stands.
pub fn decode(bytes: &[u8]) -> (hill: Option<Molehill>)
    ensures
        match hill {
            Some(h) => reads_as(bytes@) == Some(h@),
            None => reads_as(bytes@) is None,
        },
{
    match read_container(bytes, 0) {
        Some((hill, _)) => Some(hill),
        None => None,
    }
}

} // verus!
