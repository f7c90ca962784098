//! Sequences at a position: an array head, and that many items in a row.
//!
//! The functions are generic in the item. What they need of it is stated by
//! [`reads`]: a finder that finds what the writer writes. A sequence of
//! channel values or of indices may also stand as a run of bytes under a
//! binary head, one byte for each item.

use crate::grammar::{
    bin_at, byte_at, head_at, lemma_byte_complete, lemma_head_complete, lemma_stands_parts,
    lemma_uint_complete, stands_at, uint_at,
};
use crate::model::{Moleterial, Moletex};
use crate::records::{lemma_material_complete, lemma_vertex_complete, material_at, vertex_at};
use crate::wire::{
    array_head, byte_item, items_wire, lemma_items_wire_step, list_wire, material_item,
    uint_item, vertex_item, MAX_ITEMS,
};
use vstd::prelude::*;

verus! {

/// `n` items in a row from `pos` on, behind the items `found` so far.
pub open spec fn items_at<T>(
    s: Seq<u8>,
    pos: int,
    n: nat,
    finder: spec_fn(Seq<u8>, int) -> Option<(T, int)>,
    found: Seq<T>,
) -> Option<(Seq<T>, int)>
    decreases n,
{
    if n == 0 {
        Some((found, pos))
    } else {
        match finder(s, pos) {
            Some((v, next)) => items_at(s, next, (n - 1) as nat, finder, found.push(v)),
            None => None,
        }
    }
}

/// A sequence: its head, and as many items as the head announces. A binary
/// head over no bytes is a sequence without items.
pub open spec fn list_at<T>(
    s: Seq<u8>,
    pos: int,
    finder: spec_fn(Seq<u8>, int) -> Option<(T, int)>,
) -> Option<(Seq<T>, int)> {
    match head_at(s, pos) {
        Some((n, p0)) => items_at(s, p0, n as nat, finder, Seq::empty()),
        None => match bin_at(s, pos) {
            Some((start, end)) => if start == end {
                Some((Seq::empty(), end))
            } else {
                None
            },
            None => None,
        },
    }
}

/// Every item of `items` is of the kind `ok`.
pub open spec fn all_ok<T>(items: Seq<T>, ok: spec_fn(T) -> bool) -> bool {
    forall|j: int| 0 <= j < items.len() ==> ok(#[trigger] items[j])
}

/// The finder finds what the writer writes: whatever value of the kind `ok`
/// is written at a position, the finder finds there.
pub open spec fn reads<T>(
    finder: spec_fn(Seq<u8>, int) -> Option<(T, int)>,
    writer: spec_fn(T) -> Seq<u8>,
    ok: spec_fn(T) -> bool,
) -> bool {
    forall|s: Seq<u8>, pos: int, v: T|
        ok(v) && #[trigger] stands_at(s, pos, writer(v)) ==> finder(s, pos) == Some(
            (v, pos + writer(v).len()),
        )
}

/// Every value is of this kind.
pub open spec fn anything<T>() -> spec_fn(T) -> bool {
    |v: T| true
}

/// Nothing stands at every position of a string.
pub proof fn lemma_stands_empty(s: Seq<u8>, pos: int)
    requires
        0 <= pos <= s.len(),
    ensures
        stands_at(s, pos, Seq::empty()),
{
    reveal(stands_at);
    assert(s.subrange(pos, pos) =~= Seq::<u8>::empty());
}

/// What stands in a string lies inside it.
pub proof fn lemma_stands_bounds(s: Seq<u8>, pos: int, w: Seq<u8>)
    requires
        stands_at(s, pos, w),
    ensures
        0 <= pos,
        pos + w.len() <= s.len(),
{
    reveal(stands_at);
}

/// The items of two sequences in a row are the items of the first and the
/// items of the second.
pub proof fn lemma_items_wire_split<T>(a: Seq<T>, b: Seq<T>, writer: spec_fn(T) -> Seq<u8>)
    ensures
        items_wire(a + b, writer) == items_wire(a, writer) + items_wire(b, writer),
    decreases b.len(),
{
    if b.len() == 0 {
        assert(a + b =~= a);
        assert(items_wire(a, writer) + items_wire(b, writer) =~= items_wire(a, writer));
    } else {
        assert((a + b).drop_last() =~= a + b.drop_last());
        assert((a + b).last() == b.last());
        lemma_items_wire_split(a, b.drop_last(), writer);
        assert((items_wire(a, writer) + items_wire(b.drop_last(), writer)) + writer(b.last())
            =~= items_wire(a, writer) + (items_wire(b.drop_last(), writer) + writer(b.last())));
    }
}

/// Items written in a row are found by [`items_at`], from any of them on.
pub proof fn lemma_items_complete<T>(
    s: Seq<u8>,
    start: int,
    all: Seq<T>,
    k: nat,
    finder: spec_fn(Seq<u8>, int) -> Option<(T, int)>,
    writer: spec_fn(T) -> Seq<u8>,
    ok: spec_fn(T) -> bool,
)
    requires
        reads(finder, writer, ok),
        all_ok(all, ok),
        stands_at(s, start, items_wire(all, writer)),
        k <= all.len(),
    ensures
        items_at(
            s,
            start + items_wire(all.take(k as int), writer).len(),
            (all.len() - k) as nat,
            finder,
            all.take(k as int),
        ) == Some((all, start + items_wire(all, writer).len())),
    decreases all.len() - k,
{
    if k == all.len() {
        assert(all.take(k as int) =~= all);
    } else {
        let head = all.take(k as int);
        let next = all.take(k as int + 1);
        let rest = all.skip(k as int + 1);
        assert(all =~= next + rest);
        lemma_items_wire_split(next, rest, writer);
        lemma_items_wire_step(all, k as int, writer);
        lemma_stands_parts(s, start, items_wire(next, writer), items_wire(rest, writer));
        lemma_stands_parts(s, start, items_wire(head, writer), writer(all[k as int]));
        let pos = start + items_wire(head, writer).len();
        assert(ok(all[k as int]));
        assert(finder(s, pos) == Some((all[k as int], pos + writer(all[k as int]).len())));
        assert(head.push(all[k as int]) =~= next);
        lemma_items_complete(s, start, all, k + 1, finder, writer, ok);
    }
}

/// A sequence written at `pos` is found there by [`list_at`].
pub proof fn lemma_list_complete<T>(
    s: Seq<u8>,
    pos: int,
    all: Seq<T>,
    finder: spec_fn(Seq<u8>, int) -> Option<(T, int)>,
    writer: spec_fn(T) -> Seq<u8>,
    ok: spec_fn(T) -> bool,
)
    requires
        reads(finder, writer, ok),
        all.len() <= MAX_ITEMS,
        all_ok(all, ok),
        stands_at(s, pos, list_wire(all, writer)),
    ensures
        list_at(s, pos, finder) == Some((all, pos + list_wire(all, writer).len())),
{
    lemma_stands_parts(s, pos, array_head(all.len()), items_wire(all, writer));
    lemma_head_complete(s, pos, all.len());
    let p0 = pos + array_head(all.len()).len();
    assert(all.take(0) =~= Seq::<T>::empty());
    assert(items_wire(all.take(0), writer) =~= Seq::<u8>::empty());
    lemma_items_complete(s, p0, all, 0, finder, writer, ok);
}

/// [`byte_at`] as the finder of an item.
pub open spec fn byte_finder() -> spec_fn(Seq<u8>, int) -> Option<(u8, int)> {
    |s: Seq<u8>, pos: int| byte_at(s, pos)
}

/// [`uint_at`] as the finder of an item.
pub open spec fn uint_finder() -> spec_fn(Seq<u8>, int) -> Option<(u32, int)> {
    |s: Seq<u8>, pos: int| uint_at(s, pos)
}

/// [`vertex_at`] as the finder of an item.
pub open spec fn vertex_finder() -> spec_fn(Seq<u8>, int) -> Option<(Moletex, int)> {
    |s: Seq<u8>, pos: int| vertex_at(s, pos)
}

/// [`material_at`] as the finder of an item.
pub open spec fn material_finder() -> spec_fn(Seq<u8>, int) -> Option<(Moleterial, int)> {
    |s: Seq<u8>, pos: int| material_at(s, pos)
}

/// The finder and the writer of a channel value agree.
pub proof fn lemma_byte_reads()
    ensures
        reads(byte_finder(), byte_item(), anything()),
{
    assert forall|s: Seq<u8>, pos: int, v: u8| #[trigger]
        stands_at(s, pos, byte_item()(v)) implies byte_finder()(s, pos) == Some(
        (v, pos + byte_item()(v).len()),
    ) by {
        lemma_byte_complete(s, pos, v);
    }
}

/// The finder and the writer of an unsigned integer agree.
pub proof fn lemma_uint_reads()
    ensures
        reads(uint_finder(), uint_item(), anything()),
{
    assert forall|s: Seq<u8>, pos: int, v: u32| #[trigger]
        stands_at(s, pos, uint_item()(v)) implies uint_finder()(s, pos) == Some(
        (v, pos + uint_item()(v).len()),
    ) by {
        lemma_uint_complete(s, pos, v);
    }
}

/// The finder and the writer of a vertex agree.
pub proof fn lemma_vertex_reads()
    ensures
        reads(vertex_finder(), vertex_item(), anything()),
{
    assert forall|s: Seq<u8>, pos: int, v: Moletex| #[trigger]
        stands_at(s, pos, vertex_item()(v)) implies vertex_finder()(s, pos) == Some(
        (v, pos + vertex_item()(v).len()),
    ) by {
        lemma_vertex_complete(s, pos, v);
    }
}

/// The finder and the writer of a material agree.
pub proof fn lemma_material_reads()
    ensures
        reads(material_finder(), material_item(), anything()),
{
    assert forall|s: Seq<u8>, pos: int, v: Moleterial| #[trigger]
        stands_at(s, pos, material_item()(v)) implies material_finder()(s, pos) == Some(
        (v, pos + material_item()(v).len()),
    ) by {
        lemma_material_complete(s, pos, v);
    }
}

/// A sequence of channel values at `pos`: an array of them, or a run of
/// bytes under a binary head.
pub open spec fn pixels_at(s: Seq<u8>, pos: int) -> Option<(Seq<u8>, int)> {
    match head_at(s, pos) {
        Some(_) => list_at(s, pos, byte_finder()),
        None => match bin_at(s, pos) {
            Some((start, end)) => Some((s.subrange(start, end), end)),
            None => None,
        },
    }
}

/// The bytes of a run, each as an index.
pub open spec fn widened(run: Seq<u8>) -> Seq<u32> {
    Seq::new(run.len(), |i: int| run[i] as u32)
}

/// A sequence of indices at `pos`: an array of them, or a run of bytes under
/// a binary head, each byte an index.
pub open spec fn indices_at(s: Seq<u8>, pos: int) -> Option<(Seq<u32>, int)> {
    match head_at(s, pos) {
        Some(_) => list_at(s, pos, uint_finder()),
        None => match bin_at(s, pos) {
            Some((start, end)) => Some((widened(s.subrange(start, end)), end)),
            None => None,
        },
    }
}

/// A sequence of channel values written at `pos` is found there by
/// [`pixels_at`].
pub proof fn lemma_pixels_complete(s: Seq<u8>, pos: int, all: Seq<u8>)
    requires
        all.len() <= MAX_ITEMS,
        stands_at(s, pos, list_wire(all, byte_item())),
    ensures
        pixels_at(s, pos) == Some((all, pos + list_wire(all, byte_item()).len())),
{
    lemma_stands_parts(s, pos, array_head(all.len()), items_wire(all, byte_item()));
    lemma_head_complete(s, pos, all.len());
    lemma_byte_reads();
    lemma_list_complete(s, pos, all, byte_finder(), byte_item(), anything());
}

/// A sequence of indices written at `pos` is found there by [`indices_at`].
pub proof fn lemma_indices_complete(s: Seq<u8>, pos: int, all: Seq<u32>)
    requires
        all.len() <= MAX_ITEMS,
        stands_at(s, pos, list_wire(all, uint_item())),
    ensures
        indices_at(s, pos) == Some((all, pos + list_wire(all, uint_item()).len())),
{
    lemma_stands_parts(s, pos, array_head(all.len()), items_wire(all, uint_item()));
    lemma_head_complete(s, pos, all.len());
    lemma_uint_reads();
    lemma_list_complete(s, pos, all, uint_finder(), uint_item(), anything());
}

} // verus!
