//! A document cut short reads as nothing.
//!
//! For each kind of value: where the writer's bytes of a value begin but do
//! not end inside a byte string, nothing of that kind is found at their
//! place. The reader is generous with the forms it takes, but no form of a
//! value is the beginning of the writer's form of another.

use crate::document::{
    container_at, image_at, image_finder, image_fits, lemma_image_reads, lemma_model_reads,
    model_at, model_finder, model_fits, reads_as,
};
use crate::grammar::{
    bin_at, blob_at, bool_at, byte_at, color_space_at, variant_at, head_at, index_at,
    lemma_color_space_complete, lemma_head_complete, lemma_opt_uint_complete,
    lemma_scalar_complete, lemma_stands_parts, lemma_uint_complete, map_head_at, opt_scalar_at,
    opt_uint_at, scalar_at, stands_at, uint_at,
};
use crate::lists::{
    all_ok, anything, byte_finder, indices_at, items_at, lemma_byte_reads,
    lemma_indices_complete, lemma_list_complete, lemma_material_reads, lemma_stands_bounds,
    lemma_uint_reads, lemma_vertex_reads, list_at, material_finder, pixels_at, reads,
    uint_finder, vertex_finder,
};
use crate::model::{
    ColorSpace, ContainerValue, ImageValue, ModelValue, Moleterial, Moletex, Scalar, Vec2, Vec3,
    Vec4,
};
use crate::records::{
    color_at, color_wire, lemma_color_complete, lemma_fields_complete, lemma_mapping_complete,
    lemma_material_groups, lemma_vec2_complete, lemma_vec3_complete, lemma_vec4_complete,
    mapping_at, mapping_wire, material_at, material_color, material_mapping, material_surface,
    surface_at, surface_wire, vec2_at, vec3_at, vec4_at, vertex_at, MaterialColor,
    MaterialMapping, MaterialSurface,
};
use crate::wire::{
    array_head, be16, be32, bool_wire, byte_item, byte_wire, color_space_wire, container_wire,
    image_item, image_wire, items_wire, lemma_items_wire_step, list_wire, material_item,
    material_wire, model_item, model_wire, opt_scalar_wire, opt_uint_wire, scalar_wire,
    uint_item, uint_wire, vec2_wire, vec3_wire, vec4_wire, vertex_item, vertex_wire, MAX_ITEMS,
};
use vstd::prelude::*;

verus! {

/// What stands in a string stands in every beginning of it that holds it.
pub proof fn lemma_stands_in_cut(s: Seq<u8>, k: int, pos: int, w: Seq<u8>)
    requires
        stands_at(s, pos, w),
        pos + w.len() <= k <= s.len(),
    ensures
        stands_at(s.take(k), pos, w),
{
    reveal(stands_at);
    assert(s.take(k).subrange(pos, pos + w.len()) =~= s.subrange(pos, pos + w.len()));
}

/// An unsigned integer cut short is not found.
pub proof fn lemma_uint_cut(s: Seq<u8>, k: int, pos: int, v: u32)
    requires
        stands_at(s, pos, uint_wire(v)),
        pos <= k < pos + uint_wire(v).len(),
    ensures
        uint_at(s.take(k), pos) is None,
{
    reveal(stands_at);
    reveal(uint_at);
    reveal(uint_wire);
    reveal(be16);
    reveal(be32);
    let w = s.subrange(pos, pos + uint_wire(v).len());
    assert(w[0] == s[pos]);
}

/// A channel value cut short is not found.
pub proof fn lemma_byte_cut(s: Seq<u8>, k: int, pos: int, b: u8)
    requires
        stands_at(s, pos, byte_wire(b)),
        pos <= k < pos + byte_wire(b).len(),
    ensures
        byte_at(s.take(k), pos) is None,
{
    lemma_uint_cut(s, k, pos, b as u32);
}

/// A scalar cut short is not found.
pub proof fn lemma_scalar_cut(s: Seq<u8>, k: int, pos: int, x: Scalar)
    requires
        stands_at(s, pos, scalar_wire(x)),
        pos <= k < pos + scalar_wire(x).len(),
    ensures
        scalar_at(s.take(k), pos) is None,
{
    reveal(stands_at);
    reveal(scalar_at);
    reveal(scalar_wire);
    reveal(be32);
}

/// A boolean cut short is not found.
pub proof fn lemma_bool_cut(s: Seq<u8>, k: int, pos: int, b: bool)
    requires
        stands_at(s, pos, bool_wire(b)),
        pos <= k < pos + bool_wire(b).len(),
    ensures
        bool_at(s.take(k), pos) is None,
{
    reveal(stands_at);
    reveal(bool_at);
    reveal(bool_wire);
}

/// An optional index cut short is not found.
pub proof fn lemma_opt_uint_cut(s: Seq<u8>, k: int, pos: int, o: Option<u32>)
    requires
        stands_at(s, pos, opt_uint_wire(o)),
        pos <= k < pos + opt_uint_wire(o).len(),
    ensures
        opt_uint_at(s.take(k), pos) is None,
{
    reveal(stands_at);
    reveal(opt_uint_at);
    reveal(opt_uint_wire);
    reveal(uint_wire);
    reveal(uint_at);
    let w = s.subrange(pos, pos + opt_uint_wire(o).len());
    assert(w[0] == s[pos]);
    match o {
        Some(v) => {
            assert(uint_wire(v)[0] != 0xc0);
            assert(w[0] == uint_wire(v)[0]);
            if k > pos {
                assert(s.take(k)[pos] == s[pos]);
            }
            lemma_uint_cut(s, k, pos, v);
        },
        None => {},
    }
}

/// An optional scalar cut short is not found.
pub proof fn lemma_opt_scalar_cut(s: Seq<u8>, k: int, pos: int, o: Option<Scalar>)
    requires
        stands_at(s, pos, opt_scalar_wire(o)),
        pos <= k < pos + opt_scalar_wire(o).len(),
    ensures
        opt_scalar_at(s.take(k), pos) is None,
{
    reveal(stands_at);
    reveal(opt_scalar_at);
    reveal(opt_scalar_wire);
    reveal(scalar_wire);
    reveal(scalar_at);
    let w = s.subrange(pos, pos + opt_scalar_wire(o).len());
    assert(w[0] == s[pos]);
    match o {
        Some(x) => {
            assert(scalar_wire(x)[0] != 0xc0);
            assert(w[0] == scalar_wire(x)[0]);
            if k > pos {
                assert(s.take(k)[pos] == s[pos]);
            }
            lemma_scalar_cut(s, k, pos, x);
        },
        None => {},
    }
}

/// An array head cut short is no head of any kind: not of an array, not of
/// a map and not of a run of bytes.
pub proof fn lemma_head_cut(s: Seq<u8>, k: int, pos: int, n: nat)
    requires
        n <= MAX_ITEMS,
        stands_at(s, pos, array_head(n)),
        pos <= k < pos + array_head(n).len(),
    ensures
        head_at(s.take(k), pos) is None,
        map_head_at(s.take(k), pos) is None,
        bin_at(s.take(k), pos) is None,
{
    reveal(stands_at);
    reveal(head_at);
    reveal(map_head_at);
    reveal(bin_at);
    reveal(array_head);
    reveal(be16);
    reveal(be32);
    let w = s.subrange(pos, pos + array_head(n).len());
    assert(w[0] == s[pos]);
}

/// A color space cut short is not found.
pub proof fn lemma_color_space_cut(s: Seq<u8>, k: int, pos: int, c: ColorSpace)
    requires
        stands_at(s, pos, color_space_wire(c)),
        pos <= k < pos + color_space_wire(c).len(),
    ensures
        color_space_at(s.take(k), pos) is None,
{
    reveal(stands_at);
    reveal(color_space_at);
    reveal(variant_at);
    reveal(map_head_at);
    reveal(color_space_wire);
    reveal(blob_at);
    reveal(index_at);
    let w = s.subrange(pos, pos + color_space_wire(c).len());
    assert(w[0] == s[pos]);
}

/// The finder finds nothing where what the writer wrote is cut short:
/// whatever value of the kind `ok` begins at a position of a string and
/// does not end in it, the finder finds nothing there.
pub open spec fn cuts<T>(
    finder: spec_fn(Seq<u8>, int) -> Option<(T, int)>,
    writer: spec_fn(T) -> Seq<u8>,
    ok: spec_fn(T) -> bool,
) -> bool {
    forall|s: Seq<u8>, pos: int, v: T, k: int|
        ok(v) && #[trigger] stands_at(s, pos, writer(v)) && pos <= k < pos + writer(v).len()
            ==> (#[trigger] finder(s.take(k), pos)) is None
}

/// Items in a row, cut short, are not found.
pub proof fn lemma_items_cut<T>(
    s: Seq<u8>,
    k: int,
    start: int,
    all: Seq<T>,
    done: nat,
    finder: spec_fn(Seq<u8>, int) -> Option<(T, int)>,
    writer: spec_fn(T) -> Seq<u8>,
    ok: spec_fn(T) -> bool,
)
    requires
        reads(finder, writer, ok),
        cuts(finder, writer, ok),
        all_ok(all, ok),
        stands_at(s, start, items_wire(all, writer)),
        done <= all.len(),
        start + items_wire(all.take(done as int), writer).len() <= k < start + items_wire(
            all,
            writer,
        ).len(),
    ensures
        items_at(
            s.take(k),
            start + items_wire(all.take(done as int), writer).len(),
            (all.len() - done) as nat,
            finder,
            all.take(done as int),
        ) is None,
    decreases all.len() - done,
{
    let t = s.take(k);
    lemma_stands_bounds(s, start, items_wire(all, writer));
    if done == all.len() {
        assert(all.take(done as int) =~= all);
    } else {
        let head = all.take(done as int);
        let next = all.take(done as int + 1);
        let rest = all.skip(done as int + 1);
        assert(all =~= next + rest);
        crate::lists::lemma_items_wire_split(next, rest, writer);
        lemma_items_wire_step(all, done as int, writer);
        lemma_stands_parts(s, start, items_wire(next, writer), items_wire(rest, writer));
        lemma_stands_parts(s, start, items_wire(head, writer), writer(all[done as int]));
        let pos = start + items_wire(head, writer).len();
        let item = all[done as int];
        assert(ok(item));
        if k < pos + writer(item).len() {
            assert(finder(t, pos) is None);
        } else {
            lemma_stands_in_cut(s, k, pos, writer(item));
            assert(finder(t, pos) == Some((item, pos + writer(item).len())));
            assert(head.push(item) =~= next);
            lemma_items_cut(s, k, start, all, done + 1, finder, writer, ok);
        }
    }
}

/// A sequence cut short is not found.
pub proof fn lemma_list_cut<T>(
    s: Seq<u8>,
    k: int,
    pos: int,
    all: Seq<T>,
    finder: spec_fn(Seq<u8>, int) -> Option<(T, int)>,
    writer: spec_fn(T) -> Seq<u8>,
    ok: spec_fn(T) -> bool,
)
    requires
        reads(finder, writer, ok),
        cuts(finder, writer, ok),
        all.len() <= MAX_ITEMS,
        all_ok(all, ok),
        stands_at(s, pos, list_wire(all, writer)),
        pos <= k < pos + list_wire(all, writer).len(),
    ensures
        list_at(s.take(k), pos, finder) is None,
        head_at(s.take(k), pos) is None ==> bin_at(s.take(k), pos) is None,
{
    let t = s.take(k);
    let w0 = array_head(all.len());
    lemma_stands_bounds(s, pos, list_wire(all, writer));
    lemma_stands_parts(s, pos, w0, items_wire(all, writer));
    if k < pos + w0.len() {
        lemma_head_cut(s, k, pos, all.len());
    } else {
        lemma_stands_in_cut(s, k, pos, w0);
        lemma_head_complete(t, pos, all.len());
        assert(all.take(0) =~= Seq::<T>::empty());
        assert(items_wire(all.take(0), writer) =~= Seq::<u8>::empty());
        lemma_items_cut(s, k, pos + w0.len(), all, 0, finder, writer, ok);
    }
}

/// The finder of a channel value finds nothing where one is cut short.
pub proof fn lemma_byte_cuts()
    ensures
        cuts(byte_finder(), byte_item(), anything()),
{
    assert forall|s: Seq<u8>, pos: int, v: u8, k: int| #[trigger]
        stands_at(s, pos, byte_item()(v)) && pos <= k < pos + byte_item()(v).len() implies (
    #[trigger] byte_finder()(s.take(k), pos)) is None by {
        lemma_byte_cut(s, k, pos, v);
    }
}

/// The finder of an index finds nothing where one is cut short.
pub proof fn lemma_uint_cuts()
    ensures
        cuts(uint_finder(), uint_item(), anything()),
{
    assert forall|s: Seq<u8>, pos: int, v: u32, k: int| #[trigger]
        stands_at(s, pos, uint_item()(v)) && pos <= k < pos + uint_item()(v).len() implies (
    #[trigger] uint_finder()(s.take(k), pos)) is None by {
        lemma_uint_cut(s, k, pos, v);
    }
}

/// A sequence of channel values cut short is not found.
pub proof fn lemma_pixels_cut(s: Seq<u8>, k: int, pos: int, all: Seq<u8>)
    requires
        all.len() <= MAX_ITEMS,
        stands_at(s, pos, list_wire(all, byte_item())),
        pos <= k < pos + list_wire(all, byte_item()).len(),
    ensures
        pixels_at(s.take(k), pos) is None,
{
    lemma_byte_reads();
    lemma_byte_cuts();
    lemma_list_cut(s, k, pos, all, byte_finder(), byte_item(), anything());
}

/// A sequence of indices cut short is not found.
pub proof fn lemma_indices_cut(s: Seq<u8>, k: int, pos: int, all: Seq<u32>)
    requires
        all.len() <= MAX_ITEMS,
        stands_at(s, pos, list_wire(all, uint_item())),
        pos <= k < pos + list_wire(all, uint_item()).len(),
    ensures
        indices_at(s.take(k), pos) is None,
{
    lemma_uint_reads();
    lemma_uint_cuts();
    lemma_list_cut(s, k, pos, all, uint_finder(), uint_item(), anything());
}

/// A vector of two scalars cut short is not found.
pub proof fn lemma_vec2_cut(s: Seq<u8>, k: int, pos: int, v: Vec2)
    requires
        stands_at(s, pos, vec2_wire(v)),
        pos <= k < pos + vec2_wire(v).len(),
    ensures
        vec2_at(s.take(k), pos) is None,
{
    let t = s.take(k);
    lemma_stands_bounds(s, pos, vec2_wire(v));
    let w0 = array_head(2);
    let w1 = w0 + scalar_wire(v.x);
    lemma_stands_parts(s, pos, w1, scalar_wire(v.y));
    lemma_stands_parts(s, pos, w0, scalar_wire(v.x));
    if k < pos + w0.len() {
        lemma_head_cut(s, k, pos, 2);
    } else {
        lemma_stands_in_cut(s, k, pos, array_head(2));
        lemma_fields_complete(t, pos, 2);
        if k < pos + w1.len() {
            lemma_scalar_cut(s, k, pos + w0.len(), v.x);
        } else {
            lemma_stands_in_cut(s, k, pos + w0.len(), scalar_wire(v.x));
            lemma_scalar_complete(t, pos + w0.len(), v.x);
            lemma_scalar_cut(s, k, pos + w1.len(), v.y);
        }
    }
}

/// A vector of three scalars cut short is not found.
pub proof fn lemma_vec3_cut(s: Seq<u8>, k: int, pos: int, v: Vec3)
    requires
        stands_at(s, pos, vec3_wire(v)),
        pos <= k < pos + vec3_wire(v).len(),
    ensures
        vec3_at(s.take(k), pos) is None,
{
    let t = s.take(k);
    lemma_stands_bounds(s, pos, vec3_wire(v));
    let w0 = array_head(3);
    let w1 = w0 + scalar_wire(v.x);
    let w2 = w1 + scalar_wire(v.y);
    lemma_stands_parts(s, pos, w2, scalar_wire(v.z));
    lemma_stands_parts(s, pos, w1, scalar_wire(v.y));
    lemma_stands_parts(s, pos, w0, scalar_wire(v.x));
    if k < pos + w0.len() {
        lemma_head_cut(s, k, pos, 3);
    } else {
        lemma_stands_in_cut(s, k, pos, array_head(3));
        lemma_fields_complete(t, pos, 3);
        if k < pos + w1.len() {
            lemma_scalar_cut(s, k, pos + w0.len(), v.x);
        } else {
            lemma_stands_in_cut(s, k, pos + w0.len(), scalar_wire(v.x));
            lemma_scalar_complete(t, pos + w0.len(), v.x);
            if k < pos + w2.len() {
                lemma_scalar_cut(s, k, pos + w1.len(), v.y);
            } else {
                lemma_stands_in_cut(s, k, pos + w1.len(), scalar_wire(v.y));
                lemma_scalar_complete(t, pos + w1.len(), v.y);
                lemma_scalar_cut(s, k, pos + w2.len(), v.z);
            }
        }
    }
}

/// A vector of four scalars cut short is not found.
pub proof fn lemma_vec4_cut(s: Seq<u8>, k: int, pos: int, v: Vec4)
    requires
        stands_at(s, pos, vec4_wire(v)),
        pos <= k < pos + vec4_wire(v).len(),
    ensures
        vec4_at(s.take(k), pos) is None,
{
    let t = s.take(k);
    lemma_stands_bounds(s, pos, vec4_wire(v));
    let w0 = array_head(4);
    let w1 = w0 + scalar_wire(v.x);
    let w2 = w1 + scalar_wire(v.y);
    let w3 = w2 + scalar_wire(v.z);
    lemma_stands_parts(s, pos, w3, scalar_wire(v.w));
    lemma_stands_parts(s, pos, w2, scalar_wire(v.z));
    lemma_stands_parts(s, pos, w1, scalar_wire(v.y));
    lemma_stands_parts(s, pos, w0, scalar_wire(v.x));
    if k < pos + w0.len() {
        lemma_head_cut(s, k, pos, 4);
    } else {
        lemma_stands_in_cut(s, k, pos, array_head(4));
        lemma_fields_complete(t, pos, 4);
        if k < pos + w1.len() {
            lemma_scalar_cut(s, k, pos + w0.len(), v.x);
        } else {
            lemma_stands_in_cut(s, k, pos + w0.len(), scalar_wire(v.x));
            lemma_scalar_complete(t, pos + w0.len(), v.x);
            if k < pos + w2.len() {
                lemma_scalar_cut(s, k, pos + w1.len(), v.y);
            } else {
                lemma_stands_in_cut(s, k, pos + w1.len(), scalar_wire(v.y));
                lemma_scalar_complete(t, pos + w1.len(), v.y);
                if k < pos + w3.len() {
                    lemma_scalar_cut(s, k, pos + w2.len(), v.z);
                } else {
                    lemma_stands_in_cut(s, k, pos + w2.len(), scalar_wire(v.z));
                    lemma_scalar_complete(t, pos + w2.len(), v.z);
                    lemma_scalar_cut(s, k, pos + w3.len(), v.w);
                }
            }
        }
    }
}

/// A vertex cut short is not found.
pub proof fn lemma_vertex_cut(s: Seq<u8>, k: int, pos: int, v: Moletex)
    requires
        stands_at(s, pos, vertex_wire(v)),
        pos <= k < pos + vertex_wire(v).len(),
    ensures
        vertex_at(s.take(k), pos) is None,
{
    let t = s.take(k);
    lemma_stands_bounds(s, pos, vertex_wire(v));
    let w0 = array_head(3);
    let w1 = w0 + vec3_wire(v.position);
    let w2 = w1 + vec2_wire(v.tex_coord);
    lemma_stands_parts(s, pos, w2, vec3_wire(v.normal));
    lemma_stands_parts(s, pos, w1, vec2_wire(v.tex_coord));
    lemma_stands_parts(s, pos, w0, vec3_wire(v.position));
    if k < pos + w0.len() {
        lemma_head_cut(s, k, pos, 3);
    } else {
        lemma_stands_in_cut(s, k, pos, array_head(3));
        lemma_fields_complete(t, pos, 3);
        if k < pos + w1.len() {
            lemma_vec3_cut(s, k, pos + w0.len(), v.position);
        } else {
            lemma_stands_in_cut(s, k, pos + w0.len(), vec3_wire(v.position));
            lemma_vec3_complete(t, pos + w0.len(), v.position);
            if k < pos + w2.len() {
                lemma_vec2_cut(s, k, pos + w1.len(), v.tex_coord);
            } else {
                lemma_stands_in_cut(s, k, pos + w1.len(), vec2_wire(v.tex_coord));
                lemma_vec2_complete(t, pos + w1.len(), v.tex_coord);
                lemma_vec3_cut(s, k, pos + w2.len(), v.normal);
            }
        }
    }
}

/// The color fields of a material, cut short, are not found.
pub proof fn lemma_color_cut(s: Seq<u8>, k: int, pos: int, v: MaterialColor)
    requires
        stands_at(s, pos, color_wire(v)),
        pos <= k < pos + color_wire(v).len(),
    ensures
        color_at(s.take(k), pos) is None,
{
    let t = s.take(k);
    lemma_stands_bounds(s, pos, color_wire(v));
    let w0 = vec4_wire(v.albedo);
    let w1 = w0 + opt_uint_wire(v.albedo_texture);
    lemma_stands_parts(s, pos, w1, opt_scalar_wire(v.alpha_clip_threshold));
    lemma_stands_parts(s, pos, w0, opt_uint_wire(v.albedo_texture));
    if k < pos + w0.len() {
        lemma_vec4_cut(s, k, pos, v.albedo);
    } else {
        lemma_stands_in_cut(s, k, pos, vec4_wire(v.albedo));
        lemma_vec4_complete(t, pos, v.albedo);
        if k < pos + w1.len() {
            lemma_opt_uint_cut(s, k, pos + w0.len(), v.albedo_texture);
        } else {
            lemma_stands_in_cut(s, k, pos + w0.len(), opt_uint_wire(v.albedo_texture));
            lemma_opt_uint_complete(t, pos + w0.len(), v.albedo_texture);
            lemma_opt_scalar_cut(s, k, pos + w1.len(), v.alpha_clip_threshold);
        }
    }
}

/// The mapping fields of a material, cut short, are not found.
pub proof fn lemma_mapping_cut(s: Seq<u8>, k: int, pos: int, v: MaterialMapping)
    requires
        stands_at(s, pos, mapping_wire(v)),
        pos <= k < pos + mapping_wire(v).len(),
    ensures
        mapping_at(s.take(k), pos) is None,
{
    let t = s.take(k);
    lemma_stands_bounds(s, pos, mapping_wire(v));
    let w0 = vec2_wire(v.tex_coord_scale);
    let w1 = w0 + vec2_wire(v.tex_coord_offset);
    lemma_stands_parts(s, pos, w1, bool_wire(v.double_sided));
    lemma_stands_parts(s, pos, w0, vec2_wire(v.tex_coord_offset));
    if k < pos + w0.len() {
        lemma_vec2_cut(s, k, pos, v.tex_coord_scale);
    } else {
        lemma_stands_in_cut(s, k, pos, vec2_wire(v.tex_coord_scale));
        lemma_vec2_complete(t, pos, v.tex_coord_scale);
        if k < pos + w1.len() {
            lemma_vec2_cut(s, k, pos + w0.len(), v.tex_coord_offset);
        } else {
            lemma_stands_in_cut(s, k, pos + w0.len(), vec2_wire(v.tex_coord_offset));
            lemma_vec2_complete(t, pos + w0.len(), v.tex_coord_offset);
            lemma_bool_cut(s, k, pos + w1.len(), v.double_sided);
        }
    }
}

/// The surface fields of a material, cut short, are not found.
pub proof fn lemma_surface_cut(s: Seq<u8>, k: int, pos: int, v: MaterialSurface)
    requires
        stands_at(s, pos, surface_wire(v)),
        pos <= k < pos + surface_wire(v).len(),
    ensures
        surface_at(s.take(k), pos) is None,
{
    let t = s.take(k);
    lemma_stands_bounds(s, pos, surface_wire(v));
    let w0 = scalar_wire(v.roughness);
    let w1 = w0 + opt_uint_wire(v.roughness_texture);
    let w2 = w1 + scalar_wire(v.metalness);
    let w3 = w2 + opt_uint_wire(v.metalness_texture);
    lemma_stands_parts(s, pos, w3, opt_uint_wire(v.normal_map));
    lemma_stands_parts(s, pos, w2, opt_uint_wire(v.metalness_texture));
    lemma_stands_parts(s, pos, w1, scalar_wire(v.metalness));
    lemma_stands_parts(s, pos, w0, opt_uint_wire(v.roughness_texture));
    if k < pos + w0.len() {
        lemma_scalar_cut(s, k, pos, v.roughness);
    } else {
        lemma_stands_in_cut(s, k, pos, scalar_wire(v.roughness));
        lemma_scalar_complete(t, pos, v.roughness);
        if k < pos + w1.len() {
            lemma_opt_uint_cut(s, k, pos + w0.len(), v.roughness_texture);
        } else {
            lemma_stands_in_cut(s, k, pos + w0.len(), opt_uint_wire(v.roughness_texture));
            lemma_opt_uint_complete(t, pos + w0.len(), v.roughness_texture);
            if k < pos + w2.len() {
                lemma_scalar_cut(s, k, pos + w1.len(), v.metalness);
            } else {
                lemma_stands_in_cut(s, k, pos + w1.len(), scalar_wire(v.metalness));
                lemma_scalar_complete(t, pos + w1.len(), v.metalness);
                if k < pos + w3.len() {
                    lemma_opt_uint_cut(s, k, pos + w2.len(), v.metalness_texture);
                } else {
                    lemma_stands_in_cut(s, k, pos + w2.len(), opt_uint_wire(v.metalness_texture));
                    lemma_opt_uint_complete(t, pos + w2.len(), v.metalness_texture);
                    lemma_opt_uint_cut(s, k, pos + w3.len(), v.normal_map);
                }
            }
        }
    }
}

/// A material cut short is not found.
pub proof fn lemma_material_cut(s: Seq<u8>, k: int, pos: int, v: Moleterial)
    requires
        stands_at(s, pos, material_wire(v)),
        pos <= k < pos + material_wire(v).len(),
    ensures
        material_at(s.take(k), pos) is None,
{
    let t = s.take(k);
    lemma_stands_bounds(s, pos, material_wire(v));
    lemma_material_groups(v);
    let w0 = array_head(11);
    let w1 = w0 + color_wire(material_color(v));
    let w2 = w1 + mapping_wire(material_mapping(v));
    lemma_stands_parts(s, pos, w2, surface_wire(material_surface(v)));
    lemma_stands_parts(s, pos, w1, mapping_wire(material_mapping(v)));
    lemma_stands_parts(s, pos, w0, color_wire(material_color(v)));
    if k < pos + w0.len() {
        lemma_head_cut(s, k, pos, 11);
    } else {
        lemma_stands_in_cut(s, k, pos, array_head(11));
        lemma_fields_complete(t, pos, 11);
        if k < pos + w1.len() {
            lemma_color_cut(s, k, pos + w0.len(), material_color(v));
        } else {
            lemma_stands_in_cut(s, k, pos + w0.len(), color_wire(material_color(v)));
            lemma_color_complete(t, pos + w0.len(), material_color(v));
            if k < pos + w2.len() {
                lemma_mapping_cut(s, k, pos + w1.len(), material_mapping(v));
            } else {
                lemma_stands_in_cut(s, k, pos + w1.len(), mapping_wire(material_mapping(v)));
                lemma_mapping_complete(t, pos + w1.len(), material_mapping(v));
                lemma_surface_cut(s, k, pos + w2.len(), material_surface(v));
            }
        }
    }
}

/// The finder of a vertex finds nothing where one is cut short.
pub proof fn lemma_vertex_cuts()
    ensures
        cuts(vertex_finder(), vertex_item(), anything()),
{
    assert forall|s: Seq<u8>, pos: int, v: Moletex, k: int| #[trigger]
        stands_at(s, pos, vertex_item()(v)) && pos <= k < pos + vertex_item()(v).len() implies (
    #[trigger] vertex_finder()(s.take(k), pos)) is None by {
        lemma_vertex_cut(s, k, pos, v);
    }
}

/// The finder of a material finds nothing where one is cut short.
pub proof fn lemma_material_cuts()
    ensures
        cuts(material_finder(), material_item(), anything()),
{
    assert forall|s: Seq<u8>, pos: int, v: Moleterial, k: int| #[trigger]
        stands_at(s, pos, material_item()(v)) && pos <= k < pos + material_item()(v).len() implies (
    #[trigger] material_finder()(s.take(k), pos)) is None by {
        lemma_material_cut(s, k, pos, v);
    }
}

/// An image cut short is not found.
pub proof fn lemma_image_cut(s: Seq<u8>, k: int, pos: int, v: ImageValue)
    requires
        v.fits(),
        stands_at(s, pos, image_wire(v)),
        pos <= k < pos + image_wire(v).len(),
    ensures
        image_at(s.take(k), pos) is None,
{
    let t = s.take(k);
    lemma_stands_bounds(s, pos, image_wire(v));
    let w0 = array_head(4);
    let w1 = w0 + color_space_wire(v.color_space);
    let w2 = w1 + uint_wire(v.width);
    let w3 = w2 + uint_wire(v.height);
    lemma_stands_parts(s, pos, w3, list_wire(v.pixels, byte_item()));
    lemma_stands_parts(s, pos, w2, uint_wire(v.height));
    lemma_stands_parts(s, pos, w1, uint_wire(v.width));
    lemma_stands_parts(s, pos, w0, color_space_wire(v.color_space));
    if k < pos + w0.len() {
        lemma_head_cut(s, k, pos, 4);
    } else {
        lemma_stands_in_cut(s, k, pos, array_head(4));
        lemma_fields_complete(t, pos, 4);
        if k < pos + w1.len() {
            lemma_color_space_cut(s, k, pos + w0.len(), v.color_space);
        } else {
            lemma_stands_in_cut(s, k, pos + w0.len(), color_space_wire(v.color_space));
            lemma_color_space_complete(t, pos + w0.len(), v.color_space);
            if k < pos + w2.len() {
                lemma_uint_cut(s, k, pos + w1.len(), v.width);
            } else {
                lemma_stands_in_cut(s, k, pos + w1.len(), uint_wire(v.width));
                lemma_uint_complete(t, pos + w1.len(), v.width);
                if k < pos + w3.len() {
                    lemma_uint_cut(s, k, pos + w2.len(), v.height);
                } else {
                    lemma_stands_in_cut(s, k, pos + w2.len(), uint_wire(v.height));
                    lemma_uint_complete(t, pos + w2.len(), v.height);
                    lemma_pixels_cut(s, k, pos + w3.len(), v.pixels);
                }
            }
        }
    }
}

/// A model cut short is not found.
pub proof fn lemma_model_cut(s: Seq<u8>, k: int, pos: int, v: ModelValue)
    requires
        v.fits(),
        stands_at(s, pos, model_wire(v)),
        pos <= k < pos + model_wire(v).len(),
    ensures
        model_at(s.take(k), pos) is None,
{
    let t = s.take(k);
    lemma_stands_bounds(s, pos, model_wire(v));
    let w0 = array_head(3);
    let w1 = w0 + list_wire(v.vertices, vertex_item());
    let w2 = w1 + list_wire(v.indices, uint_item());
    lemma_stands_parts(s, pos, w2, uint_wire(v.material));
    lemma_stands_parts(s, pos, w1, list_wire(v.indices, uint_item()));
    lemma_stands_parts(s, pos, w0, list_wire(v.vertices, vertex_item()));
    if k < pos + w0.len() {
        lemma_head_cut(s, k, pos, 3);
    } else {
        lemma_stands_in_cut(s, k, pos, array_head(3));
        lemma_fields_complete(t, pos, 3);
        if k < pos + w1.len() {
            lemma_vertex_reads(); lemma_vertex_cuts(); lemma_list_cut(s, k, pos + w0.len(), v.vertices, vertex_finder(), vertex_item(), anything());
        } else {
            lemma_stands_in_cut(s, k, pos + w0.len(), list_wire(v.vertices, vertex_item()));
            lemma_vertex_reads(); lemma_list_complete(t, pos + w0.len(), v.vertices, vertex_finder(), vertex_item(), anything());
            if k < pos + w2.len() {
                lemma_indices_cut(s, k, pos + w1.len(), v.indices);
            } else {
                lemma_stands_in_cut(s, k, pos + w1.len(), list_wire(v.indices, uint_item()));
                lemma_indices_complete(t, pos + w1.len(), v.indices);
                lemma_uint_cut(s, k, pos + w2.len(), v.material);
            }
        }
    }
}

/// The finder of an image finds nothing where one is cut short.
pub proof fn lemma_image_cuts()
    ensures
        cuts(image_finder(), image_item(), image_fits()),
{
    assert forall|s: Seq<u8>, pos: int, v: ImageValue, k: int|
        image_fits()(v) && #[trigger] stands_at(s, pos, image_item()(v)) && pos <= k < pos
            + image_item()(v).len() implies (#[trigger] image_finder()(s.take(k), pos))
        is None by {
        lemma_image_cut(s, k, pos, v);
    }
}

/// The finder of a model finds nothing where one is cut short.
pub proof fn lemma_model_cuts()
    ensures
        cuts(model_finder(), model_item(), model_fits()),
{
    assert forall|s: Seq<u8>, pos: int, v: ModelValue, k: int|
        model_fits()(v) && #[trigger] stands_at(s, pos, model_item()(v)) && pos <= k < pos
            + model_item()(v).len() implies (#[trigger] model_finder()(s.take(k), pos))
        is None by {
        lemma_model_cut(s, k, pos, v);
    }
}

/// A container cut short is not found.
pub proof fn lemma_container_cut(s: Seq<u8>, k: int, pos: int, v: ContainerValue)
    requires
        v.fits(),
        stands_at(s, pos, container_wire(v)),
        pos <= k < pos + container_wire(v).len(),
    ensures
        container_at(s.take(k), pos) is None,
{
    let t = s.take(k);
    lemma_stands_bounds(s, pos, container_wire(v));
    let w0 = array_head(3);
    let w1 = w0 + list_wire(v.models, model_item());
    let w2 = w1 + list_wire(v.materials, material_item());
    lemma_stands_parts(s, pos, w2, list_wire(v.images, image_item()));
    lemma_stands_parts(s, pos, w1, list_wire(v.materials, material_item()));
    lemma_stands_parts(s, pos, w0, list_wire(v.models, model_item()));
    if k < pos + w0.len() {
        lemma_head_cut(s, k, pos, 3);
    } else {
        lemma_stands_in_cut(s, k, pos, array_head(3));
        lemma_fields_complete(t, pos, 3);
        if k < pos + w1.len() {
            lemma_model_reads(); lemma_model_cuts(); assert(all_ok(v.models, model_fits())); lemma_list_cut(s, k, pos + w0.len(), v.models, model_finder(), model_item(), model_fits());
        } else {
            lemma_stands_in_cut(s, k, pos + w0.len(), list_wire(v.models, model_item()));
            lemma_model_reads(); assert(all_ok(v.models, model_fits())); lemma_list_complete(t, pos + w0.len(), v.models, model_finder(), model_item(), model_fits());
            if k < pos + w2.len() {
                lemma_material_reads(); lemma_material_cuts(); lemma_list_cut(s, k, pos + w1.len(), v.materials, material_finder(), material_item(), anything());
            } else {
                lemma_stands_in_cut(s, k, pos + w1.len(), list_wire(v.materials, material_item()));
                lemma_material_reads(); lemma_list_complete(t, pos + w1.len(), v.materials, material_finder(), material_item(), anything());
                lemma_image_reads(); lemma_image_cuts(); assert(all_ok(v.images, image_fits())); lemma_list_cut(s, k, pos + w2.len(), v.images, image_finder(), image_item(), image_fits());
            }
        }
    }
}

/// The document of a container, cut short, reads as nothing.
pub proof fn lemma_document_cut(c: ContainerValue, len: int)
    requires
        c.fits(),
        0 <= len < container_wire(c).len(),
    ensures
        reads_as(container_wire(c).take(len)) is None,
{
    let s = container_wire(c);
    assert(stands_at(s, 0, s)) by {
        reveal(stands_at);
        assert(s.subrange(0, s.len() as int) =~= s);
    }
    lemma_container_cut(s, len, 0, c);
}

} // verus!
