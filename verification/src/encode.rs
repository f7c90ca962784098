//! The writer: from a container to the bytes of its document.
//!
//! Every function appends to a buffer and says exactly which bytes it
//! appended. A sequence that is too long for an array head cannot be
//! written; the writers of sequences report that and nothing else can fail.

use crate::model::{
    image_values, model_values, ColorSpace, Molehill, Molemage, Moledel, Moleterial, Moletex,
    Scalar, Vec2, Vec3, Vec4,
};
use crate::wire::{
    array_head, be16, be32, bool_wire, byte_item, color_space_wire, container_wire, image_item,
    image_wire, items_wire, lemma_items_wire_step, list_wire, material_item, material_wire,
    model_item, model_wire, opt_scalar_wire, opt_uint_wire, scalar_wire, uint_item, uint_wire,
    vec2_wire, vec3_wire, vec4_wire, vertex_item, vertex_wire, ARRAY16, ARRAY32, FALSE, FIXARRAY,
    FIXSTR4, FLOAT32, MAX_ITEMS, NIL, TRUE, UINT16, UINT32, UINT8,
};
use vstd::prelude::*;

verus! {

/// Bytes appended after a part are appended to the whole.
proof fn lemma_appended(start: Seq<u8>, done: Seq<u8>, part: Seq<u8>, now: Seq<u8>)
    requires
        now == (start + done) + part,
    ensures
        now == start + (done + part),
{
    assert((start + done) + part =~= start + (done + part));
}

fn put_be16(out: &mut Vec<u8>, v: u32)
    requires
        v < 0x1_0000,
    ensures
        final(out)@ == old(out)@ + be16(v as int),
{
    out.push((v / 0x100) as u8);
    out.push((v % 0x100) as u8);
    proof {
        reveal(be16);
    }
    assert(out@ =~= old(out)@ + be16(v as int));
}

fn put_be32(out: &mut Vec<u8>, v: u32)
    ensures
        final(out)@ == old(out)@ + be32(v),
{
    out.push((v / 0x100_0000) as u8);
    out.push(((v / 0x1_0000) % 0x100) as u8);
    out.push(((v / 0x100) % 0x100) as u8);
    out.push((v % 0x100) as u8);
    proof {
        reveal(be32);
    }
    assert(out@ =~= old(out)@ + be32(v));
}

fn write_uint(out: &mut Vec<u8>, v: u32)
    ensures
        final(out)@ == old(out)@ + uint_wire(v),
{
    proof {
        reveal(uint_wire);
    }
    if v < 0x80 {
        out.push(v as u8);
    } else if v < 0x100 {
        out.push(UINT8);
        out.push(v as u8);
    } else if v < 0x1_0000 {
        out.push(UINT16);
        put_be16(out, v);
    } else {
        out.push(UINT32);
        put_be32(out, v);
    }
    assert(out@ =~= old(out)@ + uint_wire(v));
}

fn write_scalar(out: &mut Vec<u8>, x: Scalar)
    ensures
        final(out)@ == old(out)@ + scalar_wire(x),
{
    proof {
        reveal(scalar_wire);
    }
    out.push(FLOAT32);
    put_be32(out, x.bits);
    assert(out@ =~= old(out)@ + scalar_wire(x));
}

fn write_bool(out: &mut Vec<u8>, b: bool)
    ensures
        final(out)@ == old(out)@ + bool_wire(b),
{
    proof {
        reveal(bool_wire);
    }
    if b {
        out.push(TRUE);
    } else {
        out.push(FALSE);
    }
    assert(out@ =~= old(out)@ + bool_wire(b));
}

fn write_opt_uint(out: &mut Vec<u8>, o: Option<u32>)
    ensures
        final(out)@ == old(out)@ + opt_uint_wire(o),
{
    proof {
        reveal(opt_uint_wire);
    }
    match o {
        Some(v) => write_uint(out, v),
        None => {
            out.push(NIL);
            assert(out@ =~= old(out)@ + opt_uint_wire(o));
        },
    }
}

fn write_opt_scalar(out: &mut Vec<u8>, o: Option<Scalar>)
    ensures
        final(out)@ == old(out)@ + opt_scalar_wire(o),
{
    proof {
        reveal(opt_scalar_wire);
    }
    match o {
        Some(x) => write_scalar(out, x),
        None => {
            out.push(NIL);
            assert(out@ =~= old(out)@ + opt_scalar_wire(o));
        },
    }
}

fn write_array_head(out: &mut Vec<u8>, n: u32)
    ensures
        final(out)@ == old(out)@ + array_head(n as nat),
{
    proof {
        reveal(array_head);
    }
    if n < 16 {
        out.push(FIXARRAY + n as u8);
    } else if n < 0x1_0000 {
        out.push(ARRAY16);
        put_be16(out, n);
    } else {
        out.push(ARRAY32);
        put_be32(out, n);
    }
    assert(out@ =~= old(out)@ + array_head(n as nat));
}

fn write_color_space(out: &mut Vec<u8>, c: ColorSpace)
    ensures
        final(out)@ == old(out)@ + color_space_wire(c),
{
    proof {
        reveal(color_space_wire);
    }
    match c {
        ColorSpace::SRGB => {
            out.push(FIXSTR4);
            out.push(0x53);
            out.push(0x52);
            out.push(0x47);
            out.push(0x42);
        },
    }
    assert(out@ =~= old(out)@ + color_space_wire(c));
}

fn write_vec2(out: &mut Vec<u8>, v: Vec2)
    ensures
        final(out)@ == old(out)@ + vec2_wire(v),
{
    write_array_head(out, 2);
    write_scalar(out, v.x);
    write_scalar(out, v.y);
    assert(out@ =~= old(out)@ + vec2_wire(v));
}

fn write_vec3(out: &mut Vec<u8>, v: Vec3)
    ensures
        final(out)@ == old(out)@ + vec3_wire(v),
{
    write_array_head(out, 3);
    write_scalar(out, v.x);
    write_scalar(out, v.y);
    write_scalar(out, v.z);
    assert(out@ =~= old(out)@ + vec3_wire(v));
}

fn write_vec4(out: &mut Vec<u8>, v: Vec4)
    ensures
        final(out)@ == old(out)@ + vec4_wire(v),
{
    write_array_head(out, 4);
    write_scalar(out, v.x);
    write_scalar(out, v.y);
    write_scalar(out, v.z);
    write_scalar(out, v.w);
    assert(out@ =~= old(out)@ + vec4_wire(v));
}

fn write_vertex(out: &mut Vec<u8>, v: Moletex)
    ensures
        final(out)@ == old(out)@ + vertex_wire(v),
{
    write_array_head(out, 3);
    write_vec3(out, v.position);
    write_vec2(out, v.tex_coord);
    write_vec3(out, v.normal);
    assert(out@ =~= old(out)@ + vertex_wire(v));
}

fn write_material(out: &mut Vec<u8>, m: Moleterial)
    ensures
        final(out)@ == old(out)@ + material_wire(m),
{
    let ghost start = out@;
    write_array_head(out, 11);
    let ghost mut done = array_head(11);
    write_vec4(out, m.albedo);
    proof {
        lemma_appended(start, done, vec4_wire(m.albedo), out@);
        done = done + vec4_wire(m.albedo);
    }
    write_opt_uint(out, m.albedo_texture);
    proof {
        lemma_appended(start, done, opt_uint_wire(m.albedo_texture), out@);
        done = done + opt_uint_wire(m.albedo_texture);
    }
    write_opt_scalar(out, m.alpha_clip_threshold);
    proof {
        lemma_appended(start, done, opt_scalar_wire(m.alpha_clip_threshold), out@);
        done = done + opt_scalar_wire(m.alpha_clip_threshold);
    }
    write_vec2(out, m.tex_coord_scale);
    proof {
        lemma_appended(start, done, vec2_wire(m.tex_coord_scale), out@);
        done = done + vec2_wire(m.tex_coord_scale);
    }
    write_vec2(out, m.tex_coord_offset);
    proof {
        lemma_appended(start, done, vec2_wire(m.tex_coord_offset), out@);
        done = done + vec2_wire(m.tex_coord_offset);
    }
    write_bool(out, m.double_sided);
    proof {
        lemma_appended(start, done, bool_wire(m.double_sided), out@);
        done = done + bool_wire(m.double_sided);
    }
    write_scalar(out, m.roughness);
    proof {
        lemma_appended(start, done, scalar_wire(m.roughness), out@);
        done = done + scalar_wire(m.roughness);
    }
    write_opt_uint(out, m.roughness_texture);
    proof {
        lemma_appended(start, done, opt_uint_wire(m.roughness_texture), out@);
        done = done + opt_uint_wire(m.roughness_texture);
    }
    write_scalar(out, m.metalness);
    proof {
        lemma_appended(start, done, scalar_wire(m.metalness), out@);
        done = done + scalar_wire(m.metalness);
    }
    write_opt_uint(out, m.metalness_texture);
    proof {
        lemma_appended(start, done, opt_uint_wire(m.metalness_texture), out@);
        done = done + opt_uint_wire(m.metalness_texture);
    }
    write_opt_uint(out, m.normal_map);
    proof {
        lemma_appended(start, done, opt_uint_wire(m.normal_map), out@);
        done = done + opt_uint_wire(m.normal_map);
    }
    assert(done == material_wire(m));
}

/// Writes the array head for `len` items, if there is one.
fn write_list_head(out: &mut Vec<u8>, len: usize) -> (ok: bool)
    ensures
        ok == (len <= MAX_ITEMS),
        ok ==> final(out)@ == old(out)@ + array_head(len as nat),
{
    if len > MAX_ITEMS as usize {
        return false;
    }
    write_array_head(out, len as u32);
    true
}

fn write_pixels(out: &mut Vec<u8>, pixels: &Vec<u8>) -> (ok: bool)
    ensures
        ok == (pixels@.len() <= MAX_ITEMS),
        ok ==> final(out)@ == old(out)@ + list_wire(pixels@, byte_item()),
{
    let n: usize = pixels.len();
    if !write_list_head(out, n) {
        return false;
    }
    let ghost head = out@;
    let mut i: usize = 0;
    while i < n
        invariant
            i <= n,
            n == pixels@.len(),
            out@ == head + items_wire(pixels@.take(i as int), byte_item()),
        decreases n - i,
    {
        write_uint(out, pixels[i] as u32);
        proof {
            lemma_items_wire_step(pixels@, i as int, byte_item());
            assert(out@ =~= head + items_wire(pixels@.take(i + 1), byte_item()));
        }
        i += 1;
    }
    proof {
        assert(pixels@.take(n as int) =~= pixels@);
        assert(out@ =~= old(out)@ + list_wire(pixels@, byte_item()));
    }
    true
}

fn write_indices(out: &mut Vec<u8>, indices: &Vec<u32>) -> (ok: bool)
    ensures
        ok == (indices@.len() <= MAX_ITEMS),
        ok ==> final(out)@ == old(out)@ + list_wire(indices@, uint_item()),
{
    let n: usize = indices.len();
    if !write_list_head(out, n) {
        return false;
    }
    let ghost head = out@;
    let mut i: usize = 0;
    while i < n
        invariant
            i <= n,
            n == indices@.len(),
            out@ == head + items_wire(indices@.take(i as int), uint_item()),
        decreases n - i,
    {
        write_uint(out, indices[i]);
        proof {
            lemma_items_wire_step(indices@, i as int, uint_item());
            assert(out@ =~= head + items_wire(indices@.take(i + 1), uint_item()));
        }
        i += 1;
    }
    proof {
        assert(indices@.take(n as int) =~= indices@);
        assert(out@ =~= old(out)@ + list_wire(indices@, uint_item()));
    }
    true
}

fn write_vertices(out: &mut Vec<u8>, vertices: &Vec<Moletex>) -> (ok: bool)
    ensures
        ok == (vertices@.len() <= MAX_ITEMS),
        ok ==> final(out)@ == old(out)@ + list_wire(vertices@, vertex_item()),
{
    let n: usize = vertices.len();
    if !write_list_head(out, n) {
        return false;
    }
    let ghost head = out@;
    let mut i: usize = 0;
    while i < n
        invariant
            i <= n,
            n == vertices@.len(),
            out@ == head + items_wire(vertices@.take(i as int), vertex_item()),
        decreases n - i,
    {
        write_vertex(out, vertices[i]);
        proof {
            lemma_items_wire_step(vertices@, i as int, vertex_item());
            assert(out@ =~= head + items_wire(vertices@.take(i + 1), vertex_item()));
        }
        i += 1;
    }
    proof {
        assert(vertices@.take(n as int) =~= vertices@);
        assert(out@ =~= old(out)@ + list_wire(vertices@, vertex_item()));
    }
    true
}

fn write_materials(out: &mut Vec<u8>, materials: &Vec<Moleterial>) -> (ok: bool)
    ensures
        ok == (materials@.len() <= MAX_ITEMS),
        ok ==> final(out)@ == old(out)@ + list_wire(materials@, material_item()),
{
    let n: usize = materials.len();
    if !write_list_head(out, n) {
        return false;
    }
    let ghost head = out@;
    let mut i: usize = 0;
    while i < n
        invariant
            i <= n,
            n == materials@.len(),
            out@ == head + items_wire(materials@.take(i as int), material_item()),
        decreases n - i,
    {
        write_material(out, materials[i]);
        proof {
            lemma_items_wire_step(materials@, i as int, material_item());
            assert(out@ =~= head + items_wire(materials@.take(i + 1), material_item()));
        }
        i += 1;
    }
    proof {
        assert(materials@.take(n as int) =~= materials@);
        assert(out@ =~= old(out)@ + list_wire(materials@, material_item()));
    }
    true
}

fn write_image(out: &mut Vec<u8>, image: &Molemage) -> (ok: bool)
    ensures
        ok == image@.fits(),
        ok ==> final(out)@ == old(out)@ + image_wire(image@),
{
    write_array_head(out, 4);
    write_color_space(out, image.color_space);
    write_uint(out, image.width);
    write_uint(out, image.height);
    if !write_pixels(out, &image.pixels) {
        return false;
    }
    assert(out@ =~= old(out)@ + image_wire(image@));
    true
}

fn write_model(out: &mut Vec<u8>, model: &Moledel) -> (ok: bool)
    ensures
        ok == model@.fits(),
        ok ==> final(out)@ == old(out)@ + model_wire(model@),
{
    write_array_head(out, 3);
    if !write_vertices(out, &model.vertices) {
        return false;
    }
    if !write_indices(out, &model.indices) {
        return false;
    }
    write_uint(out, model.material);
    assert(out@ =~= old(out)@ + model_wire(model@));
    true
}

fn write_images(out: &mut Vec<u8>, images: &Vec<Molemage>) -> (ok: bool)
    ensures
        ok == (images@.len() <= MAX_ITEMS && forall|i: int|
            0 <= i < images@.len() ==> (#[trigger] image_values(images@)[i]).fits()),
        ok ==> final(out)@ == old(out)@ + list_wire(image_values(images@), image_item()),
{
    let n: usize = images.len();
    if !write_list_head(out, n) {
        return false;
    }
    let ghost head = out@;
    let ghost values = image_values(images@);
    let mut i: usize = 0;
    while i < n
        invariant
            i <= n,
            n == images@.len(),
            values == image_values(images@),
            forall|j: int| 0 <= j < i ==> (#[trigger] values[j]).fits(),
            out@ == head + items_wire(values.take(i as int), image_item()),
        decreases n - i,
    {
        assert(values[i as int] == images@[i as int]@);
        if !write_image(out, &images[i]) {
            return false;
        }
        proof {
            lemma_items_wire_step(values, i as int, image_item());
            assert(out@ =~= head + items_wire(values.take(i + 1), image_item()));
        }
        i += 1;
    }
    proof {
        assert(values.take(n as int) =~= values);
        assert(out@ =~= old(out)@ + list_wire(values, image_item()));
    }
    true
}

fn write_models(out: &mut Vec<u8>, models: &Vec<Moledel>) -> (ok: bool)
    ensures
        ok == (models@.len() <= MAX_ITEMS && forall|i: int|
            0 <= i < models@.len() ==> (#[trigger] model_values(models@)[i]).fits()),
        ok ==> final(out)@ == old(out)@ + list_wire(model_values(models@), model_item()),
{
    let n: usize = models.len();
    if !write_list_head(out, n) {
        return false;
    }
    let ghost head = out@;
    let ghost values = model_values(models@);
    let mut i: usize = 0;
    while i < n
        invariant
            i <= n,
            n == models@.len(),
            values == model_values(models@),
            forall|j: int| 0 <= j < i ==> (#[trigger] values[j]).fits(),
            out@ == head + items_wire(values.take(i as int), model_item()),
        decreases n - i,
    {
        assert(values[i as int] == models@[i as int]@);
        if !write_model(out, &models[i]) {
            return false;
        }
        proof {
            lemma_items_wire_step(values, i as int, model_item());
            assert(out@ =~= head + items_wire(values.take(i + 1), model_item()));
        }
        i += 1;
    }
    proof {
        assert(values.take(n as int) =~= values);
        assert(out@ =~= old(out)@ + list_wire(values, model_item()));
    }
    true
}

/// Writes the document of a container.
///
/// The result is absent exactly when the container does not fit, that is
/// when one of its sequences is too long for an array head. Otherwise it is
/// the document that [`container_wire`] describes, byte for byte.
pub fn encode(hill: &Molehill) -> (document: Option<Vec<u8>>)
    ensures
        document is Some <==> hill@.fits(),
        document matches Some(bytes) ==> bytes@ == container_wire(hill@),
{
    let mut out: Vec<u8> = Vec::new();
    write_array_head(&mut out, 3);
    if !write_models(&mut out, &hill.models) {
        return None;
    }
    if !write_materials(&mut out, &hill.materials) {
        return None;
    }
    if !write_images(&mut out, &hill.images) {
        return None;
    }
    assert(out@ =~= container_wire(hill@));
    Some(out)
}

} // verus!
