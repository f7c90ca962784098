//! The records of fixed shape at a position: vectors, a vertex, a material.
//!
//! A vector is an array of its components. A vertex and a material are
//! arrays of their fields in declared order, or maps of them: see
//! [`crate::maps`]. The writer writes arrays, and `.._complete` says that
//! what it writes is found.

use crate::grammar::{
    bool_at, fields_at, lemma_bool_complete, lemma_head_complete, lemma_opt_scalar_complete,
    lemma_opt_uint_complete, lemma_scalar_complete, lemma_stands_parts, opt_scalar_at,
    opt_uint_at, scalar_at, stands_at,
};
use crate::maps::{kept, kept_or_absent, map_at, start_of};
use crate::model::{Moleterial, Moletex, Scalar, Vec2, Vec3, Vec4};
use crate::wire::{
    array_head, bool_wire, material_wire, opt_scalar_wire, opt_uint_wire, scalar_wire, vec2_wire,
    vec3_wire, vec4_wire, vertex_wire,
};
use vstd::prelude::*;

verus! {

/// The head of a struct written at `pos` is found there by [`fields_at`].
pub proof fn lemma_fields_complete(s: Seq<u8>, pos: int, n: u32)
    requires
        stands_at(s, pos, array_head(n as nat)),
    ensures
        fields_at(s, pos, n) == Some(pos + array_head(n as nat).len()),
{
    lemma_head_complete(s, pos, n as nat);
}

/// A vector of two scalars at `pos`, and the position behind it.
pub open spec fn vec2_at(s: Seq<u8>, pos: int) -> Option<(Vec2, int)> {
    match fields_at(s, pos, 2) {
        Some(p0) => match scalar_at(s, p0) {
            Some((x, p1)) => match scalar_at(s, p1) {
                Some((y, p2)) => Some((Vec2 { x, y }, p2)),
                None => None,
            },
            None => None,
        },
        None => None,
    }
}

/// A vector of two scalars written at `pos` is found there by [`vec2_at`].
pub proof fn lemma_vec2_complete(s: Seq<u8>, pos: int, v: Vec2)
    requires
        stands_at(s, pos, vec2_wire(v)),
    ensures
        vec2_at(s, pos) == Some((v, pos + vec2_wire(v).len())),
{
    let w0 = array_head(2);
    let w1 = w0 + scalar_wire(v.x);
    lemma_stands_parts(s, pos, w1, scalar_wire(v.y));
    lemma_stands_parts(s, pos, w0, scalar_wire(v.x));
    lemma_fields_complete(s, pos, 2);
    lemma_scalar_complete(s, pos + w0.len(), v.x);
    lemma_scalar_complete(s, pos + w1.len(), v.y);
}

/// A vector of three scalars at `pos`, and the position behind it.
pub open spec fn vec3_at(s: Seq<u8>, pos: int) -> Option<(Vec3, int)> {
    match fields_at(s, pos, 3) {
        Some(p0) => match scalar_at(s, p0) {
            Some((x, p1)) => match scalar_at(s, p1) {
                Some((y, p2)) => match scalar_at(s, p2) {
                    Some((z, p3)) => Some((Vec3 { x, y, z }, p3)),
                    None => None,
                },
                None => None,
            },
            None => None,
        },
        None => None,
    }
}

/// A vector of three scalars written at `pos` is found there by [`vec3_at`].
pub proof fn lemma_vec3_complete(s: Seq<u8>, pos: int, v: Vec3)
    requires
        stands_at(s, pos, vec3_wire(v)),
    ensures
        vec3_at(s, pos) == Some((v, pos + vec3_wire(v).len())),
{
    let w0 = array_head(3);
    let w1 = w0 + scalar_wire(v.x);
    let w2 = w1 + scalar_wire(v.y);
    lemma_stands_parts(s, pos, w2, scalar_wire(v.z));
    lemma_stands_parts(s, pos, w1, scalar_wire(v.y));
    lemma_stands_parts(s, pos, w0, scalar_wire(v.x));
    lemma_fields_complete(s, pos, 3);
    lemma_scalar_complete(s, pos + w0.len(), v.x);
    lemma_scalar_complete(s, pos + w1.len(), v.y);
    lemma_scalar_complete(s, pos + w2.len(), v.z);
}

/// A vector of four scalars at `pos`, and the position behind it.
pub open spec fn vec4_at(s: Seq<u8>, pos: int) -> Option<(Vec4, int)> {
    match fields_at(s, pos, 4) {
        Some(p0) => match scalar_at(s, p0) {
            Some((x, p1)) => match scalar_at(s, p1) {
                Some((y, p2)) => match scalar_at(s, p2) {
                    Some((z, p3)) => match scalar_at(s, p3) {
                        Some((w, p4)) => Some((Vec4 { x, y, z, w }, p4)),
                        None => None,
                    },
                    None => None,
                },
                None => None,
            },
            None => None,
        },
        None => None,
    }
}

/// A vector of four scalars written at `pos` is found there by [`vec4_at`].
pub proof fn lemma_vec4_complete(s: Seq<u8>, pos: int, v: Vec4)
    requires
        stands_at(s, pos, vec4_wire(v)),
    ensures
        vec4_at(s, pos) == Some((v, pos + vec4_wire(v).len())),
{
    let w0 = array_head(4);
    let w1 = w0 + scalar_wire(v.x);
    let w2 = w1 + scalar_wire(v.y);
    let w3 = w2 + scalar_wire(v.z);
    lemma_stands_parts(s, pos, w3, scalar_wire(v.w));
    lemma_stands_parts(s, pos, w2, scalar_wire(v.z));
    lemma_stands_parts(s, pos, w1, scalar_wire(v.y));
    lemma_stands_parts(s, pos, w0, scalar_wire(v.x));
    lemma_fields_complete(s, pos, 4);
    lemma_scalar_complete(s, pos + w0.len(), v.x);
    lemma_scalar_complete(s, pos + w1.len(), v.y);
    lemma_scalar_complete(s, pos + w2.len(), v.z);
    lemma_scalar_complete(s, pos + w3.len(), v.w);
}

/// The names of the fields of a vertex, in declared order.
pub open spec fn vertex_names() -> Seq<Seq<u8>> {
    seq![
        seq![0x70u8, 0x6fu8, 0x73u8, 0x69u8, 0x74u8, 0x69u8, 0x6fu8, 0x6eu8],
        seq![0x74u8, 0x65u8, 0x78u8, 0x5fu8, 0x63u8, 0x6fu8, 0x6fu8, 0x72u8, 0x64u8],
        seq![0x6eu8, 0x6fu8, 0x72u8, 0x6du8, 0x61u8, 0x6cu8],
    ]
}

/// The fields of a vertex in a row.
pub open spec fn vertex_row_at(s: Seq<u8>, p0: int) -> Option<(Moletex, int)> {
    match vec3_at(s, p0) {
        Some((position, p1)) => match vec2_at(s, p1) {
            Some((tex_coord, p2)) => match vec3_at(s, p2) {
                Some((normal, p3)) => Some((Moletex { position, tex_coord, normal }, p3)),
                None => None,
            },
            None => None,
        },
        None => None,
    }
}

/// The fields of a vertex, each where a map gave it.
pub open spec fn vertex_in(s: Seq<u8>, slots: Seq<Option<(int, int)>>) -> Option<Moletex> {
    match kept(vec3_at(s, start_of(slots[0])), slots[0]) {
        Some(position) => match kept(vec2_at(s, start_of(slots[1])), slots[1]) {
            Some(tex_coord) => match kept(vec3_at(s, start_of(slots[2])), slots[2]) {
                Some(normal) => Some(Moletex { position, tex_coord, normal }),
                None => None,
            },
            None => None,
        },
        None => None,
    }
}

/// A vertex at `pos`, as an array or as a map, and the position behind it.
pub open spec fn vertex_at(s: Seq<u8>, pos: int) -> Option<(Moletex, int)> {
    match fields_at(s, pos, 3) {
        Some(p0) => vertex_row_at(s, p0),
        None => match map_at(s, pos, vertex_names()) {
            Some((slots, end)) => match vertex_in(s, slots) {
                Some(v) => Some((v, end)),
                None => None,
            },
            None => None,
        },
    }
}

/// A vertex written at `pos` is found there by [`vertex_at`].
pub proof fn lemma_vertex_complete(s: Seq<u8>, pos: int, v: Moletex)
    requires
        stands_at(s, pos, vertex_wire(v)),
    ensures
        vertex_at(s, pos) == Some((v, pos + vertex_wire(v).len())),
{
    let w0 = array_head(3);
    let w1 = w0 + vec3_wire(v.position);
    let w2 = w1 + vec2_wire(v.tex_coord);
    lemma_stands_parts(s, pos, w2, vec3_wire(v.normal));
    lemma_stands_parts(s, pos, w1, vec2_wire(v.tex_coord));
    lemma_stands_parts(s, pos, w0, vec3_wire(v.position));
    lemma_fields_complete(s, pos, 3);
    lemma_vec3_complete(s, pos + w0.len(), v.position);
    lemma_vec2_complete(s, pos + w1.len(), v.tex_coord);
    lemma_vec3_complete(s, pos + w2.len(), v.normal);
}

/// The color fields of a material: the first three.
pub struct MaterialColor {
    pub albedo: Vec4,
    pub albedo_texture: Option<u32>,
    pub alpha_clip_threshold: Option<Scalar>,
}

/// The fields of a material that say how it is mapped: the fourth to the
/// sixth.
pub struct MaterialMapping {
    pub tex_coord_scale: Vec2,
    pub tex_coord_offset: Vec2,
    pub double_sided: bool,
}

/// The surface fields of a material: the last five.
pub struct MaterialSurface {
    pub roughness: Scalar,
    pub roughness_texture: Option<u32>,
    pub metalness: Scalar,
    pub metalness_texture: Option<u32>,
    pub normal_map: Option<u32>,
}

/// The color fields of a material.
pub open spec fn material_color(m: Moleterial) -> MaterialColor {
    MaterialColor {
        albedo: m.albedo,
        albedo_texture: m.albedo_texture,
        alpha_clip_threshold: m.alpha_clip_threshold,
    }
}

/// The mapping fields of a material.
pub open spec fn material_mapping(m: Moleterial) -> MaterialMapping {
    MaterialMapping {
        tex_coord_scale: m.tex_coord_scale,
        tex_coord_offset: m.tex_coord_offset,
        double_sided: m.double_sided,
    }
}

/// The surface fields of a material.
pub open spec fn material_surface(m: Moleterial) -> MaterialSurface {
    MaterialSurface {
        roughness: m.roughness,
        roughness_texture: m.roughness_texture,
        metalness: m.metalness,
        metalness_texture: m.metalness_texture,
        normal_map: m.normal_map,
    }
}

/// The material with these three groups of fields.
pub open spec fn material_of(c: MaterialColor, g: MaterialMapping, f: MaterialSurface) -> Moleterial {
    Moleterial {
        albedo: c.albedo,
        albedo_texture: c.albedo_texture,
        alpha_clip_threshold: c.alpha_clip_threshold,
        tex_coord_scale: g.tex_coord_scale,
        tex_coord_offset: g.tex_coord_offset,
        double_sided: g.double_sided,
        roughness: f.roughness,
        roughness_texture: f.roughness_texture,
        metalness: f.metalness,
        metalness_texture: f.metalness_texture,
        normal_map: f.normal_map,
    }
}

/// The color fields of a material, as they are written.
pub open spec fn color_wire(c: MaterialColor) -> Seq<u8> {
    vec4_wire(c.albedo) + opt_uint_wire(c.albedo_texture) + opt_scalar_wire(
        c.alpha_clip_threshold,
    )
}

/// The mapping fields of a material, as they are written.
pub open spec fn mapping_wire(g: MaterialMapping) -> Seq<u8> {
    vec2_wire(g.tex_coord_scale) + vec2_wire(g.tex_coord_offset) + bool_wire(g.double_sided)
}

/// The surface fields of a material, as they are written.
pub open spec fn surface_wire(f: MaterialSurface) -> Seq<u8> {
    scalar_wire(f.roughness) + opt_uint_wire(f.roughness_texture) + scalar_wire(f.metalness)
        + opt_uint_wire(f.metalness_texture) + opt_uint_wire(f.normal_map)
}

/// Twelve parts in a row are a head and groups of three, three and five.
proof fn lemma_regroup(
    h: Seq<u8>,
    c1: Seq<u8>,
    c2: Seq<u8>,
    c3: Seq<u8>,
    g1: Seq<u8>,
    g2: Seq<u8>,
    g3: Seq<u8>,
    f1: Seq<u8>,
    f2: Seq<u8>,
    f3: Seq<u8>,
    f4: Seq<u8>,
    f5: Seq<u8>,
)
    ensures
        h + c1 + c2 + c3 + g1 + g2 + g3 + f1 + f2 + f3 + f4 + f5 == h + (c1 + c2 + c3) + (g1 + g2
            + g3) + (f1 + f2 + f3 + f4 + f5),
{
    let front = h + c1 + c2 + c3;
    assert(front =~= h + (c1 + c2 + c3));
    let middle = front + g1 + g2 + g3;
    assert(middle =~= front + (g1 + g2 + g3));
    assert(middle + f1 + f2 + f3 + f4 + f5 =~= middle + (f1 + f2 + f3 + f4 + f5));
}

/// A material is its three groups of fields.
pub proof fn lemma_material_of_groups(m: Moleterial)
    ensures
        material_of(material_color(m), material_mapping(m), material_surface(m)) == m,
{
}

/// A material is written as its head and its three groups, one after another.
pub proof fn lemma_material_groups(m: Moleterial)
    ensures
        material_wire(m) == array_head(11) + color_wire(material_color(m)) + mapping_wire(
            material_mapping(m),
        ) + surface_wire(material_surface(m)),
{
    lemma_regroup(
        array_head(11),
        vec4_wire(m.albedo),
        opt_uint_wire(m.albedo_texture),
        opt_scalar_wire(m.alpha_clip_threshold),
        vec2_wire(m.tex_coord_scale),
        vec2_wire(m.tex_coord_offset),
        bool_wire(m.double_sided),
        scalar_wire(m.roughness),
        opt_uint_wire(m.roughness_texture),
        scalar_wire(m.metalness),
        opt_uint_wire(m.metalness_texture),
        opt_uint_wire(m.normal_map),
    );
}

/// The color fields of a material at `pos`, and the position behind it.
pub open spec fn color_at(s: Seq<u8>, pos: int) -> Option<(MaterialColor, int)> {
    match vec4_at(s, pos) {
        Some((albedo, p1)) => match opt_uint_at(s, p1) {
            Some((albedo_texture, p2)) => match opt_scalar_at(s, p2) {
                Some((alpha_clip_threshold, p3)) => Some(
                    (MaterialColor { albedo, albedo_texture, alpha_clip_threshold }, p3),
                ),
                None => None,
            },
            None => None,
        },
        None => None,
    }
}

/// The mapping fields of a material at `pos`, and the position behind it.
pub open spec fn mapping_at(s: Seq<u8>, pos: int) -> Option<(MaterialMapping, int)> {
    match vec2_at(s, pos) {
        Some((tex_coord_scale, p1)) => match vec2_at(s, p1) {
            Some((tex_coord_offset, p2)) => match bool_at(s, p2) {
                Some((double_sided, p3)) => Some(
                    (MaterialMapping { tex_coord_scale, tex_coord_offset, double_sided }, p3),
                ),
                None => None,
            },
            None => None,
        },
        None => None,
    }
}

/// The surface fields of a material at `pos`, and the position behind it.
pub open spec fn surface_at(s: Seq<u8>, pos: int) -> Option<(MaterialSurface, int)> {
    match scalar_at(s, pos) {
        Some((roughness, p1)) => match opt_uint_at(s, p1) {
            Some((roughness_texture, p2)) => match scalar_at(s, p2) {
                Some((metalness, p3)) => match opt_uint_at(s, p3) {
                    Some((metalness_texture, p4)) => match opt_uint_at(s, p4) {
                        Some((normal_map, p5)) => Some(
                            (
                                MaterialSurface {
                                    roughness,
                                    roughness_texture,
                                    metalness,
                                    metalness_texture,
                                    normal_map,
                                },
                                p5,
                            ),
                        ),
                        None => None,
                    },
                    None => None,
                },
                None => None,
            },
            None => None,
        },
        None => None,
    }
}

/// The names of the fields of a material, in declared order.
pub open spec fn material_names() -> Seq<Seq<u8>> {
    seq![
        seq![0x61u8, 0x6cu8, 0x62u8, 0x65u8, 0x64u8, 0x6fu8],
        seq![
            0x61u8, 0x6cu8, 0x62u8, 0x65u8, 0x64u8, 0x6fu8, 0x5fu8, 0x74u8, 0x65u8, 0x78u8,
            0x74u8, 0x75u8, 0x72u8, 0x65u8,
        ],
        seq![
            0x61u8, 0x6cu8, 0x70u8, 0x68u8, 0x61u8, 0x5fu8, 0x63u8, 0x6cu8, 0x69u8, 0x70u8,
            0x5fu8, 0x74u8, 0x68u8, 0x72u8, 0x65u8, 0x73u8, 0x68u8, 0x6fu8, 0x6cu8, 0x64u8,
        ],
        seq![
            0x74u8, 0x65u8, 0x78u8, 0x5fu8, 0x63u8, 0x6fu8, 0x6fu8, 0x72u8, 0x64u8, 0x5fu8,
            0x73u8, 0x63u8, 0x61u8, 0x6cu8, 0x65u8,
        ],
        seq![
            0x74u8, 0x65u8, 0x78u8, 0x5fu8, 0x63u8, 0x6fu8, 0x6fu8, 0x72u8, 0x64u8, 0x5fu8,
            0x6fu8, 0x66u8, 0x66u8, 0x73u8, 0x65u8, 0x74u8,
        ],
        seq![
            0x64u8, 0x6fu8, 0x75u8, 0x62u8, 0x6cu8, 0x65u8, 0x5fu8, 0x73u8, 0x69u8, 0x64u8,
            0x65u8, 0x64u8,
        ],
        seq![0x72u8, 0x6fu8, 0x75u8, 0x67u8, 0x68u8, 0x6eu8, 0x65u8, 0x73u8, 0x73u8],
        seq![
            0x72u8, 0x6fu8, 0x75u8, 0x67u8, 0x68u8, 0x6eu8, 0x65u8, 0x73u8, 0x73u8, 0x5fu8,
            0x74u8, 0x65u8, 0x78u8, 0x74u8, 0x75u8, 0x72u8, 0x65u8,
        ],
        seq![0x6du8, 0x65u8, 0x74u8, 0x61u8, 0x6cu8, 0x6eu8, 0x65u8, 0x73u8, 0x73u8],
        seq![
            0x6du8, 0x65u8, 0x74u8, 0x61u8, 0x6cu8, 0x6eu8, 0x65u8, 0x73u8, 0x73u8, 0x5fu8,
            0x74u8, 0x65u8, 0x78u8, 0x74u8, 0x75u8, 0x72u8, 0x65u8,
        ],
        seq![0x6eu8, 0x6fu8, 0x72u8, 0x6du8, 0x61u8, 0x6cu8, 0x5fu8, 0x6du8, 0x61u8, 0x70u8],
    ]
}

/// The fields of a material in a row.
pub open spec fn material_row_at(s: Seq<u8>, p0: int) -> Option<(Moleterial, int)> {
    match color_at(s, p0) {
        Some((c, p1)) => match mapping_at(s, p1) {
            Some((g, p2)) => match surface_at(s, p2) {
                Some((f, p3)) => Some((material_of(c, g, f), p3)),
                None => None,
            },
            None => None,
        },
        None => None,
    }
}

/// The color fields of a material, each where a map gave it.
pub open spec fn color_in(s: Seq<u8>, slots: Seq<Option<(int, int)>>) -> Option<MaterialColor> {
    match kept(vec4_at(s, start_of(slots[0])), slots[0]) {
        Some(albedo) => match kept_or_absent(opt_uint_at(s, start_of(slots[1])), slots[1]) {
            Some(albedo_texture) => match kept_or_absent(
                opt_scalar_at(s, start_of(slots[2])),
                slots[2],
            ) {
                Some(alpha_clip_threshold) => Some(
                    MaterialColor { albedo, albedo_texture, alpha_clip_threshold },
                ),
                None => None,
            },
            None => None,
        },
        None => None,
    }
}

/// The mapping fields of a material, each where a map gave it.
pub open spec fn mapping_in(s: Seq<u8>, slots: Seq<Option<(int, int)>>) -> Option<
    MaterialMapping,
> {
    match kept(vec2_at(s, start_of(slots[3])), slots[3]) {
        Some(tex_coord_scale) => match kept(vec2_at(s, start_of(slots[4])), slots[4]) {
            Some(tex_coord_offset) => match kept(bool_at(s, start_of(slots[5])), slots[5]) {
                Some(double_sided) => Some(
                    MaterialMapping { tex_coord_scale, tex_coord_offset, double_sided },
                ),
                None => None,
            },
            None => None,
        },
        None => None,
    }
}

/// The surface fields of a material, each where a map gave it.
pub open spec fn surface_in(s: Seq<u8>, slots: Seq<Option<(int, int)>>) -> Option<
    MaterialSurface,
> {
    match kept(scalar_at(s, start_of(slots[6])), slots[6]) {
        Some(roughness) => match kept_or_absent(opt_uint_at(s, start_of(slots[7])), slots[7]) {
            Some(roughness_texture) => match kept(scalar_at(s, start_of(slots[8])), slots[8]) {
                Some(metalness) => match kept_or_absent(
                    opt_uint_at(s, start_of(slots[9])),
                    slots[9],
                ) {
                    Some(metalness_texture) => match kept_or_absent(
                        opt_uint_at(s, start_of(slots[10])),
                        slots[10],
                    ) {
                        Some(normal_map) => Some(
                            MaterialSurface {
                                roughness,
                                roughness_texture,
                                metalness,
                                metalness_texture,
                                normal_map,
                            },
                        ),
                        None => None,
                    },
                    None => None,
                },
                None => None,
            },
            None => None,
        },
        None => None,
    }
}

/// The fields of a material, each where a map gave it.
pub open spec fn material_in(s: Seq<u8>, slots: Seq<Option<(int, int)>>) -> Option<Moleterial> {
    match color_in(s, slots) {
        Some(c) => match mapping_in(s, slots) {
            Some(g) => match surface_in(s, slots) {
                Some(f) => Some(material_of(c, g, f)),
                None => None,
            },
            None => None,
        },
        None => None,
    }
}

/// A material at `pos`, as an array or as a map, and the position behind it.
pub open spec fn material_at(s: Seq<u8>, pos: int) -> Option<(Moleterial, int)> {
    match fields_at(s, pos, 11) {
        Some(p0) => material_row_at(s, p0),
        None => match map_at(s, pos, material_names()) {
            Some((slots, end)) => match material_in(s, slots) {
                Some(m) => Some((m, end)),
                None => None,
            },
            None => None,
        },
    }
}

/// The color fields of a material written at `pos` is found there by [`color_at`].
pub proof fn lemma_color_complete(s: Seq<u8>, pos: int, c: MaterialColor)
    requires
        stands_at(s, pos, color_wire(c)),
    ensures
        color_at(s, pos) == Some((c, pos + color_wire(c).len())),
{
    let w1 = vec4_wire(c.albedo);
    let w2 = w1 + opt_uint_wire(c.albedo_texture);
    lemma_stands_parts(s, pos, w2, opt_scalar_wire(c.alpha_clip_threshold));
    lemma_stands_parts(s, pos, w1, opt_uint_wire(c.albedo_texture));
    lemma_vec4_complete(s, pos, c.albedo);
    lemma_opt_uint_complete(s, pos + w1.len(), c.albedo_texture);
    lemma_opt_scalar_complete(s, pos + w2.len(), c.alpha_clip_threshold);
}

/// The mapping fields of a material written at `pos` is found there by [`mapping_at`].
pub proof fn lemma_mapping_complete(s: Seq<u8>, pos: int, g: MaterialMapping)
    requires
        stands_at(s, pos, mapping_wire(g)),
    ensures
        mapping_at(s, pos) == Some((g, pos + mapping_wire(g).len())),
{
    let w1 = vec2_wire(g.tex_coord_scale);
    let w2 = w1 + vec2_wire(g.tex_coord_offset);
    lemma_stands_parts(s, pos, w2, bool_wire(g.double_sided));
    lemma_stands_parts(s, pos, w1, vec2_wire(g.tex_coord_offset));
    lemma_vec2_complete(s, pos, g.tex_coord_scale);
    lemma_vec2_complete(s, pos + w1.len(), g.tex_coord_offset);
    lemma_bool_complete(s, pos + w2.len(), g.double_sided);
}

/// The surface fields of a material written at `pos` is found there by [`surface_at`].
pub proof fn lemma_surface_complete(s: Seq<u8>, pos: int, f: MaterialSurface)
    requires
        stands_at(s, pos, surface_wire(f)),
    ensures
        surface_at(s, pos) == Some((f, pos + surface_wire(f).len())),
{
    let w1 = scalar_wire(f.roughness);
    let w2 = w1 + opt_uint_wire(f.roughness_texture);
    let w3 = w2 + scalar_wire(f.metalness);
    let w4 = w3 + opt_uint_wire(f.metalness_texture);
    lemma_stands_parts(s, pos, w4, opt_uint_wire(f.normal_map));
    lemma_stands_parts(s, pos, w3, opt_uint_wire(f.metalness_texture));
    lemma_stands_parts(s, pos, w2, scalar_wire(f.metalness));
    lemma_stands_parts(s, pos, w1, opt_uint_wire(f.roughness_texture));
    lemma_scalar_complete(s, pos, f.roughness);
    lemma_opt_uint_complete(s, pos + w1.len(), f.roughness_texture);
    lemma_scalar_complete(s, pos + w2.len(), f.metalness);
    lemma_opt_uint_complete(s, pos + w3.len(), f.metalness_texture);
    lemma_opt_uint_complete(s, pos + w4.len(), f.normal_map);
}

/// A material written at `pos` is found there by [`material_at`].
pub proof fn lemma_material_complete(s: Seq<u8>, pos: int, m: Moleterial)
    requires
        stands_at(s, pos, material_wire(m)),
    ensures
        material_at(s, pos) == Some((m, pos + material_wire(m).len())),
{
    lemma_material_groups(m);
    lemma_material_of_groups(m);
    let c = material_color(m);
    let g = material_mapping(m);
    let f = material_surface(m);
    let w0 = array_head(11);
    let w1 = w0 + color_wire(c);
    let w2 = w1 + mapping_wire(g);
    lemma_stands_parts(s, pos, w2, surface_wire(f));
    lemma_stands_parts(s, pos, w1, mapping_wire(g));
    lemma_stands_parts(s, pos, w0, color_wire(c));
    let p0 = pos + w0.len();
    let p1 = pos + w1.len();
    let p2 = pos + w2.len();
    let p3 = pos + (w2 + surface_wire(f)).len();
    assert(fields_at(s, pos, 11) == Some(p0)) by {
        lemma_fields_complete(s, pos, 11);
    }
    assert(color_at(s, p0) == Some((c, p1))) by {
        lemma_color_complete(s, p0, c);
    }
    assert(mapping_at(s, p1) == Some((g, p2))) by {
        lemma_mapping_complete(s, p1, g);
    }
    assert(surface_at(s, p2) == Some((f, p3))) by {
        lemma_surface_complete(s, p2, f);
    }
    assert(material_at(s, pos) == Some((material_of(c, g, f), p3)));
}

} // verus!
