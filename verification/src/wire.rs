//! The byte layout of a container, as spec functions.
//!
//! The layout is MessagePack. An unsigned integer takes the shortest of the
//! four unsigned forms, a scalar is always a `float 32`, an absent optional
//! value is `nil`, and a struct or a sequence is an array with the shortest
//! of the three array heads.

use crate::model::{
    ColorSpace, ContainerValue, ImageValue, ModelValue, Moleterial, Moletex, Scalar, Vec2, Vec3,
    Vec4,
};
use vstd::prelude::*;

verus! {

/// The marker of `nil`.
pub const NIL: u8 = 0xc0;

/// The marker of `false`.
pub const FALSE: u8 = 0xc2;

/// The marker of `true`.
pub const TRUE: u8 = 0xc3;

/// The marker of a `float 32`; four bytes follow.
pub const FLOAT32: u8 = 0xca;

/// The marker of a `uint 8`; one byte follows.
pub const UINT8: u8 = 0xcc;

/// The marker of a `uint 16`; two bytes follow.
pub const UINT16: u8 = 0xcd;

/// The marker of a `uint 32`; four bytes follow.
pub const UINT32: u8 = 0xce;

/// The marker of an `array 16`; two bytes of length follow.
pub const ARRAY16: u8 = 0xdc;

/// The marker of an `array 32`; four bytes of length follow.
pub const ARRAY32: u8 = 0xdd;

/// The marker of a `fixarray` without items; the length, below 16, is added to it.
pub const FIXARRAY: u8 = 0x90;

/// The head of a four-byte string, which is how a color space is written.
pub const FIXSTR4: u8 = 0xa4;

/// The largest number of items that an array head can announce.
pub const MAX_ITEMS: u32 = 0xffff_ffff;

/// Two bytes, most significant first. Meant for `0 <= v < 0x10000`.
#[verifier::opaque]
pub open spec fn be16(v: int) -> Seq<u8> {
    seq![(v / 0x100) as u8, (v % 0x100) as u8]
}

/// Four bytes, most significant first.
#[verifier::opaque]
pub open spec fn be32(v: u32) -> Seq<u8> {
    seq![
        (v / 0x100_0000) as u8,
        ((v / 0x1_0000) % 0x100) as u8,
        ((v / 0x100) % 0x100) as u8,
        (v % 0x100) as u8,
    ]
}

/// An unsigned integer in its shortest form.
#[verifier::opaque]
pub open spec fn uint_wire(v: u32) -> Seq<u8> {
    if v < 0x80 {
        seq![v as u8]
    } else if v < 0x100 {
        seq![UINT8, v as u8]
    } else if v < 0x1_0000 {
        seq![UINT16] + be16(v as int)
    } else {
        seq![UINT32] + be32(v)
    }
}

/// One channel value of a pixel: an unsigned integer below 256.
pub open spec fn byte_wire(b: u8) -> Seq<u8> {
    uint_wire(b as u32)
}

/// A scalar: always a `float 32`, the bits most significant first.
#[verifier::opaque]
pub open spec fn scalar_wire(x: Scalar) -> Seq<u8> {
    seq![FLOAT32] + be32(x.bits)
}

/// A boolean: one marker.
#[verifier::opaque]
pub open spec fn bool_wire(b: bool) -> Seq<u8> {
    seq![if b { TRUE } else { FALSE }]
}

/// An optional index: `nil` when absent, never a sentinel number.
#[verifier::opaque]
pub open spec fn opt_uint_wire(o: Option<u32>) -> Seq<u8> {
    match o {
        Some(v) => uint_wire(v),
        None => seq![NIL],
    }
}

/// An optional scalar: `nil` when absent.
#[verifier::opaque]
pub open spec fn opt_scalar_wire(o: Option<Scalar>) -> Seq<u8> {
    match o {
        Some(x) => scalar_wire(x),
        None => seq![NIL],
    }
}

/// The head of an array of `n` items, in its shortest form. Meant for
/// `n <= MAX_ITEMS`.
#[verifier::opaque]
pub open spec fn array_head(n: nat) -> Seq<u8> {
    if n < 16 {
        seq![(FIXARRAY + n) as u8]
    } else if n < 0x1_0000 {
        seq![ARRAY16] + be16(n as int)
    } else {
        seq![ARRAY32] + be32(n as u32)
    }
}

/// The name of a color space, as its variant is spelled.
pub open spec fn color_space_name(c: ColorSpace) -> Seq<u8> {
    match c {
        ColorSpace::SRGB => seq![0x53u8, 0x52u8, 0x47u8, 0x42u8],
    }
}

/// The place of a color space among the variants, counted from zero.
pub open spec fn color_space_place(c: ColorSpace) -> int {
    match c {
        ColorSpace::SRGB => 0,
    }
}

/// A color space: its name, as a string of four bytes.
#[verifier::opaque]
pub open spec fn color_space_wire(c: ColorSpace) -> Seq<u8> {
    match c {
        ColorSpace::SRGB => seq![FIXSTR4] + color_space_name(c),
    }
}

/// A vector of two scalars: an array of its components.
pub open spec fn vec2_wire(v: Vec2) -> Seq<u8> {
    array_head(2) + scalar_wire(v.x) + scalar_wire(v.y)
}

/// A vector of three scalars: an array of its components.
pub open spec fn vec3_wire(v: Vec3) -> Seq<u8> {
    array_head(3) + scalar_wire(v.x) + scalar_wire(v.y) + scalar_wire(v.z)
}

/// A vector of four scalars: an array of its components.
pub open spec fn vec4_wire(v: Vec4) -> Seq<u8> {
    array_head(4) + scalar_wire(v.x) + scalar_wire(v.y) + scalar_wire(v.z) + scalar_wire(v.w)
}

/// A vertex: an array of position, texture coordinate and normal.
pub open spec fn vertex_wire(v: Moletex) -> Seq<u8> {
    array_head(3) + vec3_wire(v.position) + vec2_wire(v.tex_coord) + vec3_wire(v.normal)
}

/// A material: an array of its eleven fields in declared order.
pub open spec fn material_wire(m: Moleterial) -> Seq<u8> {
    array_head(11) + vec4_wire(m.albedo) + opt_uint_wire(m.albedo_texture) + opt_scalar_wire(
        m.alpha_clip_threshold,
    ) + vec2_wire(m.tex_coord_scale) + vec2_wire(m.tex_coord_offset) + bool_wire(m.double_sided)
        + scalar_wire(m.roughness) + opt_uint_wire(m.roughness_texture) + scalar_wire(m.metalness)
        + opt_uint_wire(m.metalness_texture) + opt_uint_wire(m.normal_map)
}

/// The items of a sequence one after another, each written by `item`.
pub open spec fn items_wire<T>(items: Seq<T>, item: spec_fn(T) -> Seq<u8>) -> Seq<u8>
    decreases items.len(),
{
    if items.len() == 0 {
        Seq::empty()
    } else {
        items_wire(items.drop_last(), item) + item(items.last())
    }
}

/// A sequence: the array head for its length, and its items in order.
pub open spec fn list_wire<T>(items: Seq<T>, item: spec_fn(T) -> Seq<u8>) -> Seq<u8> {
    array_head(items.len()) + items_wire(items, item)
}

/// [`byte_wire`] as the writer of an item.
pub open spec fn byte_item() -> spec_fn(u8) -> Seq<u8> {
    |b: u8| byte_wire(b)
}

/// [`uint_wire`] as the writer of an item.
pub open spec fn uint_item() -> spec_fn(u32) -> Seq<u8> {
    |v: u32| uint_wire(v)
}

/// [`vertex_wire`] as the writer of an item.
pub open spec fn vertex_item() -> spec_fn(Moletex) -> Seq<u8> {
    |v: Moletex| vertex_wire(v)
}

/// [`material_wire`] as the writer of an item.
pub open spec fn material_item() -> spec_fn(Moleterial) -> Seq<u8> {
    |m: Moleterial| material_wire(m)
}

/// [`image_wire`] as the writer of an item.
pub open spec fn image_item() -> spec_fn(ImageValue) -> Seq<u8> {
    |i: ImageValue| image_wire(i)
}

/// [`model_wire`] as the writer of an item.
pub open spec fn model_item() -> spec_fn(ModelValue) -> Seq<u8> {
    |m: ModelValue| model_wire(m)
}

/// An image: an array of color space, width, height and the channel values.
pub open spec fn image_wire(i: ImageValue) -> Seq<u8> {
    array_head(4) + color_space_wire(i.color_space) + uint_wire(i.width) + uint_wire(i.height)
        + list_wire(i.pixels, byte_item())
}

/// A model: an array of vertices, indices and the material index.
pub open spec fn model_wire(m: ModelValue) -> Seq<u8> {
    array_head(3) + list_wire(m.vertices, vertex_item()) + list_wire(m.indices, uint_item())
        + uint_wire(m.material)
}

/// The whole document: models, materials, images.
pub open spec fn container_wire(c: ContainerValue) -> Seq<u8> {
    array_head(3) + list_wire(c.models, model_item()) + list_wire(c.materials, material_item())
        + list_wire(c.images, image_item())
}

/// Writing one more item appends that item's bytes.
pub proof fn lemma_items_wire_step<T>(items: Seq<T>, i: int, item: spec_fn(T) -> Seq<u8>)
    requires
        0 <= i < items.len(),
    ensures
        items_wire(items.take(i + 1), item) == items_wire(items.take(i), item) + item(items[i]),
{
    assert(items.take(i + 1).drop_last() =~= items.take(i));
    assert(items.take(i + 1).last() == items[i]);
}

impl ImageValue {
    /// The pixel buffer is short enough for an array head.
    pub open spec fn fits(self) -> bool {
        self.pixels.len() <= MAX_ITEMS
    }
}

impl ModelValue {
    /// Both sequences are short enough for an array head.
    pub open spec fn fits(self) -> bool {
        self.vertices.len() <= MAX_ITEMS && self.indices.len() <= MAX_ITEMS
    }
}

impl ContainerValue {
    /// The container can be written: no sequence in it is longer than the
    /// largest array that the layout can announce.
    pub open spec fn fits(self) -> bool {
        &&& self.models.len() <= MAX_ITEMS
        &&& self.materials.len() <= MAX_ITEMS
        &&& self.images.len() <= MAX_ITEMS
        &&& forall|i: int| 0 <= i < self.models.len() ==> (#[trigger] self.models[i]).fits()
        &&& forall|i: int| 0 <= i < self.images.len() ==> (#[trigger] self.images[i]).fits()
    }
}

} // verus!
