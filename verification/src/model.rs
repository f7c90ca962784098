//! The entity graph: container, models, vertices, materials and images.
//!
//! Ownership is strictly hierarchical. The only cross-references are
//! positional indices, so the order of every sequence is meaningful.
//! Each type that owns a `Vec` has a view in which the sequences are
//! mathematical `Seq`s; the contracts of the codec are stated over those views.

use vstd::prelude::*;

verus! {

/// A 32-bit IEEE-754 number, held by its bit pattern.
///
/// The container stores numbers verbatim, so the bit pattern is all that the
/// codec needs. Two scalars are equal when their bits are equal: a NaN keeps
/// its payload and the sign of zero is kept.
#[derive(Clone, Copy, Debug, PartialEq, Eq, Hash, Default)]
pub struct Scalar {
    pub bits: u32,
}

/// Two scalars.
#[derive(Clone, Copy, Debug, PartialEq, Eq, Hash, Default)]
pub struct Vec2 {
    pub x: Scalar,
    pub y: Scalar,
}

/// Three scalars.
#[derive(Clone, Copy, Debug, PartialEq, Eq, Hash, Default)]
pub struct Vec3 {
    pub x: Scalar,
    pub y: Scalar,
    pub z: Scalar,
}

/// Four scalars.
#[derive(Clone, Copy, Debug, PartialEq, Eq, Hash, Default)]
pub struct Vec4 {
    pub x: Scalar,
    pub y: Scalar,
    pub z: Scalar,
    pub w: Scalar,
}

/// How the channel values of an image are to be read.
///
/// There is one variant today. It is an enumeration rather than a flag so
/// that a later variant does not change how existing values are written.
#[derive(Clone, Copy, Debug, PartialEq, Eq, Hash)]
pub enum ColorSpace {
    /// Standard-gamma RGB.
    SRGB,
}

/// One vertex: position, texture coordinate and normal.
#[derive(Clone, Copy, Debug, PartialEq, Eq, Hash)]
pub struct Moletex {
    pub position: Vec3,
    pub tex_coord: Vec2,
    pub normal: Vec3,
}

/// A physically based surface. Colors are in standard-gamma RGB and every
/// texture is an index into the container's images.
#[derive(Clone, Copy, Debug, PartialEq, Eq, Hash)]
pub struct Moleterial {
    pub albedo: Vec4,
    /// If absent the albedo value is used alone, otherwise it is multiplied
    /// by the sampled texture.
    pub albedo_texture: Option<u32>,
    /// If present, fragments whose alpha is below it are discarded.
    pub alpha_clip_threshold: Option<Scalar>,
    pub tex_coord_scale: Vec2,
    pub tex_coord_offset: Vec2,
    /// Disables back-face culling.
    pub double_sided: bool,
    pub roughness: Scalar,
    /// If absent the roughness value is used alone, otherwise it is
    /// multiplied by the sampled texture.
    pub roughness_texture: Option<u32>,
    pub metalness: Scalar,
    /// If absent the metalness value is used alone, otherwise it is
    /// multiplied by the sampled texture.
    pub metalness_texture: Option<u32>,
    /// Tangent-space normal perturbation.
    pub normal_map: Option<u32>,
}

/// A decoded raster embedded in the container.
#[derive(Clone, PartialEq, Eq, Hash)]
pub struct Molemage {
    pub color_space: ColorSpace,
    pub width: u32,
    pub height: u32,
    /// Interleaved RGBA, row-major, no padding.
    pub pixels: Vec<u8>,
}

/// One mesh.
#[derive(Clone, Debug, PartialEq, Eq, Hash)]
pub struct Moledel {
    pub vertices: Vec<Moletex>,
    /// Topology indices into `vertices`.
    pub indices: Vec<u32>,
    /// Index into the container's materials.
    pub material: u32,
}

/// The root value: everything a stream holds.
#[derive(Clone, PartialEq, Eq, Hash)]
pub struct Molehill {
    pub models: Vec<Moledel>,
    pub materials: Vec<Moleterial>,
    pub images: Vec<Molemage>,
}

/// What a [`Molemage`] holds.
#[verifier::ext_equal]
pub struct ImageValue {
    pub color_space: ColorSpace,
    pub width: u32,
    pub height: u32,
    pub pixels: Seq<u8>,
}

/// What a [`Moledel`] holds.
#[verifier::ext_equal]
pub struct ModelValue {
    pub vertices: Seq<Moletex>,
    pub indices: Seq<u32>,
    pub material: u32,
}

/// What a [`Molehill`] holds.
#[verifier::ext_equal]
pub struct ContainerValue {
    pub models: Seq<ModelValue>,
    pub materials: Seq<Moleterial>,
    pub images: Seq<ImageValue>,
}

impl View for Molemage {
    type V = ImageValue;

    open spec fn view(&self) -> ImageValue {
        ImageValue {
            color_space: self.color_space,
            width: self.width,
            height: self.height,
            pixels: self.pixels@,
        }
    }
}

impl View for Moledel {
    type V = ModelValue;

    open spec fn view(&self) -> ModelValue {
        ModelValue { vertices: self.vertices@, indices: self.indices@, material: self.material }
    }
}

/// The values of a sequence of models, in order.
pub open spec fn model_values(models: Seq<Moledel>) -> Seq<ModelValue> {
    Seq::new(models.len(), |i: int| models[i]@)
}

/// The values of a sequence of images, in order.
pub open spec fn image_values(images: Seq<Molemage>) -> Seq<ImageValue> {
    Seq::new(images.len(), |i: int| images[i]@)
}

impl View for Molehill {
    type V = ContainerValue;

    open spec fn view(&self) -> ContainerValue {
        ContainerValue {
            models: model_values(self.models@),
            materials: self.materials@,
            images: image_values(self.images@),
        }
    }
}

impl ImageValue {
    /// The pixel buffer has exactly four bytes for each of `width * height`
    /// pixels.
    pub open spec fn well_formed(self) -> bool {
        self.pixels.len() == self.width * self.height * 4
    }
}

impl ModelValue {
    /// Every topology index is a position in the vertex sequence.
    pub open spec fn indices_in_range(self) -> bool {
        forall|i: int| 0 <= i < self.indices.len() ==> (#[trigger] self.indices[i]) < self.vertices.len()
    }
}

/// An optional texture index is absent or a position among `images` images.
pub open spec fn texture_in_range(texture: Option<u32>, images: nat) -> bool {
    match texture {
        Some(index) => index < images,
        None => true,
    }
}

impl Moleterial {
    /// Every texture that the material names is one of `images` images.
    pub open spec fn textures_in_range(self, images: nat) -> bool {
        &&& texture_in_range(self.albedo_texture, images)
        &&& texture_in_range(self.roughness_texture, images)
        &&& texture_in_range(self.metalness_texture, images)
        &&& texture_in_range(self.normal_map, images)
    }
}

impl ContainerValue {
    /// The structural invariants of a container: image buffers match their
    /// dimensions and every index points at an existing item.
    ///
    /// The codec neither needs nor enforces this. A consumer has to treat a
    /// decoded container as unvalidated.
    pub open spec fn well_formed(self) -> bool {
        &&& forall|i: int| 0 <= i < self.images.len() ==> (#[trigger] self.images[i]).well_formed()
        &&& forall|i: int|
            0 <= i < self.models.len() ==> (#[trigger] self.models[i]).material
                < self.materials.len()
        &&& forall|i: int|
            0 <= i < self.models.len() ==> (#[trigger] self.models[i]).indices_in_range()
        &&& forall|i: int|
            0 <= i < self.materials.len() ==> (#[trigger] self.materials[i]).textures_in_range(
                self.images.len(),
            )
    }
}

impl Molemage {
    /// Wraps a decoded RGBA raster, tagged as standard-gamma RGB.
    ///
    /// The buffer must hold exactly `width * height * 4` bytes, row-major.
    pub fn from_rgba(width: u32, height: u32, pixels: Vec<u8>) -> (image: Molemage)
        requires
            pixels@.len() == width * height * 4,
        ensures
            image@ == (ImageValue {
                color_space: ColorSpace::SRGB,
                width,
                height,
                pixels: pixels@,
            }),
            image@.well_formed(),
    {
        Molemage { color_space: ColorSpace::SRGB, width, height, pixels }
    }
}

} // verus!
