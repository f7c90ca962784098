//! A self-contained container for 3D model assets: geometry, materials and
//! embedded raster textures, stored as one compressed byte stream.
//!
//! A stream is the zstd compression of a MessagePack document whose shape is
//! fixed by the container's declaration. Every struct is an array of its
//! fields in declared order, every sequence an array of its items, an absent
//! optional value is `nil`, and all numbers keep their exact width.
//!
//! The byte layout is given once, as spec functions in [`wire`], and the
//! writer in [`encode`] is proved to write it. What the reader in [`decode`]
//! takes is given by the grammar in [`grammar`], [`records`], [`maps`],
//! [`lists`] and [`document`]: the writer's layout, and other forms of the
//! same values that other writers of MessagePack use.
//! [`codec`] puts the compression envelope of [`envelope`] around them and
//! states the laws of the format.

pub mod codec;
pub mod cuts;
pub mod decode;
pub mod document;
pub mod encode;
pub mod envelope;
pub mod grammar;
pub mod lists;
pub mod maps;
pub mod model;
pub mod records;
pub mod wire;

pub use codec::{from_bytes, to_bytes};
pub use model::{
    ColorSpace, ContainerValue, ImageValue, ModelValue, Molehill, Molemage, Moledel, Moleterial,
    Moletex, Scalar, Vec2, Vec3, Vec4,
};
