//! Images, models and the container at a position, and what a whole byte
//! string reads as.

use crate::grammar::{
    color_space_at, fields_at, lemma_color_space_complete, lemma_stands_parts,
    lemma_uint_complete, stands_at, uint_at,
};
use crate::lists::{
    all_ok, anything, indices_at, lemma_indices_complete, lemma_list_complete,
    lemma_material_reads, lemma_pixels_complete, lemma_vertex_reads, list_at, material_finder,
    pixels_at, reads, vertex_finder,
};
use crate::maps::{kept, map_at, start_of};
use crate::model::{ContainerValue, ImageValue, ModelValue};
use crate::records::lemma_fields_complete;
use crate::wire::{
    array_head, byte_item, color_space_wire, container_wire, image_item, image_wire, list_wire,
    material_item, model_item, model_wire, uint_item, uint_wire, vertex_item,
};
use vstd::prelude::*;

verus! {

/// The names of the fields of an image, in declared order.
pub open spec fn image_names() -> Seq<Seq<u8>> {
    seq![
        seq![
            0x63u8, 0x6fu8, 0x6cu8, 0x6fu8, 0x72u8, 0x5fu8, 0x73u8, 0x70u8, 0x61u8, 0x63u8,
            0x65u8,
        ],
        seq![0x77u8, 0x69u8, 0x64u8, 0x74u8, 0x68u8],
        seq![0x68u8, 0x65u8, 0x69u8, 0x67u8, 0x68u8, 0x74u8],
        seq![0x70u8, 0x69u8, 0x78u8, 0x65u8, 0x6cu8, 0x73u8],
    ]
}

/// The fields of an image in a row.
pub open spec fn image_row_at(s: Seq<u8>, p0: int) -> Option<(ImageValue, int)> {
    match color_space_at(s, p0) {
        Some((color_space, p1)) => match uint_at(s, p1) {
            Some((width, p2)) => match uint_at(s, p2) {
                Some((height, p3)) => match pixels_at(s, p3) {
                    Some((pixels, p4)) => Some(
                        (ImageValue { color_space, width, height, pixels }, p4),
                    ),
                    None => None,
                },
                None => None,
            },
            None => None,
        },
        None => None,
    }
}

/// The fields of an image, each where a map gave it.
pub open spec fn image_in(s: Seq<u8>, slots: Seq<Option<(int, int)>>) -> Option<ImageValue> {
    match kept(color_space_at(s, start_of(slots[0])), slots[0]) {
        Some(color_space) => match kept(uint_at(s, start_of(slots[1])), slots[1]) {
            Some(width) => match kept(uint_at(s, start_of(slots[2])), slots[2]) {
                Some(height) => match kept(pixels_at(s, start_of(slots[3])), slots[3]) {
                    Some(pixels) => Some(ImageValue { color_space, width, height, pixels }),
                    None => None,
                },
                None => None,
            },
            None => None,
        },
        None => None,
    }
}

/// An image at `pos`, as an array or as a map, and the position behind it.
pub open spec fn image_at(s: Seq<u8>, pos: int) -> Option<(ImageValue, int)> {
    match fields_at(s, pos, 4) {
        Some(p0) => image_row_at(s, p0),
        None => match map_at(s, pos, image_names()) {
            Some((slots, end)) => match image_in(s, slots) {
                Some(i) => Some((i, end)),
                None => None,
            },
            None => None,
        },
    }
}

/// An image written at `pos` is found there by [`image_at`].
pub proof fn lemma_image_complete(s: Seq<u8>, pos: int, i: ImageValue)
    requires
        i.fits(),
        stands_at(s, pos, image_wire(i)),
    ensures
        image_at(s, pos) == Some((i, pos + image_wire(i).len())),
{
    let w0 = array_head(4);
    let w1 = w0 + color_space_wire(i.color_space);
    let w2 = w1 + uint_wire(i.width);
    let w3 = w2 + uint_wire(i.height);
    lemma_stands_parts(s, pos, w3, list_wire(i.pixels, byte_item()));
    lemma_stands_parts(s, pos, w2, uint_wire(i.height));
    lemma_stands_parts(s, pos, w1, uint_wire(i.width));
    lemma_stands_parts(s, pos, w0, color_space_wire(i.color_space));
    lemma_fields_complete(s, pos, 4);
    lemma_color_space_complete(s, pos + w0.len(), i.color_space);
    lemma_uint_complete(s, pos + w1.len(), i.width);
    lemma_uint_complete(s, pos + w2.len(), i.height);
    lemma_pixels_complete(s, pos + w3.len(), i.pixels);
}

/// The names of the fields of a model, in declared order.
pub open spec fn model_names() -> Seq<Seq<u8>> {
    seq![
        seq![0x76u8, 0x65u8, 0x72u8, 0x74u8, 0x69u8, 0x63u8, 0x65u8, 0x73u8],
        seq![0x69u8, 0x6eu8, 0x64u8, 0x69u8, 0x63u8, 0x65u8, 0x73u8],
        seq![0x6du8, 0x61u8, 0x74u8, 0x65u8, 0x72u8, 0x69u8, 0x61u8, 0x6cu8],
    ]
}

/// The fields of a model in a row.
pub open spec fn model_row_at(s: Seq<u8>, p0: int) -> Option<(ModelValue, int)> {
    match list_at(s, p0, vertex_finder()) {
        Some((vertices, p1)) => match indices_at(s, p1) {
            Some((indices, p2)) => match uint_at(s, p2) {
                Some((material, p3)) => Some((ModelValue { vertices, indices, material }, p3)),
                None => None,
            },
            None => None,
        },
        None => None,
    }
}

/// The fields of a model, each where a map gave it.
pub open spec fn model_in(s: Seq<u8>, slots: Seq<Option<(int, int)>>) -> Option<ModelValue> {
    match kept(list_at(s, start_of(slots[0]), vertex_finder()), slots[0]) {
        Some(vertices) => match kept(indices_at(s, start_of(slots[1])), slots[1]) {
            Some(indices) => match kept(uint_at(s, start_of(slots[2])), slots[2]) {
                Some(material) => Some(ModelValue { vertices, indices, material }),
                None => None,
            },
            None => None,
        },
        None => None,
    }
}

/// A model at `pos`, as an array or as a map, and the position behind it.
pub open spec fn model_at(s: Seq<u8>, pos: int) -> Option<(ModelValue, int)> {
    match fields_at(s, pos, 3) {
        Some(p0) => model_row_at(s, p0),
        None => match map_at(s, pos, model_names()) {
            Some((slots, end)) => match model_in(s, slots) {
                Some(m) => Some((m, end)),
                None => None,
            },
            None => None,
        },
    }
}

/// A model written at `pos` is found there by [`model_at`].
pub proof fn lemma_model_complete(s: Seq<u8>, pos: int, m: ModelValue)
    requires
        m.fits(),
        stands_at(s, pos, model_wire(m)),
    ensures
        model_at(s, pos) == Some((m, pos + model_wire(m).len())),
{
    let w0 = array_head(3);
    let w1 = w0 + list_wire(m.vertices, vertex_item());
    let w2 = w1 + list_wire(m.indices, uint_item());
    lemma_stands_parts(s, pos, w2, uint_wire(m.material));
    lemma_stands_parts(s, pos, w1, list_wire(m.indices, uint_item()));
    lemma_stands_parts(s, pos, w0, list_wire(m.vertices, vertex_item()));
    lemma_fields_complete(s, pos, 3);
    lemma_vertex_reads();
    lemma_list_complete(s, pos + w0.len(), m.vertices, vertex_finder(), vertex_item(), anything());
    lemma_indices_complete(s, pos + w1.len(), m.indices);
    lemma_uint_complete(s, pos + w2.len(), m.material);
}

/// [`image_at`] as the finder of an item.
pub open spec fn image_finder() -> spec_fn(Seq<u8>, int) -> Option<(ImageValue, int)> {
    |s: Seq<u8>, pos: int| image_at(s, pos)
}

/// [`model_at`] as the finder of an item.
pub open spec fn model_finder() -> spec_fn(Seq<u8>, int) -> Option<(ModelValue, int)> {
    |s: Seq<u8>, pos: int| model_at(s, pos)
}

/// The images that can be written.
pub open spec fn image_fits() -> spec_fn(ImageValue) -> bool {
    |i: ImageValue| i.fits()
}

/// The models that can be written.
pub open spec fn model_fits() -> spec_fn(ModelValue) -> bool {
    |m: ModelValue| m.fits()
}

/// The finder of an image finds what the writer writes.
pub proof fn lemma_image_reads()
    ensures
        reads(image_finder(), image_item(), image_fits()),
{
    assert forall|s: Seq<u8>, pos: int, v: ImageValue|
        image_fits()(v) && #[trigger] stands_at(
            s,
            pos,
            image_item()(v),
        ) implies image_finder()(s, pos) == Some((v, pos + image_item()(v).len())) by {
        lemma_image_complete(s, pos, v);
    }
}

/// The finder of a model finds what the writer writes.
pub proof fn lemma_model_reads()
    ensures
        reads(model_finder(), model_item(), model_fits()),
{
    assert forall|s: Seq<u8>, pos: int, v: ModelValue|
        model_fits()(v) && #[trigger] stands_at(
            s,
            pos,
            model_item()(v),
        ) implies model_finder()(s, pos) == Some((v, pos + model_item()(v).len())) by {
        lemma_model_complete(s, pos, v);
    }
}

/// The names of the fields of a container, in declared order.
pub open spec fn container_names() -> Seq<Seq<u8>> {
    seq![
        seq![0x6du8, 0x6fu8, 0x64u8, 0x65u8, 0x6cu8, 0x73u8],
        seq![0x6du8, 0x61u8, 0x74u8, 0x65u8, 0x72u8, 0x69u8, 0x61u8, 0x6cu8, 0x73u8],
        seq![0x69u8, 0x6du8, 0x61u8, 0x67u8, 0x65u8, 0x73u8],
    ]
}

/// The fields of a container in a row.
pub open spec fn container_row_at(s: Seq<u8>, p0: int) -> Option<(ContainerValue, int)> {
    match list_at(s, p0, model_finder()) {
        Some((models, p1)) => match list_at(s, p1, material_finder()) {
            Some((materials, p2)) => match list_at(s, p2, image_finder()) {
                Some((images, p3)) => Some((ContainerValue { models, materials, images }, p3)),
                None => None,
            },
            None => None,
        },
        None => None,
    }
}

/// The fields of a container, each where a map gave it.
pub open spec fn container_in(s: Seq<u8>, slots: Seq<Option<(int, int)>>) -> Option<
    ContainerValue,
> {
    match kept(list_at(s, start_of(slots[0]), model_finder()), slots[0]) {
        Some(models) => match kept(list_at(s, start_of(slots[1]), material_finder()), slots[1]) {
            Some(materials) => match kept(
                list_at(s, start_of(slots[2]), image_finder()),
                slots[2],
            ) {
                Some(images) => Some(ContainerValue { models, materials, images }),
                None => None,
            },
            None => None,
        },
        None => None,
    }
}

/// A container at `pos`, as an array or as a map, and the position behind
/// it.
pub open spec fn container_at(s: Seq<u8>, pos: int) -> Option<(ContainerValue, int)> {
    match fields_at(s, pos, 3) {
        Some(p0) => container_row_at(s, p0),
        None => match map_at(s, pos, container_names()) {
            Some((slots, end)) => match container_in(s, slots) {
                Some(c) => Some((c, end)),
                None => None,
            },
            None => None,
        },
    }
}

/// A container written at `pos` is found there by [`container_at`].
pub proof fn lemma_container_complete(s: Seq<u8>, pos: int, c: ContainerValue)
    requires
        c.fits(),
        stands_at(s, pos, container_wire(c)),
    ensures
        container_at(s, pos) == Some((c, pos + container_wire(c).len())),
{
    let w0 = array_head(3);
    let w1 = w0 + list_wire(c.models, model_item());
    let w2 = w1 + list_wire(c.materials, material_item());
    lemma_stands_parts(s, pos, w2, list_wire(c.images, image_item()));
    lemma_stands_parts(s, pos, w1, list_wire(c.materials, material_item()));
    lemma_stands_parts(s, pos, w0, list_wire(c.models, model_item()));
    lemma_fields_complete(s, pos, 3);
    lemma_model_reads();
    assert(all_ok(c.models, model_fits()));
    lemma_list_complete(s, pos + w0.len(), c.models, model_finder(), model_item(), model_fits());
    lemma_material_reads();
    lemma_list_complete(
        s,
        pos + w1.len(),
        c.materials,
        material_finder(),
        material_item(),
        anything(),
    );
    lemma_image_reads();
    assert(all_ok(c.images, image_fits()));
    lemma_list_complete(s, pos + w2.len(), c.images, image_finder(), image_item(), image_fits());
}

/// The container that a byte string reads as: the one that stands at its
/// start. Bytes behind it are of no account.
pub open spec fn reads_as(s: Seq<u8>) -> Option<ContainerValue> {
    match container_at(s, 0) {
        Some((c, _)) => Some(c),
        None => None,
    }
}

/// The document of a container that fits reads as that container.
pub proof fn lemma_document_complete(c: ContainerValue)
    requires
        c.fits(),
    ensures
        reads_as(container_wire(c)) == Some(c),
{
    let s = container_wire(c);
    assert(stands_at(s, 0, s)) by {
        reveal(stands_at);
        assert(s.subrange(0, s.len() as int) =~= s);
    }
    lemma_container_complete(s, 0, c);
}

} // verus!
