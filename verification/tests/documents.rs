use mole::decode::decode;
use mole::encode::encode;
use mole::{
    from_bytes, to_bytes, ColorSpace, Molehill, Molemage, Moledel, Moleterial, Moletex, Scalar,
    Vec2, Vec3, Vec4,
};

fn bits(x: f32) -> Scalar {
    Scalar { bits: x.to_bits() }
}

fn flat_vertex() -> Moletex {
    Moletex {
        position: Vec3 { x: bits(1.0), y: bits(2.0), z: bits(3.0) },
        tex_coord: Vec2 { x: bits(0.5), y: bits(0.25) },
        normal: Vec3 { x: bits(0.0), y: bits(0.0), z: bits(-1.0) },
    }
}

fn dull_material() -> Moleterial {
    Moleterial {
        albedo: Vec4 { x: bits(1.0), y: bits(1.0), z: bits(1.0), w: bits(1.0) },
        albedo_texture: None,
        alpha_clip_threshold: None,
        tex_coord_scale: Vec2 { x: bits(1.0), y: bits(1.0) },
        tex_coord_offset: Vec2 { x: bits(0.0), y: bits(0.0) },
        double_sided: false,
        roughness: bits(0.5),
        roughness_texture: None,
        metalness: bits(0.0),
        metalness_texture: None,
        normal_map: None,
    }
}

fn empty_hill() -> Molehill {
    Molehill { models: vec![], materials: vec![], images: vec![] }
}

fn hill_with_model(model: Moledel) -> Molehill {
    Molehill { models: vec![model], materials: vec![], images: vec![] }
}

fn hill_with_material(material: Moleterial) -> Molehill {
    Molehill { models: vec![], materials: vec![material], images: vec![] }
}

fn hill_with_image(image: Molemage) -> Molehill {
    Molehill { models: vec![], materials: vec![], images: vec![image] }
}

/// The document of a container that holds one model without vertices.
fn model_document(indices: &[u8], material: &[u8]) -> Vec<u8> {
    let mut doc = vec![0x93, 0x91, 0x93, 0x90];
    doc.extend_from_slice(indices);
    doc.extend_from_slice(material);
    doc.extend_from_slice(&[0x90, 0x90]);
    doc
}

#[test]
fn document_of_the_empty_container() {
    assert_eq!(encode(&empty_hill()), Some(vec![0x93, 0x90, 0x90, 0x90]));
    let back = decode(&[0x93, 0x90, 0x90, 0x90]).expect("the empty document is read");
    assert!(back == empty_hill());
}

#[test]
fn document_of_a_vertex() {
    let model = Moledel { vertices: vec![flat_vertex()], indices: vec![], material: 0 };
    let doc = encode(&hill_with_model(model.clone())).unwrap();
    let expected: Vec<u8> = vec![
        0x93, // container
        0x91, // one model
        0x93, // model
        0x91, // one vertex
        0x93, // vertex
        0x93, 0xca, 0x3f, 0x80, 0x00, 0x00, 0xca, 0x40, 0x00, 0x00, 0x00, 0xca, 0x40, 0x40, 0x00,
        0x00, // position 1, 2, 3
        0x92, 0xca, 0x3f, 0x00, 0x00, 0x00, 0xca, 0x3e, 0x80, 0x00, 0x00, // tex_coord 0.5, 0.25
        0x93, 0xca, 0x00, 0x00, 0x00, 0x00, 0xca, 0x00, 0x00, 0x00, 0x00, 0xca, 0xbf, 0x80, 0x00,
        0x00, // normal 0, 0, -1
        0x90, // no indices
        0x00, // material 0
        0x90, // no materials
        0x90, // no images
    ];
    assert_eq!(doc, expected);
    assert!(decode(&expected).unwrap() == hill_with_model(model));
}

#[test]
fn document_of_a_material_without_textures() {
    let doc = encode(&hill_with_material(dull_material())).unwrap();
    let one = [0xca, 0x3f, 0x80, 0x00, 0x00];
    let zero = [0xca, 0x00, 0x00, 0x00, 0x00];
    let half = [0xca, 0x3f, 0x00, 0x00, 0x00];
    let mut expected: Vec<u8> = vec![0x93, 0x90, 0x91, 0x9b];
    expected.push(0x94);
    for _ in 0..4 {
        expected.extend_from_slice(&one);
    }
    expected.push(0xc0); // albedo_texture
    expected.push(0xc0); // alpha_clip_threshold
    expected.push(0x92);
    expected.extend_from_slice(&one);
    expected.extend_from_slice(&one);
    expected.push(0x92);
    expected.extend_from_slice(&zero);
    expected.extend_from_slice(&zero);
    expected.push(0xc2); // double_sided
    expected.extend_from_slice(&half); // roughness
    expected.push(0xc0);
    expected.extend_from_slice(&zero); // metalness
    expected.push(0xc0);
    expected.push(0xc0); // normal_map
    expected.push(0x90);
    assert_eq!(doc, expected);
    assert!(decode(&expected).unwrap() == hill_with_material(dull_material()));
}

#[test]
fn document_of_a_material_with_textures() {
    let mut material = dull_material();
    material.albedo_texture = Some(0);
    material.alpha_clip_threshold = Some(bits(0.5));
    material.double_sided = true;
    material.roughness_texture = Some(200);
    material.metalness_texture = Some(0x1234);
    material.normal_map = Some(0x0102_0304);
    let doc = encode(&hill_with_material(material)).unwrap();
    let one = [0xca, 0x3f, 0x80, 0x00, 0x00];
    let zero = [0xca, 0x00, 0x00, 0x00, 0x00];
    let half = [0xca, 0x3f, 0x00, 0x00, 0x00];
    let mut expected: Vec<u8> = vec![0x93, 0x90, 0x91, 0x9b];
    expected.push(0x94);
    for _ in 0..4 {
        expected.extend_from_slice(&one);
    }
    expected.push(0x00); // albedo_texture 0, not nil
    expected.extend_from_slice(&half); // alpha_clip_threshold
    expected.push(0x92);
    expected.extend_from_slice(&one);
    expected.extend_from_slice(&one);
    expected.push(0x92);
    expected.extend_from_slice(&zero);
    expected.extend_from_slice(&zero);
    expected.push(0xc3); // double_sided
    expected.extend_from_slice(&half);
    expected.extend_from_slice(&[0xcc, 200]);
    expected.extend_from_slice(&zero);
    expected.extend_from_slice(&[0xcd, 0x12, 0x34]);
    expected.extend_from_slice(&[0xce, 0x01, 0x02, 0x03, 0x04]);
    expected.push(0x90);
    assert_eq!(doc, expected);
    assert!(decode(&expected).unwrap() == hill_with_material(material));
}

#[test]
fn document_of_an_image() {
    let image = Molemage::from_rgba(1, 2, vec![0, 127, 128, 255, 1, 2, 3, 4]);
    let doc = encode(&hill_with_image(image.clone())).unwrap();
    let expected: Vec<u8> = vec![
        0x93, 0x90, 0x90, 0x91, // container, one image
        0x94, // image
        0xa4, 0x53, 0x52, 0x47, 0x42, // "SRGB"
        0x01, 0x02, // width, height
        0x98, // eight channel values
        0x00, 0x7f, 0xcc, 0x80, 0xcc, 0xff, 0x01, 0x02, 0x03, 0x04,
    ];
    assert_eq!(doc, expected);
    assert!(decode(&expected).unwrap() == hill_with_image(image));
}

#[test]
fn unsigned_integers_take_their_shortest_form() {
    let cases: Vec<(u32, Vec<u8>)> = vec![
        (0, vec![0x00]),
        (1, vec![0x01]),
        (127, vec![0x7f]),
        (128, vec![0xcc, 0x80]),
        (255, vec![0xcc, 0xff]),
        (256, vec![0xcd, 0x01, 0x00]),
        (65_535, vec![0xcd, 0xff, 0xff]),
        (65_536, vec![0xce, 0x00, 0x01, 0x00, 0x00]),
        (0x1234_5678, vec![0xce, 0x12, 0x34, 0x56, 0x78]),
        (u32::MAX, vec![0xce, 0xff, 0xff, 0xff, 0xff]),
    ];
    for (value, form) in cases {
        let model = Moledel { vertices: vec![], indices: vec![value], material: value };
        let mut indices = vec![0x91];
        indices.extend_from_slice(&form);
        let expected = model_document(&indices, &form);
        assert_eq!(encode(&hill_with_model(model.clone())), Some(expected.clone()), "{}", value);
        assert!(decode(&expected).unwrap() == hill_with_model(model), "{}", value);
    }
}

#[test]
fn array_heads_take_their_shortest_form() {
    let cases: Vec<(usize, Vec<u8>)> = vec![
        (0, vec![0x90]),
        (1, vec![0x91]),
        (15, vec![0x9f]),
        (16, vec![0xdc, 0x00, 0x10]),
        (65_535, vec![0xdc, 0xff, 0xff]),
        (65_536, vec![0xdd, 0x00, 0x01, 0x00, 0x00]),
        (70_000, vec![0xdd, 0x00, 0x01, 0x11, 0x70]),
    ];
    for (len, head) in cases {
        let model = Moledel { vertices: vec![], indices: vec![7; len], material: 0 };
        let mut indices = head.clone();
        indices.extend(std::iter::repeat(7u8).take(len));
        let expected = model_document(&indices, &[0x00]);
        assert_eq!(encode(&hill_with_model(model.clone())), Some(expected.clone()), "{}", len);
        assert!(decode(&expected).unwrap() == hill_with_model(model), "{}", len);
    }
}

#[test]
fn a_number_is_read_in_any_form_that_holds_it() {
    let forms: Vec<Vec<u8>> = vec![
        vec![0x05],
        vec![0xcc, 0x05],
        vec![0xcd, 0x00, 0x05],
        vec![0xce, 0x00, 0x00, 0x00, 0x05],
        vec![0xcf, 0, 0, 0, 0, 0, 0, 0, 5],
        vec![0xd0, 0x05],
        vec![0xd1, 0x00, 0x05],
        vec![0xd2, 0x00, 0x00, 0x00, 0x05],
        vec![0xd3, 0, 0, 0, 0, 0, 0, 0, 5],
    ];
    for form in forms {
        let hill = decode(&model_document(&[0x90], &form)).expect("the number is held");
        assert_eq!(hill.models[0].material, 5, "{:x?}", form);
    }
    let large = decode(&model_document(&[0x90], &[0xcf, 0, 0, 0, 0, 0xff, 0xff, 0xff, 0xff]));
    assert_eq!(large.unwrap().models[0].material, u32::MAX);
    let signed = decode(&model_document(&[0x90], &[0xd3, 0, 0, 0, 0, 0x80, 0, 0, 1]));
    assert_eq!(signed.unwrap().models[0].material, 0x8000_0001);
    let short = decode(&model_document(&[0x90], &[0xd1, 0x7f, 0xff]));
    assert_eq!(short.unwrap().models[0].material, 0x7fff);
}

#[test]
fn a_number_that_does_not_fit_is_rejected() {
    // too large for 32 bits
    assert!(decode(&model_document(&[0x90], &[0xcf, 0, 0, 0, 1, 0, 0, 0, 0])).is_none());
    assert!(decode(&model_document(&[0x90], &[0xd3, 0, 0, 0, 1, 0, 0, 0, 0])).is_none());
    // negative
    assert!(decode(&model_document(&[0x90], &[0xff])).is_none());
    assert!(decode(&model_document(&[0x90], &[0xe0])).is_none());
    assert!(decode(&model_document(&[0x90], &[0xd0, 0xff])).is_none());
    assert!(decode(&model_document(&[0x90], &[0xd1, 0x80, 0x00])).is_none());
    assert!(decode(&model_document(&[0x90], &[0xd2, 0xff, 0xff, 0xff, 0xff])).is_none());
    assert!(decode(&model_document(&[0x90], &[0xd3, 0xff, 0, 0, 0, 0, 0, 0, 0])).is_none());
    // cut short
    assert!(decode(&model_document(&[0x90], &[0xcf, 0, 0, 0, 0, 0, 0, 0])[..12]).is_none());
}

#[test]
fn an_array_is_read_under_any_of_its_heads() {
    let short = decode(&model_document(&[0x91, 0x07], &[0x00])).unwrap();
    let wide = decode(&model_document(&[0xdc, 0x00, 0x01, 0x07], &[0x00])).unwrap();
    let wider = decode(&model_document(&[0xdd, 0x00, 0x00, 0x00, 0x01, 0x07], &[0x00])).unwrap();
    assert_eq!(short.models[0].indices, vec![7]);
    assert!(wide == short);
    assert!(wider == short);
    let hill = decode(&[0xdc, 0x00, 0x03, 0xdd, 0, 0, 0, 0, 0xdc, 0, 0, 0x90]).unwrap();
    assert!(hill == empty_hill());
}

#[test]
fn a_field_of_another_type_is_rejected() {
    // nil, a boolean, a float, a string and a negative number for the material index
    assert!(decode(&model_document(&[0x90], &[0xc0])).is_none());
    assert!(decode(&model_document(&[0x90], &[0xc3])).is_none());
    assert!(decode(&model_document(&[0x90], &[0xca, 0x3f, 0x80, 0x00, 0x00])).is_none());
    assert!(decode(&model_document(&[0x90], &[0xa1, 0x30])).is_none());
    assert!(decode(&model_document(&[0x90], &[0xff])).is_none());
    // a number in the place of a sequence
    assert!(decode(&model_document(&[0x00], &[0x00])).is_none());
    // a map in the place of the container
    assert!(decode(&[0x83, 0x90, 0x90, 0x90]).is_none());
}

#[test]
fn a_scalar_must_be_a_float_of_32_bits() {
    let good = encode(&hill_with_material(dull_material())).unwrap();
    assert!(decode(&good).is_some());
    // roughness sits behind the head, albedo, two nils, two pairs and a boolean
    let at = 4 + 21 + 2 + 11 + 11 + 1;
    assert_eq!(good[at..at + 5], [0xca, 0x3f, 0x00, 0x00, 0x00]);
    let mut as_integer = good.clone();
    as_integer.splice(at..at + 5, [0x01]);
    assert!(decode(&as_integer).is_none());
    let mut as_double = good.clone();
    as_double.splice(at..at + 5, [0xcb, 0x3f, 0xe0, 0, 0, 0, 0, 0, 0]);
    assert!(decode(&as_double).is_none());
}

#[test]
fn a_channel_value_above_255_is_rejected() {
    let image = |pixel: &[u8]| {
        let mut doc = vec![0x93, 0x90, 0x90, 0x91, 0x94, 0xa4, 0x53, 0x52, 0x47, 0x42, 0x01, 0x01];
        doc.push(0x91);
        doc.extend_from_slice(pixel);
        doc
    };
    assert_eq!(decode(&image(&[0xcc, 0xff])).unwrap().images[0].pixels, vec![255]);
    assert_eq!(decode(&image(&[0xcd, 0x00, 0xff])).unwrap().images[0].pixels, vec![255]);
    assert!(decode(&image(&[0xcd, 0x01, 0x00])).is_none());
    assert!(decode(&image(&[0xd1, 0x01, 0x00])).is_none());
    assert!(decode(&image(&[0xc4, 0x01, 0x09])).is_none());
}

#[test]
fn the_color_space_is_read_by_name_or_by_place() {
    let image = |name: &[u8]| {
        let mut doc = vec![0x93, 0x90, 0x90, 0x91, 0x94];
        doc.extend_from_slice(name);
        doc.extend_from_slice(&[0x01, 0x01, 0x90]);
        doc
    };
    let forms: Vec<Vec<u8>> = vec![
        vec![0xa4, 0x53, 0x52, 0x47, 0x42],
        vec![0xd9, 0x04, 0x53, 0x52, 0x47, 0x42],
        vec![0xda, 0x00, 0x04, 0x53, 0x52, 0x47, 0x42],
        vec![0xdb, 0x00, 0x00, 0x00, 0x04, 0x53, 0x52, 0x47, 0x42],
        vec![0xc4, 0x04, 0x53, 0x52, 0x47, 0x42],
        vec![0x00],
        vec![0xcc, 0x00],
        vec![0xcf, 0, 0, 0, 0, 0, 0, 0, 0],
        vec![0x81, 0xa4, 0x53, 0x52, 0x47, 0x42, 0xc0],
        vec![0x81, 0x00, 0xc0],
        vec![0xde, 0x00, 0x01, 0xd9, 0x04, 0x53, 0x52, 0x47, 0x42, 0xc0],
    ];
    for form in forms {
        let hill = decode(&image(&form)).expect("the color space is named");
        assert!(hill.images[0].color_space == ColorSpace::SRGB, "{:x?}", form);
        assert_eq!(hill.images[0].width, 1);
    }
}

#[test]
fn an_unknown_color_space_is_rejected() {
    let image = |name: &[u8]| {
        let mut doc = vec![0x93, 0x90, 0x90, 0x91, 0x94];
        doc.extend_from_slice(name);
        doc.extend_from_slice(&[0x01, 0x01, 0x90]);
        doc
    };
    assert!(decode(&image(&[0xa4, 0x73, 0x72, 0x67, 0x62])).is_none());
    assert!(decode(&image(&[0xa6, 0x4c, 0x69, 0x6e, 0x65, 0x61, 0x72])).is_none());
    assert!(decode(&image(&[0xa3, 0x53, 0x52, 0x47])).is_none());
    assert!(decode(&image(&[0x01])).is_none());
    assert!(decode(&image(&[0xd0, 0x00])).is_none());
    assert!(decode(&image(&[0xc0])).is_none());
    assert!(decode(&image(&[0xcf, 0, 0, 0, 1, 0, 0, 0, 0])).is_none());
    // a map must have one entry, and its value must be nil
    assert!(decode(&image(&[0x80])).is_none());
    assert!(decode(&image(&[0x82, 0x00, 0xc0, 0x00, 0xc0])).is_none());
    assert!(decode(&image(&[0x81, 0x00, 0x00])).is_none());
    assert!(decode(&image(&[0x81, 0x01, 0xc0])).is_none());
    assert!(decode(&image(&[0x91, 0x00])).is_none());
}

#[test]
fn a_wrong_number_of_fields_is_rejected() {
    assert!(decode(&[0x92, 0x90, 0x90]).is_none());
    assert!(decode(&[0x94, 0x90, 0x90, 0x90, 0x90]).is_none());
    assert!(decode(&[0x93, 0x91, 0x92, 0x90, 0x90, 0x90, 0x90]).is_none());
    assert!(decode(&[0x93, 0x91, 0x94, 0x90, 0x90, 0x00, 0x00, 0x90, 0x90]).is_none());
}

#[test]
fn a_truncated_document_is_rejected() {
    let model = Moledel { vertices: vec![flat_vertex()], indices: vec![0, 0, 300], material: 2 };
    let hill = Molehill {
        models: vec![model],
        materials: vec![dull_material()],
        images: vec![Molemage::from_rgba(1, 1, vec![9, 8, 200, 6])],
    };
    let doc = encode(&hill).unwrap();
    for len in 0..doc.len() {
        assert!(decode(&doc[..len]).is_none(), "cut at {}", len);
    }
    assert!(decode(&doc).unwrap() == hill);
}

#[test]
fn bytes_behind_a_document_are_of_no_account() {
    let mut doc = encode(&empty_hill()).unwrap();
    doc.push(0x00);
    assert!(decode(&doc).unwrap() == empty_hill());
    doc.extend_from_slice(&[0xc1, 0xff, 0x93]);
    assert!(decode(&doc).unwrap() == empty_hill());
    let twice = [0x93, 0x91, 0x93, 0x90, 0x90, 0x07, 0x90, 0x90, 0x93, 0x90, 0x90, 0x90];
    assert_eq!(decode(&twice).unwrap().models[0].material, 7);
}

#[test]
fn an_array_head_that_announces_too_much_is_rejected() {
    assert!(decode(&[0x93, 0xdd, 0xff, 0xff, 0xff, 0xff, 0x90, 0x90]).is_none());
    assert!(decode(&model_document(&[0xdd, 0xff, 0xff, 0xff, 0xff, 0x01, 0x02], &[0x00])).is_none());
    assert!(decode(&[]).is_none());
}

#[test]
fn an_inconsistent_document_is_read_as_it_stands() {
    // a 3 by 3 image with a single channel value, and a model whose indices point nowhere
    let doc = vec![
        0x93, 0x91, 0x93, 0x90, 0x93, 0x00, 0x01, 0x63, 0x09, // model: indices 0, 1, 99
        0x90, // no materials
        0x91, 0x94, 0xa4, 0x53, 0x52, 0x47, 0x42, 0x03, 0x03, 0x91, 0x2a,
    ];
    let hill = decode(&doc).expect("the shape is right");
    assert_eq!(hill.models[0].indices, vec![0, 1, 99]);
    assert_eq!(hill.models[0].material, 9);
    assert_eq!(hill.images[0].width, 3);
    assert_eq!(hill.images[0].height, 3);
    assert_eq!(hill.images[0].pixels, vec![42]);
    assert!(hill.images[0].color_space == ColorSpace::SRGB);
}

#[test]
fn stream_holds_the_document() {
    let hill = Molehill {
        models: vec![Moledel { vertices: vec![flat_vertex(); 50], indices: vec![1; 90], material: 0 }],
        materials: vec![dull_material()],
        images: vec![Molemage::from_rgba(4, 4, vec![77; 64])],
    };
    let doc = encode(&hill).unwrap();
    let stream = to_bytes(&hill).unwrap();
    assert_ne!(stream, doc);
    assert_eq!(stream[..4], [0x28, 0xb5, 0x2f, 0xfd]);
    assert!(stream.len() < doc.len());
    assert_eq!(zstd::decode_all(&stream[..]).unwrap(), doc);
}

#[test]
fn stream_of_another_compression_level_is_read() {
    let hill = Molehill {
        models: vec![Moledel { vertices: vec![flat_vertex(); 3], indices: vec![0, 1, 2], material: 0 }],
        materials: vec![dull_material()],
        images: vec![],
    };
    let doc = encode(&hill).unwrap();
    for level in [1, 3, 19] {
        let stream = zstd::encode_all(&doc[..], level).unwrap();
        assert!(from_bytes(stream).unwrap() == hill);
    }
    assert!(from_bytes(doc).is_none());
}

#[test]
fn stream_that_holds_no_document_is_rejected() {
    let text = zstd::encode_all(&b"a valid stream around no document"[..], 22).unwrap();
    assert!(from_bytes(text).is_none());
    let nothing = zstd::encode_all(&b""[..], 22).unwrap();
    assert!(from_bytes(nothing).is_none());
    let mut long = encode(&empty_hill()).unwrap();
    long.push(0xc0);
    assert!(from_bytes(zstd::encode_all(&long[..], 22).unwrap()).unwrap() == empty_hill());
    let cut = zstd::encode_all(&[0x93u8, 0x90, 0x90][..], 22).unwrap();
    assert!(from_bytes(cut).is_none());
}

#[test]
fn two_streams_in_a_row_hold_both_contents() {
    let mut stream = zstd::encode_all(&[0x93u8, 0x90][..], 22).unwrap();
    stream.extend(zstd::encode_all(&[0x90u8, 0x90][..], 5).unwrap());
    assert!(from_bytes(stream).unwrap() == empty_hill());
}

#[test]
fn stream_is_compressed_at_the_highest_level() {
    let mut vertices = Vec::new();
    let mut indices = Vec::new();
    let mut state: u32 = 7;
    for i in 0..3000u32 {
        state = state.wrapping_mul(1_103_515_245).wrapping_add(12_345);
        let mut vertex = flat_vertex();
        vertex.position.x = bits((state >> 20) as f32 / 8.0);
        vertex.position.y = bits((i % 97) as f32);
        vertex.tex_coord.x = bits((i % 13) as f32 / 13.0);
        vertices.push(vertex);
        indices.push((state >> 16) % 3000);
    }
    let hill = Molehill {
        models: vec![Moledel { vertices, indices, material: 0 }],
        materials: vec![dull_material()],
        images: vec![Molemage::from_rgba(8, 8, (0..=255u8).collect())],
    };
    let doc = encode(&hill).unwrap();
    let stream = to_bytes(&hill).unwrap();
    assert_eq!(stream, zstd::encode_all(&doc[..], 22).unwrap());
    let fast = zstd::encode_all(&doc[..], 1).unwrap();
    assert_ne!(stream, fast);
    assert!(stream.len() < fast.len());
    assert!(from_bytes(stream).unwrap() == hill);
}

fn text(name: &str) -> Vec<u8> {
    let mut key = vec![0xa0 + name.len() as u8];
    key.extend_from_slice(name.as_bytes());
    key
}

fn entry(name: &str, value: &[u8]) -> Vec<u8> {
    let mut bytes = text(name);
    bytes.extend_from_slice(value);
    bytes
}

fn map_of(entries: Vec<Vec<u8>>) -> Vec<u8> {
    let mut bytes = vec![0x80 + entries.len() as u8];
    for e in entries {
        bytes.extend_from_slice(&e);
    }
    bytes
}

fn number(x: f32) -> Vec<u8> {
    let mut bytes = vec![0xca];
    bytes.extend_from_slice(&x.to_bits().to_be_bytes());
    bytes
}

fn numbers(xs: &[f32]) -> Vec<u8> {
    let mut bytes = vec![0x90 + xs.len() as u8];
    for x in xs {
        bytes.extend_from_slice(&number(*x));
    }
    bytes
}

#[test]
fn pixels_and_indices_are_read_from_a_run_of_bytes() {
    let doc = vec![
        0x93, // container
        0x91, 0x93, 0x90, 0xc4, 0x03, 0x00, 0x02, 0xff, 0x00, // a model with indices 0, 2, 255
        0x90, // no materials
        0x91, 0x94, 0xa4, 0x53, 0x52, 0x47, 0x42, 0x01, 0x01, // one image, 1 by 1
        0xc5, 0x00, 0x04, 0x09, 0x80, 0xc1, 0xff, // four channel values
    ];
    let hill = decode(&doc).expect("runs of bytes are read");
    assert_eq!(hill.models[0].indices, vec![0, 2, 255]);
    assert_eq!(hill.images[0].pixels, vec![0x09, 0x80, 0xc1, 0xff]);
    let empty = vec![0x93, 0x90, 0x90, 0x91, 0x94, 0x00, 0x00, 0x00, 0xc6, 0, 0, 0, 0];
    assert!(decode(&empty).unwrap().images[0].pixels.is_empty());
    // a string is no run of channel values, and a run may not be cut short
    let string = vec![0x93, 0x90, 0x90, 0x91, 0x94, 0x00, 0x01, 0x01, 0xa1, 0x09];
    assert!(decode(&string).is_none());
    let cut = vec![0x93, 0x90, 0x90, 0x91, 0x94, 0x00, 0x01, 0x01, 0xc4, 0x02, 0x09];
    assert!(decode(&cut).is_none());
    // a run of no bytes is a sequence without items, of whatever kind
    let hill = decode(&[0x93, 0x91, 0x93, 0xc4, 0x00, 0x90, 0x00, 0x90, 0x90]).unwrap();
    assert!(hill.models[0].vertices.is_empty());
    assert!(decode(&[0x93, 0x90, 0xc4, 0x00, 0x90]).unwrap() == empty_hill());
    assert!(decode(&[0x93, 0xc5, 0x00, 0x00, 0xc6, 0, 0, 0, 0, 0xc4, 0x00]).unwrap() == empty_hill());
    // vertices and materials are records: a run that holds bytes is none of them
    assert!(decode(&[0x93, 0x91, 0x93, 0xc4, 0x01, 0x00, 0x90, 0x00, 0x90, 0x90]).is_none());
    assert!(decode(&[0x93, 0x90, 0xc4, 0x01, 0x00, 0x90]).is_none());
}

#[test]
fn a_container_is_read_from_a_map() {
    let image = map_of(vec![
        entry("pixels", &[0xc4, 0x04, 1, 2, 3, 4]),
        entry("height", &[0x01]),
        entry("color_space", &text("SRGB")),
        entry("width", &[0xcd, 0x00, 0x01]),
    ]);
    let vertex = map_of(vec![
        entry("normal", &numbers(&[0.0, 0.0, -1.0])),
        entry("position", &numbers(&[1.0, 2.0, 3.0])),
        entry("tex_coord", &numbers(&[0.5, 0.25])),
    ]);
    let mut vertices = vec![0x91];
    vertices.extend_from_slice(&vertex);
    let model = map_of(vec![
        entry("material", &[0x02]),
        entry("vertices", &vertices),
        entry("indices", &[0x93, 0x00, 0x00, 0xcd, 0x01, 0x2c]),
    ]);
    let mut models = vec![0x91];
    models.extend_from_slice(&model);
    let mut images = vec![0x91];
    images.extend_from_slice(&image);
    let doc = map_of(vec![
        entry("images", &images),
        entry("models", &models),
        entry("materials", &[0x90]),
    ]);
    let hill = decode(&doc).expect("maps are read");
    let expected = Molehill {
        models: vec![Moledel { vertices: vec![flat_vertex()], indices: vec![0, 0, 300], material: 2 }],
        materials: vec![],
        images: vec![Molemage::from_rgba(1, 1, vec![1, 2, 3, 4])],
    };
    assert!(hill == expected);
    assert!(from_bytes(zstd::encode_all(&doc[..], 3).unwrap()).unwrap() == expected);
}

fn material_entries() -> Vec<(&'static str, Vec<u8>)> {
    vec![
        ("albedo", numbers(&[1.0, 1.0, 1.0, 1.0])),
        ("albedo_texture", vec![0xc0]),
        ("alpha_clip_threshold", vec![0xc0]),
        ("tex_coord_scale", numbers(&[1.0, 1.0])),
        ("tex_coord_offset", numbers(&[0.0, 0.0])),
        ("double_sided", vec![0xc2]),
        ("roughness", number(0.5)),
        ("roughness_texture", vec![0xc0]),
        ("metalness", number(0.0)),
        ("metalness_texture", vec![0xc0]),
        ("normal_map", vec![0xc0]),
    ]
}

fn materials_document(material: &[u8]) -> Vec<u8> {
    let mut doc = vec![0x93, 0x90, 0x91];
    doc.extend_from_slice(material);
    doc.push(0x90);
    doc
}

#[test]
fn a_material_is_read_from_a_map() {
    let all: Vec<Vec<u8>> = material_entries().iter().map(|(k, v)| entry(k, v)).collect();
    let mut bytes = vec![0x8b];
    for e in all.iter().rev() {
        bytes.extend_from_slice(e);
    }
    let hill = decode(&materials_document(&bytes)).expect("a map of all fields");
    assert!(hill == hill_with_material(dull_material()));
    // the fields that may be absent may be left out
    let needed: Vec<Vec<u8>> = material_entries()
        .iter()
        .filter(|(_, v)| v != &vec![0xc0])
        .map(|(k, v)| entry(k, v))
        .collect();
    assert_eq!(needed.len(), 6);
    let hill = decode(&materials_document(&map_of(needed.clone()))).expect("six fields are enough");
    assert!(hill == hill_with_material(dull_material()));
    // a field that must be there may not
    for leave in 0..needed.len() {
        let mut fewer = needed.clone();
        fewer.remove(leave);
        assert!(decode(&materials_document(&map_of(fewer))).is_none(), "without {}", leave);
    }
    // a texture that is given is kept
    let mut with_texture = needed.clone();
    with_texture.push(entry("normal_map", &[0xcc, 0x09]));
    let hill = decode(&materials_document(&map_of(with_texture))).unwrap();
    assert_eq!(hill.materials[0].normal_map, Some(9));
    assert_eq!(hill.materials[0].albedo_texture, None);
}

#[test]
fn a_field_may_be_named_by_its_place() {
    let mut by_place = vec![0x83];
    by_place.extend_from_slice(&[0x02, 0x90]); // images
    by_place.extend_from_slice(&[0xcc, 0x00, 0x90]); // models
    by_place.extend_from_slice(&[0xcf, 0, 0, 0, 0, 0, 0, 0, 1, 0x90]); // materials
    assert!(decode(&by_place).unwrap() == empty_hill());
    let mut by_bytes = vec![0x83];
    for name in ["models", "materials", "images"] {
        by_bytes.extend_from_slice(&[0xc4, name.len() as u8]);
        by_bytes.extend_from_slice(name.as_bytes());
        by_bytes.push(0x90);
    }
    assert!(decode(&by_bytes).unwrap() == empty_hill());
    let mut long_head = vec![0xde, 0x00, 0x03];
    for name in ["models", "materials", "images"] {
        long_head.extend_from_slice(&[0xd9, name.len() as u8]);
        long_head.extend_from_slice(name.as_bytes());
        long_head.push(0x90);
    }
    assert!(decode(&long_head).unwrap() == empty_hill());
    // a place that is signed, or a key of another type, names nothing
    assert!(decode(&[0x83, 0xd0, 0x00, 0x90, 0x01, 0x90, 0x02, 0x90]).is_none());
    assert!(decode(&[0x83, 0xc0, 0x90, 0x01, 0x90, 0x02, 0x90]).is_none());
    assert!(decode(&[0x83, 0x90, 0x90, 0x01, 0x90, 0x02, 0x90]).is_none());
}

#[test]
fn an_entry_under_another_key_is_passed_over() {
    let nested = vec![
        0x82, // a map of two entries
        0xa1, 0x61, 0x93, 0x01, 0xc0, 0xcb, 0, 0, 0, 0, 0, 0, 0, 0, // "a": [1, nil, 0.0]
        0xa1, 0x62, 0xc7, 0x02, 0x05, 0xaa, 0xbb, // "b": an extension of two bytes
    ];
    let doc = map_of(vec![
        entry("models", &[0x90]),
        entry("comment", &text("made by hand")),
        entry("materials", &[0x90]),
        entry("extra", &nested),
        entry("images", &[0x90]),
    ]);
    assert!(decode(&doc).unwrap() == empty_hill());
    // a place beyond the last field names nothing either
    let doc = vec![0x84, 0x00, 0x90, 0x01, 0x90, 0x02, 0x90, 0x03, 0xd4, 0x01, 0x02];
    assert!(decode(&doc).unwrap() == empty_hill());
    // what is passed over must still be whole
    let cut = map_of(vec![
        entry("models", &[0x90]),
        entry("materials", &[0x90]),
        entry("images", &[0x90]),
        entry("extra", &[0x92, 0x01]),
    ]);
    assert!(decode(&cut).is_none());
    let reserved = map_of(vec![
        entry("models", &[0x90]),
        entry("materials", &[0x90]),
        entry("images", &[0x90]),
        entry("extra", &[0xc1]),
    ]);
    assert!(decode(&reserved).is_none());
}

#[test]
fn a_map_that_gives_a_field_twice_or_not_at_all_is_rejected() {
    let twice = map_of(vec![
        entry("models", &[0x90]),
        entry("materials", &[0x90]),
        entry("images", &[0x90]),
        entry("models", &[0x90]),
    ]);
    assert!(decode(&twice).is_none());
    let by_name_and_place = vec![
        0x84, 0x00, 0x90, 0x01, 0x90, 0x02, 0x90, 0xa6, 0x6d, 0x6f, 0x64, 0x65, 0x6c, 0x73, 0x90,
    ];
    assert!(decode(&by_name_and_place).is_none());
    let missing = map_of(vec![entry("models", &[0x90]), entry("images", &[0x90])]);
    assert!(decode(&missing).is_none());
    // fewer entries than the head announces
    let short = vec![0x83, 0x00, 0x90, 0x01, 0x90];
    assert!(decode(&short).is_none());
    // a value of the wrong type under a known key
    let wrong = map_of(vec![
        entry("models", &[0x01]),
        entry("materials", &[0x90]),
        entry("images", &[0x90]),
    ]);
    assert!(decode(&wrong).is_none());
    // a vector is an array, never a map
    let vertex = map_of(vec![
        entry("position", &[0x83, 0x00, 0xc0, 0x01, 0xc0, 0x02, 0xc0]),
        entry("tex_coord", &numbers(&[0.5, 0.25])),
        entry("normal", &numbers(&[0.0, 0.0, -1.0])),
    ]);
    let mut doc = vec![0x93, 0x91, 0x93, 0x91];
    doc.extend_from_slice(&vertex);
    doc.extend_from_slice(&[0x90, 0x00, 0x90, 0x90]);
    assert!(decode(&doc).is_none());
}
