use mole::{
    from_bytes, to_bytes, ColorSpace, Molehill, Molemage, Moledel, Moleterial, Moletex, Scalar,
    Vec2, Vec3, Vec4,
};

fn scalar(x: f32) -> Scalar {
    Scalar { bits: x.to_bits() }
}

fn vec2(x: f32, y: f32) -> Vec2 {
    Vec2 { x: scalar(x), y: scalar(y) }
}

fn vec3(x: f32, y: f32, z: f32) -> Vec3 {
    Vec3 { x: scalar(x), y: scalar(y), z: scalar(z) }
}

fn vec4(x: f32, y: f32, z: f32, w: f32) -> Vec4 {
    Vec4 { x: scalar(x), y: scalar(y), z: scalar(z), w: scalar(w) }
}

fn vertex(i: u32) -> Moletex {
    let f = i as f32;
    Moletex {
        position: vec3(f, f + 0.5, -f),
        tex_coord: vec2(f / 4.0, 1.0 - f / 4.0),
        normal: vec3(0.0, 1.0, 0.0),
    }
}

fn plain_material() -> Moleterial {
    Moleterial {
        albedo: vec4(1.0, 0.5, 0.25, 1.0),
        albedo_texture: None,
        alpha_clip_threshold: None,
        tex_coord_scale: vec2(1.0, 1.0),
        tex_coord_offset: vec2(0.0, 0.0),
        double_sided: false,
        roughness: scalar(0.7),
        roughness_texture: None,
        metalness: scalar(0.1),
        metalness_texture: None,
        normal_map: None,
    }
}

fn textured_material() -> Moleterial {
    Moleterial {
        albedo: vec4(0.2, 0.4, 0.6, 0.8),
        albedo_texture: Some(0),
        alpha_clip_threshold: Some(scalar(0.5)),
        tex_coord_scale: vec2(2.0, 3.0),
        tex_coord_offset: vec2(-0.25, 0.75),
        double_sided: true,
        roughness: scalar(1.0),
        roughness_texture: Some(1),
        metalness: scalar(0.0),
        metalness_texture: Some(300),
        normal_map: Some(70_000),
    }
}

fn quad(indices: Vec<u32>, material: u32) -> Moledel {
    Moledel { vertices: vec![vertex(0), vertex(1), vertex(2), vertex(3)], indices, material }
}

fn two_by_two() -> Molemage {
    Molemage::from_rgba(
        2,
        2,
        vec![10, 20, 30, 255, 40, 50, 60, 128, 70, 80, 90, 127, 200, 210, 220, 0],
    )
}

fn sample() -> Molehill {
    Molehill {
        models: vec![quad(vec![0, 1, 2, 0, 2, 3], 0), quad(vec![3, 2, 1], 1)],
        materials: vec![plain_material(), textured_material()],
        images: vec![two_by_two(), Molemage::from_rgba(1, 1, vec![1, 2, 3, 4])],
    }
}

fn round_trip(hill: &Molehill) -> Molehill {
    let stream = to_bytes(hill).expect("a container that fits is written");
    from_bytes(stream).expect("what was written is read")
}

#[test]
fn round_trip_gives_the_same_container() {
    let hill = sample();
    let back = round_trip(&hill);
    assert!(back == hill);
    assert_eq!(back.models.len(), 2);
    assert_eq!(back.models[0], hill.models[0]);
    assert_eq!(back.models[1], hill.models[1]);
    assert_eq!(back.materials, hill.materials);
    assert!(back.images == hill.images);
}

#[test]
fn round_trip_keeps_the_order_of_every_sequence() {
    let mut hill = sample();
    hill.models.reverse();
    hill.materials.reverse();
    hill.images.reverse();
    let back = round_trip(&hill);
    assert_eq!(back.models[0].indices, vec![3, 2, 1]);
    assert_eq!(back.models[1].indices, vec![0, 1, 2, 0, 2, 3]);
    assert_eq!(back.materials[0], textured_material());
    assert_eq!(back.materials[1], plain_material());
    assert_eq!(back.images[0].width, 1);
    assert_eq!(back.images[1].width, 2);
}

#[test]
fn empty_container_round_trip() {
    let hill = Molehill { models: vec![], materials: vec![], images: vec![] };
    let stream = to_bytes(&hill).expect("the empty container is written");
    let back = from_bytes(stream).expect("the empty container is read");
    assert!(back.models.is_empty());
    assert!(back.materials.is_empty());
    assert!(back.images.is_empty());
    assert!(back == hill);
}

#[test]
fn garbage_input_is_rejected() {
    assert!(from_bytes(vec![]).is_none());
    assert!(from_bytes(vec![0]).is_none());
    assert!(from_bytes(vec![0x93, 0x90, 0x90, 0x90]).is_none());
    assert!(from_bytes(b"this is not a compressed stream at all".to_vec()).is_none());
    let mut state: u32 = 0x1234_5678;
    let mut noise = Vec::new();
    for _ in 0..4096 {
        state = state.wrapping_mul(1_664_525).wrapping_add(1_013_904_223);
        noise.push((state >> 24) as u8);
    }
    assert!(from_bytes(noise).is_none());
}

#[test]
fn damaged_stream_is_rejected() {
    let stream = to_bytes(&sample()).unwrap();
    let mut magic = stream.clone();
    magic[0] ^= 0xff;
    assert!(from_bytes(magic).is_none());
    let mut tail = stream.clone();
    tail.extend_from_slice(&[1, 2, 3, 4, 5]);
    assert!(from_bytes(tail).is_none());
}

#[test]
fn truncated_stream_is_rejected() {
    let stream = to_bytes(&sample()).unwrap();
    assert!(stream.len() > 8);
    for len in 0..stream.len() {
        assert!(from_bytes(stream[..len].to_vec()).is_none(), "cut at {}", len);
    }
    assert!(from_bytes(stream).is_some());
}

#[test]
fn truncated_stream_of_the_empty_container_is_rejected() {
    let hill = Molehill { models: vec![], materials: vec![], images: vec![] };
    let stream = to_bytes(&hill).unwrap();
    for len in 0..stream.len() {
        assert!(from_bytes(stream[..len].to_vec()).is_none(), "cut at {}", len);
    }
}

#[test]
fn absent_texture_stays_absent() {
    let hill = Molehill { models: vec![], materials: vec![plain_material()], images: vec![] };
    let back = round_trip(&hill);
    assert_eq!(back.materials[0].albedo_texture, None);
    assert_eq!(back.materials[0].roughness_texture, None);
    assert_eq!(back.materials[0].metalness_texture, None);
    assert_eq!(back.materials[0].normal_map, None);
    assert_eq!(back.materials[0].alpha_clip_threshold, None);
}

#[test]
fn present_texture_keeps_its_index() {
    let mut zero = plain_material();
    zero.albedo_texture = Some(0);
    let mut far = plain_material();
    far.albedo_texture = Some(u32::MAX);
    let hill = Molehill {
        models: vec![],
        materials: vec![zero, far, textured_material()],
        images: vec![],
    };
    let back = round_trip(&hill);
    assert_eq!(back.materials[0].albedo_texture, Some(0));
    assert_eq!(back.materials[1].albedo_texture, Some(u32::MAX));
    assert_eq!(back.materials[2].albedo_texture, Some(0));
    assert_eq!(back.materials[2].roughness_texture, Some(1));
    assert_eq!(back.materials[2].metalness_texture, Some(300));
    assert_eq!(back.materials[2].normal_map, Some(70_000));
    assert_eq!(back.materials[2].alpha_clip_threshold, Some(scalar(0.5)));
}

#[test]
fn image_buffer_fidelity() {
    let pixels = vec![10, 20, 30, 255, 40, 50, 60, 128, 70, 80, 90, 127, 200, 210, 220, 0];
    let image = Molemage::from_rgba(2, 2, pixels.clone());
    assert!(image.color_space == ColorSpace::SRGB);
    let hill = Molehill { models: vec![], materials: vec![], images: vec![image] };
    let back = round_trip(&hill);
    assert_eq!(back.images.len(), 1);
    assert_eq!(back.images[0].width, 2);
    assert_eq!(back.images[0].height, 2);
    assert_eq!(back.images[0].pixels, pixels);
    assert!(back.images[0].color_space == ColorSpace::SRGB);
}

#[test]
fn every_byte_value_survives_in_a_pixel_buffer() {
    let mut pixels = Vec::new();
    for b in 0..=255u8 {
        pixels.push(b);
    }
    let image = Molemage::from_rgba(8, 8, pixels.clone());
    let hill = Molehill { models: vec![], materials: vec![], images: vec![image] };
    let back = round_trip(&hill);
    assert_eq!(back.images[0].pixels, pixels);
}

#[test]
fn indices_in_range_round_trip() {
    let hill = Molehill {
        models: vec![quad(vec![0, 1, 2, 0, 2, 3], 0)],
        materials: vec![plain_material()],
        images: vec![],
    };
    let back = round_trip(&hill);
    assert_eq!(back.models[0].vertices.len(), 4);
    assert_eq!(back.models[0].indices, vec![0, 1, 2, 0, 2, 3]);
}

#[test]
fn indices_out_of_range_are_not_rejected() {
    let hill = Molehill {
        models: vec![quad(vec![0, 1, 99], 0)],
        materials: vec![plain_material()],
        images: vec![],
    };
    let back = round_trip(&hill);
    assert_eq!(back.models[0].vertices.len(), 4);
    assert_eq!(back.models[0].indices, vec![0, 1, 99]);
}

#[test]
fn dangling_references_are_not_rejected() {
    let mut material = plain_material();
    material.normal_map = Some(12);
    let image = Molemage { color_space: ColorSpace::SRGB, width: 5, height: 5, pixels: vec![1, 2] };
    let hill = Molehill {
        models: vec![quad(vec![], 44)],
        materials: vec![material],
        images: vec![image],
    };
    let back = round_trip(&hill);
    assert_eq!(back.models[0].material, 44);
    assert_eq!(back.materials[0].normal_map, Some(12));
    assert_eq!(back.images[0].width, 5);
    assert_eq!(back.images[0].height, 5);
    assert_eq!(back.images[0].pixels, vec![1, 2]);
}

#[test]
fn scalars_keep_their_bits() {
    let mut material = plain_material();
    material.roughness = Scalar { bits: 0x7fc0_1234 };
    material.metalness = Scalar { bits: 0x8000_0000 };
    material.albedo = Vec4 {
        x: Scalar { bits: 0 },
        y: Scalar { bits: u32::MAX },
        z: scalar(f32::INFINITY),
        w: scalar(f32::MIN_POSITIVE),
    };
    let hill = Molehill { models: vec![], materials: vec![material], images: vec![] };
    let back = round_trip(&hill);
    assert_eq!(back.materials[0].roughness.bits, 0x7fc0_1234);
    assert_eq!(back.materials[0].metalness.bits, 0x8000_0000);
    assert_eq!(back.materials[0].albedo, material.albedo);
    assert_eq!(f32::from_bits(back.materials[0].albedo.z.bits), f32::INFINITY);
}

#[test]
fn from_rgba_tags_the_image_as_srgb() {
    let image = Molemage::from_rgba(3, 1, vec![1, 2, 3, 4, 5, 6, 7, 8, 9, 10, 11, 12]);
    assert!(image.color_space == ColorSpace::SRGB);
    assert_eq!(image.width, 3);
    assert_eq!(image.height, 1);
    assert_eq!(image.pixels.len(), 3 * 1 * 4);
    assert_eq!(image.pixels, vec![1, 2, 3, 4, 5, 6, 7, 8, 9, 10, 11, 12]);
    let empty = Molemage::from_rgba(0, 7, vec![]);
    assert_eq!(empty.width, 0);
    assert_eq!(empty.height, 7);
    assert!(empty.pixels.is_empty());
}

#[test]
fn writing_twice_gives_the_same_stream() {
    let hill = sample();
    let first = to_bytes(&hill).expect("a container that fits is written");
    let second = to_bytes(&hill).expect("a container that fits is written");
    assert_eq!(first, second);
    let other = Molehill { models: vec![], materials: vec![plain_material()], images: vec![] };
    assert_ne!(to_bytes(&other).unwrap(), first);
}
