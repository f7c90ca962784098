use mole::encode::encode;
use mole::{
    from_bytes, Molehill, Molemage, Moledel, Moleterial, Moletex, Scalar, Vec2, Vec3, Vec4,
};

type Pair = (f32, f32);
type Triple = (f32, f32, f32);
type Quad = (f32, f32, f32, f32);
type VertexTuple = (Triple, Pair, Triple);
type ModelTuple = (Vec<VertexTuple>, Vec<u32>, u32);
type MaterialTuple = (
    Quad,
    Option<u32>,
    Option<f32>,
    Pair,
    Pair,
    bool,
    f32,
    Option<u32>,
    f32,
    Option<u32>,
    Option<u32>,
);
type ImageTuple = (&'static str, u32, u32, Vec<u8>);
type HillTuple = (Vec<ModelTuple>, Vec<MaterialTuple>, Vec<ImageTuple>);

fn number(x: f32) -> Scalar {
    Scalar { bits: x.to_bits() }
}

fn pair(v: Pair) -> Vec2 {
    Vec2 { x: number(v.0), y: number(v.1) }
}

fn triple(v: Triple) -> Vec3 {
    Vec3 { x: number(v.0), y: number(v.1), z: number(v.2) }
}

fn quadruple(v: Quad) -> Vec4 {
    Vec4 { x: number(v.0), y: number(v.1), z: number(v.2), w: number(v.3) }
}

fn hill_of(t: &HillTuple) -> Molehill {
    Molehill {
        models: t
            .0
            .iter()
            .map(|m| Moledel {
                vertices: m
                    .0
                    .iter()
                    .map(|v| Moletex {
                        position: triple(v.0),
                        tex_coord: pair(v.1),
                        normal: triple(v.2),
                    })
                    .collect(),
                indices: m.1.clone(),
                material: m.2,
            })
            .collect(),
        materials: t
            .1
            .iter()
            .map(|m| Moleterial {
                albedo: quadruple(m.0),
                albedo_texture: m.1,
                alpha_clip_threshold: m.2.map(number),
                tex_coord_scale: pair(m.3),
                tex_coord_offset: pair(m.4),
                double_sided: m.5,
                roughness: number(m.6),
                roughness_texture: m.7,
                metalness: number(m.8),
                metalness_texture: m.9,
                normal_map: m.10,
            })
            .collect(),
        images: t.2.iter().map(|i| Molemage::from_rgba(i.1, i.2, i.3.clone())).collect(),
    }
}

fn busy_tuple() -> HillTuple {
    let mut vertices: Vec<VertexTuple> = Vec::new();
    for i in 0..20 {
        let f = i as f32;
        vertices.push(((f, -f, f * 0.125), (f / 20.0, 1.0 - f / 20.0), (0.0, 0.0, 1.0)));
    }
    let mut indices: Vec<u32> = Vec::new();
    for i in 0..300u32 {
        indices.push(i * 257);
    }
    let mut pixels: Vec<u8> = Vec::new();
    for i in 0..(16 * 16 * 4) {
        pixels.push((i * 7 % 256) as u8);
    }
    (
        vec![(vertices, indices, 1), (vec![], vec![], 70_000)],
        vec![
            (
                (1.0, 0.5, 0.25, 1.0),
                None,
                None,
                (1.0, 1.0),
                (0.0, 0.0),
                false,
                0.75,
                None,
                0.0,
                None,
                None,
            ),
            (
                (0.1, 0.2, 0.3, 0.4),
                Some(0),
                Some(0.5),
                (2.0, 4.0),
                (0.5, -0.5),
                true,
                1.0,
                Some(127),
                1.0,
                Some(128),
                Some(65_536),
            ),
        ],
        vec![("SRGB", 16, 16, pixels), ("SRGB", 0, 0, vec![])],
    )
}

#[test]
fn document_is_what_rmp_serde_writes() {
    let tuple = busy_tuple();
    let expected = rmp_serde::to_vec(&tuple).unwrap();
    assert_eq!(encode(&hill_of(&tuple)), Some(expected));
}

#[test]
fn empty_document_is_what_rmp_serde_writes() {
    let tuple: HillTuple = (vec![], vec![], vec![]);
    let expected = rmp_serde::to_vec(&tuple).unwrap();
    assert_eq!(expected, vec![0x93, 0x90, 0x90, 0x90]);
    assert_eq!(encode(&hill_of(&tuple)), Some(expected));
}

#[test]
fn stream_written_with_rmp_serde_and_zstd_is_read() {
    let tuple = busy_tuple();
    let document = rmp_serde::to_vec(&tuple).unwrap();
    let stream = zstd::encode_all(std::io::Cursor::new(document), 22).unwrap();
    let hill = from_bytes(stream).expect("a stream of the same layout is read");
    assert!(hill == hill_of(&tuple));
}

#[test]
fn document_is_read_by_rmp_serde() {
    let tuple = busy_tuple();
    let document = encode(&hill_of(&tuple)).unwrap();
    let back: (Vec<ModelTuple>, Vec<MaterialTuple>, Vec<(String, u32, u32, Vec<u8>)>) =
        rmp_serde::from_slice(&document).unwrap();
    assert_eq!(back.0, tuple.0);
    assert_eq!(back.1, tuple.1);
    assert_eq!(back.2.len(), 2);
    assert_eq!(back.2[0].0, "SRGB");
    assert_eq!(back.2[0].3, tuple.2[0].3);
}

#[test]
fn vectors_are_written_as_glam_writes_them() {
    let v2 = glam::Vec2::new(0.5, -2.0);
    let v3 = glam::Vec3::new(1.0, 2.0, 3.0);
    let v4 = glam::Vec4::new(0.25, 0.5, 0.75, 1.0);
    let vertex = rmp_serde::to_vec(&(v3, v2, v3)).unwrap();
    let hill = Molehill {
        models: vec![Moledel {
            vertices: vec![Moletex {
                position: triple((1.0, 2.0, 3.0)),
                tex_coord: pair((0.5, -2.0)),
                normal: triple((1.0, 2.0, 3.0)),
            }],
            indices: vec![],
            material: 0,
        }],
        materials: vec![],
        images: vec![],
    };
    let mut expected = vec![0x93, 0x91, 0x93, 0x91];
    expected.extend_from_slice(&vertex);
    expected.extend_from_slice(&[0x90, 0x00, 0x90, 0x90]);
    assert_eq!(encode(&hill), Some(expected));
    assert_eq!(
        rmp_serde::to_vec(&v4).unwrap(),
        rmp_serde::to_vec(&(0.25f32, 0.5f32, 0.75f32, 1.0f32)).unwrap()
    );
}

type LooseHill = (Vec<ModelTuple>, Vec<MaterialTuple>, Vec<(String, u32, u32, Vec<u8>)>);

fn loose_hill_of(t: &LooseHill) -> Molehill {
    let images: Vec<ImageTuple> = t.2.iter().map(|i| ("SRGB", i.1, i.2, i.3.clone())).collect();
    hill_of(&(t.0.clone(), t.1.clone(), images))
}

/// Holds the reader to what `rmp_serde` reads from the same bytes.
fn same_as_rmp_serde(document: &[u8]) {
    let theirs: Result<LooseHill, _> = rmp_serde::from_slice(document);
    let ours = mole::decode::decode(document);
    match theirs {
        Ok(tuple) => {
            assert_eq!(tuple.2.iter().filter(|i| i.0 != "SRGB").count(), 0);
            assert!(ours.expect("what rmp_serde reads is read") == loose_hill_of(&tuple));
        },
        Err(_) => assert!(ours.is_none(), "{:x?}", document),
    }
}

#[test]
fn other_forms_are_read_as_rmp_serde_reads_them() {
    // every integer form for the material index of a model without vertices
    let forms: Vec<Vec<u8>> = vec![
        vec![0x7f],
        vec![0xcc, 0x7f],
        vec![0xcd, 0x12, 0x34],
        vec![0xce, 0xff, 0xff, 0xff, 0xff],
        vec![0xcf, 0, 0, 0, 0, 0xff, 0, 0, 1],
        vec![0xcf, 0, 0, 0, 1, 0, 0, 0, 0],
        vec![0xd0, 0x7f],
        vec![0xd0, 0x80],
        vec![0xd1, 0x7f, 0xff],
        vec![0xd1, 0xff, 0xff],
        vec![0xd2, 0x7f, 0xff, 0xff, 0xff],
        vec![0xd2, 0x80, 0, 0, 0],
        vec![0xd3, 0, 0, 0, 0, 0xff, 0xff, 0xff, 0xff],
        vec![0xd3, 0, 0, 0, 1, 0, 0, 0, 0],
        vec![0xd3, 0xff, 0xff, 0xff, 0xff, 0xff, 0xff, 0xff, 0xff],
        vec![0xff],
        vec![0xc0],
        vec![0xc3],
        vec![0xa1, 0x31],
    ];
    for form in forms {
        let mut document = vec![0x93, 0x91, 0x93, 0x90, 0x90];
        document.extend_from_slice(&form);
        document.extend_from_slice(&[0x90, 0x90]);
        same_as_rmp_serde(&document);
    }
    // heads of every width, runs of bytes, and bytes behind the container
    let documents: Vec<Vec<u8>> = vec![
        vec![0xdc, 0x00, 0x03, 0x90, 0xdd, 0, 0, 0, 0, 0xdc, 0, 0],
        vec![0x93, 0x90, 0x90, 0x90, 0xc1, 0x00],
        vec![0x93, 0x91, 0x93, 0x90, 0xc4, 0x02, 0x07, 0xff, 0x00, 0x90, 0x90],
        vec![0x93, 0x91, 0x93, 0x90, 0xdc, 0x00, 0x02, 0xcd, 0x00, 0x07, 0x09, 0x00, 0x90, 0x90],
        vec![
            0x93, 0x90, 0x90, 0x91, 0x94, 0xd9, 0x04, 0x53, 0x52, 0x47, 0x42, 0xcc, 0x02, 0x01,
            0xc5, 0x00, 0x03, 0x00, 0x80, 0xff,
        ],
        vec![0x93, 0x90, 0x90, 0x91, 0x94, 0xa4, 0x53, 0x52, 0x47, 0x42, 0x01, 0x01, 0x92, 0xcc, 0xff, 0xd0, 0x01],
        vec![0x93, 0x90, 0x90, 0x91, 0x94, 0xa4, 0x53, 0x52, 0x47, 0x42, 0x01, 0x01, 0x91, 0xcd, 0x01, 0x00],
        vec![0x92, 0x90, 0x90],
        vec![0x94, 0x90, 0x90, 0x90, 0x90],
        vec![0x93, 0x90, 0x90],
        vec![0x93, 0x91, 0x92, 0x90, 0x90, 0x90, 0x90],
        vec![0x93, 0x91, 0x93, 0xc4, 0x00, 0x90, 0x00, 0x90, 0x90],
        vec![0x93, 0x91, 0x93, 0xc4, 0x01, 0x00, 0x90, 0x00, 0x90, 0x90],
        vec![0x93, 0xc4, 0x00, 0xc5, 0x00, 0x00, 0xc6, 0, 0, 0, 0],
        vec![0x93, 0x90, 0xc4, 0x01, 0x00, 0x90],
        vec![0x93, 0x90, 0x90, 0x91, 0x94, 0xa4, 0x53, 0x52, 0x47, 0x42, 0x01, 0x01, 0xa1, 0x09],
        vec![],
    ];
    for document in documents {
        same_as_rmp_serde(&document);
    }
}
