use offbeat::DdmFaceGroup;
use offbeat::DdmFile;
use offbeat::DdmMesh;
use offbeat::DdmVertex;
use offbeat::convert::build_geometry;
use offbeat::convert::check_geometry;
use offbeat::convert::u64_to_decimal;

fn vertex(tag: u32) -> DdmVertex {
    DdmVertex {
        x: tag,
        y: tag + 1,
        z: tag + 2,
        nx: tag + 3,
        ny: tag + 4,
        nz: tag + 5,
        u: tag + 6,
        v: tag + 7,
        bone_0: 0,
        bone_1: 0,
        bone_2: 0,
        bone_3: 0,
        weight_0: 0,
        weight_1: 0,
        weight_2: 0,
        weight_3: 0,
    }
}

fn group(start: u32, count: u32) -> DdmFaceGroup {
    DdmFaceGroup { indicies: [0u16; 30], triangle_start_idx: start, triangle_count: count }
}

fn two_group_file() -> DdmFile {
    DdmFile {
        meshes: vec![DdmMesh {
            name: String::from("m"),
            transform: [0u32; 16],
            tex_name: String::from("t"),
            tex_ext: String::from("dds"),
            face_groups: vec![group(0, 1), group(3, 1)],
        }],
        bones: Vec::new(),
        triangles: vec![0u16, 1, 2, 2, 1, 3],
        vertices: (0..4).map(|i| vertex(0x4000_0000 + 16 * i)).collect(),
    }
}

fn push_u16(v: &mut Vec<u8>, x: u16) {
    v.extend_from_slice(&x.to_le_bytes());
}

fn push_u32(v: &mut Vec<u8>, x: u32) {
    v.extend_from_slice(&x.to_le_bytes());
}

fn push_fixed(v: &mut Vec<u8>, s: &str, n: usize) {
    let bytes = s.as_bytes();
    assert!(bytes.len() <= n);
    v.extend_from_slice(bytes);
    v.resize(v.len() + (n - bytes.len()), 0u8);
}

#[test]
fn full_pipeline_from_bytes() {
    // One consistent unskinned container: one mesh, one triangle over three
    // vertices.
    let mut b = Vec::new();
    b.extend_from_slice(b"mrdd");
    push_u32(&mut b, 0);
    push_u32(&mut b, 1); // mesh count
    push_fixed(&mut b, "tri", 64);
    push_u32(&mut b, 0);
    push_u32(&mut b, 0);
    for i in 0..16u32 {
        push_u32(&mut b, i);
    }
    push_u32(&mut b, 0);
    push_fixed(&mut b, "paint\0dds", 256);
    push_u32(&mut b, 0); // triangle_start_idx
    push_u32(&mut b, 1); // triangle_count
    push_u32(&mut b, 3); // face count
    push_u16(&mut b, 0);
    push_u16(&mut b, 1);
    push_u16(&mut b, 2);
    push_u32(&mut b, 3); // vertex count
    for v in 0..3u32 {
        for i in 0..8u32 {
            push_u32(&mut b, 0x3F80_0000 + v * 8 + i);
        }
    }

    let ddm = DdmFile::from_file(&b).unwrap();
    assert!(check_geometry(&ddm));
    let (prims, builder) = build_geometry(&ddm).unwrap();
    assert_eq!(prims.len(), 1);
    assert_eq!(prims[0].name, "tri");
    let (accessors, views, buffer, data) = builder.generate("tri.bin");
    assert_eq!(accessors.len(), 4);
    assert_eq!(views.len(), 4);
    // 3 vertices: positions 36 bytes, normals 36, uvs 24, indices 6 (padded
    // start at 96), so the blob ends at 102 bytes.
    assert_eq!(views[3].byte_offset, 96);
    assert_eq!(data.len(), 102);
    assert_eq!(buffer.byte_length, 102);
    // The first position's x is vertex 0's x with the sign bit flipped.
    assert_eq!(&data[0..4], &(0x3F80_0000u32 ^ 0x8000_0000).to_le_bytes());
    // The index list is the remapped triangle.
    assert_eq!(&data[96..102], &[0u8, 0, 1, 0, 2, 0]);
}

#[test]
fn u64_to_decimal_formats() {
    assert_eq!(u64_to_decimal(0), "0");
    assert_eq!(u64_to_decimal(9), "9");
    assert_eq!(u64_to_decimal(42), "42");
    assert_eq!(u64_to_decimal(1234567890), "1234567890");
}

#[test]
fn check_geometry_accepts_and_rejects() {
    let mut ddm = two_group_file();
    assert!(check_geometry(&ddm));
    ddm.meshes[0].face_groups[1].triangle_count = 2; // range now runs past the buffer
    assert!(!check_geometry(&ddm));
    let mut ddm2 = two_group_file();
    ddm2.triangles[4] = 9; // index past the vertex buffer
    assert!(!check_geometry(&ddm2));
}

#[test]
fn build_geometry_two_groups() {
    let ddm = two_group_file();
    assert!(check_geometry(&ddm));
    let (prims, builder) = build_geometry(&ddm).unwrap();
    assert_eq!(prims.len(), 2);
    assert_eq!(prims[0].name, "m.0");
    assert_eq!(prims[1].name, "m.1");
    assert_eq!(prims[0].material, 0);
    assert_eq!(prims[1].material, 0);
    assert_eq!(prims[0].position_accessor, Some(0));
    assert_eq!(prims[0].normal_accessor, Some(1));
    assert_eq!(prims[0].uv_accessor, Some(2));
    assert_eq!(prims[0].index_accessor, Some(3));
    assert_eq!(prims[1].position_accessor, Some(4));

    let (accessors, views, buffer, data) = builder.generate("m.bin");
    assert_eq!(accessors.len(), 8);
    assert_eq!(views.len(), 8);
    assert_eq!(accessors[0].name, "m.0_pos");
    assert_eq!(accessors[1].name, "m.0_norm");
    assert_eq!(accessors[2].name, "m.0_uv");
    assert_eq!(accessors[3].name, "m.0_face");
    assert_eq!(accessors[4].name, "m.1_pos");
    // Group 0 references vertices 0,1,2; group 1 references 2,1,3.
    assert_eq!(accessors[0].count, 3);
    assert_eq!(accessors[3].count, 3);
    // Position x is negated by flipping the sign bit.
    assert_eq!(&data[0..4], &(0x4000_0000u32 ^ 0x8000_0000).to_le_bytes());
    assert_eq!(&data[4..8], &0x4000_0001u32.to_le_bytes());
    assert_eq!(buffer.byte_length, data.len());
    assert_eq!(buffer.uri, "m.bin");
}

#[test]
fn build_geometry_single_group_keeps_mesh_name() {
    let mut ddm = two_group_file();
    ddm.meshes[0].face_groups.pop();
    let (prims, builder) = build_geometry(&ddm).unwrap();
    assert_eq!(prims.len(), 1);
    assert_eq!(prims[0].name, "m");
    let (accessors, _, _, _) = builder.generate("m.bin");
    assert_eq!(accessors[0].name, "m_pos");
}

#[test]
fn build_geometry_remaps_face_indices() {
    let ddm = two_group_file();
    let (_, builder) = build_geometry(&ddm).unwrap();
    let (accessors, views, _, data) = builder.generate("m.bin");
    // Group 1's index array: original indices 2,1,3 become 0,1,2.
    let face_view = views[accessors[7].buffer_view];
    let bytes = &data[face_view.byte_offset..face_view.byte_offset + face_view.byte_length];
    assert_eq!(bytes, &[0u8, 0, 1, 0, 2, 0]);
}
