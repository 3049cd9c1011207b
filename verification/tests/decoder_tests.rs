use offbeat::ByteReader;
use offbeat::DdmError;
use offbeat::DdmFile;
use offbeat::split_str;

fn push_u16(v: &mut Vec<u8>, x: u16) {
    v.extend_from_slice(&x.to_le_bytes());
}

fn push_u32(v: &mut Vec<u8>, x: u32) {
    v.extend_from_slice(&x.to_le_bytes());
}

fn push_fixed(v: &mut Vec<u8>, s: &str, n: usize) {
    let bytes = s.as_bytes();
    assert!(bytes.len() <= n);
    v.extend_from_slice(bytes);
    v.resize(v.len() + (n - bytes.len()), 0u8);
}

/// One unskinned container: one mesh, one vertex, one triangle.
fn unskinned_single() -> Vec<u8> {
    let mut b = Vec::new();
    b.extend_from_slice(b"mrdd");
    push_u32(&mut b, 0xDEAD_BEEF); // reserved
    push_u32(&mut b, 1); // mesh count
    push_fixed(&mut b, "mesh0", 64);
    push_u32(&mut b, 0); // reserved
    push_u32(&mut b, 0); // reserved
    for i in 0..16u32 {
        push_u32(&mut b, 0x3F80_0000 + i); // transform words
    }
    push_u32(&mut b, 0); // reserved
    push_fixed(&mut b, "tex\0dds", 256);
    // implicit single face group
    push_u32(&mut b, 0); // triangle_start_idx
    push_u32(&mut b, 1); // triangle_count
    // no bones
    push_u32(&mut b, 3); // face count (three 16-bit indices)
    push_u16(&mut b, 0);
    push_u16(&mut b, 1);
    push_u16(&mut b, 2);
    push_u32(&mut b, 1); // vertex count
    for i in 0..8u32 {
        push_u32(&mut b, 0x4000_0000 + i); // vertex words
    }
    b
}

/// One skinned container: one mesh, one face group, one bone, one vertex,
/// one triangle.
fn skinned_single() -> Vec<u8> {
    let mut b = Vec::new();
    b.extend_from_slice(b"srdd");
    push_u32(&mut b, 0); // reserved
    push_u32(&mut b, 1); // mesh count
    push_fixed(&mut b, "skinned0", 64);
    push_u32(&mut b, 0);
    push_u32(&mut b, 0);
    for i in 0..16u32 {
        push_u32(&mut b, 0x3F00_0000 + i);
    }
    push_u32(&mut b, 0);
    push_fixed(&mut b, "skin\0png", 256);
    push_u32(&mut b, 1); // face group count
    push_u32(&mut b, 30); // reserved index count
    for i in 0..30u16 {
        push_u16(&mut b, 100 + i); // skin-index table
    }
    push_u32(&mut b, 0); // triangle_start_idx
    push_u32(&mut b, 1); // triangle_count
    push_u32(&mut b, 1); // bone count
    for i in 0..16u32 {
        push_u32(&mut b, 0x3E00_0000 + i); // bone transform
    }
    push_fixed(&mut b, "bone0", 64);
    push_u32(&mut b, 7); // bone id
    push_u32(&mut b, 3); // face count
    push_u16(&mut b, 0);
    push_u16(&mut b, 1);
    push_u16(&mut b, 2);
    push_u32(&mut b, 3); // vertex count
    for v in 0..3u32 {
        for i in 0..16u32 {
            push_u32(&mut b, 0x4100_0000 + v * 100 + i);
        }
    }
    b
}

#[test]
fn split_str_test() {
    let (str1, str2) = split_str(b"hello\0world\0").unwrap();
    assert_eq!("hello", str1);
    assert_eq!("world", str2);
}

#[test]
fn split_str_missing_second_null_fails() {
    assert_eq!(split_str(b"hello\0world"), Err(DdmError::FormatError));
}

#[test]
fn split_str_no_null_fails() {
    assert_eq!(split_str(b"helloworld"), Err(DdmError::FormatError));
}

#[test]
fn split_str_invalid_utf8_fails() {
    assert_eq!(split_str(&[0xFF, 0xFE, 0, b'a', 0]), Err(DdmError::FormatError));
}

#[test]
fn split_str_decodes_multibyte_utf8() {
    let mut raw = Vec::new();
    raw.extend_from_slice("h\u{e9}llo".as_bytes());
    raw.push(0);
    raw.extend_from_slice("w\u{f6}rld".as_bytes());
    raw.push(0);
    let (a, b) = split_str(&raw).unwrap();
    assert_eq!("h\u{e9}llo", a);
    assert_eq!("w\u{f6}rld", b);
}

#[test]
fn byte_reader_scalars() {
    let data = [0x34u8, 0x12, 0x78, 0x56, 0x34, 0x12];
    let mut r = ByteReader::new(&data);
    let a: u16 = r.read().unwrap();
    assert_eq!(a, 0x1234);
    let b: u32 = r.read().unwrap();
    assert_eq!(b, 0x12345678);
    let short: Result<u16, DdmError> = r.read();
    assert_eq!(short, Err(DdmError::IOError));
}

#[test]
fn byte_reader_bytes_and_strings() {
    let data = *b"abc\0defxyzw";
    let mut r = ByteReader::new(&data);
    let first = r.read_bytes::<2>().unwrap();
    assert_eq!(&first, b"ab");
    r.seek(0).unwrap();
    let s = r.read_string::<7>().unwrap();
    assert_eq!(s, "abc"); // truncated at the first null
    let s2 = r.read_string::<4>().unwrap();
    assert_eq!(s2, "xyzw"); // no null: the whole field
    assert_eq!(r.read_n_bytes(2), Err(DdmError::IOError));
    r.seek(4).unwrap();
    assert_eq!(r.read_n_bytes(3).unwrap(), b"def".to_vec());
    r.skip(-3).unwrap();
    assert_eq!(r.read_n_bytes(3).unwrap(), b"def".to_vec());
    assert_eq!(r.skip(-100), Err(DdmError::IOError));
    assert_eq!(r.seek(100), Err(DdmError::IOError));
}

#[test]
fn decode_unskinned_single_triangle() {
    let bytes = unskinned_single();
    let ddm = DdmFile::from_file(&bytes).unwrap();
    assert_eq!(ddm.meshes.len(), 1);
    assert_eq!(ddm.bones.len(), 0);
    let mesh = &ddm.meshes[0];
    assert_eq!(mesh.name, "mesh0");
    assert_eq!(mesh.tex_name, "tex");
    assert_eq!(mesh.tex_ext, "dds");
    for i in 0..16 {
        assert_eq!(mesh.transform[i], 0x3F80_0000 + i as u32);
    }
    assert_eq!(mesh.face_groups.len(), 1);
    let group = &mesh.face_groups[0];
    assert_eq!(group.indicies, [0u16; 30]);
    assert_eq!(group.triangle_start_idx, 0);
    assert_eq!(group.triangle_count, 1);
    assert_eq!(ddm.triangles, vec![0u16, 1, 2]);
    assert_eq!(ddm.vertices.len(), 1);
    let v = &ddm.vertices[0];
    assert_eq!(
        [v.x, v.y, v.z, v.nx, v.ny, v.nz, v.u, v.v],
        [
            0x4000_0000,
            0x4000_0001,
            0x4000_0002,
            0x4000_0003,
            0x4000_0004,
            0x4000_0005,
            0x4000_0006,
            0x4000_0007,
        ],
    );
    // The unskinned variant leaves bone indices and weights at zero.
    assert_eq!([v.bone_0, v.bone_1, v.bone_2, v.bone_3], [0u32; 4]);
    assert_eq!([v.weight_0, v.weight_1, v.weight_2, v.weight_3], [0u32; 4]);
}

#[test]
fn decode_skinned_populates_bone_fields() {
    let bytes = skinned_single();
    let ddm = DdmFile::from_file(&bytes).unwrap();
    assert_eq!(ddm.meshes.len(), 1);
    let mesh = &ddm.meshes[0];
    assert_eq!(mesh.name, "skinned0");
    assert_eq!(mesh.tex_name, "skin");
    assert_eq!(mesh.tex_ext, "png");
    assert_eq!(mesh.face_groups.len(), 1);
    let group = &mesh.face_groups[0];
    for i in 0..30 {
        assert_eq!(group.indicies[i], 100 + i as u16);
    }
    assert_eq!(ddm.bones.len(), 1);
    assert_eq!(ddm.bones[0].name, "bone0");
    assert_eq!(ddm.bones[0].id, 7);
    for i in 0..16 {
        assert_eq!(ddm.bones[0].transform[i], 0x3E00_0000 + i as u32);
    }
    assert_eq!(ddm.vertices.len(), 3);
    let v = &ddm.vertices[1];
    assert_eq!(v.x, 0x4100_0064);
    assert_eq!(v.bone_0, 0x4100_006C);
    assert_eq!(v.bone_3, 0x4100_006F);
    assert_eq!(v.weight_0, 0x4100_0070);
    assert_eq!(v.weight_3, 0x4100_0073);
}

#[test]
fn decode_bad_magic_fails() {
    let mut bytes = unskinned_single();
    bytes[0] = b'x';
    assert!(matches!(DdmFile::from_file(&bytes), Err(DdmError::FormatError)));
}

#[test]
fn decode_short_magic_fails() {
    assert!(matches!(DdmFile::from_file(b"mr"), Err(DdmError::IOError)));
}

#[test]
fn decode_truncated_fails() {
    let bytes = unskinned_single();
    let cut = &bytes[..bytes.len() - 10];
    assert!(matches!(DdmFile::from_file(cut), Err(DdmError::IOError)));
}

#[test]
fn decode_invalid_name_utf8_fails() {
    let mut bytes = unskinned_single();
    // Corrupt the mesh-name field with an invalid UTF-8 byte.
    bytes[12] = 0xFF;
    bytes[13] = 0xFE;
    assert!(matches!(DdmFile::from_file(&bytes), Err(DdmError::FormatError)));
}
