use offbeat::DdmError;
use offbeat::DdmVertex;
use offbeat::remap::remap_face_group;

fn vertex(tag: u32) -> DdmVertex {
    DdmVertex {
        x: tag,
        y: tag + 1,
        z: tag + 2,
        nx: tag + 3,
        ny: tag + 4,
        nz: tag + 5,
        u: tag + 6,
        v: tag + 7,
        bone_0: 0,
        bone_1: 0,
        bone_2: 0,
        bone_3: 0,
        weight_0: 0,
        weight_1: 0,
        weight_2: 0,
        weight_3: 0,
    }
}

#[test]
fn remap_first_occurrence_order() {
    let vertices: Vec<DdmVertex> = (0..4).map(|i| vertex(1000 * i)).collect();
    let indices: Vec<u32> = vec![0, 1, 2, 0, 2, 3];
    let (verts, out) = remap_face_group(&vertices, &indices).unwrap();
    assert_eq!(verts.len(), 4);
    assert_eq!(verts, vec![vertex(0), vertex(1000), vertex(2000), vertex(3000)]);
    assert_eq!(out, vec![0u16, 1, 2, 0, 2, 3]);
}

#[test]
fn remap_reordered_input() {
    let vertices: Vec<DdmVertex> = (0..5).map(|i| vertex(10 * i)).collect();
    let indices: Vec<u32> = vec![4, 2, 4, 1];
    let (verts, out) = remap_face_group(&vertices, &indices).unwrap();
    assert_eq!(verts, vec![vertex(40), vertex(20), vertex(10)]);
    assert_eq!(out, vec![0u16, 1, 0, 2]);
}

#[test]
fn remap_deterministic() {
    let vertices: Vec<DdmVertex> = (0..100).map(|i| vertex(7 * i)).collect();
    let indices: Vec<u32> = (0..600u32).map(|i| (i * 37) % 100).collect();
    let first = remap_face_group(&vertices, &indices).unwrap();
    let second = remap_face_group(&vertices, &indices).unwrap();
    assert_eq!(first.0, second.0);
    assert_eq!(first.1, second.1);
}

#[test]
fn remap_at_compact_limit_succeeds() {
    let vertices: Vec<DdmVertex> = (0..65536u32).map(vertex).collect();
    let indices: Vec<u32> = (0..65536u32).collect();
    let (verts, out) = remap_face_group(&vertices, &indices).unwrap();
    assert_eq!(verts.len(), 65536);
    assert_eq!(out[65535], 65535);
}

#[test]
fn remap_overflow_fails() {
    let vertices: Vec<DdmVertex> = (0..65537u32).map(vertex).collect();
    let indices: Vec<u32> = (0..65537u32).collect();
    assert_eq!(remap_face_group(&vertices, &indices), Err(DdmError::IndexOverflow));
}
