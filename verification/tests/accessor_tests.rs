use offbeat::AccessorBuilder;
use offbeat::accessor::COMPONENT_TYPE_FLOAT;
use offbeat::accessor::COMPONENT_TYPE_UNSIGNED_SHORT;

#[test]
fn add_array_empty_changes_nothing() {
    let mut b = AccessorBuilder::new();
    let r = b.add_array(String::from("empty"), &Vec::new());
    assert_eq!(r, None);
    let (accessors, views, buffer, data) = b.generate("out.bin");
    assert_eq!(accessors.len(), 0);
    assert_eq!(views.len(), 0);
    assert_eq!(buffer.byte_length, 0);
    assert_eq!(data.len(), 0);
}

#[test]
fn add_scalar_empty_changes_nothing() {
    let mut b = AccessorBuilder::new();
    assert_eq!(b.add_scalar(String::from("empty"), Vec::new()), None);
    let (accessors, views, _, data) = b.generate("out.bin");
    assert_eq!(accessors.len(), 0);
    assert_eq!(views.len(), 0);
    assert_eq!(data.len(), 0);
}

#[test]
fn add_array_two_vec3_grows_blob_by_24() {
    let mut b = AccessorBuilder::new();
    // Two 16-bit indices first, so the next array needs padding.
    let s = b.add_scalar(String::from("idx"), vec![5u16]);
    assert_eq!(s, Some(0));
    let e0: Vec<u32> = vec![0x3F80_0000, 0x4000_0000, 0x4040_0000];
    let e1: Vec<u32> = vec![0x3F00_0000, 0x3E80_0000, 0x3E00_0000];
    let r = b.add_array(String::from("pos"), &vec![e0, e1]);
    assert_eq!(r, Some(1));
    let (accessors, views, buffer, data) = b.generate("file.bin");
    // The scalar took bytes 0..2; the array begins at the next 4-aligned
    // offset and holds 2 * 3 * 4 bytes.
    assert_eq!(views[0].byte_offset, 0);
    assert_eq!(views[0].byte_length, 2);
    assert_eq!(views[1].byte_offset, 4);
    assert_eq!(views[1].byte_length, 24);
    assert_eq!(data.len(), 28);
    assert_eq!(buffer.byte_length, 28);
    assert_eq!(buffer.uri, "file.bin");
    assert_eq!(accessors[1].name, "pos");
    assert_eq!(accessors[1].buffer_view, 1);
    assert_eq!(accessors[1].component_type, COMPONENT_TYPE_FLOAT);
    assert_eq!(accessors[1].count, 2);
    assert_eq!(accessors[1].element_arity, 3);
    assert_eq!(accessors[0].component_type, COMPONENT_TYPE_UNSIGNED_SHORT);
    assert_eq!(accessors[0].count, 1);
    assert_eq!(accessors[0].element_arity, 1);
}

#[test]
fn blob_bytes_are_little_endian_exact() {
    let mut b = AccessorBuilder::new();
    let e: Vec<u32> = vec![0x3F80_0000, 0x0000_0000, 0xBF80_0000];
    b.add_array(String::from("one"), &vec![e]);
    b.add_scalar(String::from("faces"), vec![0x1234u16, 2]);
    let (_, views, _, data) = b.generate("x.bin");
    assert_eq!(
        data,
        vec![
            0x00, 0x00, 0x80, 0x3F, // 1.0
            0x00, 0x00, 0x00, 0x00, // 0.0
            0x00, 0x00, 0x80, 0xBF, // -1.0
            0x34, 0x12, 0x02, 0x00, // the two indices
        ],
    );
    assert_eq!(views[1].byte_offset, 12);
    assert_eq!(views[1].byte_length, 4);
}

#[test]
fn add_array_component_bounds() {
    let mut b = AccessorBuilder::new();
    // 1.0, -2.0 and 0.5 in one column: the bounds must follow float order,
    // not raw byte order.
    let elements: Vec<Vec<u32>> = vec![
        vec![0x3F80_0000, 0x4120_0000],
        vec![0xC000_0000, 0x40A0_0000],
        vec![0x3F00_0000, 0x40E0_0000],
    ];
    b.add_array(String::from("bounded"), &elements);
    let (accessors, _, _, _) = b.generate("b.bin");
    assert_eq!(accessors[0].min, vec![0xC000_0000, 0x40A0_0000]); // -2.0, 5.0
    assert_eq!(accessors[0].max, vec![0x3F80_0000, 0x4120_0000]); // 1.0, 10.0
    // The patterns decode to the expected floats.
    assert_eq!(f32::from_bits(accessors[0].min[0]), -2.0f32);
    assert_eq!(f32::from_bits(accessors[0].max[0]), 1.0f32);
}
