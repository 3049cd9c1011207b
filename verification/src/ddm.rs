//! The DDM container's in-memory geometry model and its binary decoder.
//!
//! A container is either skinned (magic `srdd`, 64-byte vertex records, bone
//! list, per-group skin-index tables) or unskinned (magic `mrdd`, 32-byte
//! vertex records, one implicit face group per mesh, no bones). 32-bit
//! floating-point fields are carried as their little-endian 32-bit patterns.

use vstd::prelude::*;

use crate::error::DdmError;
use crate::io::ByteReader;
use crate::io::nul_index;
use crate::io::bytes_to_string;

verus! {

/// One triangle-range partition of a mesh, optionally bound to a skin-index
/// table. `triangle_start_idx` and `triangle_count` point into the file's
/// shared triangle buffer; they are not group-local.
#[derive(Clone, Debug)]
pub struct DdmFaceGroup {
    /// 30-slot skin-index table; zero-filled in the unskinned variant.
    pub indicies: [u16; 30],
    pub triangle_start_idx: u32,
    pub triangle_count: u32,
}

/// One mesh: a name, a 4x4 transform stored row-major as 16 32-bit patterns,
/// a texture base-name and extension, and its face groups.
#[derive(Clone, Debug)]
pub struct DdmMesh {
    pub name: String,
    pub transform: [u32; 16],
    pub tex_name: String,
    pub tex_ext: String,
    pub face_groups: Vec<DdmFaceGroup>,
}

/// One bone of the skinned variant.
#[derive(Clone, Debug)]
pub struct DdmBone {
    pub name: String,
    pub transform: [u32; 16],
    pub id: u32,
}

/// One vertex: position, normal and texture coordinates, and in the skinned
/// variant four bone indices and four weights. Every field holds the 32-bit
/// pattern of the stored 32-bit float; the bone indices are stored as floats
/// in the container even though they are conceptually integral, and that is
/// preserved exactly.
#[derive(Clone, Copy, Debug, PartialEq, Eq, Structural)]
pub struct DdmVertex {
    pub x: u32,
    pub y: u32,
    pub z: u32,
    pub nx: u32,
    pub ny: u32,
    pub nz: u32,
    pub u: u32,
    pub v: u32,
    pub bone_0: u32,
    pub bone_1: u32,
    pub bone_2: u32,
    pub bone_3: u32,
    pub weight_0: u32,
    pub weight_1: u32,
    pub weight_2: u32,
    pub weight_3: u32,
}

/// A decoded container: meshes, bones, the shared triangle-index buffer and
/// the shared vertex buffer. Built once by the decoder; read-only thereafter.
#[derive(Debug)]
pub struct DdmFile {
    pub meshes: Vec<DdmMesh>,
    pub bones: Vec<DdmBone>,
    pub triangles: Vec<u16>,
    pub vertices: Vec<DdmVertex>,
}

/// Mathematical model of a face group.
pub struct FaceGroupModel {
    pub indicies: Seq<u16>,
    pub triangle_start_idx: u32,
    pub triangle_count: u32,
}

/// Mathematical model of a mesh.
pub struct MeshModel {
    pub name: Seq<char>,
    pub transform: Seq<u32>,
    pub tex_name: Seq<char>,
    pub tex_ext: Seq<char>,
    pub face_groups: Seq<FaceGroupModel>,
}

/// Mathematical model of a bone.
pub struct BoneModel {
    pub name: Seq<char>,
    pub transform: Seq<u32>,
    pub id: u32,
}

/// Mathematical model of a decoded container.
pub struct FileModel {
    pub meshes: Seq<MeshModel>,
    pub bones: Seq<BoneModel>,
    pub triangles: Seq<u16>,
    pub vertices: Seq<DdmVertex>,
}

impl View for DdmFaceGroup {
    type V = FaceGroupModel;

    open spec fn view(&self) -> FaceGroupModel {
        FaceGroupModel {
            indicies: self.indicies@,
            triangle_start_idx: self.triangle_start_idx,
            triangle_count: self.triangle_count,
        }
    }
}

/// The models of a list of face groups.
pub open spec fn group_views(gs: Seq<DdmFaceGroup>) -> Seq<FaceGroupModel> {
    Seq::new(gs.len(), |i: int| gs[i]@)
}

/// The models of a list of meshes.
pub open spec fn mesh_views(ms: Seq<DdmMesh>) -> Seq<MeshModel> {
    Seq::new(ms.len(), |i: int| ms[i]@)
}

/// The models of a list of bones.
pub open spec fn bone_views(bs: Seq<DdmBone>) -> Seq<BoneModel> {
    Seq::new(bs.len(), |i: int| bs[i]@)
}

impl View for DdmMesh {
    type V = MeshModel;

    open spec fn view(&self) -> MeshModel {
        MeshModel {
            name: self.name@,
            transform: self.transform@,
            tex_name: self.tex_name@,
            tex_ext: self.tex_ext@,
            face_groups: group_views(self.face_groups@),
        }
    }
}

impl View for DdmBone {
    type V = BoneModel;

    open spec fn view(&self) -> BoneModel {
        BoneModel { name: self.name@, transform: self.transform@, id: self.id }
    }
}

impl View for DdmFile {
    type V = FileModel;

    open spec fn view(&self) -> FileModel {
        FileModel {
            meshes: mesh_views(self.meshes@),
            bones: bone_views(self.bones@),
            triangles: self.triangles@,
            vertices: self.vertices@,
        }
    }
}

/// What splitting a texture-name field yields: the bytes before the first
/// null and the bytes between the first and the second null, both decoded as
/// UTF-8. Fewer than two null bytes, or bytes that are not valid UTF-8, are
/// a format error.
pub open spec fn spec_split_str(raw: Seq<u8>) -> Result<(Seq<char>, Seq<char>), DdmError> {
    let n0 = nul_index(raw);
    if n0 == raw.len() {
        Err(DdmError::FormatError)
    } else {
        let rest = raw.skip(n0 + 1);
        let n1 = nul_index(rest);
        if n1 == rest.len() {
            Err(DdmError::FormatError)
        } else {
            let a = raw.take(n0);
            let b = rest.take(n1);
            if vstd::utf8::valid_utf8(a) && vstd::utf8::valid_utf8(b) {
                Ok((vstd::utf8::decode_utf8(a), vstd::utf8::decode_utf8(b)))
            } else {
                Err(DdmError::FormatError)
            }
        }
    }
}

/// Splits a buffer holding two null-terminated strings into the two strings.
pub fn split_str(raw: &[u8]) -> (r: Result<(String, String), DdmError>)
    ensures
        match r {
            Ok((a, b)) => spec_split_str(raw@) == Ok::<(Seq<char>, Seq<char>), DdmError>((a@, b@)),
            Err(e) => spec_split_str(raw@) == Err::<(Seq<char>, Seq<char>), DdmError>(e),
        },
{
    let n = raw.len();
    let mut i: usize = 0;
    while i < n && *vstd::slice::slice_index_get(raw, i) != 0
        invariant
            i <= n,
            n == raw@.len(),
            forall|t: int| 0 <= t < i ==> raw@[t] != 0,
        decreases n - i,
    {
        i += 1;
    }
    proof {
        crate::io::lemma_nul_index_unique(raw@, i as int);
    }
    if i == n {
        return Err(DdmError::FormatError);
    }
    let mut j: usize = i + 1;
    while j < n && *vstd::slice::slice_index_get(raw, j) != 0
        invariant
            i + 1 <= j <= n,
            n == raw@.len(),
            forall|t: int| i + 1 <= t < j ==> raw@[t] != 0,
        decreases n - j,
    {
        j += 1;
    }
    proof {
        let rest = raw@.skip(i + 1);
        assert forall|t: int| 0 <= t < j - (i + 1) implies rest[t] != 0 by {
            assert(raw@[t + i + 1] != 0);
        }
        crate::io::lemma_nul_index_unique(rest, j - (i + 1));
    }
    if j == n {
        return Err(DdmError::FormatError);
    }
    let a_bytes = vstd::slice::slice_to_vec(vstd::slice::slice_subrange(raw, 0, i));
    let b_bytes = vstd::slice::slice_to_vec(vstd::slice::slice_subrange(raw, i + 1, j));
    proof {
        assert(a_bytes@ =~= raw@.take(i as int));
        assert(b_bytes@ =~= raw@.skip(i + 1).take(j - (i + 1)));
    }
    let a = match bytes_to_string(a_bytes) {
        Some(s) => s,
        None => {
            return Err(DdmError::FormatError);
        },
    };
    let b = match bytes_to_string(b_bytes) {
        Some(s) => s,
        None => {
            return Err(DdmError::FormatError);
        },
    };
    Ok((a, b))
}

/// Outcome of parsing one syntactic element of the container at a position:
/// the element's model and the position after it, or the error the decoder
/// surfaces there.
pub enum Parsed<T> {
    Found(T, int),
    Fail(DdmError),
}

/// Prepends already-parsed elements to the outcome of parsing the rest of a
/// sequence.
pub open spec fn compose<T>(prefix: Seq<T>, rest: Parsed<Seq<T>>) -> Parsed<Seq<T>> {
    match rest {
        Parsed::Found(vs, p) => Parsed::Found(prefix + vs, p),
        Parsed::Fail(e) => Parsed::Fail(e),
    }
}

/// A little-endian 32-bit scalar.
pub open spec fn parse_u32(b: Seq<u8>, pos: int) -> Parsed<u32> {
    if pos + 4 <= b.len() {
        Parsed::Found(vstd::bytes::spec_u32_from_le_bytes(b.subrange(pos, pos + 4)), pos + 4)
    } else {
        Parsed::Fail(DdmError::IOError)
    }
}

/// A little-endian 16-bit scalar.
pub open spec fn parse_u16(b: Seq<u8>, pos: int) -> Parsed<u16> {
    if pos + 2 <= b.len() {
        Parsed::Found(vstd::bytes::spec_u16_from_le_bytes(b.subrange(pos, pos + 2)), pos + 2)
    } else {
        Parsed::Fail(DdmError::IOError)
    }
}

/// `n` reserved bytes, skipped without interpretation.
pub open spec fn parse_skip(b: Seq<u8>, pos: int, n: int) -> Parsed<()> {
    if 0 <= pos + n <= b.len() {
        Parsed::Found((), pos + n)
    } else {
        Parsed::Fail(DdmError::IOError)
    }
}

/// A fixed-width string field of `n` bytes: the bytes before the first
/// null, or all `n` bytes if no null occurs, decoded as UTF-8.
pub open spec fn parse_string_field(b: Seq<u8>, pos: int, n: int) -> Parsed<Seq<char>> {
    if pos + n <= b.len() {
        let w = crate::io::string_field(b, pos, n);
        if vstd::utf8::valid_utf8(w) {
            Parsed::Found(vstd::utf8::decode_utf8(w), pos + n)
        } else {
            Parsed::Fail(DdmError::FormatError)
        }
    } else {
        Parsed::Fail(DdmError::IOError)
    }
}

/// `n` consecutive elements, each parsed by `item`.
pub open spec fn parse_seq_of<T>(
    b: Seq<u8>,
    pos: int,
    n: nat,
    item: spec_fn(Seq<u8>, int) -> Parsed<T>,
) -> Parsed<Seq<T>>
    decreases n,
{
    if n == 0 {
        Parsed::Found(Seq::empty(), pos)
    } else {
        match item(b, pos) {
            Parsed::Found(v, p1) => match parse_seq_of(b, p1, (n - 1) as nat, item) {
                Parsed::Found(vs, p2) => Parsed::Found(seq![v] + vs, p2),
                Parsed::Fail(e) => Parsed::Fail(e),
            },
            Parsed::Fail(e) => Parsed::Fail(e),
        }
    }
}

pub proof fn lemma_parse_seq_shift<T>(
    b: Seq<u8>,
    pos: int,
    n: nat,
    item: spec_fn(Seq<u8>, int) -> Parsed<T>,
    acc: Seq<T>,
)
    requires
        n > 0,
    ensures
        match item(b, pos) {
            Parsed::Found(v, p1) => compose(acc, parse_seq_of(b, pos, n, item)) == compose(
                acc.push(v),
                parse_seq_of(b, p1, (n - 1) as nat, item),
            ),
            Parsed::Fail(e) => compose(acc, parse_seq_of(b, pos, n, item))
                == Parsed::<Seq<T>>::Fail(e),
        },
{
    match item(b, pos) {
        Parsed::Found(v, p1) => {
            match parse_seq_of(b, p1, (n - 1) as nat, item) {
                Parsed::Found(vs, p2) => {
                    assert(acc + (seq![v] + vs) =~= acc.push(v) + vs);
                },
                Parsed::Fail(_) => {
                },
            }
        },
        Parsed::Fail(_) => {
        },
    }
}

pub proof fn lemma_compose_empty<T>(x: Parsed<Seq<T>>)
    ensures
        compose(Seq::<T>::empty(), x) == x,
{
    match x {
        Parsed::Found(vs, p) => {
            assert(Seq::<T>::empty() + vs =~= vs);
        },
        Parsed::Fail(_) => {
        },
    }
}

pub proof fn lemma_compose_end<T>(acc: Seq<T>, pos: int)
    ensures
        compose(acc, Parsed::Found(Seq::<T>::empty(), pos)) == Parsed::<Seq<T>>::Found(acc, pos),
{
    assert(acc + Seq::<T>::empty() =~= acc);
}

/// The element parser for 32-bit scalars.
pub open spec fn u32_item() -> spec_fn(Seq<u8>, int) -> Parsed<u32> {
    |b: Seq<u8>, p: int| parse_u32(b, p)
}

/// The element parser for 16-bit scalars.
pub open spec fn u16_item() -> spec_fn(Seq<u8>, int) -> Parsed<u16> {
    |b: Seq<u8>, p: int| parse_u16(b, p)
}

/// Reads `n` consecutive little-endian 32-bit scalars.
fn read_u32_seq(reader: &mut ByteReader<'_>, n: usize) -> (r: Result<Vec<u32>, DdmError>)
    requires
        old(reader).wf(),
    ensures
        final(reader).wf(),
        final(reader).bytes() == old(reader).bytes(),
        match r {
            Ok(ws) => {
                &&& ws@.len() == n
                &&& parse_seq_of(old(reader).bytes(), old(reader).position(), n as nat, u32_item())
                    == Parsed::Found(ws@, final(reader).position())
            },
            Err(e) => parse_seq_of(old(reader).bytes(), old(reader).position(), n as nat, u32_item())
                == Parsed::<Seq<u32>>::Fail(e),
        },
{
    let ghost b = reader.bytes();
    let ghost target = parse_seq_of(b, reader.position(), n as nat, u32_item());
    proof {
        lemma_compose_empty(target);
    }
    let mut ws: Vec<u32> = Vec::new();
    let mut i: usize = 0;
    while i < n
        invariant
            i <= n,
            reader.wf(),
            b == old(reader).bytes(),
            reader.bytes() == b,
            ws@.len() == i,
            compose(ws@, parse_seq_of(b, reader.position(), (n - i) as nat, u32_item()))
                == target,
            target == parse_seq_of(old(reader).bytes(), old(reader).position(), n as nat, u32_item()),
        decreases n - i,
    {
        let ghost pre_pos = reader.position();
        proof {
            lemma_parse_seq_shift(b, pre_pos, (n - i) as nat, u32_item(), ws@);
        }
        match reader.read::<u32>() {
            Ok(v) => {
                proof {
                    assert(u32_item()(b, pre_pos) == Parsed::Found(v, reader.position()));
                }
                ws.push(v);
                i += 1;
            },
            Err(e) => {
                proof {
                    assert(u32_item()(b, pre_pos) == Parsed::<u32>::Fail(e));
                }
                return Err(e);
            },
        }
    }
    proof {
        lemma_compose_end(ws@, reader.position());
    }
    Ok(ws)
}

/// Reads `n` consecutive little-endian 16-bit scalars.
fn read_u16_seq(reader: &mut ByteReader<'_>, n: usize) -> (r: Result<Vec<u16>, DdmError>)
    requires
        old(reader).wf(),
    ensures
        final(reader).wf(),
        final(reader).bytes() == old(reader).bytes(),
        match r {
            Ok(ws) => {
                &&& ws@.len() == n
                &&& parse_seq_of(old(reader).bytes(), old(reader).position(), n as nat, u16_item())
                    == Parsed::Found(ws@, final(reader).position())
            },
            Err(e) => parse_seq_of(old(reader).bytes(), old(reader).position(), n as nat, u16_item())
                == Parsed::<Seq<u16>>::Fail(e),
        },
{
    let ghost b = reader.bytes();
    let ghost target = parse_seq_of(b, reader.position(), n as nat, u16_item());
    proof {
        lemma_compose_empty(target);
    }
    let mut ws: Vec<u16> = Vec::new();
    let mut i: usize = 0;
    while i < n
        invariant
            i <= n,
            reader.wf(),
            b == old(reader).bytes(),
            reader.bytes() == b,
            ws@.len() == i,
            compose(ws@, parse_seq_of(b, reader.position(), (n - i) as nat, u16_item()))
                == target,
            target == parse_seq_of(old(reader).bytes(), old(reader).position(), n as nat, u16_item()),
        decreases n - i,
    {
        let ghost pre_pos = reader.position();
        proof {
            lemma_parse_seq_shift(b, pre_pos, (n - i) as nat, u16_item(), ws@);
        }
        match reader.read::<u16>() {
            Ok(v) => {
                proof {
                    assert(u16_item()(b, pre_pos) == Parsed::Found(v, reader.position()));
                }
                ws.push(v);
                i += 1;
            },
            Err(e) => {
                proof {
                    assert(u16_item()(b, pre_pos) == Parsed::<u16>::Fail(e));
                }
                return Err(e);
            },
        }
    }
    proof {
        lemma_compose_end(ws@, reader.position());
    }
    Ok(ws)
}

/// The magic tag of the skinned variant, `srdd`.
pub open spec fn magic_skinned() -> Seq<u8> {
    seq![115u8, 114u8, 100u8, 100u8]
}

/// The magic tag of the unskinned variant, `mrdd`.
pub open spec fn magic_unskinned() -> Seq<u8> {
    seq![109u8, 114u8, 100u8, 100u8]
}

/// The 4-byte magic tag: which variant the container is. Any other tag is a
/// fatal format error, surfaced before any mesh is read.
pub open spec fn parse_magic(b: Seq<u8>) -> Parsed<bool> {
    if b.len() >= 4 {
        if b.subrange(0, 4) == magic_skinned() {
            Parsed::Found(true, 4)
        } else if b.subrange(0, 4) == magic_unskinned() {
            Parsed::Found(false, 4)
        } else {
            Parsed::Fail(DdmError::FormatError)
        }
    } else {
        Parsed::Fail(DdmError::IOError)
    }
}

/// The zero-filled 30-slot skin-index table of the unskinned variant.
pub open spec fn zero_skin_table() -> Seq<u16> {
    Seq::new(30, |i: int| 0u16)
}

/// One face group: in the skinned variant 4 reserved bytes and the 30-entry
/// skin-index table, then unconditionally the triangle start index and the
/// triangle count.
pub open spec fn parse_face_group(b: Seq<u8>, pos: int, skinned: bool) -> Parsed<FaceGroupModel> {
    let after_table = if skinned {
        match parse_skip(b, pos, 4) {
            Parsed::Found(_, p0) => parse_seq_of(b, p0, 30, u16_item()),
            Parsed::Fail(e) => Parsed::Fail(e),
        }
    } else {
        Parsed::Found(zero_skin_table(), pos)
    };
    match after_table {
        Parsed::Found(inds, p1) => match parse_u32(b, p1) {
            Parsed::Found(start, p2) => match parse_u32(b, p2) {
                Parsed::Found(count, p3) => Parsed::Found(
                    FaceGroupModel { indicies: inds, triangle_start_idx: start, triangle_count: count },
                    p3,
                ),
                Parsed::Fail(e) => Parsed::Fail(e),
            },
            Parsed::Fail(e) => Parsed::Fail(e),
        },
        Parsed::Fail(e) => Parsed::Fail(e),
    }
}

/// The element parser for face groups.
pub open spec fn face_group_item(skinned: bool) -> spec_fn(Seq<u8>, int) -> Parsed<FaceGroupModel> {
    |b: Seq<u8>, p: int| parse_face_group(b, p, skinned)
}

/// One mesh: 64-byte name, 8 reserved bytes, 16-word transform, 4 reserved
/// bytes, the 256-byte texture-name field holding two null-terminated
/// strings, the face-group count (skinned only; one implicit group
/// otherwise), then the face groups.
pub open spec fn parse_mesh(b: Seq<u8>, pos: int, skinned: bool) -> Parsed<MeshModel> {
    match parse_string_field(b, pos, 64) {
        Parsed::Found(name, p1) => match parse_skip(b, p1, 8) {
            Parsed::Found(_, p2) => match parse_seq_of(b, p2, 16, u32_item()) {
                Parsed::Found(tf, p3) => match parse_skip(b, p3, 4) {
                    Parsed::Found(_, p4) => if p4 + 256 <= b.len() {
                        match spec_split_str(b.subrange(p4, p4 + 256)) {
                            Ok((tex_name, tex_ext)) => {
                                let after_count = if skinned {
                                    parse_u32(b, p4 + 256)
                                } else {
                                    Parsed::Found(1u32, p4 + 256)
                                };
                                match after_count {
                                    Parsed::Found(gc, p6) => match parse_seq_of(
                                        b,
                                        p6,
                                        gc as nat,
                                        face_group_item(skinned),
                                    ) {
                                        Parsed::Found(gs, p7) => Parsed::Found(
                                            MeshModel {
                                                name,
                                                transform: tf,
                                                tex_name,
                                                tex_ext,
                                                face_groups: gs,
                                            },
                                            p7,
                                        ),
                                        Parsed::Fail(e) => Parsed::Fail(e),
                                    },
                                    Parsed::Fail(e) => Parsed::Fail(e),
                                }
                            },
                            Err(e) => Parsed::Fail(e),
                        }
                    } else {
                        Parsed::Fail(DdmError::IOError)
                    },
                    Parsed::Fail(e) => Parsed::Fail(e),
                },
                Parsed::Fail(e) => Parsed::Fail(e),
            },
            Parsed::Fail(e) => Parsed::Fail(e),
        },
        Parsed::Fail(e) => Parsed::Fail(e),
    }
}

/// The element parser for meshes.
pub open spec fn mesh_item(skinned: bool) -> spec_fn(Seq<u8>, int) -> Parsed<MeshModel> {
    |b: Seq<u8>, p: int| parse_mesh(b, p, skinned)
}

/// One bone: 16-word transform, 64-byte name, 32-bit id.
pub open spec fn parse_bone(b: Seq<u8>, pos: int) -> Parsed<BoneModel> {
    match parse_seq_of(b, pos, 16, u32_item()) {
        Parsed::Found(tf, p1) => match parse_string_field(b, p1, 64) {
            Parsed::Found(name, p2) => match parse_u32(b, p2) {
                Parsed::Found(id, p3) => Parsed::Found(
                    BoneModel { name, transform: tf, id },
                    p3,
                ),
                Parsed::Fail(e) => Parsed::Fail(e),
            },
            Parsed::Fail(e) => Parsed::Fail(e),
        },
        Parsed::Fail(e) => Parsed::Fail(e),
    }
}

/// The element parser for bones.
pub open spec fn bone_item() -> spec_fn(Seq<u8>, int) -> Parsed<BoneModel> {
    |b: Seq<u8>, p: int| parse_bone(b, p)
}

/// The vertex a record of words stands for: position, normal and texture
/// coordinates, and in the skinned variant four bone indices and four
/// weights; zero in the unskinned variant.
pub open spec fn vertex_from_words(ws: Seq<u32>, skinned: bool) -> DdmVertex
    recommends
        ws.len() == if skinned { 16int } else { 8int },
{
    DdmVertex {
        x: ws[0],
        y: ws[1],
        z: ws[2],
        nx: ws[3],
        ny: ws[4],
        nz: ws[5],
        u: ws[6],
        v: ws[7],
        bone_0: if skinned { ws[8] } else { 0u32 },
        bone_1: if skinned { ws[9] } else { 0u32 },
        bone_2: if skinned { ws[10] } else { 0u32 },
        bone_3: if skinned { ws[11] } else { 0u32 },
        weight_0: if skinned { ws[12] } else { 0u32 },
        weight_1: if skinned { ws[13] } else { 0u32 },
        weight_2: if skinned { ws[14] } else { 0u32 },
        weight_3: if skinned { ws[15] } else { 0u32 },
    }
}

/// One vertex record: 8 words, or 16 in the skinned variant.
pub open spec fn parse_vertex(b: Seq<u8>, pos: int, skinned: bool) -> Parsed<DdmVertex> {
    let n: nat = if skinned { 16nat } else { 8nat };
    match parse_seq_of(b, pos, n, u32_item()) {
        Parsed::Found(ws, p1) => Parsed::Found(vertex_from_words(ws, skinned), p1),
        Parsed::Fail(e) => Parsed::Fail(e),
    }
}

/// The element parser for vertices.
pub open spec fn vertex_item(skinned: bool) -> spec_fn(Seq<u8>, int) -> Parsed<DdmVertex> {
    |b: Seq<u8>, p: int| parse_vertex(b, p, skinned)
}

/// What decoding a whole container yields: the magic tag and 4 reserved
/// bytes, the mesh count and the meshes, the bone count and the bones
/// (skinned only), the triangle-index buffer, and the vertex buffer.
/// Trailing bytes are ignored.
pub open spec fn parse_ddm(b: Seq<u8>) -> Result<FileModel, DdmError> {
    match parse_magic(b) {
        Parsed::Found(skinned, p0) => match parse_skip(b, p0, 4) {
            Parsed::Found(_, p1) => match parse_u32(b, p1) {
                Parsed::Found(mesh_count, p2) => match parse_seq_of(
                    b,
                    p2,
                    mesh_count as nat,
                    mesh_item(skinned),
                ) {
                    Parsed::Found(meshes, p3) => {
                        let after_bone_count = if skinned {
                            parse_u32(b, p3)
                        } else {
                            Parsed::Found(0u32, p3)
                        };
                        match after_bone_count {
                            Parsed::Found(bone_count, p4) => match parse_seq_of(
                                b,
                                p4,
                                bone_count as nat,
                                bone_item(),
                            ) {
                                Parsed::Found(bones, p5) => match parse_u32(b, p5) {
                                    Parsed::Found(face_count, p6) => match parse_seq_of(
                                        b,
                                        p6,
                                        face_count as nat,
                                        u16_item(),
                                    ) {
                                        Parsed::Found(triangles, p7) => match parse_u32(b, p7) {
                                            Parsed::Found(vertex_count, p8) => match parse_seq_of(
                                                b,
                                                p8,
                                                vertex_count as nat,
                                                vertex_item(skinned),
                                            ) {
                                                Parsed::Found(vertices, _) => Ok(
                                                    FileModel { meshes, bones, triangles, vertices },
                                                ),
                                                Parsed::Fail(e) => Err(e),
                                            },
                                            Parsed::Fail(e) => Err(e),
                                        },
                                        Parsed::Fail(e) => Err(e),
                                    },
                                    Parsed::Fail(e) => Err(e),
                                },
                                Parsed::Fail(e) => Err(e),
                            },
                            Parsed::Fail(e) => Err(e),
                        }
                    },
                    Parsed::Fail(e) => Err(e),
                },
                Parsed::Fail(e) => Err(e),
            },
            Parsed::Fail(e) => Err(e),
        },
        Parsed::Fail(e) => Err(e),
    }
}

/// Copies a 16-word vector into a fixed transform array.
fn vec_to_transform(ws: &Vec<u32>) -> (r: [u32; 16])
    requires
        ws@.len() == 16,
    ensures
        r@ == ws@,
{
    let mut t = vstd::array::array_fill_for_copy_types::<u32, 16>(0u32);
    let mut i: usize = 0;
    while i < 16
        invariant
            i <= 16,
            ws@.len() == 16,
            t@.len() == 16,
            forall|j: int| 0 <= j < i ==> t@[j] == ws@[j],
        decreases 16 - i,
    {
        t[i] = ws[i];
        i += 1;
    }
    proof {
        assert(t@ =~= ws@);
    }
    t
}

/// Copies a 30-entry vector into a fixed skin-index table.
fn vec_to_skin_table(ws: &Vec<u16>) -> (r: [u16; 30])
    requires
        ws@.len() == 30,
    ensures
        r@ == ws@,
{
    let mut t = vstd::array::array_fill_for_copy_types::<u16, 30>(0u16);
    let mut i: usize = 0;
    while i < 30
        invariant
            i <= 30,
            ws@.len() == 30,
            t@.len() == 30,
            forall|j: int| 0 <= j < i ==> t@[j] == ws@[j],
        decreases 30 - i,
    {
        t[i] = ws[i];
        i += 1;
    }
    proof {
        assert(t@ =~= ws@);
    }
    t
}

/// Reads one face group.
fn read_face_group(reader: &mut ByteReader<'_>, skinned: bool) -> (r: Result<
    DdmFaceGroup,
    DdmError,
>)
    requires
        old(reader).wf(),
    ensures
        final(reader).wf(),
        final(reader).bytes() == old(reader).bytes(),
        match r {
            Ok(g) => parse_face_group(old(reader).bytes(), old(reader).position(), skinned)
                == Parsed::Found(g@, final(reader).position()),
            Err(e) => parse_face_group(old(reader).bytes(), old(reader).position(), skinned)
                == Parsed::<FaceGroupModel>::Fail(e),
        },
{
    let mut indicies = vstd::array::array_fill_for_copy_types::<u16, 30>(0u16);
    if skinned {
        reader.skip(4)?;
        let ws = read_u16_seq(reader, 30)?;
        indicies = vec_to_skin_table(&ws);
    } else {
        proof {
            assert(indicies@ =~= zero_skin_table());
        }
    }
    let triangle_start_idx = reader.read::<u32>()?;
    let triangle_count = reader.read::<u32>()?;
    Ok(DdmFaceGroup { indicies, triangle_start_idx, triangle_count })
}

/// Reads one bone.
fn read_bone(reader: &mut ByteReader<'_>) -> (r: Result<DdmBone, DdmError>)
    requires
        old(reader).wf(),
    ensures
        final(reader).wf(),
        final(reader).bytes() == old(reader).bytes(),
        match r {
            Ok(bone) => parse_bone(old(reader).bytes(), old(reader).position()) == Parsed::Found(
                bone@,
                final(reader).position(),
            ),
            Err(e) => parse_bone(old(reader).bytes(), old(reader).position())
                == Parsed::<BoneModel>::Fail(e),
        },
{
    let ws = read_u32_seq(reader, 16)?;
    let transform = vec_to_transform(&ws);
    let name = reader.read_string::<64>()?;
    let id = reader.read::<u32>()?;
    Ok(DdmBone { name, transform, id })
}

/// Reads one vertex record.
fn read_vertex(reader: &mut ByteReader<'_>, skinned: bool) -> (r: Result<DdmVertex, DdmError>)
    requires
        old(reader).wf(),
    ensures
        final(reader).wf(),
        final(reader).bytes() == old(reader).bytes(),
        match r {
            Ok(vert) => parse_vertex(old(reader).bytes(), old(reader).position(), skinned)
                == Parsed::Found(vert, final(reader).position()),
            Err(e) => parse_vertex(old(reader).bytes(), old(reader).position(), skinned)
                == Parsed::<DdmVertex>::Fail(e),
        },
{
    let n: usize = if skinned {
        16
    } else {
        8
    };
    let ws = read_u32_seq(reader, n)?;
    let vert = if skinned {
        DdmVertex {
            x: ws[0],
            y: ws[1],
            z: ws[2],
            nx: ws[3],
            ny: ws[4],
            nz: ws[5],
            u: ws[6],
            v: ws[7],
            bone_0: ws[8],
            bone_1: ws[9],
            bone_2: ws[10],
            bone_3: ws[11],
            weight_0: ws[12],
            weight_1: ws[13],
            weight_2: ws[14],
            weight_3: ws[15],
        }
    } else {
        DdmVertex {
            x: ws[0],
            y: ws[1],
            z: ws[2],
            nx: ws[3],
            ny: ws[4],
            nz: ws[5],
            u: ws[6],
            v: ws[7],
            bone_0: 0,
            bone_1: 0,
            bone_2: 0,
            bone_3: 0,
            weight_0: 0,
            weight_1: 0,
            weight_2: 0,
            weight_3: 0,
        }
    };
    proof {
        assert(vert == vertex_from_words(ws@, skinned));
    }
    Ok(vert)
}

/// Reads one mesh.
#[verifier::loop_isolation(false)]
fn read_mesh(reader: &mut ByteReader<'_>, skinned: bool) -> (r: Result<DdmMesh, DdmError>)
    requires
        old(reader).wf(),
    ensures
        final(reader).wf(),
        final(reader).bytes() == old(reader).bytes(),
        match r {
            Ok(m) => parse_mesh(old(reader).bytes(), old(reader).position(), skinned)
                == Parsed::Found(m@, final(reader).position()),
            Err(e) => parse_mesh(old(reader).bytes(), old(reader).position(), skinned)
                == Parsed::<MeshModel>::Fail(e),
        },
{
    let ghost b = reader.bytes();
    let name = reader.read_string::<64>()?;
    reader.skip(8)?;
    let ws = read_u32_seq(reader, 16)?;
    let transform = vec_to_transform(&ws);
    reader.skip(4)?;
    let raw = reader.read_bytes::<256>()?;
    let pair = match split_str(raw.as_slice()) {
        Ok(p) => p,
        Err(e) => {
            return Err(e);
        },
    };
    let tex_name = pair.0;
    let tex_ext = pair.1;
    let group_count = if skinned {
        reader.read::<u32>()?
    } else {
        1u32
    };
    let ghost p6 = reader.position();
    let ghost gtarget = parse_seq_of(b, p6, group_count as nat, face_group_item(skinned));
    proof {
        lemma_compose_empty(gtarget);
    }
    let mut face_groups: Vec<DdmFaceGroup> = Vec::new();
    let mut gi: u32 = 0;
    while gi < group_count
        invariant
            gi <= group_count,
            reader.wf(),
            reader.bytes() == b,
            face_groups@.len() == gi,
            compose(
                group_views(face_groups@),
                parse_seq_of(
                    b,
                    reader.position(),
                    (group_count - gi) as nat,
                    face_group_item(skinned),
                ),
            ) == gtarget,
        decreases group_count - gi,
    {
        let ghost pre_pos = reader.position();
        let ghost prev_views = group_views(face_groups@);
        proof {
            lemma_parse_seq_shift(
                b,
                pre_pos,
                (group_count - gi) as nat,
                face_group_item(skinned),
                prev_views,
            );
        }
        match read_face_group(reader, skinned) {
            Ok(g) => {
                proof {
                    assert(face_group_item(skinned)(b, pre_pos) == Parsed::Found(
                        g@,
                        reader.position(),
                    ));
                }
                face_groups.push(g);
                proof {
                    assert(group_views(face_groups@) =~= prev_views.push(g@));
                }
                gi += 1;
            },
            Err(e) => {
                proof {
                    assert(face_group_item(skinned)(b, pre_pos)
                        == Parsed::<FaceGroupModel>::Fail(e));
                }
                return Err(e);
            },
        }
    }
    proof {
        lemma_compose_end(group_views(face_groups@), reader.position());
    }
    Ok(DdmMesh { name, transform, tex_name, tex_ext, face_groups })
}

impl DdmFile {
    /// Decodes a whole DDM container from its bytes. The result is exactly
    /// what `parse_ddm` says the bytes describe, and an error is surfaced
    /// exactly when and as `parse_ddm` says the bytes are short or
    /// malformed.
    #[verifier::loop_isolation(false)]
    pub fn from_file(data: &[u8]) -> (r: Result<DdmFile, DdmError>)
        ensures
            match r {
                Ok(f) => parse_ddm(data@) == Ok::<FileModel, DdmError>(f@),
                Err(e) => parse_ddm(data@) == Err::<FileModel, DdmError>(e),
            },
    {
        let ghost b = data@;
        let mut reader = ByteReader::new(data);
        let magic = reader.read_bytes::<4>()?;

        // "srdd" is the skinned variant, "mrdd" the unskinned one.
        let is_skinned = if magic[0] == 115 && magic[1] == 114 && magic[2] == 100 && magic[3]
            == 100 {
            proof {
                assert(magic@ =~= magic_skinned());
            }
            true
        } else if magic[0] == 109 && magic[1] == 114 && magic[2] == 100 && magic[3] == 100 {
            proof {
                assert(magic@ =~= magic_unskinned());
            }
            false
        } else {
            proof {
                assert(b.subrange(0, 4) != magic_skinned()) by {
                    if b.subrange(0, 4) == magic_skinned() {
                        assert(magic@[0] == 115 && magic@[1] == 114 && magic@[2] == 100
                            && magic@[3] == 100);
                    }
                }
                assert(b.subrange(0, 4) != magic_unskinned()) by {
                    if b.subrange(0, 4) == magic_unskinned() {
                        assert(magic@[0] == 109 && magic@[1] == 114 && magic@[2] == 100
                            && magic@[3] == 100);
                    }
                }
            }
            return Err(DdmError::FormatError);
        };

        reader.skip(4)?;
        let mesh_count = reader.read::<u32>()?;

        let ghost p2 = reader.position();
        let ghost mtarget = parse_seq_of(b, p2, mesh_count as nat, mesh_item(is_skinned));
        proof {
            lemma_compose_empty(mtarget);
        }
        let mut meshes: Vec<DdmMesh> = Vec::new();
        let mut mi: u32 = 0;
        while mi < mesh_count
            invariant
                mi <= mesh_count,
                reader.wf(),
                reader.bytes() == b,
                meshes@.len() == mi,
                compose(
                    mesh_views(meshes@),
                    parse_seq_of(
                        b,
                        reader.position(),
                        (mesh_count - mi) as nat,
                        mesh_item(is_skinned),
                    ),
                ) == mtarget,
            decreases mesh_count - mi,
        {
            let ghost pre_pos = reader.position();
            let ghost prev_views = mesh_views(meshes@);
            proof {
                lemma_parse_seq_shift(
                    b,
                    pre_pos,
                    (mesh_count - mi) as nat,
                    mesh_item(is_skinned),
                    prev_views,
                );
            }
            match read_mesh(&mut reader, is_skinned) {
                Ok(m) => {
                    proof {
                        assert(mesh_item(is_skinned)(b, pre_pos) == Parsed::Found(
                            m@,
                            reader.position(),
                        ));
                    }
                    meshes.push(m);
                    proof {
                        assert(mesh_views(meshes@) =~= prev_views.push(m@));
                    }
                    mi += 1;
                },
                Err(e) => {
                    proof {
                        assert(mesh_item(is_skinned)(b, pre_pos) == Parsed::<MeshModel>::Fail(e));
                    }
                    return Err(e);
                },
            }
        }
        proof {
            lemma_compose_end(mesh_views(meshes@), reader.position());
        }

        let bone_count = if is_skinned {
            reader.read::<u32>()?
        } else {
            0u32
        };
        let ghost p4 = reader.position();
        let ghost btarget = parse_seq_of(b, p4, bone_count as nat, bone_item());
        proof {
            lemma_compose_empty(btarget);
        }
        let mut bones: Vec<DdmBone> = Vec::new();
        let mut bi: u32 = 0;
        while bi < bone_count
            invariant
                bi <= bone_count,
                reader.wf(),
                reader.bytes() == b,
                bones@.len() == bi,
                compose(
                    bone_views(bones@),
                    parse_seq_of(b, reader.position(), (bone_count - bi) as nat, bone_item()),
                ) == btarget,
            decreases bone_count - bi,
        {
            let ghost pre_pos = reader.position();
            let ghost prev_views = bone_views(bones@);
            proof {
                lemma_parse_seq_shift(
                    b,
                    pre_pos,
                    (bone_count - bi) as nat,
                    bone_item(),
                    prev_views,
                );
            }
            match read_bone(&mut reader) {
                Ok(bone) => {
                    proof {
                        assert(bone_item()(b, pre_pos) == Parsed::Found(
                            bone@,
                            reader.position(),
                        ));
                    }
                    bones.push(bone);
                    proof {
                        assert(bone_views(bones@) =~= prev_views.push(bone@));
                    }
                    bi += 1;
                },
                Err(e) => {
                    proof {
                        assert(bone_item()(b, pre_pos) == Parsed::<BoneModel>::Fail(e));
                    }
                    return Err(e);
                },
            }
        }
        proof {
            lemma_compose_end(bone_views(bones@), reader.position());
        }

        let face_count = reader.read::<u32>()?;
        let triangles = read_u16_seq(&mut reader, face_count as usize)?;

        let vertex_count = reader.read::<u32>()?;
        let ghost p8 = reader.position();
        let ghost vtarget = parse_seq_of(b, p8, vertex_count as nat, vertex_item(is_skinned));
        proof {
            lemma_compose_empty(vtarget);
        }
        let mut vertices: Vec<DdmVertex> = Vec::new();
        let mut vi: u32 = 0;
        while vi < vertex_count
            invariant
                vi <= vertex_count,
                reader.wf(),
                reader.bytes() == b,
                vertices@.len() == vi,
                compose(
                    vertices@,
                    parse_seq_of(
                        b,
                        reader.position(),
                        (vertex_count - vi) as nat,
                        vertex_item(is_skinned),
                    ),
                ) == vtarget,
            decreases vertex_count - vi,
        {
            let ghost pre_pos = reader.position();
            proof {
                lemma_parse_seq_shift(
                    b,
                    pre_pos,
                    (vertex_count - vi) as nat,
                    vertex_item(is_skinned),
                    vertices@,
                );
            }
            match read_vertex(&mut reader, is_skinned) {
                Ok(vert) => {
                    proof {
                        assert(vertex_item(is_skinned)(b, pre_pos) == Parsed::Found(
                            vert,
                            reader.position(),
                        ));
                    }
                    vertices.push(vert);
                    vi += 1;
                },
                Err(e) => {
                    proof {
                        assert(vertex_item(is_skinned)(b, pre_pos) == Parsed::<DdmVertex>::Fail(
                            e,
                        ));
                    }
                    return Err(e);
                },
            }
        }
        proof {
            lemma_compose_end(vertices@, reader.position());
        }

        Ok(DdmFile { meshes, bones, triangles, vertices })
    }
}

} // verus!
