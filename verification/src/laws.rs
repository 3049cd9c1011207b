//! Laws of the decoder, the remapper and the accessor builder, stated and
//! proved over the same spec functions their contracts use.

use vstd::prelude::*;

use crate::accessor::align4;
use crate::accessor::lemma_array_bytes_len;
use crate::accessor::spec_add_array;
use crate::ddm::DdmVertex;
use crate::ddm::FileModel;
use crate::ddm::Parsed;
use crate::ddm::magic_skinned;
use crate::ddm::magic_unskinned;
use crate::ddm::parse_ddm;
use crate::ddm::parse_seq_of;
use crate::ddm::parse_vertex;
use crate::ddm::spec_split_str;
use crate::ddm::u16_item;
use crate::ddm::u32_item;
use crate::ddm::vertex_from_words;
use crate::ddm::zero_skin_table;
use crate::error::DdmError;
use crate::io::lemma_nul_index;
use crate::io::nul_index;
use crate::io::string_field;
use crate::remap::first_occurrences;
use crate::remap::position_of;

verus! {

/// Where a run of 32-bit words ends, and what each word is: word `i` of a
/// successfully parsed run of `n` words is the little-endian scalar at
/// offset `pos + 4*i`.
pub proof fn lemma_u32_run(b: Seq<u8>, pos: int, n: nat)
    ensures
        parse_seq_of(b, pos, n, u32_item()) matches Parsed::Found(vs, p) ==> {
            &&& p == pos + 4 * n
            &&& vs.len() == n
            &&& forall|i: int|
                0 <= i < n ==> vs[i] == vstd::bytes::spec_u32_from_le_bytes(
                    b.subrange(pos + 4 * i, pos + 4 * i + 4),
                )
        },
    decreases n,
{
    if n > 0 {
        match u32_item()(b, pos) {
            Parsed::Found(v, p1) => {
                lemma_u32_run(b, p1, (n - 1) as nat);
                match parse_seq_of(b, p1, (n - 1) as nat, u32_item()) {
                    Parsed::Found(vs1, p2) => {
                        let vs = seq![v] + vs1;
                        assert forall|i: int| 0 <= i < n implies vs[i]
                            == vstd::bytes::spec_u32_from_le_bytes(
                            b.subrange(pos + 4 * i, pos + 4 * i + 4),
                        ) by {
                            if i > 0 {
                                assert(vs[i] == vs1[i - 1]);
                            }
                        }
                    },
                    Parsed::Fail(_) => {
                    },
                }
            },
            Parsed::Fail(_) => {
            },
        }
    }
}

/// Where a run of 16-bit words ends, and what each word is.
pub proof fn lemma_u16_run(b: Seq<u8>, pos: int, n: nat)
    ensures
        parse_seq_of(b, pos, n, u16_item()) matches Parsed::Found(vs, p) ==> {
            &&& p == pos + 2 * n
            &&& vs.len() == n
            &&& forall|i: int|
                0 <= i < n ==> vs[i] == vstd::bytes::spec_u16_from_le_bytes(
                    b.subrange(pos + 2 * i, pos + 2 * i + 2),
                )
        },
    decreases n,
{
    if n > 0 {
        match u16_item()(b, pos) {
            Parsed::Found(v, p1) => {
                lemma_u16_run(b, p1, (n - 1) as nat);
                match parse_seq_of(b, p1, (n - 1) as nat, u16_item()) {
                    Parsed::Found(vs1, p2) => {
                        let vs = seq![v] + vs1;
                        assert forall|i: int| 0 <= i < n implies vs[i]
                            == vstd::bytes::spec_u16_from_le_bytes(
                            b.subrange(pos + 2 * i, pos + 2 * i + 2),
                        ) by {
                            if i > 0 {
                                assert(vs[i] == vs1[i - 1]);
                            }
                        }
                    },
                    Parsed::Fail(_) => {
                    },
                }
            },
            Parsed::Fail(_) => {
            },
        }
    }
}

/// An unskinned container that declares one mesh, one triangle (three
/// 16-bit indices) and one vertex decodes to exactly one mesh with one
/// implicit zero-tabled face group, no bones, three triangle indices and
/// one vertex, each field the little-endian scalar injected at its fixed
/// offset.
pub proof fn lemma_unskinned_single(b: Seq<u8>, m: FileModel)
    requires
        parse_ddm(b) == Ok::<FileModel, DdmError>(m),
        b.subrange(0, 4) == magic_unskinned(),
        vstd::bytes::spec_u32_from_le_bytes(b.subrange(8, 12)) == 1,
        vstd::bytes::spec_u32_from_le_bytes(b.subrange(416, 420)) == 3,
        vstd::bytes::spec_u32_from_le_bytes(b.subrange(426, 430)) == 1,
    ensures
        m.meshes.len() == 1,
        m.bones.len() == 0,
        m.meshes[0].name == vstd::utf8::decode_utf8(string_field(b, 12, 64)),
        m.meshes[0].transform.len() == 16,
        forall|i: int|
            0 <= i < 16 ==> m.meshes[0].transform[i] == vstd::bytes::spec_u32_from_le_bytes(
                b.subrange(84 + 4 * i, 84 + 4 * i + 4),
            ),
        spec_split_str(b.subrange(152, 408)) == Ok::<(Seq<char>, Seq<char>), DdmError>(
            (m.meshes[0].tex_name, m.meshes[0].tex_ext),
        ),
        m.meshes[0].face_groups.len() == 1,
        m.meshes[0].face_groups[0].indicies == zero_skin_table(),
        m.meshes[0].face_groups[0].triangle_start_idx == vstd::bytes::spec_u32_from_le_bytes(
            b.subrange(408, 412),
        ),
        m.meshes[0].face_groups[0].triangle_count == vstd::bytes::spec_u32_from_le_bytes(
            b.subrange(412, 416),
        ),
        m.triangles.len() == 3,
        forall|i: int|
            0 <= i < 3 ==> m.triangles[i] == vstd::bytes::spec_u16_from_le_bytes(
                b.subrange(420 + 2 * i, 420 + 2 * i + 2),
            ),
        m.vertices.len() == 1,
        forall|i: int|
            0 <= i < 8 ==> word_of_vertex(m.vertices[0], i) == vstd::bytes::spec_u32_from_le_bytes(
                b.subrange(430 + 4 * i, 430 + 4 * i + 4),
            ),
        m.vertices[0].bone_0 == 0 && m.vertices[0].bone_1 == 0 && m.vertices[0].bone_2 == 0
            && m.vertices[0].bone_3 == 0,
        m.vertices[0].weight_0 == 0 && m.vertices[0].weight_1 == 0 && m.vertices[0].weight_2 == 0
            && m.vertices[0].weight_3 == 0,
{
    reveal_with_fuel(parse_seq_of, 2);
    lemma_u32_run(b, 84, 16);
    lemma_u16_run(b, 420, 3);
    lemma_u32_run(b, 430, 8);
    assert(crate::ddm::mesh_item(false)(b, 12) == crate::ddm::parse_mesh(b, 12, false));
    assert(crate::ddm::face_group_item(false)(b, 408) == crate::ddm::parse_face_group(
        b,
        408,
        false,
    ));
    assert(crate::ddm::vertex_item(false)(b, 430) == parse_vertex(b, 430, false));
    match parse_seq_of(b, 12, 1, crate::ddm::mesh_item(false)) {
        Parsed::Found(meshes, p3) => {
            match crate::ddm::parse_mesh(b, 12, false) {
                Parsed::Found(mesh, pm) => {
                    assert(meshes =~= seq![mesh]);
                    match parse_seq_of(b, 408, 1, crate::ddm::face_group_item(false)) {
                        Parsed::Found(gs, pg) => {
                            match crate::ddm::parse_face_group(b, 408, false) {
                                Parsed::Found(g, _) => {
                                    assert(gs =~= seq![g]);
                                },
                                Parsed::Fail(_) => {
                                },
                            }
                        },
                        Parsed::Fail(_) => {
                        },
                    }
                },
                Parsed::Fail(_) => {
                },
            }
        },
        Parsed::Fail(_) => {
        },
    }
    match parse_seq_of(b, 430, 1, crate::ddm::vertex_item(false)) {
        Parsed::Found(verts, pv) => {
            match parse_vertex(b, 430, false) {
                Parsed::Found(v, _) => {
                    assert(verts =~= seq![v]);
                },
                Parsed::Fail(_) => {
                },
            }
        },
        Parsed::Fail(_) => {
        },
    }
}

/// Word `i` of a vertex record, in the order the container stores them.
pub open spec fn word_of_vertex(v: DdmVertex, i: int) -> u32 {
    if i == 0 {
        v.x
    } else if i == 1 {
        v.y
    } else if i == 2 {
        v.z
    } else if i == 3 {
        v.nx
    } else if i == 4 {
        v.ny
    } else if i == 5 {
        v.nz
    } else if i == 6 {
        v.u
    } else if i == 7 {
        v.v
    } else if i == 8 {
        v.bone_0
    } else if i == 9 {
        v.bone_1
    } else if i == 10 {
        v.bone_2
    } else if i == 11 {
        v.bone_3
    } else if i == 12 {
        v.weight_0
    } else if i == 13 {
        v.weight_1
    } else if i == 14 {
        v.weight_2
    } else {
        v.weight_3
    }
}

/// A buffer with fewer than two null bytes does not split: the texture-name
/// field fails with a format error.
pub proof fn lemma_split_str_needs_two_nulls(raw: Seq<u8>)
    requires
        forall|i: int, j: int| 0 <= i < j < raw.len() ==> !(raw[i] == 0 && raw[j] == 0),
    ensures
        spec_split_str(raw) == Err::<(Seq<char>, Seq<char>), DdmError>(DdmError::FormatError),
{
    lemma_nul_index(raw);
    let n0 = nul_index(raw);
    if n0 < raw.len() {
        let rest = raw.skip(n0 + 1);
        lemma_nul_index(rest);
        let n1 = nul_index(rest);
        if n1 < rest.len() {
            assert(raw[n0] == 0);
            assert(raw[n0 + 1 + n1] == 0);
            assert(false);
        }
    }
}

/// Remapping is deterministic: any two outputs that the remapper's contract
/// admits for one and the same vertex buffer and index slice are identical,
/// compact vertex order and index list alike.
pub proof fn lemma_remap_deterministic(
    vertices: Seq<DdmVertex>,
    indices: Seq<u32>,
    vs1: Seq<DdmVertex>,
    out1: Seq<u16>,
    vs2: Seq<DdmVertex>,
    out2: Seq<u16>,
)
    requires
        vs1.len() == first_occurrences(indices).len(),
        forall|k: int|
            0 <= k < vs1.len() ==> vs1[k] == vertices[first_occurrences(indices)[k] as int],
        out1.len() == indices.len(),
        forall|k: int|
            0 <= k < out1.len() ==> out1[k] as int == position_of(
                first_occurrences(indices),
                indices[k],
            ),
        vs2.len() == first_occurrences(indices).len(),
        forall|k: int|
            0 <= k < vs2.len() ==> vs2[k] == vertices[first_occurrences(indices)[k] as int],
        out2.len() == indices.len(),
        forall|k: int|
            0 <= k < out2.len() ==> out2[k] as int == position_of(
                first_occurrences(indices),
                indices[k],
            ),
    ensures
        vs1 == vs2,
        out1 == out2,
{
    assert(vs1 =~= vs2);
    assert forall|k: int| 0 <= k < out1.len() implies out1[k] == out2[k] by {
        assert(out1[k] as int == out2[k] as int);
    }
    assert(out1 =~= out2);
}

/// Appending two 3-component elements grows the blob by exactly 24 bytes,
/// placed at the next 4-byte-aligned offset; the array after it begins at
/// an aligned offset again.
pub proof fn lemma_add_array_growth(
    m: crate::accessor::BuilderModel,
    name: Seq<char>,
    es: Seq<Seq<u32>>,
)
    requires
        es.len() == 2,
        es[0].len() == 3,
        es[1].len() == 3,
    ensures
        spec_add_array(m, name, es).0.data.len() == align4(m.data.len() as int) + 24,
        spec_add_array(m, name, es).0.views.last().byte_offset == align4(
            m.data.len() as int,
        ) as usize,
        spec_add_array(m, name, es).0.views.last().byte_length == 24usize,
        spec_add_array(m, name, es).0.data.len() % 4 == 0,
{
    assert forall|i: int| 0 <= i < es.len() implies (#[trigger] es[i].len()) == 3 by {
    }
    lemma_array_bytes_len(es, 3);
    lemma_align4(m.data.len() as int);
    let n = align4(m.data.len() as int);
    assert((n + 24) % 4 == 0) by (nonlinear_arith)
        requires n % 4 == 0
    ;
}

/// The next aligned offset is a multiple of 4, no more than 3 bytes on.
pub proof fn lemma_align4(n: int)
    requires
        n >= 0,
    ensures
        align4(n) % 4 == 0,
        n <= align4(n) < n + 4,
{
    let r = n % 4;
    vstd::arithmetic::div_mod::lemma_fundamental_div_mod(n, 4);
    if r == 0 {
        assert((4 * (n / 4)) % 4 == 0) by (nonlinear_arith);
    } else {
        assert((4 * (n / 4) + 4) % 4 == 0) by (nonlinear_arith);
    }
}

/// A container whose 4-byte magic tag is neither `srdd` nor `mrdd` is
/// rejected as a format error before any mesh is read.
pub proof fn lemma_bad_magic(b: Seq<u8>)
    requires
        b.len() >= 4,
        b.subrange(0, 4) != magic_skinned(),
        b.subrange(0, 4) != magic_unskinned(),
    ensures
        parse_ddm(b) == Err::<FileModel, DdmError>(DdmError::FormatError),
{
}

/// The skinned variant fills a vertex's bone-index and weight words from
/// the stream; the unskinned variant leaves them at zero.
pub proof fn lemma_vertex_variant(b: Seq<u8>, pos: int)
    ensures
        parse_vertex(b, pos, false) matches Parsed::Found(v, p) ==> {
            &&& p == pos + 32
            &&& v.bone_0 == 0 && v.bone_1 == 0 && v.bone_2 == 0 && v.bone_3 == 0
            &&& v.weight_0 == 0 && v.weight_1 == 0 && v.weight_2 == 0 && v.weight_3 == 0
        },
        parse_vertex(b, pos, true) matches Parsed::Found(v, p) ==> {
            &&& p == pos + 64
            &&& forall|i: int|
                0 <= i < 16 ==> word_of_vertex(v, i) == vstd::bytes::spec_u32_from_le_bytes(
                    b.subrange(pos + 4 * i, pos + 4 * i + 4),
                )
        },
{
    lemma_u32_run(b, pos, 8);
    lemma_u32_run(b, pos, 16);
    match parse_seq_of(b, pos, 16, u32_item()) {
        Parsed::Found(ws, p) => {
            let v = vertex_from_words(ws, true);
            assert forall|i: int| 0 <= i < 16 implies word_of_vertex(v, i)
                == vstd::bytes::spec_u32_from_le_bytes(
                b.subrange(pos + 4 * i, pos + 4 * i + 4),
            ) by {
                assert(word_of_vertex(v, i) == ws[i]);
            }
        },
        Parsed::Fail(_) => {
        },
    }
}

} // verus!
