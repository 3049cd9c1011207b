//! The conversion driver: remapping every face group of a decoded container
//! and feeding the compact arrays into one accessor builder.

use vstd::prelude::*;

use crate::accessor::AccessorBuilder;
use crate::accessor::BuilderModel;
use crate::accessor::opt_index;
use crate::accessor::spec_add_array;
use crate::accessor::spec_add_scalar;
use crate::accessor::views_of;
use crate::ddm::DdmFile;
use crate::ddm::DdmVertex;
use crate::ddm::FaceGroupModel;
use crate::ddm::FileModel;
use crate::ddm::MeshModel;
use crate::error::DdmError;
use crate::remap::first_occurrences;
use crate::remap::position_of;
use crate::remap::remap_face_group;

verus! {

/// One emitted primitive: its name, the index of the mesh it came from
/// (also its material index), and the accessor indices of its arrays. An
/// accessor reference is absent exactly when the array was empty.
#[derive(Clone, Debug)]
pub struct GltfPrimitive {
    pub name: String,
    pub material: usize,
    pub position_accessor: Option<usize>,
    pub normal_accessor: Option<usize>,
    pub uv_accessor: Option<usize>,
    pub index_accessor: Option<usize>,
}

/// Mathematical model of an emitted primitive.
#[verifier::ext_equal]
pub struct PrimitiveModel {
    pub name: Seq<char>,
    pub material: int,
    pub position_accessor: Option<int>,
    pub normal_accessor: Option<int>,
    pub uv_accessor: Option<int>,
    pub index_accessor: Option<int>,
}

impl View for GltfPrimitive {
    type V = PrimitiveModel;

    open spec fn view(&self) -> PrimitiveModel {
        PrimitiveModel {
            name: self.name@,
            material: self.material as int,
            position_accessor: opt_index(self.position_accessor),
            normal_accessor: opt_index(self.normal_accessor),
            uv_accessor: opt_index(self.uv_accessor),
            index_accessor: opt_index(self.index_accessor),
        }
    }
}

/// The models of a list of primitives.
pub open spec fn primitive_views(ps: Seq<GltfPrimitive>) -> Seq<PrimitiveModel> {
    Seq::new(ps.len(), |i: int| ps[i]@)
}

/// The decimal digit characters.
pub open spec fn digit_char(d: nat) -> char {
    if d == 0 {
        '0'
    } else if d == 1 {
        '1'
    } else if d == 2 {
        '2'
    } else if d == 3 {
        '3'
    } else if d == 4 {
        '4'
    } else if d == 5 {
        '5'
    } else if d == 6 {
        '6'
    } else if d == 7 {
        '7'
    } else if d == 8 {
        '8'
    } else {
        '9'
    }
}

/// The decimal digits of `n`, most significant first, without leading
/// zeroes (a single zero for 0).
pub open spec fn dec_digits(n: nat) -> Seq<char>
    decreases n,
{
    if n < 10 {
        seq![digit_char(n)]
    } else {
        dec_digits(n / 10).push(digit_char(n % 10))
    }
}

fn append_digit(s: &mut String, d: u64)
    requires
        d < 10,
    ensures
        final(s)@ == old(s)@.push(digit_char(d as nat)),
{
    let ds: &str = if d == 0 {
        "0"
    } else if d == 1 {
        "1"
    } else if d == 2 {
        "2"
    } else if d == 3 {
        "3"
    } else if d == 4 {
        "4"
    } else if d == 5 {
        "5"
    } else if d == 6 {
        "6"
    } else if d == 7 {
        "7"
    } else if d == 8 {
        "8"
    } else {
        "9"
    };
    proof {
        reveal_strlit("0");
        reveal_strlit("1");
        reveal_strlit("2");
        reveal_strlit("3");
        reveal_strlit("4");
        reveal_strlit("5");
        reveal_strlit("6");
        reveal_strlit("7");
        reveal_strlit("8");
        reveal_strlit("9");
        assert(ds@ =~= seq![digit_char(d as nat)]);
    }
    s.append(ds);
    proof {
        assert(old(s)@ + ds@ =~= old(s)@.push(digit_char(d as nat)));
    }
}

/// Writes `n` in decimal.
pub fn u64_to_decimal(n: u64) -> (r: String)
    ensures
        r@ == dec_digits(n as nat),
    decreases n,
{
    if n < 10 {
        let mut s = String::new();
        append_digit(&mut s, n);
        proof {
            assert(Seq::<char>::empty().push(digit_char(n as nat)) =~= seq![
                digit_char(n as nat),
            ]);
        }
        s
    } else {
        let mut s = u64_to_decimal(n / 10);
        append_digit(&mut s, n % 10);
        s
    }
}

/// A face group's triangle range lies inside the shared triangle buffer.
pub open spec fn group_fits(g: FaceGroupModel, tri_len: int) -> bool {
    g.triangle_start_idx + g.triangle_count * 3 <= tri_len
}

/// Every face group of `m` lies inside the shared triangle buffer.
pub open spec fn mesh_groups_fit(m: MeshModel, tri_len: int) -> bool {
    forall|gi: int| 0 <= gi < m.face_groups.len() ==> group_fits(#[trigger] m.face_groups[gi], tri_len)
}

/// The geometry invariants of a decoded container: every face group's
/// triangle range lies inside the shared triangle buffer, and every
/// triangle index references a vertex of the shared vertex buffer.
pub open spec fn geometry_ok(f: FileModel) -> bool {
    &&& forall|mi: int|
        0 <= mi < f.meshes.len() ==> mesh_groups_fit(
            #[trigger] f.meshes[mi],
            f.triangles.len() as int,
        )
    &&& forall|t: int|
        0 <= t < f.triangles.len() ==> (#[trigger] f.triangles[t] as int) < f.vertices.len()
}

/// Decides the geometry invariants, so that a caller can reject a container
/// whose declared ranges do not fit its buffers before converting it.
pub fn check_geometry(ddm: &DdmFile) -> (r: bool)
    ensures
        r == geometry_ok(ddm@),
{
    let tri_len = ddm.triangles.len() as u64;
    let mut mi: usize = 0;
    while mi < ddm.meshes.len()
        invariant
            mi <= ddm.meshes@.len(),
            tri_len == ddm.triangles@.len(),
            forall|m: int|
                0 <= m < mi ==> mesh_groups_fit(
                    #[trigger] ddm@.meshes[m],
                    ddm@.triangles.len() as int,
                ),
        decreases ddm.meshes@.len() - mi,
    {
        let mesh = &ddm.meshes[mi];
        let mut gi: usize = 0;
        while gi < mesh.face_groups.len()
            invariant
                gi <= mesh.face_groups@.len(),
                tri_len == ddm.triangles@.len(),
                mesh == &ddm.meshes@[mi as int],
                mi < ddm.meshes@.len(),
                forall|g: int|
                    0 <= g < gi ==> group_fits(
                        #[trigger] ddm@.meshes[mi as int].face_groups[g],
                        ddm@.triangles.len() as int,
                    ),
            decreases mesh.face_groups@.len() - gi,
        {
            let g = &mesh.face_groups[gi];
            if (g.triangle_start_idx as u64) + (g.triangle_count as u64) * 3 > tri_len {
                proof {
                    assert(ddm@.meshes[mi as int].face_groups[gi as int] == g@);
                    assert(!group_fits(g@, ddm@.triangles.len() as int));
                }
                return false;
            }
            proof {
                assert(ddm@.meshes[mi as int].face_groups[gi as int] == g@);
            }
            gi += 1;
        }
        proof {
            assert(mesh_groups_fit(ddm@.meshes[mi as int], ddm@.triangles.len() as int));
        }
        mi += 1;
    }
    let mut t: usize = 0;
    while t < ddm.triangles.len()
        invariant
            t <= ddm.triangles@.len(),
            forall|w: int|
                0 <= w < t ==> (#[trigger] ddm@.triangles[w] as int) < ddm@.vertices.len(),
            forall|m: int|
                0 <= m < ddm@.meshes.len() ==> mesh_groups_fit(
                    #[trigger] ddm@.meshes[m],
                    ddm@.triangles.len() as int,
                ),
        decreases ddm.triangles@.len() - t,
    {
        if (ddm.triangles[t] as usize) >= ddm.vertices.len() {
            proof {
                assert((ddm@.triangles[t as int] as int) >= ddm@.vertices.len());
                assert(!geometry_ok(ddm@));
            }
            return false;
        }
        t += 1;
    }
    true
}

/// The suffix of a primitive's position-array name.
pub open spec fn pos_suffix() -> Seq<char> {
    "_pos"@
}

/// The suffix of a primitive's normal-array name.
pub open spec fn norm_suffix() -> Seq<char> {
    "_norm"@
}

/// The suffix of a primitive's texture-coordinate-array name.
pub open spec fn uv_suffix() -> Seq<char> {
    "_uv"@
}

/// The suffix of a primitive's index-array name.
pub open spec fn face_suffix() -> Seq<char> {
    "_face"@
}

/// The name of one emitted primitive: the mesh's name, with a dot and the
/// group's index appended when the mesh has more than one face group.
pub open spec fn primitive_name(mesh_name: Seq<char>, multi: bool, gi: int) -> Seq<char> {
    if multi {
        mesh_name + "."@ + dec_digits(gi as nat)
    } else {
        mesh_name
    }
}

/// The triangle indices of one face group's range of the shared triangle
/// buffer, widened to vertex-buffer positions.
pub open spec fn spec_group_indices(f: FileModel, mi: int, gi: int) -> Seq<u32> {
    let g = f.meshes[mi].face_groups[gi];
    Seq::new(
        (g.triangle_count * 3) as nat,
        |t: int| f.triangles[g.triangle_start_idx + t] as u32,
    )
}

/// The compact vertex list of a remapped group: the referenced vertices in
/// first-occurrence order.
pub open spec fn spec_remap_verts(vertices: Seq<DdmVertex>, inds: Seq<u32>) -> Seq<DdmVertex> {
    Seq::new(
        first_occurrences(inds).len(),
        |k: int| vertices[first_occurrences(inds)[k] as int],
    )
}

/// The compact index list of a remapped group.
pub open spec fn spec_remap_faces(inds: Seq<u32>) -> Seq<u16> {
    Seq::new(inds.len(), |k: int| position_of(first_occurrences(inds), inds[k]) as u16)
}

/// A compact vertex list's position elements: x negated by flipping its
/// sign bit, then y and z.
pub open spec fn spec_positions(vs: Seq<DdmVertex>) -> Seq<Seq<u32>> {
    Seq::new(vs.len(), |i: int| seq![vs[i].x ^ 0x8000_0000u32, vs[i].y, vs[i].z])
}

/// A compact vertex list's normal elements.
pub open spec fn spec_normals(vs: Seq<DdmVertex>) -> Seq<Seq<u32>> {
    Seq::new(vs.len(), |i: int| seq![vs[i].nx, vs[i].ny, vs[i].nz])
}

/// A compact vertex list's texture-coordinate elements.
pub open spec fn spec_uvs(vs: Seq<DdmVertex>) -> Seq<Seq<u32>> {
    Seq::new(vs.len(), |i: int| seq![vs[i].u, vs[i].v])
}

/// Converting one face group: remap its triangle range, then append the
/// position, normal, texture-coordinate and index arrays.
pub open spec fn spec_convert_group(f: FileModel, mi: int, gi: int, bm: BuilderModel) -> Result<
    (PrimitiveModel, BuilderModel),
    DdmError,
> {
    let mesh = f.meshes[mi];
    let pname = primitive_name(mesh.name, mesh.face_groups.len() > 1, gi);
    let inds = spec_group_indices(f, mi, gi);
    if first_occurrences(inds).len() > 65536 {
        Err(DdmError::IndexOverflow)
    } else {
        let verts = spec_remap_verts(f.vertices, inds);
        let r1 = spec_add_array(bm, pname + pos_suffix(), spec_positions(verts));
        let r2 = spec_add_array(r1.0, pname + norm_suffix(), spec_normals(verts));
        let r3 = spec_add_array(r2.0, pname + uv_suffix(), spec_uvs(verts));
        let r4 = spec_add_scalar(r3.0, pname + face_suffix(), spec_remap_faces(inds));
        Ok(
            (
                PrimitiveModel {
                    name: pname,
                    material: mi,
                    position_accessor: r1.1,
                    normal_accessor: r2.1,
                    uv_accessor: r3.1,
                    index_accessor: r4.1,
                },
                r4.0,
            ),
        )
    }
}

/// Converting the face groups of mesh `mi` from group `gi` on.
pub open spec fn spec_convert_mesh(
    f: FileModel,
    mi: int,
    gi: int,
    prims: Seq<PrimitiveModel>,
    bm: BuilderModel,
) -> Result<(Seq<PrimitiveModel>, BuilderModel), DdmError>
    decreases f.meshes[mi].face_groups.len() - gi,
{
    if gi >= f.meshes[mi].face_groups.len() {
        Ok((prims, bm))
    } else {
        match spec_convert_group(f, mi, gi, bm) {
            Ok((p, bm2)) => spec_convert_mesh(f, mi, gi + 1, prims.push(p), bm2),
            Err(e) => Err(e),
        }
    }
}

/// Converting the meshes from mesh `mi` on.
pub open spec fn spec_convert_meshes(
    f: FileModel,
    mi: int,
    prims: Seq<PrimitiveModel>,
    bm: BuilderModel,
) -> Result<(Seq<PrimitiveModel>, BuilderModel), DdmError>
    decreases f.meshes.len() - mi,
{
    if mi >= f.meshes.len() {
        Ok((prims, bm))
    } else {
        match spec_convert_mesh(f, mi, 0, prims, bm) {
            Ok((p2, b2)) => spec_convert_meshes(f, mi + 1, p2, b2),
            Err(e) => Err(e),
        }
    }
}

/// Converting the rest of a container, standing in mesh `mi` before group
/// `gi`.
pub open spec fn spec_convert_from(
    f: FileModel,
    mi: int,
    gi: int,
    prims: Seq<PrimitiveModel>,
    bm: BuilderModel,
) -> Result<(Seq<PrimitiveModel>, BuilderModel), DdmError> {
    match spec_convert_mesh(f, mi, gi, prims, bm) {
        Ok((p2, b2)) => spec_convert_meshes(f, mi + 1, p2, b2),
        Err(e) => Err(e),
    }
}

/// A builder that holds nothing yet.
pub open spec fn empty_builder() -> BuilderModel {
    BuilderModel {
        data: Seq::<u8>::empty(),
        views: Seq::empty(),
        accessors: Seq::empty(),
    }
}

/// What converting a whole container yields: every mesh's face groups in
/// order, each remapped and appended to one builder.
pub open spec fn spec_build_geometry(f: FileModel) -> Result<
    (Seq<PrimitiveModel>, BuilderModel),
    DdmError,
> {
    spec_convert_meshes(f, 0, Seq::empty(), empty_builder())
}

/// Converts one face group: remaps its triangle range and appends its
/// position, normal, texture-coordinate and index arrays to the builder.
#[verifier::loop_isolation(false)]
#[verifier::rlimit(100)]
fn convert_group(
    builder: &mut AccessorBuilder,
    ddm: &DdmFile,
    mi: usize,
    gi: usize,
    multi: bool,
) -> (r: Result<GltfPrimitive, DdmError>)
    requires
        geometry_ok(ddm@),
        mi < ddm@.meshes.len(),
        gi < ddm@.meshes[mi as int].face_groups.len(),
        multi == (ddm@.meshes[mi as int].face_groups.len() > 1),
    ensures
        match r {
            Ok(p) => spec_convert_group(ddm@, mi as int, gi as int, old(builder)@)
                == Ok::<(PrimitiveModel, BuilderModel), DdmError>((p@, final(builder)@)),
            Err(e) => {
                &&& spec_convert_group(ddm@, mi as int, gi as int, old(builder)@)
                    == Err::<(PrimitiveModel, BuilderModel), DdmError>(e)
                &&& final(builder)@ == old(builder)@
            },
        },
{
    let ghost f = ddm@;
    let ghost b0 = builder@;
    let ghost gm = f.meshes[mi as int].face_groups[gi as int];
    let ghost pname = primitive_name(f.meshes[mi as int].name, multi, gi as int);
    let ghost sinds = spec_group_indices(f, mi as int, gi as int);

    let mesh = &ddm.meshes[mi];
    let g = &mesh.face_groups[gi];
    proof {
        assert(mesh_groups_fit(f.meshes[mi as int], f.triangles.len() as int));
        assert(g@ == gm);
        assert(group_fits(gm, f.triangles.len() as int));
    }

    // The primitive's name: the mesh's name, or name.index for a mesh of
    // several groups.
    let prim_name = if multi {
        let mut s = mesh.name.clone();
        s.append(".");
        let digits = u64_to_decimal(gi as u64);
        s.append(digits.as_str());
        s
    } else {
        mesh.name.clone()
    };
    proof {
        assert(prim_name@ == pname);
    }

    // The group's range of the shared triangle buffer, widened.
    let tri_len = ddm.triangles.len();
    let start = g.triangle_start_idx as usize;
    let count3 = (g.triangle_count as usize) * 3;
    let mut inds: Vec<u32> = Vec::new();
    let mut t: usize = 0;
    while t < count3
        invariant
            t <= count3,
            count3 == gm.triangle_count * 3,
            start == gm.triangle_start_idx,
            tri_len == ddm.triangles@.len(),
            start + count3 <= tri_len,
            inds@ == sinds.take(t as int),
        decreases count3 - t,
    {
        inds.push(ddm.triangles[start + t] as u32);
        proof {
            assert(inds@ =~= sinds.take(t as int + 1));
        }
        t += 1;
    }
    proof {
        assert(inds@ =~= sinds);
        assert forall|k: int| 0 <= k < inds@.len() implies (inds@[k] as int)
            < ddm.vertices@.len() by {
            assert(f.triangles[gm.triangle_start_idx + k] == ddm.triangles@[
                gm.triangle_start_idx + k
            ]);
        }
    }

    let vp = match remap_face_group(&ddm.vertices, &inds) {
        Ok(vp) => vp,
        Err(e) => {
            return Err(e);
        },
    };
    let verts = vp.0;
    let faces = vp.1;
    let ghost sverts = spec_remap_verts(f.vertices, sinds);
    proof {
        assert(verts@ =~= sverts);
        assert(faces@ =~= spec_remap_faces(sinds));
    }

    // The group's typed arrays.
    let mut pos: Vec<Vec<u32>> = Vec::new();
    let mut norm: Vec<Vec<u32>> = Vec::new();
    let mut uv: Vec<Vec<u32>> = Vec::new();
    proof {
        assert(views_of(pos@) =~= spec_positions(verts@).take(0));
        assert(views_of(norm@) =~= spec_normals(verts@).take(0));
        assert(views_of(uv@) =~= spec_uvs(verts@).take(0));
    }
    let mut vi: usize = 0;
    while vi < verts.len()
        invariant
            vi <= verts@.len(),
            views_of(pos@) == spec_positions(verts@).take(vi as int),
            views_of(norm@) == spec_normals(verts@).take(vi as int),
            views_of(uv@) == spec_uvs(verts@).take(vi as int),
        decreases verts@.len() - vi,
    {
        let v = &verts[vi];
        let mut pe: Vec<u32> = Vec::new();
        pe.push(v.x ^ 0x8000_0000);
        pe.push(v.y);
        pe.push(v.z);
        let mut ne: Vec<u32> = Vec::new();
        ne.push(v.nx);
        ne.push(v.ny);
        ne.push(v.nz);
        let mut ue: Vec<u32> = Vec::new();
        ue.push(v.u);
        ue.push(v.v);
        proof {
            assert(pe@ =~= spec_positions(verts@)[vi as int]);
            assert(ne@ =~= spec_normals(verts@)[vi as int]);
            assert(ue@ =~= spec_uvs(verts@)[vi as int]);
        }
        pos.push(pe);
        norm.push(ne);
        uv.push(ue);
        proof {
            assert(views_of(pos@) =~= spec_positions(verts@).take(vi as int + 1));
            assert(views_of(norm@) =~= spec_normals(verts@).take(vi as int + 1));
            assert(views_of(uv@) =~= spec_uvs(verts@).take(vi as int + 1));
        }
        vi += 1;
    }
    proof {
        assert(views_of(pos@) =~= spec_positions(sverts));
        assert(views_of(norm@) =~= spec_normals(sverts));
        assert(views_of(uv@) =~= spec_uvs(sverts));
        assert forall|w: int| 0 <= w < pos@.len() implies (#[trigger] pos@[w]@.len())
            == pos@[0]@.len() by {
            assert(views_of(pos@)[w] == pos@[w]@);
            assert(views_of(pos@)[0] == pos@[0]@);
        }
        assert forall|w: int| 0 <= w < norm@.len() implies (#[trigger] norm@[w]@.len())
            == norm@[0]@.len() by {
            assert(views_of(norm@)[w] == norm@[w]@);
            assert(views_of(norm@)[0] == norm@[0]@);
        }
        assert forall|w: int| 0 <= w < uv@.len() implies (#[trigger] uv@[w]@.len())
            == uv@[0]@.len() by {
            assert(views_of(uv@)[w] == uv@[w]@);
            assert(views_of(uv@)[0] == uv@[0]@);
        }
    }

    let pos_idx = builder.add_array(prim_name.clone().concat("_pos"), &pos);
    let ghost b1 = builder@;
    let norm_idx = builder.add_array(prim_name.clone().concat("_norm"), &norm);
    let ghost b2 = builder@;
    let uv_idx = builder.add_array(prim_name.clone().concat("_uv"), &uv);
    let ghost b3 = builder@;
    let face_idx = builder.add_scalar(prim_name.clone().concat("_face"), faces);

    let prim = GltfPrimitive {
        name: prim_name,
        material: mi,
        position_accessor: pos_idx,
        normal_accessor: norm_idx,
        uv_accessor: uv_idx,
        index_accessor: face_idx,
    };
    proof {
        let r1 = spec_add_array(b0, pname + pos_suffix(), spec_positions(sverts));
        let r2 = spec_add_array(r1.0, pname + norm_suffix(), spec_normals(sverts));
        let r3 = spec_add_array(r2.0, pname + uv_suffix(), spec_uvs(sverts));
        let r4 = spec_add_scalar(r3.0, pname + face_suffix(), spec_remap_faces(sinds));
        assert(r1 == (b1, opt_index(pos_idx)));
        assert(r2 == (b2, opt_index(norm_idx)));
        assert(r3 == (b3, opt_index(uv_idx)));
        assert(r4 == (builder@, opt_index(face_idx)));
        assert(spec_convert_group(f, mi as int, gi as int, b0)
            == Ok::<(PrimitiveModel, BuilderModel), DdmError>((prim@, builder@)));
    }
    Ok(prim)
}

/// Converts a decoded container: remaps every face group of every mesh in
/// order and accumulates each group's position, normal, texture-coordinate
/// and index arrays into one builder. The result is exactly what
/// `spec_build_geometry` says, and the conversion fails exactly when a
/// group references more distinct vertices than the compact-index space
/// holds.
#[verifier::loop_isolation(false)]
#[verifier::rlimit(100)]
pub fn build_geometry(ddm: &DdmFile) -> (r: Result<(Vec<GltfPrimitive>, AccessorBuilder), DdmError>)
    requires
        geometry_ok(ddm@),
    ensures
        match r {
            Ok(pb) => spec_build_geometry(ddm@) == Ok::<(Seq<PrimitiveModel>, BuilderModel), DdmError>(
                (primitive_views(pb.0@), pb.1@),
            ),
            Err(e) => spec_build_geometry(ddm@) == Err::<(Seq<PrimitiveModel>, BuilderModel), DdmError>(
                e,
            ),
        },
{
    let ghost f = ddm@;
    let ghost target = spec_build_geometry(f);
    let mut builder = AccessorBuilder::new();
    let mut prims: Vec<GltfPrimitive> = Vec::new();
    proof {
        assert(builder@ =~~= empty_builder());
        assert(primitive_views(prims@) =~= Seq::<PrimitiveModel>::empty());
    }
    let mut mi: usize = 0;
    while mi < ddm.meshes.len()
        invariant
            mi <= ddm.meshes@.len(),
            spec_convert_meshes(f, mi as int, primitive_views(prims@), builder@) == target,
        decreases ddm.meshes@.len() - mi,
    {
        let multi = ddm.meshes[mi].face_groups.len() > 1;
        let group_count = ddm.meshes[mi].face_groups.len();
        let mut gi: usize = 0;
        while gi < group_count
            invariant
                gi <= group_count,
                mi < ddm.meshes@.len(),
                group_count == f.meshes[mi as int].face_groups.len(),
                multi == (f.meshes[mi as int].face_groups.len() > 1),
                spec_convert_from(f, mi as int, gi as int, primitive_views(prims@), builder@)
                    == target,
            decreases group_count - gi,
        {
            match convert_group(&mut builder, ddm, mi, gi, multi) {
                Ok(prim) => {
                    let ghost prev_views = primitive_views(prims@);
                    prims.push(prim);
                    proof {
                        assert(primitive_views(prims@) =~= prev_views.push(prim@));
                    }
                    gi += 1;
                },
                Err(e) => {
                    return Err(e);
                },
            }
        }
        mi += 1;
    }
    Ok((prims, builder))
}

} // verus!