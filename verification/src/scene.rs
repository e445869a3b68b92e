use vstd::prelude::*;
use vstd::arithmetic::div_mod::lemma_fundamental_div_mod_converse;

verus! {

/// Latitude bands of a tessellated sphere.
pub const SPHERE_LAT: u32 = 32;

/// Longitude segments of a tessellated sphere.
pub const SPHERE_LON: u32 = 32;

/// Vertices of one tessellated sphere: a `(LAT + 1) x (LON + 1)` grid, row by row.
pub open spec fn sphere_vertex_count() -> int {
    (SPHERE_LAT + 1) * (SPHERE_LON + 1)
}

/// Corner `corner` of triangle `t` of a sphere grid whose first vertex is `base`. Cell
/// `t / 2` (row `cell / LON`, column `cell % LON`) has corners `a`, `a + 1` on its upper
/// ring and `b`, `b + 1` on the ring below; its triangles are `(a, b, a + 1)` and
/// `(a + 1, b, b + 1)`.
pub open spec fn sphere_corner(base: int, t: int, corner: int) -> int {
    let cell = t / 2;
    let ring = SPHERE_LON + 1;
    let a = base + (cell / (SPHERE_LON as int)) * ring + cell % (SPHERE_LON as int);
    let b = a + ring;
    if t % 2 == 0 {
        if corner == 0 {
            a
        } else if corner == 1 {
            b
        } else {
            a + 1
        }
    } else {
        if corner == 0 {
            a + 1
        } else if corner == 1 {
            b
        } else {
            b + 1
        }
    }
}

/// Triangles of one tessellated sphere.
pub open spec fn sphere_triangle_count() -> int {
    SPHERE_LAT * SPHERE_LON * 2
}

/// The index list of one sphere grid whose first vertex is `base`, three corners per
/// triangle.
pub open spec fn sphere_indices(base: int) -> Seq<u32> {
    Seq::new((sphere_triangle_count() * 3) as nat, |j: int| sphere_corner(base, j / 3, j % 3) as u32)
}

/// The index list of one quad whose four corners `q`, `q + u`, `q + v`, `q + u + v` are
/// vertices `base` to `base + 3`: triangles `(0, 1, 2)` and `(1, 3, 2)`.
pub open spec fn quad_indices(base: int) -> Seq<u32> {
    seq![
        base as u32,
        (base + 1) as u32,
        (base + 2) as u32,
        (base + 1) as u32,
        (base + 3) as u32,
        (base + 2) as u32,
    ]
}

/// `n` copies of `mat_idx`, one material slot per triangle.
pub open spec fn material_run(mat_idx: u32, n: int) -> Seq<u32> {
    Seq::new(n as nat, |i: int| mat_idx)
}

/// A sphere grid has `33 * 33` vertices and `2 * 32 * 32` triangles.
proof fn lemma_sphere_counts()
    ensures
        sphere_vertex_count() == 1089,
        sphere_triangle_count() == 2048,
{
}

proof fn lemma_sphere_cell(base: int, lat: int, lon: int)
    requires
        0 <= lat < SPHERE_LAT,
        0 <= lon < SPHERE_LON,
    ensures
        ({
            let cell = lat * SPHERE_LON + lon;
            let a = base + lat * (SPHERE_LON + 1) + lon;
            let b = a + SPHERE_LON + 1;
            &&& sphere_corner(base, 2 * cell, 0) == a
            &&& sphere_corner(base, 2 * cell, 1) == b
            &&& sphere_corner(base, 2 * cell, 2) == a + 1
            &&& sphere_corner(base, 2 * cell + 1, 0) == a + 1
            &&& sphere_corner(base, 2 * cell + 1, 1) == b
            &&& sphere_corner(base, 2 * cell + 1, 2) == b + 1
        }),
{
    let cell = lat * SPHERE_LON + lon;
    lemma_fundamental_div_mod_converse(2 * cell, 2, cell, 0);
    lemma_fundamental_div_mod_converse(2 * cell + 1, 2, cell, 1);
    lemma_fundamental_div_mod_converse(cell, SPHERE_LON as int, lat, lon);
}

proof fn lemma_six_positions(cell: int, m: int)
    requires
        0 <= cell,
        0 <= m < 6,
    ensures
        (6 * cell + m) / 3 == 2 * cell + m / 3,
        (6 * cell + m) % 3 == m % 3,
{
    lemma_fundamental_div_mod_converse(6 * cell + m, 3, 2 * cell + m / 3, m % 3);
}

proof fn lemma_sphere_step(base: int, lat: int, lon: int)
    requires
        0 <= base,
        base + sphere_vertex_count() <= u32::MAX + 1,
        0 <= lat < SPHERE_LAT,
        0 <= lon < SPHERE_LON,
    ensures
        ({
            let cell = lat * SPHERE_LON + lon;
            let a = base + lat * (SPHERE_LON + 1) + lon;
            let b = a + SPHERE_LON + 1;
            sphere_indices(base).take(6 * cell + 6) =~= sphere_indices(base).take(6 * cell) + seq![
                a as u32,
                b as u32,
                (a + 1) as u32,
                (a + 1) as u32,
                b as u32,
                (b + 1) as u32,
            ]
        }),
{
    let all = sphere_indices(base);
    let cell = lat * SPHERE_LON + lon;
    lemma_sphere_cell(base, lat, lon);
    assert forall|m: int| 0 <= m < 6 implies #[trigger] all[6 * cell + m] == sphere_corner(
        base,
        2 * cell + m / 3,
        m % 3,
    ) as u32 by {
        lemma_six_positions(cell, m);
    }
    assert(all[6 * cell + 0] == all[6 * cell]);
}

/// Appends the triangles of one tessellated sphere whose first grid vertex is `base_vert`:
/// two triangles per grid cell, cells row by row, each tagged with material `mat_idx`.
pub fn append_sphere_triangles(
    indices: &mut Vec<u32>,
    tri_to_material: &mut Vec<u32>,
    base_vert: u32,
    mat_idx: u32,
)
    requires
        base_vert + sphere_vertex_count() <= u32::MAX + 1,
    ensures
        final(indices)@ == old(indices)@ + sphere_indices(base_vert as int),
        final(tri_to_material)@ == old(tri_to_material)@ + material_run(
            mat_idx,
            sphere_triangle_count(),
        ),
{
    let ghost idx0 = indices@;
    let ghost tri0 = tri_to_material@;
    let ghost all = sphere_indices(base_vert as int);
    let ghost mats = material_run(mat_idx, sphere_triangle_count());
    let verts_per_ring = SPHERE_LON + 1;
    let mut lat: u32 = 0;
    while lat < SPHERE_LAT
        invariant
            base_vert + sphere_vertex_count() <= u32::MAX + 1,
            verts_per_ring == SPHERE_LON + 1,
            all == sphere_indices(base_vert as int),
            mats == material_run(mat_idx, sphere_triangle_count()),
            lat <= SPHERE_LAT,
            indices@ =~= idx0 + all.take(lat * SPHERE_LON * 6),
            tri_to_material@ =~= tri0 + mats.take(lat * SPHERE_LON * 2),
        decreases SPHERE_LAT - lat,
    {
        let mut lon: u32 = 0;
        while lon < SPHERE_LON
            invariant
                base_vert + sphere_vertex_count() <= u32::MAX + 1,
                verts_per_ring == SPHERE_LON + 1,
                all == sphere_indices(base_vert as int),
                mats == material_run(mat_idx, sphere_triangle_count()),
                lat < SPHERE_LAT,
                lon <= SPHERE_LON,
                indices@ =~= idx0 + all.take((lat * SPHERE_LON + lon) * 6),
                tri_to_material@ =~= tri0 + mats.take((lat * SPHERE_LON + lon) * 2),
            decreases SPHERE_LON - lon,
        {
            proof {
                assert(lat * verts_per_ring == lat * 33 && lat * 33 <= 1023) by (nonlinear_arith)
                    requires
                        verts_per_ring == 33,
                        lat < 32,
                ;
                lemma_sphere_counts();
                assert(base_vert + lat * verts_per_ring + lon + 34 <= u32::MAX);
            }
            let a = base_vert + lat * verts_per_ring + lon;
            let b = a + verts_per_ring;
            let c = a + 1;
            let d = b + 1;
            let ghost cell = lat * SPHERE_LON + lon;
            let ghost before = indices@;
            let ghost tri_before = tri_to_material@;
            proof {
                lemma_sphere_step(base_vert as int, lat as int, lon as int);
                assert(mats.take(2 * cell + 2) =~= mats.take(2 * cell) + seq![mat_idx, mat_idx]);
            }

            indices.push(a);
            indices.push(b);
            indices.push(c);
            tri_to_material.push(mat_idx);

            indices.push(c);
            indices.push(b);
            indices.push(d);
            tri_to_material.push(mat_idx);

            proof {
                assert(indices@ =~= before + seq![a, b, c, c, b, d]);
                assert(tri_to_material@ =~= tri_before + seq![mat_idx, mat_idx]);
                assert(idx0 + all.take(6 * cell) + seq![a, b, c, c, b, d] =~= idx0 + (all.take(6 * cell) + seq![a, b, c, c, b, d]));
                assert(tri0 + mats.take(2 * cell) + seq![mat_idx, mat_idx] =~= tri0 + (mats.take(2 * cell) + seq![mat_idx, mat_idx]));
            }
            lon = lon + 1;
        }
        lat = lat + 1;
    }
    proof {
        assert(all.take(SPHERE_LAT * SPHERE_LON * 6) =~= all);
        assert(mats.take(SPHERE_LAT * SPHERE_LON * 2) =~= mats);
    }
}

/// Appends the two triangles of a quad whose corners are vertices `base_vert` to
/// `base_vert + 3`, each tagged with material `mat_idx`.
pub fn append_quad_triangles(
    indices: &mut Vec<u32>,
    tri_to_material: &mut Vec<u32>,
    base_vert: u32,
    mat_idx: u32,
)
    requires
        base_vert + 4 <= u32::MAX + 1,
    ensures
        final(indices)@ == old(indices)@ + quad_indices(base_vert as int),
        final(tri_to_material)@ == old(tri_to_material)@ + material_run(mat_idx, 2),
{
    indices.push(base_vert);
    indices.push(base_vert + 1);
    indices.push(base_vert + 2);
    tri_to_material.push(mat_idx);

    indices.push(base_vert + 1);
    indices.push(base_vert + 3);
    indices.push(base_vert + 2);
    tri_to_material.push(mat_idx);
    proof {
        assert(material_run(mat_idx, 2) =~= seq![mat_idx, mat_idx]);
    }
}

/// Every corner of a sphere's triangles is one of that sphere's own grid vertices, and the
/// sphere has `2 * LAT * LON` triangles.
pub proof fn lemma_sphere_indices_in_grid(base: int, j: int)
    requires
        0 <= base,
        base + sphere_vertex_count() <= u32::MAX + 1,
        0 <= j < sphere_indices(base).len(),
    ensures
        sphere_indices(base).len() == 3 * sphere_triangle_count(),
        sphere_triangle_count() == 2048,
        base <= sphere_indices(base)[j] < base + sphere_vertex_count(),
{
    let t = j / 3;
    let cell = t / 2;
    let lat = cell / (SPHERE_LON as int);
    let lon = cell % (SPHERE_LON as int);
    assert(0 <= t < sphere_triangle_count());
    assert(0 <= cell < SPHERE_LAT * SPHERE_LON);
    assert(0 <= lat < SPHERE_LAT);
    assert(0 <= lon < SPHERE_LON);
    let a = base + lat * (SPHERE_LON + 1) + lon;
    assert(a + SPHERE_LON + 2 < base + sphere_vertex_count());
}

/// Every corner of a quad's triangles is one of its four vertices.
pub proof fn lemma_quad_indices_in_range(base: int, j: int)
    requires
        0 <= base,
        base + 4 <= u32::MAX + 1,
        0 <= j < 6,
    ensures
        quad_indices(base).len() == 6,
        base <= quad_indices(base)[j] < base + 4,
{
}

/// Positions, in increasing order, of the first occurrence of each distinct material key;
/// objects without a material (`None`) take no slot.
pub open spec fn first_key_positions(keys: Seq<Option<usize>>) -> Seq<int>
    decreases keys.len(),
{
    if keys.len() == 0 {
        Seq::empty()
    } else {
        let prefix = keys.drop_last();
        let prev = first_key_positions(prefix);
        if keys.last() is Some && !prefix.contains(keys.last()) {
            prev.push(keys.len() - 1)
        } else {
            prev
        }
    }
}

/// Gives each object the slot of its material in the list of distinct materials, keyed by
/// `keys` (the identity of each object's material, `None` for an object without one). The
/// first result holds, per slot, the position of the object where that material first
/// occurs; the second holds each object's slot, 0 for an object without a material.
pub fn assign_material_slots(keys: &Vec<Option<usize>>) -> (out: (Vec<usize>, Vec<u32>))
    requires
        keys@.len() <= u32::MAX,
    ensures
        out.0@.map_values(|p: usize| p as int) == first_key_positions(keys@),
        out.1@.len() == keys@.len(),
        forall|s: int| 0 <= s < out.0@.len() ==> #[trigger] keys@[out.0@[s] as int] is Some,
        forall|s: int, t: int|
            0 <= s < out.0@.len() && 0 <= t < out.0@.len() && s != t ==> keys@[out.0@[s] as int]
                != keys@[out.0@[t] as int],
        forall|i: int|
            0 <= i < keys@.len() && keys@[i] is None ==> #[trigger] out.1@[i] == 0,
        forall|i: int|
            0 <= i < keys@.len() && keys@[i] is Some ==> #[trigger] out.1@[i] < out.0@.len()
                && keys@[out.0@[out.1@[i] as int] as int] == keys@[i],
{
    let mut reps: Vec<usize> = Vec::new();
    let mut rep_keys: Vec<usize> = Vec::new();
    let mut slots: Vec<u32> = Vec::new();
    let mut i: usize = 0;
    while i < keys.len()
        invariant
            keys@.len() <= u32::MAX,
            i <= keys@.len(),
            reps@.map_values(|p: usize| p as int) == first_key_positions(keys@.take(i as int)),
            rep_keys@.len() == reps@.len(),
            reps@.len() <= i,
            slots@.len() == i,
            forall|s: int|
                0 <= s < reps@.len() ==> #[trigger] reps@[s] < i && keys@[reps@[s] as int]
                    == Some(rep_keys@[s]),
            forall|s: int, t: int|
                0 <= s < reps@.len() && 0 <= t < reps@.len() && s != t ==> rep_keys@[s]
                    != rep_keys@[t],
            forall|j: int| 0 <= j < i && keys@[j] is None ==> #[trigger] slots@[j] == 0,
            forall|j: int|
                0 <= j < i && keys@[j] is Some ==> #[trigger] slots@[j] < reps@.len()
                    && keys@[j] == Some(rep_keys@[slots@[j] as int]),
        decreases keys@.len() - i,
    {
        let ghost prefix = keys@.take(i as int);
        proof {
            assert(keys@.take(i + 1).drop_last() =~= prefix);
        }
        match keys[i] {
            Some(k) => {
                let mut s: usize = 0;
                while s < rep_keys.len() && rep_keys[s] != k
                    invariant
                        0 <= s <= rep_keys@.len(),
                        forall|t: int| 0 <= t < s ==> rep_keys@[t] != k,
                    decreases rep_keys@.len() - s,
                {
                    s = s + 1;
                }
                if s < rep_keys.len() {
                    proof {
                        let j = reps@[s as int] as int;
                        assert(prefix[j] == keys@[i as int]);
                        assert(prefix.contains(keys@[i as int]));
                    }
                    slots.push(s as u32);
                } else {
                    proof {
                        if prefix.contains(keys@[i as int]) {
                            let j = choose|j: int| 0 <= j < prefix.len() && prefix[j] == keys@[i as int];
                            assert(keys@[j] is Some);
                            let t = slots@[j] as int;
                            assert(rep_keys@[t] == k);
                        }
                    }
                    let ghost old_reps = reps@;
                    slots.push(rep_keys.len() as u32);
                    reps.push(i);
                    rep_keys.push(k);
                    proof {
                        assert(reps@.map_values(|p: usize| p as int) =~= old_reps.map_values(
                            |p: usize| p as int,
                        ).push(i as int));
                    }
                }
            },
            None => {
                slots.push(0);
            },
        }
        i = i + 1;
    }
    proof {
        assert(keys@.take(i as int) =~= keys@);
    }
    (reps, slots)
}

/// The shape every built mesh keeps: three corner indices per triangle, every corner one of
/// the `vertex_count` vertices (a `u32` index), every triangle's material one of the
/// `material_count` materials, and at least one material.
pub open spec fn mesh_ok(
    vertex_count: int,
    material_count: int,
    indices: Seq<u32>,
    tri_to_material: Seq<u32>,
) -> bool {
    &&& indices.len() == 3 * tri_to_material.len()
    &&& forall|i: int| 0 <= i < indices.len() ==> #[trigger] indices[i] < vertex_count
    &&& forall|t: int| 0 <= t < tri_to_material.len() ==> #[trigger] tri_to_material[t] < material_count
    &&& material_count >= 1
    &&& vertex_count <= u32::MAX + 1
}

/// Number of materials of a scene whose objects use `distinct` distinct materials: a
/// default material stands in when there are none.
pub open spec fn material_count_for(distinct: int) -> int {
    if distinct == 0 {
        1
    } else {
        distinct
    }
}

/// The integer side of a triangle mesh built object by object: how many vertices it has,
/// its materials (one per distinct object material, or the default one), each object's
/// material slot, and per triangle its three corners and its material.
pub struct MeshTopology {
    vertex_count: u64,
    material_count: usize,
    object_slots: Vec<u32>,
    indices: Vec<u32>,
    tri_to_material: Vec<u32>,
}

impl MeshTopology {
    /// Vertices added so far.
    pub closed spec fn vertices(&self) -> int {
        self.vertex_count as int
    }

    /// Materials of the mesh.
    pub closed spec fn materials(&self) -> int {
        self.material_count as int
    }

    /// Material slot of each object, by object position.
    pub closed spec fn slots(&self) -> Seq<u32> {
        self.object_slots@
    }

    /// Corner indices, three per triangle.
    pub closed spec fn corners(&self) -> Seq<u32> {
        self.indices@
    }

    /// Material slot of each triangle.
    pub closed spec fn triangle_materials(&self) -> Seq<u32> {
        self.tri_to_material@
    }

    /// The mesh has the shape of `mesh_ok`, and every object's slot is one of its materials.
    pub open spec fn wf(&self) -> bool {
        &&& mesh_ok(self.vertices(), self.materials(), self.corners(), self.triangle_materials())
        &&& forall|i: int| 0 <= i < self.slots().len() ==> #[trigger] self.slots()[i] < self.materials()
    }

    /// An empty mesh for objects whose materials are identified by `keys` (`None` for an
    /// object without one). Distinct keys get slots in order of first occurrence; the
    /// second result holds, per slot, the position of the object where that material first
    /// occurs. An object without a material gets slot 0.
    pub fn for_material_keys(keys: &Vec<Option<usize>>) -> (out: (MeshTopology, Vec<usize>))
        requires
            keys@.len() <= u32::MAX,
        ensures
            out.0.wf(),
            out.0.vertices() == 0,
            out.0.corners().len() == 0,
            out.0.triangle_materials().len() == 0,
            out.1@.map_values(|p: usize| p as int) == first_key_positions(keys@),
            out.0.materials() == material_count_for(out.1@.len() as int),
            out.0.slots().len() == keys@.len(),
            forall|i: int|
                0 <= i < keys@.len() && keys@[i] is None ==> #[trigger] out.0.slots()[i] == 0,
            forall|i: int|
                0 <= i < keys@.len() && keys@[i] is Some ==> #[trigger] out.0.slots()[i]
                    < out.1@.len() && keys@[out.1@[out.0.slots()[i] as int] as int] == keys@[i],
    {
        let (first_objects, slots) = assign_material_slots(keys);
        let material_count = if first_objects.len() == 0 {
            1
        } else {
            first_objects.len()
        };
        let mesh = MeshTopology {
            vertex_count: 0,
            material_count,
            object_slots: slots,
            indices: Vec::new(),
            tri_to_material: Vec::new(),
        };
        proof {
            assert forall|i: int| 0 <= i < mesh.slots().len() implies #[trigger] mesh.slots()[i]
                < mesh.materials() by {
                if keys@[i] is None {
                } else {
                }
            }
        }
        (mesh, first_objects)
    }

    /// Number of vertices added so far.
    pub fn vertex_count(&self) -> (n: u64)
        ensures
            n == self.vertices(),
    {
        self.vertex_count
    }

    /// Number of materials of the mesh.
    pub fn material_count(&self) -> (n: usize)
        ensures
            n == self.materials(),
    {
        self.material_count
    }

    /// Adds the triangles of one tessellated sphere of object `object`, on a vertex grid
    /// that starts after the vertices added so far, and returns that first grid vertex.
    pub fn add_sphere(&mut self, object: usize) -> (base: u32)
        requires
            old(self).wf(),
            object < old(self).slots().len(),
            old(self).vertices() + sphere_vertex_count() <= u32::MAX + 1,
        ensures
            final(self).wf(),
            base == old(self).vertices(),
            final(self).vertices() == old(self).vertices() + sphere_vertex_count(),
            final(self).materials() == old(self).materials(),
            final(self).slots() == old(self).slots(),
            final(self).corners() == old(self).corners() + sphere_indices(base as int),
            final(self).triangle_materials() == old(self).triangle_materials() + material_run(
                old(self).slots()[object as int],
                sphere_triangle_count(),
            ),
    {
        let base = self.vertex_count as u32;
        let mat_idx = self.object_slots[object];
        let ghost old_corners = self.indices@;
        let ghost old_tris = self.tri_to_material@;
        append_sphere_triangles(&mut self.indices, &mut self.tri_to_material, base, mat_idx);
        self.vertex_count = self.vertex_count + 1089;
        proof {
            assert forall|i: int| 0 <= i < self.indices@.len() implies #[trigger] self.indices@[i]
                < self.vertex_count by {
                if i >= old_corners.len() {
                    lemma_sphere_indices_in_grid(base as int, i - old_corners.len());
                }
            }
            assert forall|t: int| 0 <= t < self.tri_to_material@.len() implies #[trigger] self.tri_to_material@[t]
                < self.material_count by {
                if t >= old_tris.len() {
                    assert(self.tri_to_material@[t] == mat_idx);
                }
            }
            lemma_sphere_indices_in_grid(base as int, 0);
        }
        base
    }

    /// Adds the two triangles of a quad of object `object`, whose four corners are the next
    /// vertices after those added so far, and returns the first of them.
    pub fn add_quad(&mut self, object: usize) -> (base: u32)
        requires
            old(self).wf(),
            object < old(self).slots().len(),
            old(self).vertices() + 4 <= u32::MAX + 1,
        ensures
            final(self).wf(),
            base == old(self).vertices(),
            final(self).vertices() == old(self).vertices() + 4,
            final(self).materials() == old(self).materials(),
            final(self).slots() == old(self).slots(),
            final(self).corners() == old(self).corners() + quad_indices(base as int),
            final(self).triangle_materials() == old(self).triangle_materials() + material_run(
                old(self).slots()[object as int],
                2,
            ),
    {
        let base = self.vertex_count as u32;
        let mat_idx = self.object_slots[object];
        let ghost old_corners = self.indices@;
        let ghost old_tris = self.tri_to_material@;
        append_quad_triangles(&mut self.indices, &mut self.tri_to_material, base, mat_idx);
        self.vertex_count = self.vertex_count + 4;
        proof {
            assert forall|i: int| 0 <= i < self.indices@.len() implies #[trigger] self.indices@[i]
                < self.vertex_count by {
                if i >= old_corners.len() {
                    lemma_quad_indices_in_range(base as int, i - old_corners.len());
                }
            }
            assert forall|t: int| 0 <= t < self.tri_to_material@.len() implies #[trigger] self.tri_to_material@[t]
                < self.material_count by {
                if t >= old_tris.len() {
                    assert(self.tri_to_material@[t] == mat_idx);
                }
            }
        }
        base
    }

    /// The finished index buffer and per-triangle materials, which have the shape of
    /// `mesh_ok` for the mesh's vertex and material counts.
    pub fn into_parts(self) -> (parts: (Vec<u32>, Vec<u32>))
        requires
            self.wf(),
        ensures
            parts.0@ == self.corners(),
            parts.1@ == self.triangle_materials(),
            mesh_ok(self.vertices(), self.materials(), parts.0@, parts.1@),
    {
        (self.indices, self.tri_to_material)
    }
}

} // verus!
