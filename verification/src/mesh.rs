//! The indexed mesh: a deduplicated vertex list plus facets that reference
//! vertices by index, each with a normal recomputed from its own geometry.

use vstd::prelude::*;

use crate::vector::Vector3D;
use crate::vector::VertexMap;
use crate::vector::dedup;
use crate::vector::first_index;
use crate::vector::lemma_dedup_contains;
use crate::vector::lemma_first_index;
use crate::stl::StlFacet;
use crate::stl::stl_facet_normal;

verus! {

/// A facet of an indexed mesh: three indices into the mesh's vertex list and
/// a normal vector.  The normal is always recomputed from the triangle's own
/// geometry, never copied from a file's declared normal.
#[derive(Clone, Copy, Debug, PartialEq, Eq, Hash, Structural)]
pub struct Facet {
    pub v1: usize,
    pub v2: usize,
    pub v3: usize,
    pub n: Vector3D,
}

/// An ordered sequence of unique vertices plus an ordered sequence of facets
/// referencing them by index.
#[derive(Clone, Debug, PartialEq, Eq)]
pub struct Mesh {
    pub vertices: Vec<Vector3D>,
    pub facets: Vec<Facet>,
}

/// Whether the facet's three indices are valid for a vertex list of length
/// `nverts`.
pub open spec fn facet_wf(f: Facet, nverts: nat) -> bool {
    f.v1 < nverts && f.v2 < nverts && f.v3 < nverts
}

/// The vertex stream of a facet sequence: each facet's three vertices, in
/// facet order.
pub open spec fn facet_stream(fs: Seq<StlFacet>) -> Seq<Vector3D>
    decreases fs.len(),
{
    if fs.len() == 0 {
        Seq::empty()
    } else {
        facet_stream(fs.drop_last()) + seq![fs.last().v1, fs.last().v2, fs.last().v3]
    }
}

/// The deduplicated vertex list a facet sequence gives rise to, in
/// first-seen order.
pub open spec fn mesh_vertices_of(fs: Seq<StlFacet>) -> Seq<Vector3D> {
    dedup(facet_stream(fs))
}

/// A raw facet turned into an indexed facet against a vertex list: each
/// vertex replaced by the index of its first occurrence, and the normal
/// recomputed from the raw geometry.
pub open spec fn indexed_facet(f: StlFacet, verts: Seq<Vector3D>) -> Facet {
    Facet {
        v1: first_index(verts, f.v1) as usize,
        v2: first_index(verts, f.v2) as usize,
        v3: first_index(verts, f.v3) as usize,
        n: stl_facet_normal(f),
    }
}

/// The facet list a raw facet sequence gives rise to, in input order.
pub open spec fn mesh_facets_of(fs: Seq<StlFacet>) -> Seq<Facet> {
    Seq::new(fs.len(), |i: int| indexed_facet(fs[i], mesh_vertices_of(fs)))
}

/// Every vertex of facet `i` occurs in the facet stream.
pub proof fn lemma_stream_mem(fs: Seq<StlFacet>, i: int)
    requires
        0 <= i < fs.len(),
    ensures
        facet_stream(fs).contains(fs[i].v1),
        facet_stream(fs).contains(fs[i].v2),
        facet_stream(fs).contains(fs[i].v3),
    decreases fs.len(),
{
    let t = facet_stream(fs.drop_last());
    if i == fs.len() - 1 {
        assert(facet_stream(fs)[t.len() as int] == fs[i].v1);
        assert(facet_stream(fs)[t.len() as int + 1] == fs[i].v2);
        assert(facet_stream(fs)[t.len() as int + 2] == fs[i].v3);
    } else {
        lemma_stream_mem(fs.drop_last(), i);
        assert(fs.drop_last()[i] == fs[i]);
        let w1 = choose|w: int| 0 <= w < t.len() && t[w] == fs[i].v1;
        assert(facet_stream(fs)[w1] == fs[i].v1);
        let w2 = choose|w: int| 0 <= w < t.len() && t[w] == fs[i].v2;
        assert(facet_stream(fs)[w2] == fs[i].v2);
        let w3 = choose|w: int| 0 <= w < t.len() && t[w] == fs[i].v3;
        assert(facet_stream(fs)[w3] == fs[i].v3);
    }
}

/// Index validity: in the mesh a facet sequence gives rise to, every facet
/// index points into the vertex list.
pub proof fn lemma_index_validity(fs: Seq<StlFacet>, i: int)
    requires
        0 <= i < fs.len(),
    ensures
        facet_wf(mesh_facets_of(fs)[i], mesh_vertices_of(fs).len()),
{
    lemma_stream_mem(fs, i);
    lemma_dedup_contains(facet_stream(fs), fs[i].v1);
    lemma_dedup_contains(facet_stream(fs), fs[i].v2);
    lemma_dedup_contains(facet_stream(fs), fs[i].v3);
    lemma_first_index(mesh_vertices_of(fs), fs[i].v1);
    lemma_first_index(mesh_vertices_of(fs), fs[i].v2);
    lemma_first_index(mesh_vertices_of(fs), fs[i].v3);
}

impl Mesh {
    /// Every facet's indices are valid for the vertex list.
    pub open spec fn wf(&self) -> bool {
        forall|i: int|
            0 <= i < self.facets@.len() ==> facet_wf(#[trigger] self.facets@[i], self.vertices@.len())
    }

    /// An empty mesh.
    pub fn new() -> (r: Mesh)
        ensures
            r.vertices@ == Seq::<Vector3D>::empty(),
            r.facets@ == Seq::<Facet>::empty(),
            r.wf(),
    {
        let r = Mesh { vertices: Vec::new(), facets: Vec::new() };
        assert(r.vertices@ =~= Seq::<Vector3D>::empty());
        assert(r.facets@ =~= Seq::<Facet>::empty());
        r
    }

    /// A mesh assembled from caller-supplied parts; the indices must already
    /// be valid for the vertex list.
    pub fn new_from_parts(vertices: Vec<Vector3D>, facets: Vec<Facet>) -> (r: Mesh)
        requires
            forall|i: int|
                0 <= i < facets@.len() ==> facet_wf(#[trigger] facets@[i], vertices@.len()),
        ensures
            r.vertices@ == vertices@,
            r.facets@ == facets@,
            r.wf(),
    {
        Mesh { vertices, facets }
    }

    /// Builds the indexed mesh for a raw facet sequence whose vertices have
    /// already been deduplicated into `vm`: the vertex table is `vm`'s, and
    /// facet `i` is facet `i` of the input with each vertex replaced by its
    /// index and the normal recomputed.
    pub fn new_from_stl(fv: &Vec<StlFacet>, vm: &VertexMap) -> (r: Mesh)
        requires
            vm.wf(),
            vm@ == mesh_vertices_of(fv@),
        ensures
            r.vertices@ == mesh_vertices_of(fv@),
            r.facets@ == mesh_facets_of(fv@),
            r.wf(),
    {
        let vs = vm.vector();
        let fs = Mesh::indexed_vertices(fv, vm);
        let r = Mesh { vertices: vs, facets: fs };
        proof {
            assert forall|i: int| 0 <= i < r.facets@.len() implies facet_wf(
                #[trigger] r.facets@[i],
                r.vertices@.len(),
            ) by {
                lemma_index_validity(fv@, i);
            }
        }
        r
    }

    /// The facet list for `fv` against the deduplicated vertex table `vm`.
    fn indexed_vertices(fv: &Vec<StlFacet>, vm: &VertexMap) -> (r: Vec<Facet>)
        requires
            vm.wf(),
            vm@ == mesh_vertices_of(fv@),
        ensures
            r@ == mesh_facets_of(fv@),
    {
        let mut v: Vec<Facet> = Vec::new();
        let n = fv.len();
        let mut i: usize = 0;
        while i < n
            invariant
                n == fv@.len(),
                vm.wf(),
                vm@ == mesh_vertices_of(fv@),
                i <= n,
                v@.len() == i,
                forall|j: int| 0 <= j < i ==> v@[j] == indexed_facet(fv@[j], mesh_vertices_of(fv@)),
            decreases n - i,
        {
            let f = &fv[i];
            proof {
                lemma_stream_mem(fv@, i as int);
                lemma_dedup_contains(facet_stream(fv@), fv@[i as int].v1);
                lemma_dedup_contains(facet_stream(fv@), fv@[i as int].v2);
                lemma_dedup_contains(facet_stream(fv@), fv@[i as int].v3);
            }
            let v1 = vm.get(&f.v1);
            let v2 = vm.get(&f.v2);
            let v3 = vm.get(&f.v3);
            let nv = f.calculate_normal_vector();
            v.push(Facet { v1, v2, v3, n: nv });
            i = i + 1;
        }
        proof {
            assert(v@ =~= mesh_facets_of(fv@));
        }
        v
    }
}

} // verus!
