//! Binary STL decoding and encoding.
//!
//! The wire format is: an 80-byte header, a little-endian 32-bit facet
//! count, then one 50-byte record per facet (normal, three vertices — twelve
//! little-endian single-precision components in all — and a 16-bit attribute
//! word).  Decoding is a single strictly forward pass that fails with
//! `TruncatedInput` exactly when the stream is shorter than the declared
//! counts require; extra trailing bytes are ignored.

use vstd::prelude::*;
use vstd::string::StringExecFns;

use crate::MeshError;
use crate::le16_at;
use crate::le16_bytes;
use crate::le32_at;
use crate::le32_bytes;
use crate::push_le_u16;
use crate::push_le_u32;
use crate::read_le_u16;
use crate::read_le_u32;
use crate::fbits::f32_text;
use crate::fbits::f32_text_bits;
use crate::text::dec_digits;
use crate::text::hex_digits;
use crate::text::u16_hex_text;
use crate::text::usize_text;
use crate::mesh::Facet;
use crate::mesh::Mesh;
use crate::mesh::facet_stream;
use crate::mesh::indexed_facet;
use crate::mesh::mesh_facets_of;
use crate::mesh::mesh_vertices_of;
use crate::vector::Vector3D;
use crate::vector::VertexMap;
use crate::vector::dedup;
use crate::vector::vec3_at;
use crate::vector::vec3_bytes;
use crate::vector::vec3_cross_bits;
use crate::vector::vec3_normalize_bits;
use crate::vector::vec3_sub_bits;

verus! {

/// The 80-byte blank header that encoding writes.
pub open spec fn zero_header() -> Seq<u8> {
    Seq::new(80, |i: int| 0u8)
}

/// An 80-byte STL header.
pub struct StlHeader {
    pub header: Vec<u8>,
}

impl StlHeader {
    /// The header is exactly 80 bytes.
    pub open spec fn wf(&self) -> bool {
        self.header@.len() == 80
    }

    /// A zero-filled header.
    pub fn blank() -> (r: StlHeader)
        ensures
            r.header@ == zero_header(),
            r.wf(),
    {
        let mut h: Vec<u8> = Vec::new();
        let mut i: usize = 0;
        while i < 80
            invariant
                i <= 80,
                h@.len() == i,
                forall|j: int| 0 <= j < i ==> h@[j] == 0u8,
            decreases 80 - i,
        {
            h.push(0u8);
            i = i + 1;
        }
        assert(h@ =~= zero_header());
        StlHeader { header: h }
    }
}

/// A raw facet as read from the wire: a declared normal, three vertex
/// positions, and a 16-bit attribute word.
#[derive(Clone, Copy, Debug, PartialEq, Eq, Hash, Structural)]
pub struct StlFacet {
    pub n: Vector3D,
    pub v1: Vector3D,
    pub v2: Vector3D,
    pub v3: Vector3D,
    pub abc: u16,
}

/// The facet record stored at `at..at + 50` of `bytes`.
pub open spec fn facet_at(bytes: Seq<u8>, at: int) -> StlFacet {
    StlFacet {
        n: vec3_at(bytes, at),
        v1: vec3_at(bytes, at + 12),
        v2: vec3_at(bytes, at + 24),
        v3: vec3_at(bytes, at + 36),
        abc: le16_at(bytes, at + 48),
    }
}

/// The 50 bytes of a facet record.
pub open spec fn facet_bytes(f: StlFacet) -> Seq<u8> {
    vec3_bytes(f.n) + vec3_bytes(f.v1) + vec3_bytes(f.v2) + vec3_bytes(f.v3) + le16_bytes(f.abc)
}

/// The normal recomputed from a raw facet's own geometry: the normalized
/// cross product `(v2 - v1) × (v3 - v1)`.
pub open spec fn stl_facet_normal(f: StlFacet) -> Vector3D {
    vec3_normalize_bits(vec3_cross_bits(vec3_sub_bits(f.v2, f.v1), vec3_sub_bits(f.v3, f.v1)))
}

impl StlFacet {
    /// Decodes the facet record at `at..at + 50`; fails with
    /// `TruncatedInput` exactly when fewer than 50 bytes are available there.
    pub fn read(bytes: &[u8], at: usize) -> (r: Result<StlFacet, MeshError>)
        ensures
            at + 50 <= bytes@.len() ==> r == Ok::<StlFacet, MeshError>(
                facet_at(bytes@, at as int),
            ),
            at + 50 > bytes@.len() ==> r == Err::<StlFacet, MeshError>(MeshError::TruncatedInput),
    {
        if bytes.len() < 50 || at > bytes.len() - 50 {
            return Err(MeshError::TruncatedInput);
        }
        let n = match Vector3D::read(bytes, at) {
            Ok(v) => v,
            Err(e) => { return Err(e) },
        };
        let v1 = match Vector3D::read(bytes, at + 12) {
            Ok(v) => v,
            Err(e) => { return Err(e) },
        };
        let v2 = match Vector3D::read(bytes, at + 24) {
            Ok(v) => v,
            Err(e) => { return Err(e) },
        };
        let v3 = match Vector3D::read(bytes, at + 36) {
            Ok(v) => v,
            Err(e) => { return Err(e) },
        };
        let abc = read_le_u16(bytes, at + 48);
        Ok(StlFacet { n, v1, v2, v3, abc })
    }

    /// Appends the 50 bytes of this facet record to `out`.
    pub fn write(&self, out: &mut Vec<u8>)
        ensures
            final(out)@ == old(out)@ + facet_bytes(*self),
    {
        self.n.write(out);
        self.v1.write(out);
        self.v2.write(out);
        self.v3.write(out);
        push_le_u16(out, self.abc);
        assert(final(out)@ =~= old(out)@ + facet_bytes(*self));
    }

    /// The normal recomputed from this facet's own geometry.
    pub fn calculate_normal_vector(&self) -> (r: Vector3D)
        ensures
            r == stl_facet_normal(*self),
    {
        let direction = Vector3D::cross(self.v2.minus(self.v1), self.v3.minus(self.v1));
        direction.normalize()
    }
}

/// The facet count a byte stream declares (the 32-bit word after the
/// header); meaningful only when at least 84 bytes are present.
pub open spec fn stl_count(bytes: Seq<u8>) -> u32 {
    le32_at(bytes, 80)
}

/// Whether a byte stream satisfies its own declared counts: the header and
/// count are present, and so are all declared 50-byte facet records.
pub open spec fn stl_ok(bytes: Seq<u8>) -> bool {
    bytes.len() >= 84 && bytes.len() >= 84 + 50 * (stl_count(bytes) as int)
}

/// A facet of an indexed mesh resolved back to raw form: the indices
/// replaced by the vertices they point at, with a zero attribute word.
pub open spec fn resolve_facet(verts: Seq<Vector3D>, f: Facet) -> StlFacet {
    StlFacet {
        n: f.n,
        v1: verts[f.v1 as int],
        v2: verts[f.v2 as int],
        v3: verts[f.v3 as int],
        abc: 0,
    }
}

/// The concatenated facet records of a mesh, in facet order.
pub open spec fn records_bytes(verts: Seq<Vector3D>, facets: Seq<Facet>) -> Seq<u8>
    decreases facets.len(),
{
    if facets.len() == 0 {
        Seq::empty()
    } else {
        records_bytes(verts, facets.drop_last()) + facet_bytes(
            resolve_facet(verts, facets.last()),
        )
    }
}

/// The full binary STL encoding of a mesh: blank header, facet count, then
/// the facet records.
pub open spec fn stl_bytes(verts: Seq<Vector3D>, facets: Seq<Facet>) -> Seq<u8> {
    zero_header() + le32_bytes(facets.len() as u32) + records_bytes(verts, facets)
}

/// Whether an 80-byte header begins with the ASCII prefix `"solid "`.
pub open spec fn starts_with_solid(h: Seq<u8>) -> bool {
    h.len() >= 6 && h[0] == 0x73 && h[1] == 0x6f && h[2] == 0x6c && h[3] == 0x69 && h[4] == 0x64
        && h[5] == 0x20
}

/// A decoded STL file: the verbatim header bytes and the ordered raw facets.
pub struct StlFile {
    pub header: Vec<u8>,
    pub facets: Vec<StlFacet>,
}

impl StlFile {
    /// Decodes a binary STL byte stream: the 80-byte header, the declared
    /// facet count, and exactly that many records, in order.  Fails with
    /// `TruncatedInput` exactly when the stream is shorter than its declared
    /// counts require.
    pub fn read(bytes: &[u8]) -> (r: Result<StlFile, MeshError>)
        ensures
            match r {
                Ok(f) => stl_ok(bytes@) && f.header@ == bytes@.subrange(0, 80) && f.facets@.len()
                    == stl_count(bytes@) && (forall|i: int|
                    0 <= i < f.facets@.len() ==> f.facets@[i] == facet_at(bytes@, 84 + 50 * i)),
                Err(e) => !stl_ok(bytes@) && e == MeshError::TruncatedInput,
            },
    {
        if bytes.len() < 84 {
            return Err(MeshError::TruncatedInput);
        }
        let mut header: Vec<u8> = Vec::new();
        let mut i: usize = 0;
        while i < 80
            invariant
                bytes@.len() >= 84,
                i <= 80,
                header@ == bytes@.subrange(0, i as int),
            decreases 80 - i,
        {
            header.push(bytes[i]);
            assert(header@ =~= bytes@.subrange(0, i + 1));
            i = i + 1;
        }
        let facets = match Self::read_binary(bytes) {
            Ok(fs) => fs,
            Err(e) => { return Err(e) },
        };
        Ok(StlFile { header, facets })
    }

    /// Reads the facet count and the declared number of records, starting
    /// after the header.
    fn read_binary(bytes: &[u8]) -> (r: Result<Vec<StlFacet>, MeshError>)
        requires
            bytes@.len() >= 84,
        ensures
            match r {
                Ok(fs) => stl_ok(bytes@) && fs@.len() == stl_count(bytes@) && (forall|i: int|
                    0 <= i < fs@.len() ==> fs@[i] == facet_at(bytes@, 84 + 50 * i)),
                Err(e) => !stl_ok(bytes@) && e == MeshError::TruncatedInput,
            },
    {
        let count = read_le_u32(bytes, 80);
        let need: u64 = 84 + 50 * (count as u64);
        if (bytes.len() as u64) < need {
            return Err(MeshError::TruncatedInput);
        }
        let count_us = count as usize;
        let blen = bytes.len();
        let mut fs: Vec<StlFacet> = Vec::new();
        let mut i: usize = 0;
        while i < count_us
            invariant
                blen == bytes@.len(),
                bytes@.len() >= 84 + 50 * (count as int),
                count_us == count,
                i <= count_us,
                fs@.len() == i,
                forall|j: int| 0 <= j < i ==> fs@[j] == facet_at(bytes@, 84 + 50 * j),
            decreases count_us - i,
        {
            let at = 84 + 50 * i;
            let f = match StlFacet::read(bytes, at) {
                Ok(f) => f,
                Err(e) => {
                    proof {
                        assert(false);
                    }
                    return Err(e);
                },
            };
            fs.push(f);
            i = i + 1;
        }
        Ok(fs)
    }

    /// Encodes a mesh as binary STL: a blank 80-byte header, the facet
    /// count, then each facet's record with its indices resolved to vertex
    /// positions and a zero attribute word.
    pub fn write_binary(m: &Mesh) -> (r: Vec<u8>)
        requires
            m.wf(),
            m.facets@.len() <= 0xffff_ffff,
        ensures
            r@ == stl_bytes(m.vertices@, m.facets@),
    {
        let header = StlHeader::blank();
        let mut out: Vec<u8> = Vec::new();
        let mut i: usize = 0;
        while i < header.header.len()
            invariant
                header.header@ == zero_header(),
                i <= 80,
                out@ == zero_header().subrange(0, i as int),
            decreases 80 - i,
        {
            out.push(header.header[i]);
            assert(out@ =~= zero_header().subrange(0, i + 1));
            i = i + 1;
        }
        assert(out@ =~= zero_header());
        let num = m.facets.len();
        push_le_u32(&mut out, num as u32);
        let mut i: usize = 0;
        while i < num
            invariant
                m.wf(),
                m.facets@.len() == num <= 0xffff_ffff,
                i <= num,
                out@ == zero_header() + le32_bytes(num as u32) + records_bytes(
                    m.vertices@,
                    m.facets@.take(i as int),
                ),
            decreases num - i,
        {
            let facet = &m.facets[i];
            proof {
                assert(crate::mesh::facet_wf(m.facets@[i as int], m.vertices@.len()));
            }
            let stl_facet = StlFacet {
                n: facet.n,
                v1: m.vertices[facet.v1],
                v2: m.vertices[facet.v2],
                v3: m.vertices[facet.v3],
                abc: 0u16,
            };
            stl_facet.write(&mut out);
            proof {
                let fsq = m.facets@;
                assert(fsq.take(i + 1).drop_last() =~= fsq.take(i as int));
                assert(fsq.take(i + 1).last() == fsq[i as int]);
                assert(stl_facet == resolve_facet(m.vertices@, fsq[i as int]));
                assert(out@ =~= zero_header() + le32_bytes(num as u32) + records_bytes(
                    m.vertices@,
                    fsq.take(i + 1),
                ));
            }
            i = i + 1;
        }
        proof {
            assert(m.facets@.take(num as int) =~= m.facets@);
        }
        out
    }

    /// A heuristic report of the file form: `"ASCII"` when the header begins
    /// with the literal prefix `"solid "`, else `"binary"`.  Advisory only —
    /// decoding is always binary.
    pub fn kind(&self) -> (r: String)
        ensures
            starts_with_solid(self.header@) ==> r@ == "ASCII"@,
            !starts_with_solid(self.header@) ==> r@ == "binary"@,
    {
        if self.header.len() >= 6 && self.header[0] == 0x73 && self.header[1] == 0x6f
            && self.header[2] == 0x6c && self.header[3] == 0x69 && self.header[4] == 0x64
            && self.header[5] == 0x20 {
            String::from_str("ASCII")
        } else {
            String::from_str("binary")
        }
    }


    /// A descriptive report of this file: its form, its facet count, and one
    /// line per facet — exactly [`describe_text`].
    pub fn describe(&self) -> (r: String)
        ensures
            r@ == describe_text(self.header@, self.facets@),
    {
        let mut out = String::from_str("Is ");
        let k = self.kind();
        out.append(k.as_str());
        out.append(" STL\n");
        out.append("Facets: ");
        let cnt = usize_text(self.facets.len());
        out.append(cnt.as_str());
        out.append("\n");
        let ghost head = "Is "@ + kind_text(self.header@) + " STL\n"@ + "Facets: "@ + dec_digits(
            self.facets@.len(),
        ) + "\n"@;
        proof {
            assert(out@ =~= head);
            assert(self.facets@.take(0) =~= Seq::<StlFacet>::empty());
            assert(out@ + stl_facet_lines(self.facets@.take(0)) =~= out@);
        }
        let n = self.facets.len();
        let mut i: usize = 0;
        while i < n
            invariant
                n == self.facets@.len(),
                i <= n,
                out@ == head + stl_facet_lines(self.facets@.take(i as int)),
            decreases n - i,
        {
            let f = self.facets[i];
            out.append("  Facet: ");
            let mut line = String::from_str("[");
            let tn = vector_text_string(f.n);
            line.append(tn.as_str());
            line.append("] (");
            let t1 = vector_text_string(f.v1);
            line.append(t1.as_str());
            line.append("-");
            let t2 = vector_text_string(f.v2);
            line.append(t2.as_str());
            line.append("-");
            let t3 = vector_text_string(f.v3);
            line.append(t3.as_str());
            line.append(") [");
            let ta = u16_hex_text(f.abc);
            line.append(ta.as_str());
            line.append("]");
            out.append(line.as_str());
            out.append("\n");
            proof {
                assert(line@ =~= stl_facet_text(f));
                assert(self.facets@.take(i + 1).drop_last() =~= self.facets@.take(i as int));
                assert(self.facets@.take(i + 1).last() == f);
                assert(out@ =~= head + stl_facet_lines(self.facets@.take(i + 1)));
            }
            i = i + 1;
        }
        proof {
            assert(self.facets@.take(n as int) =~= self.facets@);
            assert(out@ =~= describe_text(self.header@, self.facets@));
        }
        out
    }

    /// Builds the indexed mesh: deduplicates every facet vertex in input
    /// order, then assembles the indexed facets with recomputed normals.
    pub fn as_mesh(&self) -> (r: Mesh)
        ensures
            r.vertices@ == mesh_vertices_of(self.facets@),
            r.facets@ == mesh_facets_of(self.facets@),
            r.wf(),
    {
        let mut vmap = VertexMap::new();
        let n = self.facets.len();
        let mut i: usize = 0;
        proof {
            assert(self.facets@.take(0) =~= Seq::<StlFacet>::empty());
            assert(vmap@ =~= dedup(facet_stream(self.facets@.take(0))));
        }
        while i < n
            invariant
                n == self.facets@.len(),
                i <= n,
                vmap.wf(),
                vmap@ == dedup(facet_stream(self.facets@.take(i as int))),
            decreases n - i,
        {
            let f = &self.facets[i];
            proof {
                lemma_stream_take(self.facets@, i as int);
            }
            let ghost st = facet_stream(self.facets@.take(i as int));
            vmap.add(f.v1);
            proof {
                lemma_dedup_push(st, self.facets@[i as int].v1);
            }
            vmap.add(f.v2);
            proof {
                lemma_dedup_push(st.push(self.facets@[i as int].v1), self.facets@[i as int].v2);
            }
            vmap.add(f.v3);
            proof {
                lemma_dedup_push(
                    st.push(self.facets@[i as int].v1).push(self.facets@[i as int].v2),
                    self.facets@[i as int].v3,
                );
                assert(st.push(self.facets@[i as int].v1).push(self.facets@[i as int].v2).push(
                    self.facets@[i as int].v3,
                ) =~= facet_stream(self.facets@.take(i + 1)));
            }
            i = i + 1;
        }
        proof {
            assert(self.facets@.take(n as int) =~= self.facets@);
        }
        Mesh::new_from_stl(&self.facets, &vmap)
    }
}

/// The textual rendering of a vector: `(x,y,z)`.
pub open spec fn vector_text(v: Vector3D) -> Seq<char> {
    "("@ + f32_text_bits(v.x) + ","@ + f32_text_bits(v.y) + ","@ + f32_text_bits(v.z) + ")"@
}

/// The textual rendering of one raw facet: the declared normal in brackets,
/// the three vertices joined by dashes, and the attribute word in upper-case
/// hexadecimal brackets.
pub open spec fn stl_facet_text(f: StlFacet) -> Seq<char> {
    "["@ + vector_text(f.n) + "] ("@ + vector_text(f.v1) + "-"@ + vector_text(f.v2) + "-"@
        + vector_text(f.v3) + ") ["@ + hex_digits(f.abc as nat) + "]"@
}

/// One report line per facet, in order.
pub open spec fn stl_facet_lines(fs: Seq<StlFacet>) -> Seq<char>
    decreases fs.len(),
{
    if fs.len() == 0 {
        Seq::empty()
    } else {
        stl_facet_lines(fs.drop_last()) + "  Facet: "@ + stl_facet_text(fs.last()) + "\n"@
    }
}

/// The heuristic form name: `ASCII` for a `solid `-prefixed header, else
/// `binary`.
pub open spec fn kind_text(h: Seq<u8>) -> Seq<char> {
    if starts_with_solid(h) {
        "ASCII"@
    } else {
        "binary"@
    }
}

/// The descriptive report for a decoded file: its form, its facet count, and
/// one line per facet.
pub open spec fn describe_text(h: Seq<u8>, fs: Seq<StlFacet>) -> Seq<char> {
    "Is "@ + kind_text(h) + " STL\n"@ + "Facets: "@ + dec_digits(fs.len()) + "\n"@
        + stl_facet_lines(fs)
}

/// The textual rendering of a vector, exactly [`vector_text`].
fn vector_text_string(v: Vector3D) -> (r: String)
    ensures
        r@ == vector_text(v),
{
    let mut s = String::from_str("(");
    let tx = f32_text(v.x);
    s.append(tx.as_str());
    s.append(",");
    let ty = f32_text(v.y);
    s.append(ty.as_str());
    s.append(",");
    let tz = f32_text(v.z);
    s.append(tz.as_str());
    s.append(")");
    proof {
        assert(s@ =~= vector_text(v));
    }
    s
}

/// Appending one vertex to a stream extends its deduplication by one step.
pub proof fn lemma_dedup_push(t: Seq<Vector3D>, v: Vector3D)
    ensures
        dedup(t.push(v)) == if dedup(t).contains(v) {
            dedup(t)
        } else {
            dedup(t).push(v)
        },
{
    assert(t.push(v).drop_last() =~= t);
    assert(t.push(v).last() == v);
}

/// The vertex stream of one more facet is the stream so far plus that
/// facet's three vertices.
pub proof fn lemma_stream_take(fs: Seq<StlFacet>, i: int)
    requires
        0 <= i < fs.len(),
    ensures
        facet_stream(fs.take(i + 1)) == facet_stream(fs.take(i)) + seq![
            fs[i].v1,
            fs[i].v2,
            fs[i].v3,
        ],
{
    assert(fs.take(i + 1).drop_last() =~= fs.take(i));
    assert(fs.take(i + 1).last() == fs[i]);
}

/// Normal consistency: the recomputed facet normal is a function of the
/// triangle's own three vertices alone — the declared normal and the
/// attribute word never influence it.
pub proof fn lemma_normal_from_geometry(f: StlFacet, g: StlFacet)
    requires
        f.v1 == g.v1,
        f.v2 == g.v2,
        f.v3 == g.v3,
    ensures
        stl_facet_normal(f) == stl_facet_normal(g),
{
}

/// Dedup determinism: the indexed mesh is a function of the raw facet
/// sequence alone — any two meshes built from the same facet sequence have
/// identical vertex tables (so identical index assignments) and identical
/// facet lists.
pub proof fn lemma_mesh_determinism(
    fs: Seq<StlFacet>,
    va: Seq<Vector3D>,
    fa: Seq<Facet>,
    vb: Seq<Vector3D>,
    fb: Seq<Facet>,
)
    requires
        va == mesh_vertices_of(fs),
        fa == mesh_facets_of(fs),
        vb == mesh_vertices_of(fs),
        fb == mesh_facets_of(fs),
    ensures
        va == vb,
        fa == fb,
{
}

/// The length of the vertex stream is three entries per facet.
pub proof fn lemma_stream_len(fs: Seq<StlFacet>)
    ensures
        facet_stream(fs).len() == 3 * fs.len(),
    decreases fs.len(),
{
    if fs.len() > 0 {
        lemma_stream_len(fs.drop_last());
    }
}

/// Deduplication never lengthens a sequence.
pub proof fn lemma_dedup_len(s: Seq<Vector3D>)
    ensures
        dedup(s).len() <= s.len(),
    decreases s.len(),
{
    if s.len() > 0 {
        lemma_dedup_len(s.drop_last());
    }
}

/// The concatenated records are 50 bytes per facet.
pub proof fn lemma_records_len(verts: Seq<Vector3D>, facets: Seq<Facet>)
    ensures
        records_bytes(verts, facets).len() == 50 * facets.len(),
    decreases facets.len(),
{
    if facets.len() > 0 {
        lemma_records_len(verts, facets.drop_last());
    }
}

/// Record `i` occupies bytes `50 * i .. 50 * i + 50` of the concatenated
/// records.
pub proof fn lemma_records_index(verts: Seq<Vector3D>, facets: Seq<Facet>, i: int)
    requires
        0 <= i < facets.len(),
    ensures
        records_bytes(verts, facets).subrange(50 * i, 50 * i + 50) == facet_bytes(
            resolve_facet(verts, facets[i]),
        ),
    decreases facets.len(),
{
    lemma_records_len(verts, facets.drop_last());
    let whole = records_bytes(verts, facets);
    let prefix = records_bytes(verts, facets.drop_last());
    if i == facets.len() - 1 {
        assert(whole.subrange(50 * i, 50 * i + 50) =~= facet_bytes(
            resolve_facet(verts, facets[i]),
        ));
    } else {
        lemma_records_index(verts, facets.drop_last(), i);
        assert(facets.drop_last()[i] == facets[i]);
        assert(whole.subrange(50 * i, 50 * i + 50) =~= prefix.subrange(50 * i, 50 * i + 50));
    }
}

/// Reading back the bytes of `vec3_bytes` recovers the vector.
pub proof fn lemma_vec3_roundtrip(bytes: Seq<u8>, at: int, v: Vector3D)
    requires
        0 <= at,
        at + 12 <= bytes.len(),
        bytes.subrange(at, at + 12) == vec3_bytes(v),
    ensures
        vec3_at(bytes, at) == v,
{
    assert forall|k: int| at <= k < at + 12 implies bytes[k] == vec3_bytes(v)[k - at] by {
        assert(bytes.subrange(at, at + 12)[k - at] == vec3_bytes(v)[k - at]);
    }
    assert(bytes.subrange(at, at + 4) =~= crate::le32_bytes(v.x));
    assert(bytes.subrange(at + 4, at + 8) =~= crate::le32_bytes(v.y));
    assert(bytes.subrange(at + 8, at + 12) =~= crate::le32_bytes(v.z));
    crate::lemma_le32_roundtrip(bytes, at, v.x);
    crate::lemma_le32_roundtrip(bytes, at + 4, v.y);
    crate::lemma_le32_roundtrip(bytes, at + 8, v.z);
}

/// Reading back the bytes of `facet_bytes` recovers the facet record.
#[verifier::rlimit(50)]
pub proof fn lemma_facet_roundtrip(bytes: Seq<u8>, at: int, f: StlFacet)
    requires
        0 <= at,
        at + 50 <= bytes.len(),
        bytes.subrange(at, at + 50) == facet_bytes(f),
    ensures
        facet_at(bytes, at) == f,
{
    assert forall|k: int| at <= k < at + 50 implies bytes[k] == facet_bytes(f)[k - at] by {
        assert(bytes.subrange(at, at + 50)[k - at] == facet_bytes(f)[k - at]);
    }
    assert(bytes.subrange(at, at + 12) =~= vec3_bytes(f.n));
    assert(bytes.subrange(at + 12, at + 24) =~= vec3_bytes(f.v1));
    assert(bytes.subrange(at + 24, at + 36) =~= vec3_bytes(f.v2));
    assert(bytes.subrange(at + 36, at + 48) =~= vec3_bytes(f.v3));
    assert(bytes.subrange(at + 48, at + 50) =~= crate::le16_bytes(f.abc));
    lemma_vec3_roundtrip(bytes, at, f.n);
    lemma_vec3_roundtrip(bytes, at + 12, f.v1);
    lemma_vec3_roundtrip(bytes, at + 24, f.v2);
    lemma_vec3_roundtrip(bytes, at + 36, f.v3);
    crate::lemma_le16_roundtrip(bytes, at + 48, f.abc);
}

/// The facets of an indexed mesh resolved back to raw form, in order.
pub open spec fn resolved_facets(verts: Seq<Vector3D>, facets: Seq<Facet>) -> Seq<StlFacet> {
    Seq::new(facets.len(), |i: int| resolve_facet(verts, facets[i]))
}

/// Two facet sequences whose vertices agree pointwise have the same vertex
/// stream.
pub proof fn lemma_stream_pointwise(fs: Seq<StlFacet>, gs: Seq<StlFacet>)
    requires
        fs.len() == gs.len(),
        forall|i: int|
            0 <= i < fs.len() ==> (#[trigger] gs[i]).v1 == fs[i].v1 && gs[i].v2 == fs[i].v2
                && gs[i].v3 == fs[i].v3,
    ensures
        facet_stream(gs) == facet_stream(fs),
    decreases fs.len(),
{
    if fs.len() > 0 {
        assert(forall|i: int|
            0 <= i < fs.drop_last().len() ==> (#[trigger] gs.drop_last()[i]).v1
                == fs.drop_last()[i].v1 && gs.drop_last()[i].v2 == fs.drop_last()[i].v2
                && gs.drop_last()[i].v3 == fs.drop_last()[i].v3);
        lemma_stream_pointwise(fs.drop_last(), gs.drop_last());
        assert(gs[fs.len() - 1].v1 == fs[fs.len() - 1].v1);
        assert(facet_stream(gs) =~= facet_stream(fs));
    }
}

/// Each vertex of a mesh facet resolves back to the raw vertex it indexed.
proof fn lemma_resolved_vertices(fs: Seq<StlFacet>, i: int)
    requires
        0 <= i < fs.len(),
        3 * fs.len() <= usize::MAX,
    ensures
        ({
            let verts = mesh_vertices_of(fs);
            let rf = resolve_facet(verts, mesh_facets_of(fs)[i]);
            rf.v1 == fs[i].v1 && rf.v2 == fs[i].v2 && rf.v3 == fs[i].v3 && rf.n == mesh_facets_of(
                fs,
            )[i].n
        }),
{
    let verts = mesh_vertices_of(fs);
    let st = facet_stream(fs);
    crate::mesh::lemma_stream_mem(fs, i);
    crate::vector::lemma_dedup_contains(st, fs[i].v1);
    crate::vector::lemma_dedup_contains(st, fs[i].v2);
    crate::vector::lemma_dedup_contains(st, fs[i].v3);
    crate::vector::lemma_first_index(verts, fs[i].v1);
    crate::vector::lemma_first_index(verts, fs[i].v2);
    crate::vector::lemma_first_index(verts, fs[i].v3);
    lemma_stream_len(fs);
    lemma_dedup_len(st);
    // verts.len() <= 3 * fs.len() <= usize::MAX, so the index casts are exact.
    assert(verts[crate::vector::first_index(verts, fs[i].v1)] == fs[i].v1);
    assert(verts[crate::vector::first_index(verts, fs[i].v2)] == fs[i].v2);
    assert(verts[crate::vector::first_index(verts, fs[i].v3)] == fs[i].v3);
}

/// Round-trip: encoding the mesh built from a facet sequence and decoding
/// the bytes again yields raw facets that rebuild exactly the same mesh —
/// the same facet count, the same vertex list (and so the same vertex set),
/// the same indices, and bitwise-equal recomputed normals.
pub proof fn lemma_round_trip(fs: Seq<StlFacet>)
    requires
        fs.len() <= 0xffff_ffff,
        3 * fs.len() <= usize::MAX,
    ensures
        ({
            let verts = mesh_vertices_of(fs);
            let mfs = mesh_facets_of(fs);
            let bytes = stl_bytes(verts, mfs);
            let rs = resolved_facets(verts, mfs);
            &&& stl_ok(bytes)
            &&& stl_count(bytes) == fs.len()
            &&& (forall|i: int|
                0 <= i < fs.len() ==> #[trigger] rs[i] == facet_at(bytes, 84 + 50 * i))
            &&& mesh_vertices_of(rs) == verts
            &&& mesh_facets_of(rs) == mfs
        }),
{
    let verts = mesh_vertices_of(fs);
    let mfs = mesh_facets_of(fs);
    let bytes = stl_bytes(verts, mfs);
    let rs = resolved_facets(verts, mfs);
    let cnt = mfs.len() as u32;
    lemma_records_len(verts, mfs);
    assert(bytes.len() == 84 + 50 * fs.len());
    // The count word reads back as the facet count.
    assert(bytes.subrange(80, 84) =~= crate::le32_bytes(cnt));
    crate::lemma_le32_roundtrip(bytes, 80, cnt);
    assert(stl_count(bytes) == fs.len());
    assert(stl_ok(bytes));
    // Each record reads back as the resolved facet.
    assert forall|i: int| 0 <= i < fs.len() implies #[trigger] rs[i] == facet_at(
        bytes,
        84 + 50 * i,
    ) by {
        lemma_records_index(verts, mfs, i);
        assert(bytes.subrange(84 + 50 * i, 84 + 50 * i + 50) =~= records_bytes(
            verts,
            mfs,
        ).subrange(50 * i, 50 * i + 50));
        lemma_facet_roundtrip(bytes, 84 + 50 * i, resolve_facet(verts, mfs[i]));
    }
    // The resolved facets carry the same vertices as the originals, so they
    // rebuild the same vertex list and the same indexed facets.
    assert forall|i: int| 0 <= i < fs.len() implies (#[trigger] rs[i]).v1 == fs[i].v1 && rs[i].v2
        == fs[i].v2 && rs[i].v3 == fs[i].v3 by {
        lemma_resolved_vertices(fs, i);
    }
    lemma_stream_pointwise(fs, rs);
    assert(mesh_vertices_of(rs) == verts);
    assert forall|i: int| 0 <= i < rs.len() implies #[trigger] mesh_facets_of(rs)[i] == mfs[i] by {
        assert(stl_facet_normal(rs[i]) == stl_facet_normal(fs[i]));
        assert(indexed_facet(rs[i], verts) == indexed_facet(fs[i], verts));
    }
    assert(mesh_facets_of(rs) =~= mfs);
}

} // verus!
