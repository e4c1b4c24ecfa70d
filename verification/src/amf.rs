//! The AMF exporter: renders a mesh as an AMF XML document, with one
//! `<vertex>` element per mesh vertex (coordinates in unchanged order) and
//! one `<triangle>` element per facet referencing vertex indices directly.

use vstd::prelude::*;
use vstd::string::StringExecFns;

use crate::MeshError;
use crate::fbits::f32_text;
use crate::fbits::f32_text_bits;
use crate::mesh::Facet;
use crate::mesh::Mesh;
use crate::text::dec_digits;
use crate::text::usize_text;
use crate::vector::Vector3D;

verus! {

/// Appends a line: `s` followed by a newline.
pub fn show(out: &mut String, s: &str)
    ensures
        final(out)@ == old(out)@ + s@ + "\n"@,
{
    out.append(s);
    out.append("\n");
    assert(final(out)@ =~= old(out)@ + s@ + "\n"@);
}

/// The `<vertex>` line for one mesh vertex.
pub open spec fn amf_vertex_line(v: Vector3D) -> Seq<char> {
    "        <vertex><coordinates><x>"@ + f32_text_bits(v.x) + "</x><y>"@ + f32_text_bits(v.y)
        + "</y><z>"@ + f32_text_bits(v.z) + "</z></coordinates></vertex>"@ + "\n"@
}

/// The `<vertex>` lines for a vertex list, in order.
pub open spec fn amf_vertex_lines(vs: Seq<Vector3D>) -> Seq<char>
    decreases vs.len(),
{
    if vs.len() == 0 {
        Seq::empty()
    } else {
        amf_vertex_lines(vs.drop_last()) + amf_vertex_line(vs.last())
    }
}

/// The `<triangle>` line for one facet.
pub open spec fn amf_triangle_line(f: Facet) -> Seq<char> {
    "        <triangle><v1>"@ + dec_digits(f.v1 as nat) + "</v1><v2>"@ + dec_digits(f.v2 as nat)
        + "</v2><v3>"@ + dec_digits(f.v3 as nat) + "</v3></triangle>"@ + "\n"@
}

/// The `<triangle>` lines for a facet list, in order.
pub open spec fn amf_triangle_lines(fs: Seq<Facet>) -> Seq<char>
    decreases fs.len(),
{
    if fs.len() == 0 {
        Seq::empty()
    } else {
        amf_triangle_lines(fs.drop_last()) + amf_triangle_line(fs.last())
    }
}

/// The document's opening lines, up to and including `<vertices>`.
pub open spec fn amf_head() -> Seq<char> {
    "<amf unit='inch' version='1.1'>"@ + "\n"@ + "  <object id='1'>"@ + "\n"@ + "    <vertices>"@
        + "\n"@
}

/// The lines between the vertex block and the triangle block.
pub open spec fn amf_mid() -> Seq<char> {
    "    </vertices>"@ + "\n"@ + "    <volume materialid='1'>"@ + "\n"@
}

/// The document's closing lines.
pub open spec fn amf_tail() -> Seq<char> {
    "    </volume>"@ + "\n"@ + "  </object>"@ + "\n"@ + "</amf>"@ + "\n"@
}

/// The complete AMF document for a mesh.
pub open spec fn amf_text(verts: Seq<Vector3D>, facets: Seq<Facet>) -> Seq<char> {
    amf_head() + amf_vertex_lines(verts) + amf_mid() + amf_triangle_lines(facets) + amf_tail()
}

/// The AMF exporter.
pub struct AmfFile;

impl AmfFile {
    /// AMF decoding is not supported: every call reports `Unimplemented`.
    pub fn read(bytes: &[u8]) -> (r: Result<Mesh, MeshError>)
        ensures
            r == Err::<Mesh, MeshError>(MeshError::Unimplemented),
    {
        let _ = bytes;
        Err(MeshError::Unimplemented)
    }

    /// Renders the mesh as an AMF XML document: exactly [`amf_text`].
    pub fn write(m: &Mesh) -> (r: String)
        ensures
            r@ == amf_text(m.vertices@, m.facets@),
    {
        let mut out = String::new();
        show(&mut out, "<amf unit='inch' version='1.1'>");
        show(&mut out, "  <object id='1'>");
        show(&mut out, "    <vertices>");
        proof {
            assert(out@ =~= amf_head());
            assert(m.vertices@.take(0) =~= Seq::<Vector3D>::empty());
            assert(out@ + amf_vertex_lines(m.vertices@.take(0)) =~= out@);
        }
        let nv = m.vertices.len();
        let mut i: usize = 0;
        while i < nv
            invariant
                nv == m.vertices@.len(),
                i <= nv,
                out@ == amf_head() + amf_vertex_lines(m.vertices@.take(i as int)),
            decreases nv - i,
        {
            let v = m.vertices[i];
            let mut line = String::from_str("        <vertex><coordinates><x>");
            let tx = f32_text(v.x);
            line.append(tx.as_str());
            line.append("</x><y>");
            let ty = f32_text(v.y);
            line.append(ty.as_str());
            line.append("</y><z>");
            let tz = f32_text(v.z);
            line.append(tz.as_str());
            line.append("</z></coordinates></vertex>");
            show(&mut out, line.as_str());
            proof {
                assert(line@ + "\n"@ =~= amf_vertex_line(v));
                assert(m.vertices@.take(i + 1).drop_last() =~= m.vertices@.take(i as int));
                assert(m.vertices@.take(i + 1).last() == v);
                assert(out@ =~= amf_head() + amf_vertex_lines(m.vertices@.take(i + 1)));
            }
            i = i + 1;
        }
        proof {
            assert(m.vertices@.take(nv as int) =~= m.vertices@);
        }
        show(&mut out, "    </vertices>");
        show(&mut out, "    <volume materialid='1'>");
        proof {
            assert(out@ =~= amf_head() + amf_vertex_lines(m.vertices@) + amf_mid());
            assert(m.facets@.take(0) =~= Seq::<Facet>::empty());
            assert(out@ + amf_triangle_lines(m.facets@.take(0)) =~= out@);
        }
        let nf = m.facets.len();
        let mut i: usize = 0;
        while i < nf
            invariant
                nf == m.facets@.len(),
                i <= nf,
                out@ == amf_head() + amf_vertex_lines(m.vertices@) + amf_mid()
                    + amf_triangle_lines(m.facets@.take(i as int)),
            decreases nf - i,
        {
            let f = m.facets[i];
            let mut line = String::from_str("        <triangle><v1>");
            let t1 = usize_text(f.v1);
            line.append(t1.as_str());
            line.append("</v1><v2>");
            let t2 = usize_text(f.v2);
            line.append(t2.as_str());
            line.append("</v2><v3>");
            let t3 = usize_text(f.v3);
            line.append(t3.as_str());
            line.append("</v3></triangle>");
            show(&mut out, line.as_str());
            proof {
                assert(line@ + "\n"@ =~= amf_triangle_line(f));
                assert(m.facets@.take(i + 1).drop_last() =~= m.facets@.take(i as int));
                assert(m.facets@.take(i + 1).last() == f);
                assert(out@ =~= amf_head() + amf_vertex_lines(m.vertices@) + amf_mid()
                    + amf_triangle_lines(m.facets@.take(i + 1)));
            }
            i = i + 1;
        }
        proof {
            assert(m.facets@.take(nf as int) =~= m.facets@);
        }
        show(&mut out, "    </volume>");
        show(&mut out, "  </object>");
        show(&mut out, "</amf>");
        proof {
            assert(out@ =~= amf_text(m.vertices@, m.facets@));
        }
        out
    }
}

} // verus!
