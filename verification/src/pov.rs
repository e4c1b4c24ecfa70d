//! The POV-Ray exporter: renders a mesh as a scene fragment declaring a
//! named mesh object with one `triangle` clause per facet, the vertex
//! components reordered as `(y, x, z)` for the renderer's coordinate
//! convention; and produces the accompanying scene file by substituting the
//! placeholder tokens of a template.

use vstd::prelude::*;
use vstd::string::StringExecFns;

use crate::fbits::f32_text;
use crate::fbits::f32_text_bits;
use crate::mesh::Facet;
use crate::mesh::Mesh;
use crate::mesh::facet_wf;
use crate::text::replace_all;
use crate::text::replace_text;
use crate::vector::Vector3D;

verus! {

/// One vertex clause, components reordered as `(y, x, z)`.
pub open spec fn pov_vertex_text(v: Vector3D) -> Seq<char> {
    "    <"@ + f32_text_bits(v.y) + ", "@ + f32_text_bits(v.x) + ", "@ + f32_text_bits(v.z) + ">"@
}

/// One `triangle` clause, the facet's three vertices resolved from its
/// indices.
pub open spec fn pov_facet_text(verts: Seq<Vector3D>, f: Facet) -> Seq<char> {
    "    triangle {\n        "@ + pov_vertex_text(verts[f.v1 as int]) + ",\n        "@
        + pov_vertex_text(verts[f.v2 as int]) + ",\n        "@ + pov_vertex_text(
        verts[f.v3 as int],
    ) + "\n    }\n"@
}

/// The `triangle` clauses for a facet list, in order.
pub open spec fn pov_facet_texts(verts: Seq<Vector3D>, fs: Seq<Facet>) -> Seq<char>
    decreases fs.len(),
{
    if fs.len() == 0 {
        Seq::empty()
    } else {
        pov_facet_texts(verts, fs.drop_last()) + pov_facet_text(verts, fs.last())
    }
}

/// The complete mesh include text: a source comment, the `m_model` mesh
/// declaration, one triangle clause per facet, and the closing brace.
pub open spec fn pov_text(file_name: Seq<char>, verts: Seq<Vector3D>, facets: Seq<Facet>) -> Seq<
    char,
> {
    "// Source file: "@ + file_name + "\n"@ + "# declare m_model = mesh {\n"@ + pov_facet_texts(
        verts,
        facets,
    ) + "}\n"@
}

/// The scene template used when no template file is supplied: a minimal
/// scene around the `FILE_NAME` and `MODEL_NAME` placeholder tokens.
pub open spec fn pov_default_template() -> Seq<char> {
    "#include \"FILE_NAME\"\n\ncamera {\n    location <10, 10, -10>\n    look_at <0, 0, 0>\n}\n\nlight_source { <20, 20, -20> color rgb <1, 1, 1> }\n\nobject { MODEL_NAME }\n"@
}

/// The POV-Ray exporter.
pub struct POV;

impl POV {
    /// One vertex clause, components reordered as `(y, x, z)`.
    fn vertex_to_povstring(vector: Vector3D) -> (r: String)
        ensures
            r@ == pov_vertex_text(vector),
    {
        let mut s = String::from_str("    <");
        let ty = f32_text(vector.y);
        s.append(ty.as_str());
        s.append(", ");
        let tx = f32_text(vector.x);
        s.append(tx.as_str());
        s.append(", ");
        let tz = f32_text(vector.z);
        s.append(tz.as_str());
        s.append(">");
        proof {
            assert(s@ =~= pov_vertex_text(vector));
        }
        s
    }

    /// One `triangle` clause for a facet of `mesh`.
    fn facet_to_povstring(mesh: &Mesh, facet: &Facet) -> (r: String)
        requires
            facet_wf(*facet, mesh.vertices@.len()),
        ensures
            r@ == pov_facet_text(mesh.vertices@, *facet),
    {
        let v1 = mesh.vertices[facet.v1];
        let v2 = mesh.vertices[facet.v2];
        let v3 = mesh.vertices[facet.v3];
        let mut s = String::from_str("    triangle {\n        ");
        let t1 = POV::vertex_to_povstring(v1);
        s.append(t1.as_str());
        s.append(",\n        ");
        let t2 = POV::vertex_to_povstring(v2);
        s.append(t2.as_str());
        s.append(",\n        ");
        let t3 = POV::vertex_to_povstring(v3);
        s.append(t3.as_str());
        s.append("\n    }\n");
        proof {
            assert(s@ =~= pov_facet_text(mesh.vertices@, *facet));
        }
        s
    }

    /// Renders the mesh include text for `mesh`, naming the source file in
    /// the leading comment: exactly [`pov_text`].
    pub fn write(mesh: &Mesh, file_name: &str) -> (r: String)
        requires
            mesh.wf(),
        ensures
            r@ == pov_text(file_name@, mesh.vertices@, mesh.facets@),
    {
        let mut out = String::from_str("// Source file: ");
        out.append(file_name);
        out.append("\n");
        out.append("# declare m_model = mesh {\n");
        let ghost head = "// Source file: "@ + file_name@ + "\n"@ + "# declare m_model = mesh {\n"@;
        proof {
            assert(out@ =~= head);
            assert(mesh.facets@.take(0) =~= Seq::<Facet>::empty());
            assert(out@ + pov_facet_texts(mesh.vertices@, mesh.facets@.take(0)) =~= out@);
        }
        let n = mesh.facets.len();
        let mut i: usize = 0;
        while i < n
            invariant
                n == mesh.facets@.len(),
                mesh.wf(),
                i <= n,
                out@ == head + pov_facet_texts(mesh.vertices@, mesh.facets@.take(i as int)),
            decreases n - i,
        {
            let f = mesh.facets[i];
            proof {
                assert(facet_wf(mesh.facets@[i as int], mesh.vertices@.len()));
            }
            let t = POV::facet_to_povstring(mesh, &f);
            out.append(t.as_str());
            proof {
                assert(mesh.facets@.take(i + 1).drop_last() =~= mesh.facets@.take(i as int));
                assert(mesh.facets@.take(i + 1).last() == f);
                assert(out@ =~= head + pov_facet_texts(mesh.vertices@, mesh.facets@.take(i + 1)));
            }
            i = i + 1;
        }
        proof {
            assert(mesh.facets@.take(n as int) =~= mesh.facets@);
        }
        out.append("}\n");
        proof {
            assert(out@ =~= pov_text(file_name@, mesh.vertices@, mesh.facets@));
        }
        out
    }

    /// The built-in scene template, used when no template file is supplied.
    pub fn read_template() -> (r: String)
        ensures
            r@ == pov_default_template(),
    {
        String::from_str(
            "#include \"FILE_NAME\"\n\ncamera {\n    location <10, 10, -10>\n    look_at <0, 0, 0>\n}\n\nlight_source { <20, 20, -20> color rgb <1, 1, 1> }\n\nobject { MODEL_NAME }\n",
        )
    }

    /// The scene file text: the template with every `FILE_NAME` token
    /// replaced by the include file's name and every `MODEL_NAME` token by
    /// the declared model identifier `m_model`.
    pub fn scene_text(template: &str, inc_file_name: &str) -> (r: String)
        ensures
            r@ == replace_all(
                replace_all(template@, "FILE_NAME"@, inc_file_name@),
                "MODEL_NAME"@,
                "m_model"@,
            ),
    {
        proof {
            reveal_strlit("FILE_NAME");
            reveal_strlit("MODEL_NAME");
        }
        let pass1 = replace_text(template, "FILE_NAME", inc_file_name);
        let pass2 = replace_text(pass1.as_str(), "MODEL_NAME", "m_model");
        pass2
    }
}

} // verus!
