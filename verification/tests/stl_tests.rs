use mesh::AmfFile;
use mesh::MeshError;
use mesh::POV;
use mesh::StlFacet;
use mesh::StlFile;
use mesh::Vector3D;

fn v3(x: f32, y: f32, z: f32) -> Vector3D {
    Vector3D { x: x.to_bits(), y: y.to_bits(), z: z.to_bits() }
}

fn push_vec(out: &mut Vec<u8>, v: [f32; 3]) {
    for c in v {
        out.extend_from_slice(&c.to_le_bytes());
    }
}

fn push_facet(out: &mut Vec<u8>, n: [f32; 3], a: [f32; 3], b: [f32; 3], c: [f32; 3], abc: u16) {
    push_vec(out, n);
    push_vec(out, a);
    push_vec(out, b);
    push_vec(out, c);
    out.extend_from_slice(&abc.to_le_bytes());
}

fn stl_two_facets() -> Vec<u8> {
    let mut bytes = vec![0u8; 80];
    bytes.extend_from_slice(&2u32.to_le_bytes());
    // Two facets sharing the edge (0,0,0)-(1,0,0).
    push_facet(
        &mut bytes,
        [9.0, 9.0, 9.0],
        [0.0, 0.0, 0.0],
        [1.0, 0.0, 0.0],
        [0.0, 1.0, 0.0],
        7,
    );
    push_facet(
        &mut bytes,
        [8.0, 8.0, 8.0],
        [1.0, 0.0, 0.0],
        [0.0, 0.0, 0.0],
        [0.0, 0.0, -1.0],
        0,
    );
    bytes
}

#[test]
fn can_write_binary() {
    let bytes = stl_two_facets();
    let stl = StlFile::read(&bytes).unwrap();
    let mesh = stl.as_mesh();
    let out = StlFile::write_binary(&mesh);
    let stl2 = StlFile::read(&out).unwrap();
    let mesh2 = stl2.as_mesh();
    let stl3 = StlFile::read(&bytes).unwrap();
    let mesh3 = stl3.as_mesh();
    assert_eq!(mesh3, mesh2);
}

#[test]
fn decode_shares_vertices() {
    let bytes = stl_two_facets();
    let stl = StlFile::read(&bytes).unwrap();
    assert_eq!(stl.facets.len(), 2);
    assert_eq!(stl.facets[0].abc, 7);
    let mesh = stl.as_mesh();
    // Four distinct corners over six references.
    assert_eq!(mesh.vertices.len(), 4);
    assert_eq!(mesh.facets.len(), 2);
    let f0 = mesh.facets[0];
    let f1 = mesh.facets[1];
    assert_eq!((f0.v1, f0.v2, f0.v3), (0, 1, 2));
    assert_eq!((f1.v1, f1.v2, f1.v3), (1, 0, 3));
    // Every index is in range.
    for f in &mesh.facets {
        assert!(f.v1 < mesh.vertices.len());
        assert!(f.v2 < mesh.vertices.len());
        assert!(f.v3 < mesh.vertices.len());
    }
}

#[test]
fn dedup_is_deterministic_across_runs() {
    let bytes = stl_two_facets();
    let mesh_a = StlFile::read(&bytes).unwrap().as_mesh();
    let mesh_b = StlFile::read(&bytes).unwrap().as_mesh();
    assert_eq!(mesh_a, mesh_b);
}

#[test]
fn truncated_stream_yields_no_mesh() {
    // Declares five facets but carries bytes for only two.
    let mut bytes = vec![0u8; 80];
    bytes.extend_from_slice(&5u32.to_le_bytes());
    push_facet(
        &mut bytes,
        [0.0, 0.0, 1.0],
        [0.0, 0.0, 0.0],
        [1.0, 0.0, 0.0],
        [0.0, 1.0, 0.0],
        0,
    );
    push_facet(
        &mut bytes,
        [0.0, 0.0, 1.0],
        [0.0, 0.0, 0.0],
        [1.0, 0.0, 0.0],
        [0.0, 1.0, 0.0],
        0,
    );
    assert_eq!(StlFile::read(&bytes).err(), Some(MeshError::TruncatedInput));
    // A stream shorter than header and count fails the same way.
    assert_eq!(StlFile::read(&[0u8; 40]).err(), Some(MeshError::TruncatedInput));
}

#[test]
fn normal_is_unit_z_for_reference_triangle() {
    let f = StlFacet {
        n: v3(9.0, 9.0, 9.0),
        v1: v3(0.0, 0.0, 0.0),
        v2: v3(1.0, 0.0, 0.0),
        v3: v3(0.0, 1.0, 0.0),
        abc: 0,
    };
    let n = f.calculate_normal_vector();
    assert_eq!(n.x, 0.0f32.to_bits());
    assert_eq!(n.y, 0.0f32.to_bits());
    assert_eq!(n.z, 1.0f32.to_bits());
}

#[test]
fn declared_normal_is_discarded() {
    // The declared normal (9,9,9) never reaches the mesh: the facet normal
    // is recomputed from the geometry.
    let bytes = stl_two_facets();
    let mesh = StlFile::read(&bytes).unwrap().as_mesh();
    let f0 = mesh.facets[0];
    assert_eq!(f0.n.x, 0.0f32.to_bits());
    assert_eq!(f0.n.y, 0.0f32.to_bits());
    assert_eq!(f0.n.z, 1.0f32.to_bits());
}

#[test]
fn encode_layout_is_exact() {
    let bytes = stl_two_facets();
    let mesh = StlFile::read(&bytes).unwrap().as_mesh();
    let out = StlFile::write_binary(&mesh);
    assert_eq!(out.len(), 84 + 2 * 50);
    // Blank header, then the little-endian facet count.
    assert!(out[..80].iter().all(|&b| b == 0));
    assert_eq!(&out[80..84], &2u32.to_le_bytes());
    // The attribute word of every record is zero.
    assert_eq!(&out[84 + 48..84 + 50], &0u16.to_le_bytes());
    assert_eq!(&out[84 + 50 + 48..84 + 50 + 50], &0u16.to_le_bytes());
}

#[test]
fn kind_is_a_header_heuristic() {
    let mut bytes = stl_two_facets();
    let stl = StlFile::read(&bytes).unwrap();
    assert_eq!(stl.kind(), "binary");
    bytes[..6].copy_from_slice(b"solid ");
    let stl = StlFile::read(&bytes).unwrap();
    assert_eq!(stl.kind(), "ASCII");
}

#[test]
fn describe_reports_raw_facets() {
    let mut bytes = vec![0u8; 80];
    bytes.extend_from_slice(&1u32.to_le_bytes());
    push_facet(
        &mut bytes,
        [0.0, 0.0, 1.0],
        [0.0, 0.0, 0.0],
        [1.0, 0.0, 0.0],
        [0.0, 1.0, 0.0],
        26,
    );
    let stl = StlFile::read(&bytes).unwrap();
    let text = stl.describe();
    assert_eq!(
        text,
        "Is binary STL\nFacets: 1\n  Facet: [(0,0,1)] ((0,0,0)-(1,0,0)-(0,1,0)) [1A]\n"
    );
}

#[test]
fn amf_read_is_unimplemented() {
    assert_eq!(AmfFile::read(&[1, 2, 3]).err(), Some(MeshError::Unimplemented));
}

#[test]
fn amf_document_layout() {
    let mut bytes = vec![0u8; 80];
    bytes.extend_from_slice(&1u32.to_le_bytes());
    push_facet(
        &mut bytes,
        [0.0, 0.0, 0.0],
        [1.5, 0.25, 2.0],
        [1.5, 0.25, 2.0],
        [1.5, 0.25, 2.0],
        0,
    );
    let mesh = StlFile::read(&bytes).unwrap().as_mesh();
    let text = AmfFile::write(&mesh);
    let expected = "<amf unit='inch' version='1.1'>\n  <object id='1'>\n    <vertices>\n        <vertex><coordinates><x>1.5</x><y>0.25</y><z>2</z></coordinates></vertex>\n    </vertices>\n    <volume materialid='1'>\n        <triangle><v1>0</v1><v2>0</v2><v3>0</v3></triangle>\n    </volume>\n  </object>\n</amf>\n";
    assert_eq!(text, expected);
}

#[test]
fn pov_include_layout() {
    let mut bytes = vec![0u8; 80];
    bytes.extend_from_slice(&1u32.to_le_bytes());
    push_facet(
        &mut bytes,
        [0.0, 0.0, 1.0],
        [0.0, 0.0, 0.0],
        [1.0, 0.0, 0.0],
        [0.0, 1.0, 0.0],
        0,
    );
    let mesh = StlFile::read(&bytes).unwrap().as_mesh();
    let text = POV::write(&mesh, "model.stl");
    // Vertex components are reordered as (y, x, z).
    let expected = "// Source file: model.stl\n# declare m_model = mesh {\n    triangle {\n            <0, 0, 0>,\n            <0, 1, 0>,\n            <1, 0, 0>\n    }\n}\n";
    assert_eq!(text, expected);
}

#[test]
fn pov_scene_substitution() {
    let template = "include FILE_NAME here; object { MODEL_NAME } // FILE_NAME again";
    let out = POV::scene_text(template, "part.inc");
    assert_eq!(out, "include part.inc here; object { m_model } // part.inc again");
}

#[test]
fn pov_default_template_has_placeholders() {
    let t = POV::read_template();
    assert!(t.contains("FILE_NAME"));
    assert!(t.contains("MODEL_NAME"));
    let scene = POV::scene_text(&t, "out.inc");
    assert!(scene.contains("out.inc"));
    assert!(scene.contains("m_model"));
    assert!(!scene.contains("FILE_NAME"));
    assert!(!scene.contains("MODEL_NAME"));
}

#[test]
fn integer_text_renderings() {
    assert_eq!(mesh::text::usize_text(0), "0");
    assert_eq!(mesh::text::usize_text(12345), "12345");
    assert_eq!(mesh::text::u16_hex_text(0), "0");
    assert_eq!(mesh::text::u16_hex_text(0x2a), "2A");
    assert_eq!(mesh::text::u16_hex_text(0xffff), "FFFF");
}

#[test]
fn trailing_bytes_are_ignored() {
    let mut bytes = stl_two_facets();
    bytes.extend_from_slice(&[0xde, 0xad, 0xbe, 0xef]);
    let stl = StlFile::read(&bytes).unwrap();
    assert_eq!(stl.facets.len(), 2);
    let reference = StlFile::read(&stl_two_facets()).unwrap();
    assert_eq!(stl.facets, reference.facets);
}
