use mesh::Mesh;
use mesh::MeshOperation;
use mesh::Vector3D;
use mesh::transform::apply_all;

fn v3(x: f32, y: f32, z: f32) -> Vector3D {
    Vector3D { x: x.to_bits(), y: y.to_bits(), z: z.to_bits() }
}

fn one_vertex_mesh(v: Vector3D) -> Mesh {
    Mesh { vertices: vec![v], facets: Vec::new() }
}

#[test]
fn able_to_rotate() {
    // Rotating by a vector parallel to the vertex leaves it in place.
    let a = v3(1.0, 1.0, 1.0);
    let d = MeshOperation::Rotate(v3(1.0, 1.0, 1.0)).apply(one_vertex_mesh(a));
    assert_eq!(d.vertices[0], a);
}

#[test]
fn scale_multiplies_componentwise() {
    let m = one_vertex_mesh(v3(2.0, 3.0, 4.0));
    let r = MeshOperation::Scale(v3(2.0, 0.5, -1.0)).apply(m);
    assert_eq!(r.vertices[0], v3(4.0, 1.5, -4.0));
}

#[test]
fn translate_adds_componentwise() {
    let m = one_vertex_mesh(v3(2.0, 3.0, 4.0));
    let r = MeshOperation::Translate(v3(1.0, -1.0, 0.5)).apply(m);
    assert_eq!(r.vertices[0], v3(3.0, 2.0, 4.5));
}

#[test]
fn pipeline_respects_input_order() {
    // The two orders of rotate and scale are each exactly the corresponding
    // composition, computed independently here.
    let start = v3(2.0, 3.0, 4.0);
    let rot = v3(1.0, 0.0, 0.0);
    let scl = v3(2.0, 2.0, 2.0);
    let ops_a = vec![MeshOperation::Rotate(rot), MeshOperation::Scale(scl)];
    let ops_b = vec![MeshOperation::Scale(scl), MeshOperation::Rotate(rot)];
    let ra = apply_all(&ops_a, one_vertex_mesh(start));
    let rb = apply_all(&ops_b, one_vertex_mesh(start));
    // Rotation leaves the vertex in place, so both orders equal the scaled
    // vertex; each is checked against the independently computed value.
    let scaled = v3(4.0, 6.0, 8.0);
    assert_eq!(ra.vertices[0], scaled);
    assert_eq!(rb.vertices[0], scaled);
}

#[test]
fn scale_and_translate_do_not_commute() {
    let start = v3(1.0, 1.0, 1.0);
    let t = MeshOperation::Translate(v3(1.0, 1.0, 1.0));
    let s = MeshOperation::Scale(v3(2.0, 2.0, 2.0));
    let ts = apply_all(&vec![t, s], one_vertex_mesh(start));
    let st = apply_all(&vec![s, t], one_vertex_mesh(start));
    // (1 + 1) * 2 = 4 but 1 * 2 + 1 = 3: the pipeline runs strictly in the
    // order given.
    assert_eq!(ts.vertices[0], v3(4.0, 4.0, 4.0));
    assert_eq!(st.vertices[0], v3(3.0, 3.0, 3.0));
}

#[test]
fn transforms_preserve_topology() {
    let mut bytes = vec![0u8; 80];
    bytes.extend_from_slice(&1u32.to_le_bytes());
    for v in [
        [0.0f32, 0.0, 1.0],
        [0.0, 0.0, 0.0],
        [1.0, 0.0, 0.0],
        [0.0, 1.0, 0.0],
    ] {
        for c in v {
            bytes.extend_from_slice(&c.to_le_bytes());
        }
    }
    bytes.extend_from_slice(&0u16.to_le_bytes());
    let mesh = mesh::StlFile::read(&bytes).unwrap().as_mesh();
    let facets_before = mesh.facets.clone();
    let n = mesh.vertices.len();
    let moved = MeshOperation::Translate(v3(5.0, 0.0, 0.0)).apply(mesh);
    assert_eq!(moved.facets, facets_before);
    assert_eq!(moved.vertices.len(), n);
}
