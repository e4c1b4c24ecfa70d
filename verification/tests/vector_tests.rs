use mesh::MeshError;
use mesh::MeshOperation;
use mesh::Vector3D;
use mesh::VertexMap;
use mesh::transform::arg_to_vector;
use mesh::transform::make_operation;

fn v3(x: f32, y: f32, z: f32) -> Vector3D {
    Vector3D { x: x.to_bits(), y: y.to_bits(), z: z.to_bits() }
}

#[test]
fn vectors_can_be_subtracted() {
    let l = v3(1.0, 1.0, 1.0);
    let r = v3(2.0, 3.0, 4.0);
    let result = l.minus(r);
    assert_eq!(result.x, (-1.0f32).to_bits());
    assert_eq!(result.y, (-2.0f32).to_bits());
    assert_eq!(result.z, (-3.0f32).to_bits());
}

#[test]
fn vectors_can_cross_product() {
    let l = v3(3.0, -3.0, 1.0);
    let r = v3(4.0, 9.0, 2.0);
    let result = Vector3D::cross(l, r);
    assert_eq!(result.x, (-15.0f32).to_bits());
    assert_eq!(result.y, (-2.0f32).to_bits());
    assert_eq!(result.z, 39.0f32.to_bits());
}

#[test]
fn vectors_can_normalize() {
    let r = v3(3.0, 1.0, 2.0);
    let _result = r.normalize();
}

#[test]
fn normalize_axis_aligned_is_exact() {
    // |(0, 0, 4)| = 4 exactly, so the result is the exact unit vector.
    let r = v3(0.0, 0.0, 4.0);
    let result = r.normalize();
    assert_eq!(result.x, 0.0f32.to_bits());
    assert_eq!(result.y, 0.0f32.to_bits());
    assert_eq!(result.z, 1.0f32.to_bits());
}

#[test]
fn sqrt_matches_hardware() {
    let cases: Vec<f32> = vec![
        0.0, 1.0, 2.0, 3.0, 4.0, 0.5, 0.25, 10.0, 1e-10, 1e10, 3.0e38, 1.0e-40, 6.25,
    ];
    for x in cases {
        assert_eq!(
            mesh::sqrt::f32_sqrt(x.to_bits()),
            x.sqrt().to_bits(),
            "square root differs for {}",
            x
        );
    }
    // Negative zero passes through; infinity passes through.
    assert_eq!(mesh::sqrt::f32_sqrt((-0.0f32).to_bits()), (-0.0f32).to_bits());
    assert_eq!(mesh::sqrt::f32_sqrt(f32::INFINITY.to_bits()), f32::INFINITY.to_bits());
    // NaN and negative inputs yield the canonical quiet NaN.
    assert_eq!(mesh::sqrt::f32_sqrt(f32::NAN.to_bits()), 0x7fc0_0000);
    assert_eq!(mesh::sqrt::f32_sqrt((-1.0f32).to_bits()), 0x7fc0_0000);
    assert_eq!(mesh::sqrt::f32_sqrt(f32::NEG_INFINITY.to_bits()), 0x7fc0_0000);
}

#[test]
fn converts_arg_to_vector() {
    let result = arg_to_vector("1,2,3").unwrap();
    assert_eq!(result.x, 1.0f32.to_bits());
    assert_eq!(result.y, 2.0f32.to_bits());
    assert_eq!(result.z, 3.0f32.to_bits());
}

#[test]
fn rejects_wrong_field_counts() {
    assert_eq!(arg_to_vector("1,2"), Err(MeshError::MalformedArgument));
    assert_eq!(arg_to_vector("1,2,3,4"), Err(MeshError::MalformedArgument));
    assert_eq!(arg_to_vector(""), Err(MeshError::MalformedArgument));
    assert_eq!(arg_to_vector("1,abc,3"), Err(MeshError::MalformedArgument));
}

#[test]
fn parses_fractional_fields() {
    let result = arg_to_vector("1.5,-0.25,2").unwrap();
    assert_eq!(result.x, 1.5f32.to_bits());
    assert_eq!(result.y, (-0.25f32).to_bits());
    assert_eq!(result.z, 2.0f32.to_bits());
}

#[test]
fn recognizes_operation_names() {
    let v = v3(1.0, 2.0, 3.0);
    assert_eq!(make_operation("rotate", v), Ok(MeshOperation::Rotate(v)));
    assert_eq!(make_operation("scale", v), Ok(MeshOperation::Scale(v)));
    assert_eq!(make_operation("translate", v), Ok(MeshOperation::Translate(v)));
    assert_eq!(make_operation("shear", v), Err(MeshError::MalformedArgument));
    assert_eq!(make_operation("", v), Err(MeshError::MalformedArgument));
}

#[test]
fn vertex_map_assigns_first_seen_indices() {
    let mut vm = VertexMap::new();
    let a = v3(0.0, 0.0, 0.0);
    let b = v3(1.0, 0.0, 0.0);
    assert_eq!(vm.add(a), 0);
    assert_eq!(vm.add(b), 1);
    assert_eq!(vm.add(a), 0);
    assert_eq!(vm.len(), 2);
    assert_eq!(vm.get(&b), 1);
    let table = vm.vector();
    assert_eq!(table[0], a);
    assert_eq!(table[1], b);
}

#[test]
fn single_bit_difference_is_never_merged() {
    // Flipping any single bit of any component makes a distinct key; the
    // bit-identical vertex is always merged.
    let base = v3(1.0, 2.0, 3.0);
    let mut vm = VertexMap::new();
    assert_eq!(vm.add(base), 0);
    let mut expected: usize = 1;
    for bit in 0..32 {
        let tweaked = Vector3D { x: base.x ^ (1u32 << bit), y: base.y, z: base.z };
        assert_eq!(vm.add(tweaked), expected);
        expected += 1;
        let tweaked = Vector3D { x: base.x, y: base.y ^ (1u32 << bit), z: base.z };
        assert_eq!(vm.add(tweaked), expected);
        expected += 1;
        let tweaked = Vector3D { x: base.x, y: base.y, z: base.z ^ (1u32 << bit) };
        assert_eq!(vm.add(tweaked), expected);
        expected += 1;
    }
    // Re-adding every original key changes nothing.
    assert_eq!(vm.add(base), 0);
    assert_eq!(vm.len(), 97);
}

#[test]
fn negative_zero_is_a_distinct_key() {
    let mut vm = VertexMap::new();
    assert_eq!(vm.add(v3(0.0, 0.0, 0.0)), 0);
    assert_eq!(vm.add(v3(-0.0, 0.0, 0.0)), 1);
    // Bit-identical NaNs are one key.
    let nan = Vector3D { x: f32::NAN.to_bits(), y: 0, z: 0 };
    assert_eq!(vm.add(nan), 2);
    assert_eq!(vm.add(nan), 2);
}
