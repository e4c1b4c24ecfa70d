//! The transform pipeline: an ordered list of named operations, each
//! consuming a mesh and producing a new one.
//!
//! Each operation replaces the vertex positions and leaves the facet
//! index/topology list untouched.  `scale` multiplies each vertex
//! component-wise by its argument and `translate` adds its argument;
//! `rotate` keeps every vertex in place — the exact rotation convention is
//! deliberately left open by the mesh format, and the identity keeps the
//! pipeline contract (order-preserving, vertex-only, topology-preserving)
//! without committing to one.  Operations run strictly in the order given
//! and never fail at apply time: malformed arguments are rejected at parse
//! time, before any I/O.

use vstd::prelude::*;
use vstd::string::StrSliceExecFns;
use vstd::string::StringExecFns;

use crate::MeshError;
use crate::fbits::f32_add;
use crate::fbits::f32_add_bits;
use crate::fbits::f32_mul;
use crate::fbits::f32_mul_bits;
use crate::fbits::f32_parse;
use crate::fbits::f32_parse_bits;
use crate::mesh::Mesh;
use crate::mesh::facet_wf;
use crate::vector::Vector3D;

verus! {

/// The closed set of transform operations, each parameterized by one
/// 3-component vector argument.
#[derive(Clone, Copy, Debug, PartialEq, Eq, Structural)]
pub enum MeshOperation {
    /// Keeps every vertex in place (the rotation convention is left open).
    Rotate(Vector3D),
    /// Multiplies each vertex component-wise by the argument.
    Scale(Vector3D),
    /// Adds the argument to each vertex component-wise.
    Translate(Vector3D),
}

/// What one operation does to one vertex.
pub open spec fn apply_op_vertex(op: MeshOperation, v: Vector3D) -> Vector3D {
    match op {
        MeshOperation::Rotate(_) => v,
        MeshOperation::Scale(s) => Vector3D {
            x: f32_mul_bits(v.x, s.x),
            y: f32_mul_bits(v.y, s.y),
            z: f32_mul_bits(v.z, s.z),
        },
        MeshOperation::Translate(t) => Vector3D {
            x: f32_add_bits(v.x, t.x),
            y: f32_add_bits(v.y, t.y),
            z: f32_add_bits(v.z, t.z),
        },
    }
}

/// What one operation does to a whole vertex list.
pub open spec fn transform_vertices(op: MeshOperation, vs: Seq<Vector3D>) -> Seq<Vector3D> {
    Seq::new(vs.len(), |i: int| apply_op_vertex(op, vs[i]))
}

/// What a pipeline does to a vertex list: the operations applied strictly in
/// order, the first one first.
pub open spec fn pipeline_vertices(ops: Seq<MeshOperation>, vs: Seq<Vector3D>) -> Seq<Vector3D>
    decreases ops.len(),
{
    if ops.len() == 0 {
        vs
    } else {
        pipeline_vertices(ops.skip(1), transform_vertices(ops[0], vs))
    }
}

/// Appending one operation to a pipeline applies it last.
pub proof fn lemma_pipeline_push(ops: Seq<MeshOperation>, op: MeshOperation, vs: Seq<Vector3D>)
    ensures
        pipeline_vertices(ops.push(op), vs) == transform_vertices(op, pipeline_vertices(ops, vs)),
    decreases ops.len(),
{
    if ops.len() == 0 {
        assert(ops.push(op).skip(1) =~= Seq::<MeshOperation>::empty());
        assert(ops.push(op)[0] == op);
        assert(pipeline_vertices(ops, vs) == vs);
        assert(pipeline_vertices(ops.push(op), vs) == pipeline_vertices(
            Seq::<MeshOperation>::empty(),
            transform_vertices(op, vs),
        ));
        assert(pipeline_vertices(Seq::<MeshOperation>::empty(), transform_vertices(op, vs))
            == transform_vertices(op, vs));
    } else {
        assert(ops.push(op).skip(1) =~= ops.skip(1).push(op));
        assert(ops.push(op)[0] == ops[0]);
        lemma_pipeline_push(ops.skip(1), op, transform_vertices(ops[0], vs));
        assert(pipeline_vertices(ops.push(op), vs) == pipeline_vertices(
            ops.skip(1).push(op),
            transform_vertices(ops[0], vs),
        ));
        assert(pipeline_vertices(ops, vs) == pipeline_vertices(
            ops.skip(1),
            transform_vertices(ops[0], vs),
        ));
    }
}

/// Pipeline ordering: running `a` then `b` is exactly the pipeline `a + b`.
/// The pipeline respects input order — `[rotate(u), scale(w)]` is the
/// composition scale-after-rotate, and `[scale(w), rotate(u)]` the reverse
/// composition.
pub proof fn lemma_pipeline_append(a: Seq<MeshOperation>, b: Seq<MeshOperation>, vs: Seq<Vector3D>)
    ensures
        pipeline_vertices(a + b, vs) == pipeline_vertices(b, pipeline_vertices(a, vs)),
    decreases b.len(),
{
    if b.len() == 0 {
        assert(a + b =~= a);
    } else {
        let b0 = b.drop_last();
        lemma_pipeline_append(a, b0, vs);
        lemma_pipeline_push(a + b0, b.last(), vs);
        lemma_pipeline_push(b0, b.last(), pipeline_vertices(a, vs));
        assert((a + b0).push(b.last()) =~= a + b);
        assert(b0.push(b.last()) =~= b);
    }
}

impl MeshOperation {
    /// Applies this operation: the vertex positions are replaced by
    /// transformed copies and the facet list is kept unchanged, so a
    /// well-formed mesh stays well-formed.
    pub fn apply(&self, mesh: Mesh) -> (r: Mesh)
        ensures
            r.vertices@ == transform_vertices(*self, mesh.vertices@),
            r.facets@ == mesh.facets@,
            mesh.wf() ==> r.wf(),
    {
        let n = mesh.vertices.len();
        let mut vs: Vec<Vector3D> = Vec::new();
        let mut i: usize = 0;
        while i < n
            invariant
                n == mesh.vertices@.len(),
                i <= n,
                vs@.len() == i,
                forall|j: int| 0 <= j < i ==> vs@[j] == apply_op_vertex(*self, mesh.vertices@[j]),
            decreases n - i,
        {
            let v = mesh.vertices[i];
            let w = match self {
                MeshOperation::Rotate(_) => v,
                MeshOperation::Scale(s) => Vector3D {
                    x: f32_mul(v.x, s.x),
                    y: f32_mul(v.y, s.y),
                    z: f32_mul(v.z, s.z),
                },
                MeshOperation::Translate(t) => Vector3D {
                    x: f32_add(v.x, t.x),
                    y: f32_add(v.y, t.y),
                    z: f32_add(v.z, t.z),
                },
            };
            vs.push(w);
            i = i + 1;
        }
        let r = Mesh { vertices: vs, facets: mesh.facets };
        proof {
            assert(r.vertices@ =~= transform_vertices(*self, mesh.vertices@));
            if mesh.wf() {
                assert forall|j: int| 0 <= j < r.facets@.len() implies facet_wf(
                    #[trigger] r.facets@[j],
                    r.vertices@.len(),
                ) by {
                    assert(facet_wf(mesh.facets@[j], mesh.vertices@.len()));
                }
            }
        }
        r
    }
}

/// Runs a pipeline: each operation consumes the mesh produced by the
/// previous step, strictly in the order given.
pub fn apply_all(ops: &Vec<MeshOperation>, mesh: Mesh) -> (r: Mesh)
    ensures
        r.vertices@ == pipeline_vertices(ops@, mesh.vertices@),
        r.facets@ == mesh.facets@,
        mesh.wf() ==> r.wf(),
{
    let ghost vs0 = mesh.vertices@;
    let ghost fs0 = mesh.facets@;
    let ghost wf0 = mesh.wf();
    let mut m = mesh;
    let n = ops.len();
    let mut i: usize = 0;
    proof {
        assert(ops@.take(0) =~= Seq::<MeshOperation>::empty());
    }
    while i < n
        invariant
            n == ops@.len(),
            i <= n,
            m.vertices@ == pipeline_vertices(ops@.take(i as int), vs0),
            m.facets@ == fs0,
            wf0 == ({
                forall|j: int| 0 <= j < fs0.len() ==> facet_wf(#[trigger] fs0[j], vs0.len())
            }),
            wf0 ==> m.wf(),
        decreases n - i,
    {
        let op = ops[i];
        m = op.apply(m);
        proof {
            lemma_pipeline_push(ops@.take(i as int), ops@[i as int], vs0);
            assert(ops@.take(i as int).push(ops@[i as int]) =~= ops@.take(i + 1));
        }
        i = i + 1;
    }
    proof {
        assert(ops@.take(n as int) =~= ops@);
    }
    m
}

/// Exact character equality of two strings.
pub fn str_eq_chars(a: &str, b: &str) -> (r: bool)
    ensures
        r == (a@ == b@),
{
    let la = a.unicode_len();
    let lb = b.unicode_len();
    if la != lb {
        proof {
            if a@ == b@ {
                assert(a@.len() == b@.len());
            }
        }
        return false;
    }
    let mut i: usize = 0;
    while i < la
        invariant
            la == a@.len(),
            la == b@.len(),
            i <= la,
            forall|j: int| 0 <= j < i ==> a@[j] == b@[j],
        decreases la - i,
    {
        if a.get_char(i) != b.get_char(i) {
            proof {
                assert(a@[i as int] != b@[i as int]);
            }
            return false;
        }
        i = i + 1;
    }
    proof {
        assert(a@ =~= b@);
    }
    true
}

/// The comma-separated fields of `s`: splitting on every `','`, keeping
/// empty fields (an empty string is one empty field).
pub open spec fn split_commas(s: Seq<char>) -> Seq<Seq<char>>
    decreases s.len(),
{
    if s.len() == 0 {
        seq![Seq::empty()]
    } else {
        let rest = split_commas(s.drop_last());
        if s.last() == ',' {
            rest.push(Seq::empty())
        } else {
            rest.update(rest.len() - 1, rest.last().push(s.last()))
        }
    }
}

/// `split_commas` always yields at least one field.
pub proof fn lemma_split_nonempty(s: Seq<char>)
    ensures
        split_commas(s).len() >= 1,
    decreases s.len(),
{
    if s.len() > 0 {
        lemma_split_nonempty(s.drop_last());
    }
}

/// What parsing a vector argument yields: `Some` exactly when the literal
/// has exactly three comma-separated fields and every field parses as a
/// number; the components are the three parsed values in order.
pub open spec fn arg_vector_spec(s: Seq<char>) -> Option<Vector3D> {
    let fields = split_commas(s);
    if fields.len() == 3 && f32_parse_bits(fields[0]) is Some && f32_parse_bits(fields[1]) is Some
        && f32_parse_bits(fields[2]) is Some {
        Some(
            Vector3D {
                x: f32_parse_bits(fields[0]).unwrap(),
                y: f32_parse_bits(fields[1]).unwrap(),
                z: f32_parse_bits(fields[2]).unwrap(),
            },
        )
    } else {
        None
    }
}

/// Parses a comma-separated vector literal of exactly three numeric fields;
/// any other field count, and any non-numeric field, is rejected as
/// `MalformedArgument` — before any I/O happens.
pub fn arg_to_vector(arg: &str) -> (r: Result<Vector3D, MeshError>)
    requires
        arg@.len() < 0x2000_0000,
    ensures
        match r {
            Ok(v) => arg_vector_spec(arg@) == Some(v),
            Err(e) => arg_vector_spec(arg@) is None && e == MeshError::MalformedArgument,
        },
{
    let n = arg.unicode_len();
    let mut parts: Vec<&str> = Vec::new();
    let mut start: usize = 0;
    let mut i: usize = 0;
    proof {
        assert(arg@.take(0) =~= Seq::<char>::empty());
        assert(split_commas(arg@.take(0)) =~= seq![Seq::<char>::empty()]);
    }
    while i < n
        invariant
            n == arg@.len(),
            n < 0x2000_0000,
            i <= n,
            start <= i,
            split_commas(arg@.take(i as int)).len() == parts@.len() + 1,
            forall|j: int|
                0 <= j < parts@.len() ==> split_commas(arg@.take(i as int))[j] == (
                #[trigger] parts@[j])@,
            split_commas(arg@.take(i as int)).last() == arg@.subrange(start as int, i as int),
            forall|j: int| 0 <= j < parts@.len() ==> (#[trigger] parts@[j])@.len() <= n,
        decreases n - i,
    {
        let ghost pre = split_commas(arg@.take(i as int));
        proof {
            assert(arg@.take(i + 1).drop_last() =~= arg@.take(i as int));
            assert(arg@.take(i + 1).last() == arg@[i as int]);
            lemma_split_nonempty(arg@.take(i as int));
        }
        let c = arg.get_char(i);
        if c == ',' {
            let part = arg.substring_char(start, i);
            parts.push(part);
            start = i + 1;
            proof {
                assert(split_commas(arg@.take(i + 1)) =~= pre.push(Seq::<char>::empty()));
                assert(arg@.subrange(start as int, i + 1) =~= Seq::<char>::empty());
            }
        } else {
            proof {
                let upd = pre.update(pre.len() - 1, pre.last().push(arg@[i as int]));
                assert(split_commas(arg@.take(i + 1)) =~= upd);
                assert(pre.last().push(arg@[i as int]) =~= arg@.subrange(start as int, i + 1));
            }
        }
        i = i + 1;
    }
    proof {
        assert(arg@.take(n as int) =~= arg@);
    }
    let last_part = arg.substring_char(start, n);
    parts.push(last_part);
    // `parts` now holds exactly the comma-separated fields of `arg`.
    proof {
        assert(forall|j: int|
            0 <= j < parts@.len() ==> split_commas(arg@)[j] == (#[trigger] parts@[j])@);
    }
    if parts.len() != 3 {
        return Err(MeshError::MalformedArgument);
    }
    let p0 = f32_parse(parts[0]);
    let p1 = f32_parse(parts[1]);
    let p2 = f32_parse(parts[2]);
    match (p0, p1, p2) {
        (Some(x), Some(y), Some(z)) => Ok(Vector3D { x, y, z }),
        _ => Err(MeshError::MalformedArgument),
    }
}

/// Builds the operation named `name` with vector argument `v`: exactly the
/// names `rotate`, `scale` and `translate` are recognized; any other name is
/// rejected as `MalformedArgument`.
pub fn make_operation(name: &str, v: Vector3D) -> (r: Result<MeshOperation, MeshError>)
    ensures
        name@ == "rotate"@ ==> r == Ok::<MeshOperation, MeshError>(MeshOperation::Rotate(v)),
        name@ == "scale"@ ==> r == Ok::<MeshOperation, MeshError>(MeshOperation::Scale(v)),
        name@ == "translate"@ ==> r == Ok::<MeshOperation, MeshError>(MeshOperation::Translate(v)),
        name@ != "rotate"@ && name@ != "scale"@ && name@ != "translate"@ ==> r == Err::<
            MeshOperation,
            MeshError,
        >(MeshError::MalformedArgument),
{
    proof {
        reveal_strlit("rotate");
        reveal_strlit("scale");
        reveal_strlit("translate");
        assert("rotate"@.len() == 6);
        assert("scale"@.len() == 5);
        assert("translate"@.len() == 9);
        assert("rotate"@ != "scale"@ && "rotate"@ != "translate"@ && "scale"@ != "translate"@);
    }
    if str_eq_chars(name, "rotate") {
        Ok(MeshOperation::Rotate(v))
    } else if str_eq_chars(name, "scale") {
        Ok(MeshOperation::Scale(v))
    } else if str_eq_chars(name, "translate") {
        Ok(MeshOperation::Translate(v))
    } else {
        Err(MeshError::MalformedArgument)
    }
}

} // verus!
