//! Three-component single-precision vectors and the vertex deduplication map.
//!
//! A [`Vector3D`] stores its components as raw IEEE-754 bit patterns, so
//! equality (and hashing) is bit-exact per component: bit-identical NaNs are
//! equal, and `+0.0` / `-0.0` are distinct.  Deduplication therefore merges
//! exactly the bit-identical vertices and nothing else.

use vstd::prelude::*;

use crate::MeshError;
use crate::le32_at;
use crate::le32_bytes;
use crate::push_le_u32;
use crate::fbits::f32_add;
use crate::fbits::f32_add_bits;
use crate::fbits::f32_div;
use crate::fbits::f32_div_bits;
use crate::fbits::f32_mul;
use crate::fbits::f32_mul_bits;
use crate::fbits::f32_sub;
use crate::fbits::f32_sub_bits;
use crate::sqrt::f32_sqrt;
use crate::sqrt::sqrt_bits;

verus! {

/// An immutable 3-component single-precision vector; each component is the
/// raw bit pattern of the IEEE-754 value.  Equality and hashing are bit-exact
/// per component.
#[derive(Clone, Copy, Debug, PartialEq, Eq, Hash, Structural)]
pub struct Vector3D {
    pub x: u32,
    pub y: u32,
    pub z: u32,
}

/// The vector stored at `at..at + 12` of `bytes`: three little-endian 32-bit
/// components in x, y, z order.
pub open spec fn vec3_at(bytes: Seq<u8>, at: int) -> Vector3D {
    Vector3D { x: le32_at(bytes, at), y: le32_at(bytes, at + 4), z: le32_at(bytes, at + 8) }
}

/// The twelve bytes of `v`: three little-endian 32-bit components in x, y, z
/// order.
pub open spec fn vec3_bytes(v: Vector3D) -> Seq<u8> {
    le32_bytes(v.x) + le32_bytes(v.y) + le32_bytes(v.z)
}

/// Component-wise IEEE-754 subtraction of the encoded values.
pub open spec fn vec3_sub_bits(a: Vector3D, b: Vector3D) -> Vector3D {
    Vector3D {
        x: f32_sub_bits(a.x, b.x),
        y: f32_sub_bits(a.y, b.y),
        z: f32_sub_bits(a.z, b.z),
    }
}

/// The 3D cross product of the encoded values:
/// `(ay*bz - az*by, az*bx - ax*bz, ax*by - ay*bx)`.
pub open spec fn vec3_cross_bits(a: Vector3D, b: Vector3D) -> Vector3D {
    Vector3D {
        x: f32_sub_bits(f32_mul_bits(a.y, b.z), f32_mul_bits(a.z, b.y)),
        y: f32_sub_bits(f32_mul_bits(a.z, b.x), f32_mul_bits(a.x, b.z)),
        z: f32_sub_bits(f32_mul_bits(a.x, b.y), f32_mul_bits(a.y, b.x)),
    }
}

/// The squared magnitude `x*x + y*y + z*z` of the encoded value, summed left
/// to right.
pub open spec fn vec3_len2_bits(v: Vector3D) -> u32 {
    f32_add_bits(
        f32_add_bits(f32_mul_bits(v.x, v.x), f32_mul_bits(v.y, v.y)),
        f32_mul_bits(v.z, v.z),
    )
}

/// Each component divided by the magnitude `sqrt(x*x + y*y + z*z)`.  A zero
/// vector divides by zero and so yields IEEE infinities or NaNs, exactly as
/// an unguarded division does; the degenerate case is deliberately not
/// special-cased.
pub open spec fn vec3_normalize_bits(v: Vector3D) -> Vector3D {
    let len = sqrt_bits(vec3_len2_bits(v));
    Vector3D {
        x: f32_div_bits(v.x, len),
        y: f32_div_bits(v.y, len),
        z: f32_div_bits(v.z, len),
    }
}

impl Vector3D {
    /// Decodes the vector stored at `at..at + 12` of `bytes`; fails with
    /// `TruncatedInput` exactly when fewer than 12 bytes are available there.
    pub fn read(bytes: &[u8], at: usize) -> (r: Result<Vector3D, MeshError>)
        ensures
            at + 12 <= bytes@.len() ==> r == Ok::<Vector3D, MeshError>(
                vec3_at(bytes@, at as int),
            ),
            at + 12 > bytes@.len() ==> r == Err::<Vector3D, MeshError>(MeshError::TruncatedInput),
    {
        if bytes.len() < 12 || at > bytes.len() - 12 {
            return Err(MeshError::TruncatedInput);
        }
        let x = crate::read_le_u32(bytes, at);
        let y = crate::read_le_u32(bytes, at + 4);
        let z = crate::read_le_u32(bytes, at + 8);
        Ok(Vector3D { x, y, z })
    }

    /// Appends the twelve little-endian bytes of `self` to `out`.
    pub fn write(&self, out: &mut Vec<u8>)
        ensures
            final(out)@ == old(out)@ + vec3_bytes(*self),
    {
        push_le_u32(out, self.x);
        push_le_u32(out, self.y);
        push_le_u32(out, self.z);
        assert(final(out)@ =~= old(out)@ + vec3_bytes(*self));
    }

    /// Component-wise subtraction `self - o`.
    pub fn minus(&self, o: Vector3D) -> (r: Vector3D)
        ensures
            r == vec3_sub_bits(*self, o),
    {
        Vector3D {
            x: f32_sub(self.x, o.x),
            y: f32_sub(self.y, o.y),
            z: f32_sub(self.z, o.z),
        }
    }

    /// The standard 3D cross product of `a` and `b`.
    pub fn cross(a: Vector3D, b: Vector3D) -> (r: Vector3D)
        ensures
            r == vec3_cross_bits(a, b),
    {
        Vector3D {
            x: f32_sub(f32_mul(a.y, b.z), f32_mul(a.z, b.y)),
            y: f32_sub(f32_mul(a.z, b.x), f32_mul(a.x, b.z)),
            z: f32_sub(f32_mul(a.x, b.y), f32_mul(a.y, b.x)),
        }
    }

    /// Divides each component by the vector's magnitude.  A zero-magnitude
    /// vector yields infinity/NaN components, as the spec
    /// [`vec3_normalize_bits`] records.
    pub fn normalize(&self) -> (r: Vector3D)
        ensures
            r == vec3_normalize_bits(*self),
    {
        let len2 = f32_add(
            f32_add(f32_mul(self.x, self.x), f32_mul(self.y, self.y)),
            f32_mul(self.z, self.z),
        );
        let len = f32_sqrt(len2);
        Vector3D {
            x: f32_div(self.x, len),
            y: f32_div(self.y, len),
            z: f32_div(self.z, len),
        }
    }
}

/// Whether all entries of `s` are pairwise distinct.
pub open spec fn all_distinct(s: Seq<Vector3D>) -> bool {
    forall|i: int, j: int| 0 <= i < j < s.len() ==> s[i] != s[j]
}

/// First-occurrence deduplication: the distinct entries of `s`, each at the
/// position given by the order in which it first appears.
pub open spec fn dedup(s: Seq<Vector3D>) -> Seq<Vector3D>
    decreases s.len(),
{
    if s.len() == 0 {
        Seq::empty()
    } else {
        let d = dedup(s.drop_last());
        if d.contains(s.last()) {
            d
        } else {
            d.push(s.last())
        }
    }
}

/// The index of the first occurrence of `v` in `s` (or `s.len()` if absent).
pub open spec fn first_index(s: Seq<Vector3D>, v: Vector3D) -> int
    decreases s.len(),
{
    if s.len() == 0 {
        0
    } else if s[0] == v {
        0
    } else {
        1 + first_index(s.subrange(1, s.len() as int), v)
    }
}

/// `first_index` points at the first occurrence: the entry there is `v`, and
/// no earlier entry is.
pub proof fn lemma_first_index(s: Seq<Vector3D>, v: Vector3D)
    requires
        s.contains(v),
    ensures
        0 <= first_index(s, v) < s.len(),
        s[first_index(s, v)] == v,
        forall|j: int| 0 <= j < first_index(s, v) ==> s[j] != v,
    decreases s.len(),
{
    if s[0] == v {
    } else {
        let t = s.subrange(1, s.len() as int);
        assert(t.contains(v)) by {
            let w = choose|w: int| 0 <= w < s.len() && s[w] == v;
            assert(t[w - 1] == v);
        }
        lemma_first_index(t, v);
        assert(forall|j: int| 1 <= j < first_index(s, v) ==> s[j] == t[j - 1]);
    }
}

/// `dedup` keeps exactly the values of `s`.
pub proof fn lemma_dedup_contains(s: Seq<Vector3D>, v: Vector3D)
    ensures
        dedup(s).contains(v) <==> s.contains(v),
    decreases s.len(),
{
    if s.len() > 0 {
        lemma_dedup_contains(s.drop_last(), v);
        let d = dedup(s.drop_last());
        if s.contains(v) {
            if v == s.last() {
                if d.contains(v) {
                } else {
                    assert(dedup(s)[d.len() as int] == v);
                }
            } else {
                let w = choose|w: int| 0 <= w < s.len() && s[w] == v;
                assert(s.drop_last()[w] == v);
                assert(d.contains(v));
                if !d.contains(s.last()) {
                    let f = choose|f: int| 0 <= f < d.len() && d[f] == v;
                    assert(dedup(s)[f] == v);
                }
            }
        } else {
            assert(!s.drop_last().contains(v)) by {
                if s.drop_last().contains(v) {
                    let w = choose|w: int| 0 <= w < s.drop_last().len() && s.drop_last()[w] == v;
                    assert(s[w] == v);
                }
            }
            if dedup(s).contains(v) {
                let f = choose|f: int| 0 <= f < dedup(s).len() && dedup(s)[f] == v;
                if !d.contains(s.last()) && f == d.len() {
                    assert(s.last() == v);
                    assert(s[s.len() - 1] == v);
                } else {
                    assert(d[f] == v);
                }
            }
        }
    }
}

/// `dedup` produces no duplicates.
pub proof fn lemma_dedup_distinct(s: Seq<Vector3D>)
    ensures
        all_distinct(dedup(s)),
    decreases s.len(),
{
    if s.len() > 0 {
        lemma_dedup_distinct(s.drop_last());
        let d = dedup(s.drop_last());
        if !d.contains(s.last()) {
            assert forall|i: int, j: int| 0 <= i < j < dedup(s).len() implies dedup(s)[i] != dedup(
                s,
            )[j] by {
                if j == d.len() {
                    assert(dedup(s)[i] == d[i]);
                    assert(d.contains(d[i]));
                }
            }
        }
    }
}

/// Deduplication lists vertices in first-seen order: entries of `dedup(s)`
/// occur in the order of their first occurrences in `s`.  Together with
/// [`lemma_dedup_contains`] and [`lemma_dedup_distinct`] this pins the index
/// a vertex receives to the input sequence alone, so repeated runs over the
/// same input assign identical indices.
pub proof fn lemma_dedup_first_seen_order(s: Seq<Vector3D>, i: int, j: int)
    requires
        0 <= i < j < dedup(s).len(),
    ensures
        first_index(s, dedup(s)[i]) < first_index(s, dedup(s)[j]),
    decreases s.len(),
{
    lemma_dedup_distinct(s);
    if s.len() == 0 {
    } else {
        let d = dedup(s.drop_last());
        lemma_dedup_distinct(s.drop_last());
        if d.contains(s.last()) {
            // dedup(s) == d
            lemma_dedup_first_seen_prefix(s, i);
            lemma_dedup_first_seen_prefix(s, j);
            lemma_dedup_first_seen_order(s.drop_last(), i, j);
            assert(d.contains(d[i]));
            assert(d.contains(d[j]));
            lemma_dedup_contains(s.drop_last(), d[i]);
            lemma_dedup_contains(s.drop_last(), d[j]);
            lemma_first_extends(s, d[i]);
            lemma_first_extends(s, d[j]);
        } else {
            if j < d.len() {
                lemma_dedup_first_seen_order(s.drop_last(), i, j);
                assert(d.contains(d[i]));
                assert(d.contains(d[j]));
                lemma_dedup_contains(s.drop_last(), d[i]);
                lemma_dedup_contains(s.drop_last(), d[j]);
                lemma_first_extends(s, d[i]);
                lemma_first_extends(s, d[j]);
            } else {
                // j is the newly appended last vertex; its first occurrence
                // is the final position, after every earlier first index.
                assert(dedup(s)[j] == s.last());
                assert(dedup(s)[i] == d[i]);
                lemma_dedup_contains(s.drop_last(), d[i]);
                assert(d.contains(d[i]));
                assert(s.drop_last().contains(d[i]));
                lemma_first_in_prefix(s, d[i]);
                lemma_dedup_contains(s.drop_last(), s.last());
                assert(!s.drop_last().contains(s.last()));
                lemma_first_of_new_last(s);
            }
        }
    }
}

/// A value found in the prefix keeps its `first_index` when the sequence is
/// extended by one entry.
proof fn lemma_first_extends(s: Seq<Vector3D>, v: Vector3D)
    requires
        s.len() > 0,
        s.drop_last().contains(v),
    ensures
        first_index(s, v) == first_index(s.drop_last(), v),
        s.contains(v),
    decreases s.len(),
{
    let t = s.drop_last();
    let w = choose|w: int| 0 <= w < t.len() && t[w] == v;
    assert(s[w] == v);
    assert(s.contains(v));
    if s[0] == v {
    } else {
        let s1 = s.subrange(1, s.len() as int);
        let t1 = t.subrange(1, t.len() as int);
        assert(s1.drop_last() =~= t1);
        assert(t1[w - 1] == v);
        assert(t1.contains(v));
        lemma_first_extends(s1, v);
    }
}

/// The first occurrence of a value of the prefix lies in the prefix.
proof fn lemma_first_in_prefix(s: Seq<Vector3D>, v: Vector3D)
    requires
        s.len() > 0,
        s.drop_last().contains(v),
    ensures
        0 <= first_index(s, v) < s.len() - 1,
{
    lemma_first_extends(s, v);
    lemma_first_index(s.drop_last(), v);
}

/// A last entry absent from the prefix has its first occurrence there.
proof fn lemma_first_of_new_last(s: Seq<Vector3D>)
    requires
        s.len() > 0,
        !s.drop_last().contains(s.last()),
    ensures
        first_index(s, s.last()) == s.len() - 1,
{
    assert(s[s.len() - 1] == s.last());
    assert(s.contains(s.last()));
    lemma_first_index(s, s.last());
    let f = first_index(s, s.last());
    if f < s.len() - 1 {
        assert(s.drop_last()[f] == s.last());
        assert(s.drop_last().contains(s.last()));
    }
}

/// An entry of `dedup(s)` below the prefix's dedup length is an entry of the
/// prefix's dedup (used to walk `dedup` backwards).
proof fn lemma_dedup_first_seen_prefix(s: Seq<Vector3D>, i: int)
    requires
        s.len() > 0,
        0 <= i < dedup(s.drop_last()).len(),
    ensures
        dedup(s)[i] == dedup(s.drop_last())[i],
{
}

/// Exact-key deduplication: occurrences are merged to one index exactly when
/// they are bit-identical; vertices that differ in any single bit of any
/// component keep distinct indices.
pub proof fn lemma_exact_key_dedup(vs: Seq<Vector3D>, i: int, j: int)
    requires
        0 <= i < vs.len(),
        0 <= j < vs.len(),
    ensures
        first_index(dedup(vs), vs[i]) == first_index(dedup(vs), vs[j]) <==> vs[i] == vs[j],
{
    lemma_dedup_distinct(vs);
    lemma_dedup_contains(vs, vs[i]);
    lemma_dedup_contains(vs, vs[j]);
    assert(vs.contains(vs[i]));
    assert(vs.contains(vs[j]));
    lemma_first_index(dedup(vs), vs[i]);
    lemma_first_index(dedup(vs), vs[j]);
}

/// A mapping from vertices to stable indices, assigned in first-seen order.
///
/// The view is the dense index-to-vertex table: position `i` holds the vertex
/// that was assigned index `i`.  The well-formedness invariant is that the
/// table holds no duplicates, so each vertex determines its index.
pub struct VertexMap {
    vertices: Vec<Vector3D>,
}

impl View for VertexMap {
    type V = Seq<Vector3D>;

    closed spec fn view(&self) -> Seq<Vector3D> {
        self.vertices@
    }
}

impl VertexMap {
    /// All stored vertices are pairwise distinct.
    pub open spec fn wf(&self) -> bool {
        all_distinct(self@)
    }

    /// An empty map.
    pub fn new() -> (r: VertexMap)
        ensures
            r@ == Seq::<Vector3D>::empty(),
            r.wf(),
    {
        let r = VertexMap { vertices: Vec::new() };
        assert(r@ =~= Seq::<Vector3D>::empty());
        r
    }

    /// The count of distinct vertices seen so far.
    pub fn len(&self) -> (r: usize)
        ensures
            r == self@.len(),
    {
        self.vertices.len()
    }

    /// The index of a previously added vertex.
    pub fn get(&self, v3d: &Vector3D) -> (r: usize)
        requires
            self.wf(),
            self@.contains(*v3d),
        ensures
            r == first_index(self@, *v3d),
            r < self@.len(),
            self@[r as int] == *v3d,
    {
        let n = self.vertices.len();
        let mut i: usize = 0;
        while i < n
            invariant
                n == self@.len(),
                self.wf(),
                self@.contains(*v3d),
                i <= n,
                forall|j: int| 0 <= j < i ==> self@[j] != *v3d,
            decreases n - i,
        {
            if self.vertices[i].x == v3d.x && self.vertices[i].y == v3d.y && self.vertices[i].z
                == v3d.z {
                proof {
                    lemma_first_index(self@, *v3d);
                    assert(self@[i as int] == *v3d);
                    let f = first_index(self@, *v3d);
                    if f < i {
                        assert(self@[f] == *v3d);
                        assert(false);
                    }
                    if f > i {
                        assert(self@[i as int] != *v3d);
                        assert(false);
                    }
                }
                return i;
            }
            i = i + 1;
        }
        proof {
            assert(forall|j: int| 0 <= j < self@.len() ==> self@[j] != *v3d);
            assert(false);
        }
        0
    }

    /// Adds a vertex: an already-present vertex keeps its index and the map
    /// is unchanged; a new vertex is stored under the next sequential index.
    pub fn add(&mut self, vertex: Vector3D) -> (idx: usize)
        requires
            old(self).wf(),
        ensures
            final(self).wf(),
            old(self)@.contains(vertex) ==> final(self)@ == old(self)@ && idx == first_index(
                old(self)@,
                vertex,
            ),
            !old(self)@.contains(vertex) ==> final(self)@ == old(self)@.push(vertex) && idx == old(
                self,
            )@.len(),
            idx < final(self)@.len(),
            final(self)@[idx as int] == vertex,
    {
        let n = self.vertices.len();
        let mut i: usize = 0;
        while i < n
            invariant
                n == self@.len(),
                self == old(self),
                self.wf(),
                i <= n,
                forall|j: int| 0 <= j < i ==> self@[j] != vertex,
            decreases n - i,
        {
            if self.vertices[i].x == vertex.x && self.vertices[i].y == vertex.y
                && self.vertices[i].z == vertex.z {
                proof {
                    assert(self@[i as int] == vertex);
                    assert(self@.contains(vertex));
                    lemma_first_index(self@, vertex);
                    let f = first_index(self@, vertex);
                    if f < i {
                        assert(self@[f] == vertex);
                        assert(false);
                    }
                    if f > i {
                        assert(self@[i as int] != vertex);
                        assert(false);
                    }
                }
                return i;
            }
            i = i + 1;
        }
        proof {
            assert(forall|j: int| 0 <= j < self@.len() ==> self@[j] != vertex);
            assert(!self@.contains(vertex));
        }
        let idx = self.vertices.len();
        self.vertices.push(vertex);
        proof {
            assert forall|a: int, b: int| 0 <= a < b < self@.len() implies self@[a] != self@[b] by {
                if b < self@.len() - 1 {
                    assert(old(self)@[a] != old(self)@[b]);
                }
            }
        }
        idx
    }

    /// The dense index-to-vertex table, ordered by assigned index.
    pub fn vector(&self) -> (r: Vec<Vector3D>)
        ensures
            r@ == self@,
    {
        let mut r: Vec<Vector3D> = Vec::new();
        let mut i: usize = 0;
        while i < self.vertices.len()
            invariant
                i <= self@.len(),
                r@ == self@.subrange(0, i as int),
            decreases self@.len() - i,
        {
            r.push(self.vertices[i]);
            assert(r@ =~= self@.subrange(0, i + 1));
            i = i + 1;
        }
        assert(r@ =~= self@);
        r
    }
}

} // verus!
