//! Indexed-mesh construction from binary STL data.
//!
//! The crate decodes the binary STL layout into raw facets, deduplicates
//! vertices by their exact bit patterns into an indexed mesh, recomputes each
//! facet normal from the triangle's own geometry, applies an ordered pipeline
//! of transform operations, and renders the result as binary STL bytes,
//! POV-Ray scene text, or an AMF XML document.
//!
//! Vertex components are IEEE-754 single-precision values carried as their
//! raw 32-bit patterns, which makes vertex deduplication exact-match by
//! definition.  The four basic arithmetic operations, parsing and formatting
//! are delegated to a deterministic soft-float implementation behind a small
//! trusted boundary (see [`fbits`]); the square root used by normalization is
//! implemented and verified here (see [`sqrt`]).

use vstd::prelude::*;

pub mod amf;
pub mod fbits;
pub mod mesh;
pub mod pov;
pub mod sqrt;
pub mod stl;
pub mod text;
pub mod transform;
pub mod vector;

pub use crate::amf::AmfFile;
pub use crate::mesh::Facet;
pub use crate::mesh::Mesh;
pub use crate::pov::POV;
pub use crate::transform::MeshOperation;
pub use crate::stl::StlFacet;
pub use crate::stl::StlFile;
pub use crate::stl::StlHeader;
pub use crate::vector::Vector3D;
pub use crate::vector::VertexMap;

verus! {

/// The error kinds surfaced by the mesh pipeline.
///
/// `IoFailure` is produced by the I/O layer around this crate; the functions
/// of this crate itself only ever report the other kinds.
#[derive(Clone, Copy, Debug, PartialEq, Eq, Structural)]
pub enum MeshError {
    /// A byte stream ended before the declared counts were satisfied.
    TruncatedInput,
    /// A transform argument does not parse to exactly three numbers, or an
    /// operation name is unrecognized.
    MalformedArgument,
    /// A file could not be opened, created or written.
    IoFailure,
    /// A requested decode path that does not exist (ASCII STL, AMF input).
    Unimplemented,
}

/// The little-endian 16-bit value stored at `at..at + 2` of `bytes`.
pub open spec fn le16_at(bytes: Seq<u8>, at: int) -> u16 {
    (bytes[at] as u16) | ((bytes[at + 1] as u16) << 8)
}

/// The little-endian 32-bit value stored at `at..at + 4` of `bytes`.
pub open spec fn le32_at(bytes: Seq<u8>, at: int) -> u32 {
    (bytes[at] as u32) | ((bytes[at + 1] as u32) << 8) | ((bytes[at + 2] as u32) << 16) | (
    (bytes[at + 3] as u32) << 24)
}

/// The two bytes of `v` in little-endian order.
pub open spec fn le16_bytes(v: u16) -> Seq<u8> {
    seq![v as u8, (v >> 8) as u8]
}

/// The four bytes of `v` in little-endian order.
pub open spec fn le32_bytes(v: u32) -> Seq<u8> {
    seq![v as u8, (v >> 8) as u8, (v >> 16) as u8, (v >> 24) as u8]
}

/// Reading back the bytes of `le16_bytes` recovers the value.
pub proof fn lemma_le16_roundtrip(bytes: Seq<u8>, at: int, v: u16)
    requires
        0 <= at,
        at + 2 <= bytes.len(),
        bytes.subrange(at, at + 2) == le16_bytes(v),
    ensures
        le16_at(bytes, at) == v,
{
    assert(bytes[at] == le16_bytes(v)[0]);
    assert(bytes[at + 1] == le16_bytes(v)[1]);
    assert((v as u8 as u16) | ((v >> 8) as u8 as u16) << 8 == v) by (bit_vector);
}

/// Reading back the bytes of `le32_bytes` recovers the value.
pub proof fn lemma_le32_roundtrip(bytes: Seq<u8>, at: int, v: u32)
    requires
        0 <= at,
        at + 4 <= bytes.len(),
        bytes.subrange(at, at + 4) == le32_bytes(v),
    ensures
        le32_at(bytes, at) == v,
{
    assert(bytes[at] == le32_bytes(v)[0]);
    assert(bytes[at + 1] == le32_bytes(v)[1]);
    assert(bytes[at + 2] == le32_bytes(v)[2]);
    assert(bytes[at + 3] == le32_bytes(v)[3]);
    assert((v as u8 as u32) | ((v >> 8) as u8 as u32) << 8 | ((v >> 16) as u8 as u32) << 16 | ((v
        >> 24) as u8 as u32) << 24 == v) by (bit_vector);
}

/// Decodes the little-endian 16-bit value stored at `at..at + 2` of `bytes`.
pub fn read_le_u16(bytes: &[u8], at: usize) -> (r: u16)
    requires
        at + 2 <= bytes@.len(),
    ensures
        r == le16_at(bytes@, at as int),
{
    let b0 = bytes[at] as u16;
    let b1 = bytes[at + 1] as u16;
    b0 | (b1 << 8)
}

/// Decodes the little-endian 32-bit value stored at `at..at + 4` of `bytes`.
pub fn read_le_u32(bytes: &[u8], at: usize) -> (r: u32)
    requires
        at + 4 <= bytes@.len(),
    ensures
        r == le32_at(bytes@, at as int),
{
    let b0 = bytes[at] as u32;
    let b1 = bytes[at + 1] as u32;
    let b2 = bytes[at + 2] as u32;
    let b3 = bytes[at + 3] as u32;
    b0 | (b1 << 8) | (b2 << 16) | (b3 << 24)
}

/// Appends the two little-endian bytes of `v` to `out`.
pub fn push_le_u16(out: &mut Vec<u8>, v: u16)
    ensures
        final(out)@ == old(out)@ + le16_bytes(v),
{
    out.push(v as u8);
    out.push((v >> 8) as u8);
    assert(out@ =~= old(out)@ + le16_bytes(v));
}

/// Appends the four little-endian bytes of `v` to `out`.
pub fn push_le_u32(out: &mut Vec<u8>, v: u32)
    ensures
        final(out)@ == old(out)@ + le32_bytes(v),
{
    out.push(v as u8);
    out.push((v >> 8) as u8);
    out.push((v >> 16) as u8);
    out.push((v >> 24) as u8);
    assert(out@ =~= old(out)@ + le32_bytes(v));
}

} // verus!
