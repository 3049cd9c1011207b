//! Decoder and converter core for the DDM binary 3-D model container.
//!
//! The library decodes the skinned (`srdd`) and unskinned (`mrdd`) variants of
//! the container into an in-memory geometry model, remaps each face group's
//! triangle range into a compact, locally indexed primitive, and accumulates
//! typed arrays into one aligned binary blob with buffer-view and accessor
//! metadata. 32-bit floating-point fields of the container (transforms,
//! positions, normals, texture coordinates, bone indices and weights) are
//! carried as their little-endian 32-bit patterns, so every byte of the
//! output blob is pinned exactly.

pub mod accessor;
pub mod convert;
pub mod ddm;
pub mod error;
pub mod io;
pub mod laws;
pub mod remap;

pub use accessor::AccessorBuilder;
pub use convert::GltfPrimitive;

pub use ddm::DdmBone;
pub use ddm::DdmFaceGroup;
pub use ddm::DdmFile;
pub use ddm::DdmMesh;
pub use ddm::DdmVertex;
pub use ddm::split_str;
pub use error::DdmError;
pub use io::ByteReader;
pub use io::Primitive;
