//! Core of a voxel-world engine, with its behaviour stated in contracts and
//! machine-checked: deterministic terrain generation over seeded noise
//! samples, dense 16x16x16 chunk storage with a stable byte format, greedy
//! mesh construction with face culling and cross-chunk boundary awareness,
//! and a chunk streaming manager with persistence and growth timers.
//!
//! The host around the library supplies what cannot be verified: file and
//! network edges, threads, and the floating-point noise fields, which are
//! sampled and thresholded into plain values per chunk (`samples`) before
//! the generator (`gen`) runs. Everything downstream of those plain values
//! - the fill, carve and decoration rules, the visibility and merge rules
//! of the mesher (`mesh`), the streaming decisions (`stream`, `store`,
//! `world`), the growth systems (`growth`) and the persistence format
//! (`codec`) - is verified.

pub mod atlas;
pub mod block;
pub mod chunk;
pub mod codec;
pub mod coords;
pub mod gen;
pub mod growth;
pub mod item;
pub mod mesh;
pub mod samples;
pub mod store;
pub mod stream;
pub mod world;

pub use block::BlockType;
pub use chunk::Chunk;
pub use item::Item;
