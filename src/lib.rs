//! Core logic of a host that drives a sandboxed script once per frame: the
//! path model and the jail that confines resource lookups, the set-once cell
//! behind a background resource load, the frame driver's decisions, and the
//! drawing surface's defaults.

pub mod path;
pub mod jail;
pub mod handle;
pub mod driver;
pub mod surface;
