//! A terminal-native presentation engine: declarative scene objects are
//! compiled into per-frame draw instructions, rasterized onto character-cell
//! grids, and encoded as a full first frame followed by minimal diffs.
use vstd::prelude::*;

pub mod types;
pub mod source;
pub mod engine;
pub mod edit;
pub mod properties;
pub mod editor;
pub mod renderer;
pub mod player;
pub mod objects;

verus! {

} // verus!
