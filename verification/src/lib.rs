//! Verified core of a charting toolkit: triangle-mesh topology, render caches,
//! interaction bookkeeping and the integer rules that drive them.

pub mod mesh;
pub mod topology;
pub mod manual;
pub mod cache;
pub mod memory;
pub mod interaction;
pub mod radii;
pub mod text;
pub mod font;
pub mod axis;
pub mod shape;
