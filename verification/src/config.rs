//! What is remembered between runs.

use vstd::prelude::*;

verus! {

/// The layout of the grid and the working directory of each tile.
#[derive(Debug, Clone)]
pub struct Config {
    pub rows: usize,
    pub cols: usize,
    pub tile_dirs: Vec<String>,
}

} // verus!
