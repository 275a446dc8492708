//! Lattice decisions of the procedural textures.
use vstd::prelude::*;

verus! {

/// Whether the integer cell `(x, y, z)` of a 3D checker pattern takes the even
/// texture: the sum of its coordinates is even.
pub open spec fn is_even_cell(x: int, y: int, z: int) -> bool {
    (x + y + z) % 2 == 0
}

/// Picks the side of a 3D checker pattern for the cell `(x, y, z)`, the floors of the
/// scaled point coordinates: `true` for the even texture, `false` for the odd one.
/// Cells that share a face always differ.
pub fn checker_is_even(x: i32, y: i32, z: i32) -> (r: bool)
    ensures
        r == is_even_cell(x as int, y as int, z as int),
{
    let s: i64 = x as i64 + y as i64 + z as i64;
    s % 2 == 0
}

/// Two checker cells that are neighbours along an axis take different textures.
pub proof fn lemma_adjacent_cells_differ(x: int, y: int, z: int)
    ensures
        is_even_cell(x, y, z) != is_even_cell(x + 1, y, z),
        is_even_cell(x, y, z) != is_even_cell(x, y + 1, z),
        is_even_cell(x, y, z) != is_even_cell(x, y, z + 1),
{
}

} // verus!
