use vstd::prelude::*;

verus! {

/// The cell that a food falls in, given the floor of its scaled bearing: a
/// bearing on the far edge of the field of view lands in the last cell.
pub fn clamp_cell(raw: usize, cells: usize) -> (r: usize)
    requires
        cells > 0,
    ensures
        r == if raw < cells { raw } else { (cells - 1) as usize },
{
    if raw < cells {
        raw
    } else {
        cells - 1
    }
}

} // verus!
