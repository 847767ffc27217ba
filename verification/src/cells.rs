//! The cells of a rectangular board as a set, and how many there are.
use vstd::prelude::*;
use vstd::set_lib::{lemma_len_subset, lemma_set_disjoint_lens};
use crate::game::Position;

verus! {

/// The cells of a board of `height` rows and `width` columns.
pub open spec fn cells(height: nat, width: nat) -> Set<Position> {
    Set::new(|p: Position| p.0 < height && p.1 < width)
}

/// The first `width` cells of row `row`.
pub open spec fn row_cells(row: usize, width: nat) -> Set<Position> {
    Set::new(|p: Position| p.0 == row && p.1 < width)
}

/// A row of `width` cells is a finite set of `width` elements.
pub proof fn lemma_row_cells_len(row: usize, width: nat)
    requires
        width <= usize::MAX,
    ensures
        row_cells(row, width).finite(),
        row_cells(row, width).len() == width,
    decreases width,
{
    if width == 0 {
        assert(row_cells(row, width) =~= Set::<Position>::empty());
    } else {
        let shorter = (width - 1) as nat;
        lemma_row_cells_len(row, shorter);
        let last: Position = (row, shorter as usize);
        assert(row_cells(row, width) =~= row_cells(row, shorter).insert(last));
    }
}

/// A board of `height` by `width` is a finite set of `height * width` cells.
pub proof fn lemma_cells_len(height: nat, width: nat)
    requires
        height <= usize::MAX,
        width <= usize::MAX,
    ensures
        cells(height, width).finite(),
        cells(height, width).len() == height * width,
    decreases height,
{
    if height == 0 {
        assert(cells(height, width) =~= Set::<Position>::empty());
    } else {
        let above = (height - 1) as nat;
        lemma_cells_len(above, width);
        lemma_row_cells_len(above as usize, width);
        let upper = cells(above, width);
        let row = row_cells(above as usize, width);
        lemma_set_disjoint_lens(upper, row);
        assert(cells(height, width) =~= upper + row);
        assert(above * width + width == height * width) by (nonlinear_arith)
            requires
                above == height - 1,
        ;
    }
}

/// A finite set of cells of a board holds at most as many cells as the board.
pub proof fn lemma_subset_of_cells(s: Set<Position>, height: nat, width: nat)
    requires
        height <= usize::MAX,
        width <= usize::MAX,
        s.subset_of(cells(height, width)),
    ensures
        s.finite(),
        s.len() <= height * width,
{
    lemma_cells_len(height, width);
    lemma_len_subset(s, cells(height, width));
}

} // verus!
