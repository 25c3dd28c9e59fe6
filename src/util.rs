//! Matrix and vector arithmetic over genes.
use crate::chromosome::Gene;
use vstd::prelude::*;

verus! {

/// The product of a `num_rows` × `num_cols` row-major matrix with a vector of
/// `num_cols` entries: one dot product per row, summed from the first column.
pub fn matrix_vector_mult<G: Gene>(matrix: &Vec<G>, vector: &Vec<G>, num_rows: usize, num_cols: usize) -> (r:
    Vec<G>)
    requires
        matrix@.len() == num_rows * num_cols,
        vector@.len() == num_cols,
    ensures
        r@.len() == num_rows,
{
    let cells = matrix.len();
    let mut out: Vec<G> = Vec::new();
    let mut row: usize = 0;
    while row < num_rows
        invariant
            row <= num_rows,
            out@.len() == row,
            matrix@.len() == num_rows * num_cols,
            cells == matrix@.len(),
            vector@.len() == num_cols,
        decreases num_rows - row,
    {
        let mut sum = G::zero();
        let mut col: usize = 0;
        while col < num_cols
            invariant
                row < num_rows,
                col <= num_cols,
                matrix@.len() == num_rows * num_cols,
                cells == matrix@.len(),
                vector@.len() == num_cols,
            decreases num_cols - col,
        {
            proof {
                assert(row * num_cols + col < num_rows * num_cols) by (nonlinear_arith)
                    requires row < num_rows, col < num_cols;
            }
            sum = sum.plus(matrix[row * num_cols + col].times(vector[col]));
            col = col + 1;
        }
        out.push(sum);
        row = row + 1;
    }
    out
}

/// The entrywise sum of two vectors of one length.
pub fn vector_vector_add<G: Gene>(vector1: &Vec<G>, vector2: &Vec<G>) -> (r: Vec<G>)
    requires
        vector1@.len() == vector2@.len(),
    ensures
        r@.len() == vector1@.len(),
{
    let mut out: Vec<G> = Vec::new();
    let mut i: usize = 0;
    while i < vector1.len()
        invariant
            i <= vector1@.len(),
            vector1@.len() == vector2@.len(),
            out@.len() == i,
        decreases vector1@.len() - i,
    {
        out.push(vector1[i].plus(vector2[i]));
        i = i + 1;
    }
    out
}

} // verus!
