use vstd::prelude::*;

verus! {

/// The entry at `(row, col)` of a row-major 4×4 matrix laid out as a sequence of 16 values.
pub open spec fn entry<T>(m: Seq<T>, row: int, col: int) -> T {
    m[4 * row + col]
}

/// The transpose of a row-major 4×4 matrix: entry `k = 4 * row + col` comes from `(col, row)`.
pub open spec fn transposed<T>(m: Seq<T>) -> Seq<T> {
    Seq::new(16, |k: int| m[4 * (k % 4) + k / 4])
}

/// Swaps rows and columns of a row-major 4×4 matrix.
///
/// Used to turn the inverse of a world matrix into the matrix that carries normal vectors.
pub fn transpose<T: Copy>(m: [T; 16]) -> (r: [T; 16])
    ensures
        r@ == transposed(m@),
        forall|row: int, col: int|
            0 <= row < 4 && 0 <= col < 4 ==> #[trigger] entry(r@, row, col) == entry(m@, col, row),
{
    let r = [
        m[0], m[4], m[8], m[12], m[1], m[5], m[9], m[13], m[2], m[6], m[10], m[14], m[3], m[7],
        m[11], m[15],
    ];
    assert(r@ =~= transposed(m@));
    r
}

/// Transposing twice gives back the matrix exactly.
pub proof fn lemma_transpose_involutive<T>(m: [T; 16])
    ensures
        transposed(transposed(m@)) == m@,
{
    assert(transposed(transposed(m@)) =~= m@);
}

} // verus!
