//! Square matrices of small random numbers, and their sums.

use vstd::prelude::*;
use crate::chance::random_u32;

verus! {

/// The side of a matrix.
pub const SIDE: usize = 64;

/// Every element that `fill` writes is below this.
pub const RNG_N_LIMIT: u32 = 500;

/// The sum of the first `n` elements of a row.
pub open spec fn row_sum(row: Seq<u32>, n: nat) -> nat
    decreases n,
{
    if n == 0 {
        0
    } else {
        row_sum(row, (n - 1) as nat) + row[n - 1] as nat
    }
}

/// The sum of the elements of the first `n` rows.
pub open spec fn rows_sum(rows: Seq<[u32; 64]>, n: nat) -> nat
    decreases n,
{
    if n == 0 {
        0
    } else {
        rows_sum(rows, (n - 1) as nat) + row_sum(rows[n - 1]@, 64)
    }
}

/// The sum of all the elements of a matrix.
pub open spec fn total(x: [[u32; 64]; 64]) -> nat {
    rows_sum(x@, 64)
}

/// Whether every element of the matrix is below `limit`.
pub open spec fn all_below(x: [[u32; 64]; 64], limit: u32) -> bool {
    forall|i: int, j: int| 0 <= i < 64 && 0 <= j < 64 ==> (#[trigger] x[i][j]) < limit
}

proof fn lemma_row_bound(row: Seq<u32>, n: nat, limit: u32)
    requires
        n <= 64,
        row.len() == 64,
        forall|j: int| 0 <= j < 64 ==> (#[trigger] row[j]) < limit,
    ensures
        row_sum(row, n) <= n * limit,
    decreases n,
{
    if n > 0 {
        lemma_row_bound(row, (n - 1) as nat, limit);
        assert(row[n - 1] < limit);
        assert((n - 1) * limit + limit == n * limit) by (nonlinear_arith);
    }
}

proof fn lemma_rows_bound(x: [[u32; 64]; 64], n: nat, limit: u32)
    requires
        n <= 64,
        all_below(x, limit),
    ensures
        rows_sum(x@, n) <= n * 64 * limit,
    decreases n,
{
    if n > 0 {
        lemma_rows_bound(x, (n - 1) as nat, limit);
        let row = x[n - 1];
        assert forall|j: int| 0 <= j < 64 implies (#[trigger] row@[j]) < limit by {
            assert(x[n - 1][j] < limit);
        }
        lemma_row_bound(row@, 64, limit);
        assert((n - 1) * 64 * limit + 64 * limit == n * 64 * limit) by (nonlinear_arith);
    }
}

/// A matrix of elements below `RNG_N_LIMIT` sums to what a `u32` holds.
pub proof fn lemma_small_elements_sum_up(x: [[u32; 64]; 64])
    requires
        all_below(x, RNG_N_LIMIT),
    ensures
        total(x) <= 64 * 64 * 500,
        total(x) <= u32::MAX,
{
    lemma_rows_bound(x, 64, RNG_N_LIMIT);
}

/// The sum of all the elements of the matrix, which must be one that a
/// `u32` holds.
pub fn fast_sum(x: &[[u32; 64]; 64]) -> (r: u32)
    requires
        total(*x) <= u32::MAX,
    ensures
        r == total(*x),
{
    let mut acc: u64 = 0;
    let mut i: usize = 0;
    while i < SIDE
        invariant
            i <= 64,
            acc == rows_sum(x@, i as nat),
            acc <= i * 64 * 0xffff_ffff,
        decreases 64 - i,
    {
        let mut row: u64 = 0;
        let mut j: usize = 0;
        while j < SIDE
            invariant
                i < 64,
                j <= 64,
                row == row_sum(x[i as int]@, j as nat),
                row <= j * 0xffff_ffff,
            decreases 64 - j,
        {
            row = row + x[i][j] as u64;
            j = j + 1;
        }
        acc = acc + row;
        i = i + 1;
    }
    acc as u32
}

/// Writes a random number below `RNG_N_LIMIT` into every element.
pub fn fill(mat: &mut [[u32; 64]; 64])
    ensures
        all_below(*final(mat), RNG_N_LIMIT),
{
    let mut i: usize = 0;
    while i < SIDE
        invariant
            i <= 64,
            forall|a: int, b: int| 0 <= a < i && 0 <= b < 64 ==> (#[trigger] mat[a][b]) < 500,
        decreases 64 - i,
    {
        let mut row: [u32; 64] = mat[i];
        let mut j: usize = 0;
        while j < SIDE
            invariant
                j <= 64,
                forall|b: int| 0 <= b < j ==> (#[trigger] row[b]) < 500,
            decreases 64 - j,
        {
            row[j] = random_u32() % RNG_N_LIMIT;
            j = j + 1;
        }
        mat[i] = row;
        i = i + 1;
    }
}

} // verus!
