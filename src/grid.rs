use vstd::prelude::*;
use vstd::arithmetic::div_mod::{lemma_fundamental_div_mod, lemma_mod_bound};
use vstd::slice::slice_subrange;

verus! {

/// Number of rows of `row_width` bytes needed for `n` bytes: `ceil(n / row_width)`.
pub open spec fn spec_row_count(n: int, row_width: int) -> int {
    if n % row_width == 0 {
        n / row_width
    } else {
        n / row_width + 1
    }
}

/// Index of the first byte of row `k`.
pub open spec fn spec_row_start(row_width: int, k: int) -> int {
    k * row_width
}

/// One past the index of the last byte of row `k` in a buffer of `n` bytes.
pub open spec fn spec_row_end(n: int, row_width: int, k: int) -> int {
    if (k + 1) * row_width <= n {
        (k + 1) * row_width
    } else {
        n
    }
}

/// Number of bytes that row `k` holds.
pub open spec fn spec_row_len(n: int, row_width: int, k: int) -> int {
    spec_row_end(n, row_width, k) - spec_row_start(row_width, k)
}

/// The bytes of row `k` of `bytes` cut into rows of `row_width`.
pub open spec fn spec_row(bytes: Seq<u8>, row_width: int, k: int) -> Seq<u8> {
    bytes.subrange(spec_row_start(row_width, k), spec_row_end(bytes.len() as int, row_width, k))
}

/// Where `k` full rows do not cover `n` bytes but `k + 1` rows do, `n` bytes take `k + 1` rows.
proof fn lemma_row_count_between(n: int, row_width: int, k: int)
    requires
        row_width > 0,
        0 <= k,
        k * row_width < n <= (k + 1) * row_width,
    ensures
        spec_row_count(n, row_width) == k + 1,
{
    lemma_fundamental_div_mod(n, row_width);
    lemma_mod_bound(n, row_width);
    let q = n / row_width;
    let m = n % row_width;
    if m == 0 {
        assert(q == k + 1) by (nonlinear_arith)
            requires
                n == row_width * q,
                k * row_width < n <= (k + 1) * row_width,
                row_width > 0,
        ;
    } else {
        assert(q == k) by (nonlinear_arith)
            requires
                n == row_width * q + m,
                0 < m < row_width,
                k * row_width < n <= (k + 1) * row_width,
                row_width > 0,
        ;
    }
}

/// Cutting a buffer of `n` bytes into rows of `row_width`: there are
/// `ceil(n / row_width)` rows, each starts inside the buffer, every row but the
/// last holds exactly `row_width` bytes, and the last holds
/// `n - row_width * (rows - 1)` bytes, between one and `row_width` when `n > 0`.
pub proof fn lemma_row_lengths(n: int, row_width: int)
    requires
        n >= 0,
        row_width > 0,
    ensures
        spec_row_count(n, row_width) >= 0,
        n == 0 <==> spec_row_count(n, row_width) == 0,
        forall|k: int|
            0 <= k < spec_row_count(n, row_width) ==> spec_row_start(row_width, k) < n,
        forall|k: int|
            0 <= k < spec_row_count(n, row_width) - 1 ==> #[trigger] spec_row_len(n, row_width, k)
                == row_width,
        n > 0 ==> spec_row_len(n, row_width, spec_row_count(n, row_width) - 1) == n - row_width
            * (spec_row_count(n, row_width) - 1),
        n > 0 ==> 1 <= spec_row_len(n, row_width, spec_row_count(n, row_width) - 1) <= row_width,
{
    lemma_fundamental_div_mod(n, row_width);
    lemma_mod_bound(n, row_width);
    let q = n / row_width;
    let m = n % row_width;
    let rows = spec_row_count(n, row_width);
    assert(q >= 0) by (nonlinear_arith)
        requires
            n == row_width * q + m,
            0 <= m < row_width,
            n >= 0,
    ;
    assert(rows * row_width >= n) by (nonlinear_arith)
        requires
            n == row_width * q + m,
            0 <= m < row_width,
            rows == if m == 0 { q } else { q + 1 },
    ;
    assert(n > 0 ==> (rows - 1) * row_width < n) by (nonlinear_arith)
        requires
            n == row_width * q + m,
            0 <= m < row_width,
            rows == if m == 0 { q } else { q + 1 },
    ;
    assert forall|k: int| 0 <= k < rows implies spec_row_start(row_width, k) < n by {
        assert(k * row_width <= (rows - 1) * row_width) by (nonlinear_arith)
            requires
                k <= rows - 1,
                row_width > 0,
        ;
    }
    assert forall|k: int| 0 <= k < rows - 1 implies #[trigger] spec_row_len(n, row_width, k)
        == row_width by {
        assert((k + 1) * row_width <= (rows - 1) * row_width) by (nonlinear_arith)
            requires
                k + 1 <= rows - 1,
                row_width > 0,
        ;
        assert((k + 1) * row_width == k * row_width + row_width) by (nonlinear_arith);
    }
    if n > 0 {
        assert(rows * row_width == (rows - 1) * row_width + row_width) by (nonlinear_arith);
        assert((rows - 1 + 1) * row_width == rows * row_width);
        assert(row_width * (rows - 1) == (rows - 1) * row_width) by (nonlinear_arith);
    }
}

/// Number of rows of `row_width` bytes needed for `n` bytes.
pub fn row_count(n: usize, row_width: usize) -> (r: usize)
    requires
        row_width > 0,
    ensures
        r == spec_row_count(n as int, row_width as int),
{
    if n % row_width == 0 {
        n / row_width
    } else {
        proof {
            lemma_fundamental_div_mod(n as int, row_width as int);
        }
        assert(n / row_width < n) by (nonlinear_arith)
            requires
                n == row_width * (n / row_width) + n % row_width,
                n % row_width != 0,
                row_width > 0,
                n >= 0,
                n / row_width >= 0,
        ;
        n / row_width + 1
    }
}

/// Cuts `bytes` into consecutive rows of `row_width` bytes; the last row may be
/// shorter. Each row is a view into `bytes`, nothing is copied.
pub fn chunks<'a>(bytes: &'a [u8], row_width: usize) -> (rows: Vec<&'a [u8]>)
    requires
        row_width > 0,
    ensures
        rows@.len() == spec_row_count(bytes@.len() as int, row_width as int),
        forall|k: int|
            0 <= k < rows@.len() ==> (#[trigger] rows@[k])@ == spec_row(
                bytes@,
                row_width as int,
                k,
            ),
{
    let n = bytes.len();
    let mut rows: Vec<&'a [u8]> = Vec::new();
    let mut start: usize = 0;
    proof {
        lemma_row_lengths(n as int, row_width as int);
    }
    while start < n
        invariant
            row_width > 0,
            n == bytes@.len(),
            start <= n,
            start < n ==> start == rows@.len() * row_width,
            start < n ==> rows@.len() < spec_row_count(n as int, row_width as int),
            start == n ==> rows@.len() == spec_row_count(n as int, row_width as int),
            forall|k: int|
                0 <= k < rows@.len() ==> (#[trigger] rows@[k])@ == spec_row(
                    bytes@,
                    row_width as int,
                    k,
                ),
        decreases n - start,
    {
        let k = rows.len();
        let end: usize = if n - start > row_width {
            start + row_width
        } else {
            n
        };
        assert(start + row_width == (k + 1) * row_width) by (nonlinear_arith)
            requires
                start == k * row_width,
        ;
        proof {
            if end == n {
                lemma_row_count_between(n as int, row_width as int, k as int);
            } else {
                // Were row `k` the last, it would end at `n`, yet a full row
                // from `start` ends before `n`.
                lemma_row_lengths(n as int, row_width as int);
                assert(row_width * (k as int) == (k as int) * row_width) by (nonlinear_arith);
                assert(k + 1 < spec_row_count(n as int, row_width as int));
            }
        }
        let row = slice_subrange(bytes, start, end);
        rows.push(row);
        start = end;
    }
    rows
}

} // verus!
