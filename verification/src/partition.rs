//! The row partitioner: splitting one sheet's data rows into output
//! workbooks of at most a fixed number of rows each.
//!
//! The first row of the source sheet is the header row; it is excluded
//! from the row count and duplicated at the top of every output.  The
//! outputs exactly tile the data rows: nothing dropped, nothing
//! duplicated, original relative order kept.

use vstd::prelude::*;
use vstd::arithmetic::div_mod::{
    lemma_fundamental_div_mod, lemma_fundamental_div_mod_converse_div, lemma_mod_bound,
};
use crate::cell::{Cell, CellV, cells_view};
use crate::report::ToolError;
use crate::workbook::rows_view;

verus! {

/// The smaller of two integers.
pub open spec fn spec_min(a: int, b: int) -> int {
    if a <= b {
        a
    } else {
        b
    }
}

/// How many output files a split produces: the ceiling of `r / k`.
pub open spec fn spec_chunk_count(r: int, k: int) -> int {
    (r + k - 1) / k
}

/// The data rows of the output with 0-based index `i`: the rows from
/// `i * k` up to the next bound or the end, in original order.
pub open spec fn spec_chunk_data(data: Seq<Seq<CellV>>, k: int, i: int) -> Seq<Seq<CellV>> {
    data.subrange(i * k, spec_min((i + 1) * k, data.len() as int))
}

/// One output's full row grid: the header row first, then its data
/// rows.
pub open spec fn spec_chunk(header: Seq<CellV>, data: Seq<Seq<CellV>>, k: int, i: int) -> Seq<
    Seq<CellV>,
> {
    seq![header] + spec_chunk_data(data, k, i)
}

/// The whole split: `spec_chunk_count` outputs, in order.
pub open spec fn spec_partition(header: Seq<CellV>, data: Seq<Seq<CellV>>, k: int) -> Seq<
    Seq<Seq<CellV>>,
> {
    Seq::new(
        spec_chunk_count(data.len() as int, k) as nat,
        |i: int| spec_chunk(header, data, k, i),
    )
}

/// The mathematical values of a sequence of row grids.
pub open spec fn grids_view(s: Seq<Vec<Vec<Cell>>>) -> Seq<Seq<Seq<CellV>>> {
    s.map_values(|g: Vec<Vec<Cell>>| rows_view(g@))
}

/// Copies one row of cells, values preserved.
pub fn clone_row(row: &Vec<Cell>) -> (out: Vec<Cell>)
    ensures
        out@ == row@,
{
    let out = row.clone();
    proof {
        assert forall|i: int| 0 <= i < out@.len() implies out@[i] == row@[i] by {
            assert(cloned::<Cell>(row@[i], out@[i]));
        }
        assert(out@ =~= row@);
    }
    out
}

/// Splits a sheet's data rows into output row grids of at most
/// `max_rows` data rows each, every output headed by the header row.
/// A sheet with zero data rows is refused: that is reported as a
/// failure, not as a zero-file success.
pub fn partition_rows(header: &Vec<Cell>, data: &Vec<Vec<Cell>>, max_rows: usize) -> (r: Result<
    Vec<Vec<Vec<Cell>>>,
    ToolError,
>)
    requires
        max_rows >= 1,
    ensures
        r is Err <==> data@.len() == 0,
        r is Err ==> r matches Err(ToolError::EmptyData),
        r matches Ok(chunks) ==> chunks@.len() == spec_chunk_count(
            data@.len() as int,
            max_rows as int,
        ),
        r matches Ok(chunks) ==> grids_view(chunks@) == spec_partition(
            cells_view(header@),
            rows_view(data@),
            max_rows as int,
        ),
{
    let k = max_rows;
    let rtot = data.len();
    if rtot == 0 {
        return Err(ToolError::EmptyData);
    }
    let ghost hv = cells_view(header@);
    let ghost dv = rows_view(data@);
    let ghost ki = max_rows as int;
    let mut chunks: Vec<Vec<Vec<Cell>>> = Vec::new();
    let mut start: usize = 0;
    proof {
        assert(grids_view(chunks@) =~= Seq::new(0, |i: int| spec_chunk(hv, dv, ki, i)));
    }
    while start < rtot
        invariant
            rtot == data@.len(),
            rtot > 0,
            k == max_rows,
            k >= 1,
            ki == k as int,
            hv == cells_view(header@),
            dv == rows_view(data@),
            dv.len() == rtot,
            start <= rtot,
            start as int == if chunks@.len() * ki <= rtot as int {
                chunks@.len() * ki
            } else {
                rtot as int
            },
            chunks@.len() > 0 ==> (chunks@.len() - 1) * ki < rtot as int,
            grids_view(chunks@) == Seq::new(
                chunks@.len(),
                |i: int| spec_chunk(hv, dv, ki, i),
            ),
        decreases rtot - start,
    {
        let ghost c = chunks@.len() as int;
        proof {
            assert(start as int == c * ki);
        }
        let remaining = rtot - start;
        let step = if k < remaining {
            k
        } else {
            remaining
        };
        let end = start + step;
        let mut chunk: Vec<Vec<Cell>> = Vec::new();
        let hcopy = clone_row(header);
        chunk.push(hcopy);
        proof {
            assert(rows_view(chunk@) =~= seq![hv] + dv.subrange(start as int, start as int));
        }
        let mut j: usize = start;
        while j < end
            invariant
                start <= j <= end,
                end <= rtot,
                rtot == data@.len(),
                dv == rows_view(data@),
                dv.len() == rtot,
                hv == cells_view(header@),
                rows_view(chunk@) == seq![hv] + dv.subrange(start as int, j as int),
            decreases end - j,
        {
            let ghost pre = chunk@;
            let rcopy = clone_row(&data[j]);
            chunk.push(rcopy);
            proof {
                assert(rows_view(chunk@) =~= rows_view(pre).push(cells_view(data@[j as int]@)));
                assert(dv[j as int] == cells_view(data@[j as int]@));
                assert(dv.subrange(start as int, j + 1) =~= dv.subrange(
                    start as int,
                    j as int,
                ).push(dv[j as int]));
                assert(rows_view(chunk@) =~= seq![hv] + dv.subrange(start as int, j + 1));
            }
            j += 1;
        }
        let ghost chv = rows_view(chunk@);
        let ghost pre_chunks = chunks@;
        chunks.push(chunk);
        proof {
            assert(grids_view(chunks@) =~= grids_view(pre_chunks).push(chv));
            assert((c + 1) * ki == c * ki + ki) by (nonlinear_arith);
            assert(end as int == spec_min((c + 1) * ki, rtot as int));
            assert(chv == spec_chunk(hv, dv, ki, c));
            assert(Seq::new(chunks@.len(), |i: int| spec_chunk(hv, dv, ki, i)) =~= Seq::new(
                pre_chunks.len(),
                |i: int| spec_chunk(hv, dv, ki, i),
            ).push(spec_chunk(hv, dv, ki, c)));
        }
        start = end;
    }
    proof {
        let c = chunks@.len() as int;
        assert(start == rtot);
        assert(c > 0);
        assert(c * ki >= rtot as int);
        assert((c - 1) * ki < rtot as int);
        assert(c * ki - ki < rtot as int) by (nonlinear_arith)
            requires
                (c - 1) * ki < rtot as int,
        ;
        let x = rtot as int + ki - 1;
        lemma_fundamental_div_mod_converse_div(x, ki, c, x - c * ki);
        assert(grids_view(chunks@) =~= spec_partition(hv, dv, ki));
    }
    Ok(chunks)
}

proof fn lemma_tiles_prefix(data: Seq<Seq<CellV>>, k: int, m: int)
    requires
        k >= 1,
        0 <= m,
        (m - 1) * k <= data.len(),
    ensures
        Seq::new(m as nat, |i: int| spec_chunk_data(data, k, i)).flatten() == data.take(
            spec_min(m * k, data.len() as int),
        ),
    decreases m,
{
    let s = Seq::new(m as nat, |i: int| spec_chunk_data(data, k, i));
    if m == 0 {
        assert(s.flatten() =~= data.take(spec_min(0, data.len() as int)));
    } else {
        assert((m - 2) * k <= (m - 1) * k) by (nonlinear_arith)
            requires
                k >= 1,
        ;
        lemma_tiles_prefix(data, k, m - 1);
        let prev = Seq::new((m - 1) as nat, |i: int| spec_chunk_data(data, k, i));
        assert(s =~= prev.push(spec_chunk_data(data, k, m - 1)));
        prev.lemma_flatten_push(spec_chunk_data(data, k, m - 1));
        assert(m * k == (m - 1) * k + k) by (nonlinear_arith);
        assert(s.flatten() =~= data.take(spec_min(m * k, data.len() as int)));
    }
}

/// Partition completeness: for `r` data rows and limit `k`, the split
/// has `ceiling(r / k)` outputs; every output starts with the header
/// row and carries at least one and at most `k` data rows; and the
/// outputs' data rows, concatenated in output order, are exactly the
/// original data rows — nothing dropped, nothing duplicated, order
/// kept.
pub proof fn lemma_partition_tiles(header: Seq<CellV>, data: Seq<Seq<CellV>>, k: int)
    requires
        k >= 1,
        data.len() > 0,
    ensures
        spec_partition(header, data, k).len() == spec_chunk_count(data.len() as int, k),
        forall|i: int|
            0 <= i < spec_chunk_count(data.len() as int, k)
                ==> (#[trigger] spec_partition(header, data, k)[i]) == seq![header]
                + spec_chunk_data(data, k, i),
        forall|i: int|
            0 <= i < spec_chunk_count(data.len() as int, k) ==> 1 <= (#[trigger] spec_chunk_data(
                data,
                k,
                i,
            )).len() <= k,
        Seq::new(
            spec_chunk_count(data.len() as int, k) as nat,
            |i: int| spec_chunk_data(data, k, i),
        ).flatten() == data,
{
    let r = data.len() as int;
    let n = spec_chunk_count(r, k);
    let x = r + k - 1;
    lemma_fundamental_div_mod(x, k);
    lemma_mod_bound(x, k);
    assert(x == k * n + x % k);
    assert(n * k >= r && (n - 1) * k < r) by (nonlinear_arith)
        requires
            k >= 1,
            x == r + k - 1,
            x == k * n + x % k,
            0 <= x % k < k,
    ;
    assert forall|i: int| 0 <= i < n implies 1 <= (#[trigger] spec_chunk_data(data, k, i)).len()
        <= k by {
        assert(i * k < r && 0 <= i * k && (i + 1) * k == i * k + k) by (nonlinear_arith)
            requires
                k >= 1,
                0 <= i < n,
                (n - 1) * k < r,
        ;
    }
    assert((n - 1) * k <= r);
    lemma_tiles_prefix(data, k, n);
    assert(spec_min(n * k, r) == r);
    assert(data.take(r) =~= data);
}

/// Partition boundaries: `k` data rows fit one output exactly; one row
/// more takes a second output with a single data row; a split of zero
/// rows would produce zero outputs, which the partitioner refuses
/// instead as empty data.
pub proof fn lemma_partition_boundary(data: Seq<Seq<CellV>>, k: int)
    requires
        k >= 1,
    ensures
        spec_chunk_count(0, k) == 0,
        spec_chunk_count(k, k) == 1,
        spec_chunk_count(k + 1, k) == 2,
        data.len() == k ==> spec_chunk_data(data, k, 0) == data,
        data.len() == k + 1 ==> spec_chunk_data(data, k, 0) == data.take(k) && spec_chunk_data(
            data,
            k,
            1,
        ) == data.skip(k),
{
    lemma_fundamental_div_mod_converse_div(k - 1, k, 0, k - 1);
    assert(2 * k - 1 == 1 * k + (k - 1)) by (nonlinear_arith);
    lemma_fundamental_div_mod_converse_div(2 * k - 1, k, 1, k - 1);
    assert(3 * k == 2 * k + k) by (nonlinear_arith);
    lemma_fundamental_div_mod_converse_div(2 * k, k, 2, 0);
    if data.len() == k {
        assert(spec_chunk_data(data, k, 0) =~= data);
    }
    if data.len() == k + 1 {
        assert(spec_chunk_data(data, k, 0) =~= data.take(k));
        assert(2 * k == 1 * k + k) by (nonlinear_arith);
        assert(spec_chunk_data(data, k, 1) =~= data.skip(k));
    }
}

} // verus!
