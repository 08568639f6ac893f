use crate::img_matrix::{has_shape, matrix_cells, LumaMatrix};
use vstd::prelude::*;

verus! {

/// The sum of the values of `column` in the rows `[y_start, y_end)`.
pub open spec fn column_sum(column: Seq<u8>, y_start: int, y_end: int) -> int
    decreases y_end - y_start,
{
    if y_end <= y_start {
        0
    } else {
        column_sum(column, y_start, y_end - 1) + column[y_end - 1]
    }
}

/// The sum of the values in the rows `[y_start, y_end)` of the first
/// `columns` columns of `cells`.
pub open spec fn band_sum(cells: Seq<Seq<u8>>, columns: int, y_start: int, y_end: int) -> int
    decreases columns,
{
    if columns <= 0 {
        0
    } else {
        band_sum(cells, columns - 1, y_start, y_end) + column_sum(cells[columns - 1], y_start, y_end)
    }
}

/// The total of the luminance values in the rows `[y_start, y_end)` of every
/// column of `img_data`, and how many values that is. Their quotient over
/// 255 is the band's brightness: 0 when all of it is black, 1 when all of it
/// is white.
pub fn band_luminance(img_data: &LumaMatrix, y_start: usize, y_end: usize) -> (total: (u128, usize))
    requires
        y_start <= y_end,
        forall|x: int|
            0 <= x < matrix_cells(*img_data).len() ==> y_end <= (#[trigger] matrix_cells(
                *img_data,
            )[x]).len(),
    ensures
        total.0 == band_sum(
            matrix_cells(*img_data),
            matrix_cells(*img_data).len() as int,
            y_start as int,
            y_end as int,
        ),
        total.1 == matrix_cells(*img_data).len() * (y_end - y_start),
{
    let ghost cells = matrix_cells(*img_data);
    let (width, height) = img_data.dim();
    let elements = img_data.len();
    assert(has_shape(cells, width as nat, height as nat));
    let band = y_end - y_start;
    proof {
        if width > 0 {
            assert(y_end <= cells[0].len());
        }
        assert(width * band <= width * height) by (nonlinear_arith)
            requires
                width == 0 || band <= height,
        ;
    }
    let mut sum: u128 = 0;
    let mut count: usize = 0;
    let mut x: usize = 0;
    while x < width
        invariant
            cells == matrix_cells(*img_data),
            has_shape(cells, width as nat, height as nat),
            y_start <= y_end <= height || width == 0,
            band == y_end - y_start,
            width * band <= elements,
            x <= width,
            count == x * band,
            sum == band_sum(cells, x as int, y_start as int, y_end as int),
            sum <= 255 * count,
        decreases width - x,
    {
        let mut y: usize = y_start;
        proof {
            assert(x * band + band <= width * band) by (nonlinear_arith)
                requires
                    x < width,
            ;
        }
        while y < y_end
            invariant
                cells == matrix_cells(*img_data),
                has_shape(cells, width as nat, height as nat),
                y_start <= y_end <= height,
                band == y_end - y_start,
                x < width,
                x * band + band <= elements,
                y_start <= y <= y_end,
                count == x * band + (y - y_start),
                sum == band_sum(cells, x as int, y_start as int, y_end as int) + column_sum(
                    cells[x as int],
                    y_start as int,
                    y as int,
                ),
                sum <= 255 * count,
            decreases y_end - y,
        {
            sum = sum + img_data.cell(x, y) as u128;
            count = count + 1;
            y = y + 1;
        }
        proof {
            assert(x * band + band == (x + 1) * band) by (nonlinear_arith);
        }
        x = x + 1;
    }
    (sum, count)
}

/// A band with every value 0 sums to 0.
pub proof fn lemma_dark_band(cells: Seq<Seq<u8>>, columns: int, y_start: int, y_end: int)
    requires
        0 <= columns <= cells.len(),
        forall|x: int, y: int|
            0 <= x < columns && y_start <= y < y_end ==> #[trigger] cells[x][y] == 0,
    ensures
        band_sum(cells, columns, y_start, y_end) == 0,
    decreases columns,
{
    if columns > 0 {
        lemma_dark_band(cells, columns - 1, y_start, y_end);
        lemma_uniform_column(cells[columns - 1], y_start, y_end, 0);
    }
}

/// A band with every value 255 sums to 255 for each value in it.
pub proof fn lemma_bright_band(cells: Seq<Seq<u8>>, columns: int, y_start: int, y_end: int)
    requires
        0 <= columns <= cells.len(),
        y_start <= y_end,
        forall|x: int, y: int|
            0 <= x < columns && y_start <= y < y_end ==> #[trigger] cells[x][y] == 255,
    ensures
        band_sum(cells, columns, y_start, y_end) == 255 * columns * (y_end - y_start),
    decreases columns,
{
    if columns > 0 {
        lemma_bright_band(cells, columns - 1, y_start, y_end);
        lemma_uniform_column(cells[columns - 1], y_start, y_end, 255);
        assert(255 * (columns - 1) * (y_end - y_start) + 255 * (y_end - y_start) == 255 * columns
            * (y_end - y_start)) by (nonlinear_arith);
        if y_end == y_start {
            assert(255 * columns * (y_end - y_start) == 0) by (nonlinear_arith)
                requires
                    y_end == y_start,
            ;
        }
    } else {
        assert(255 * columns * (y_end - y_start) == 0) by (nonlinear_arith)
            requires
                columns == 0,
        ;
    }
}

/// A column that holds `v` in every row of `[y_start, y_end)` sums to `v`
/// for each of those rows.
proof fn lemma_uniform_column(column: Seq<u8>, y_start: int, y_end: int, v: int)
    requires
        forall|y: int| y_start <= y < y_end ==> #[trigger] column[y] == v,
    ensures
        column_sum(column, y_start, y_end) == if y_end <= y_start {
            0
        } else {
            v * (y_end - y_start)
        },
    decreases y_end - y_start,
{
    if y_end > y_start {
        lemma_uniform_column(column, y_start, y_end - 1, v);
        assert(v * (y_end - 1 - y_start) + v == v * (y_end - y_start)) by (nonlinear_arith);
    }
}

} // verus!
