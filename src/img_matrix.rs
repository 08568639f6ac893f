use ndarray::ShapeBuilder;
use vstd::prelude::*;

verus! {

/// A luminance matrix of one image layer, indexed `[x, y]`: column first.
/// The values live in an ndarray array that Verus does not look into; what
/// it holds is `matrix_cells`.
#[verifier::external_body]
pub struct LumaMatrix {
    cells: ndarray::Array2<u8>,
}

/// What a luminance matrix holds: one sequence per column `x`, each holding
/// the values of the rows `y` of that column.
pub uninterp spec fn matrix_cells(m: LumaMatrix) -> Seq<Seq<u8>>;

/// The matrix has `width` columns of `height` values each.
pub open spec fn has_shape(cells: Seq<Seq<u8>>, width: nat, height: nat) -> bool {
    &&& cells.len() == width
    &&& forall|x: int| 0 <= x < width ==> (#[trigger] cells[x]).len() == height
}

impl LumaMatrix {
    /// Relies on ndarray's `Array::from_shape_vec` with the column-major
    /// (Fortran order) shape `(width, height)`: the element at `[x, y]` is
    /// `luma[x + y * width]`, so a row-major buffer is read with `x` as the
    /// first axis. It fails only when the length is not `width * height` or
    /// an axis product exceeds `isize::MAX`.
    #[verifier::external_body]
    pub(crate) fn from_row_major(width: usize, height: usize, luma: Vec<u8>) -> (m: LumaMatrix)
        requires
            luma@.len() == width * height,
            width <= isize::MAX,
            height <= isize::MAX,
            width * height <= isize::MAX,
        ensures
            has_shape(matrix_cells(m), width as nat, height as nat),
            forall|x: int, y: int|
                0 <= x < width && 0 <= y < height ==> #[trigger] matrix_cells(m)[x][y] == luma@[x
                    + y * width],
    {
        LumaMatrix {
            cells: ndarray::Array::from_shape_vec((width, height).f(), luma).unwrap(),
        }
    }

    /// Relies on ndarray's indexing of a two-dimensional array by `[x, y]`.
    #[verifier::external_body]
    pub(crate) fn cell(&self, x: usize, y: usize) -> (v: u8)
        requires
            x < matrix_cells(*self).len(),
            y < matrix_cells(*self)[x as int].len(),
        ensures
            v == matrix_cells(*self)[x as int][y as int],
    {
        self.cells[[x, y]]
    }

    /// Relies on ndarray's `ArrayBase::dim`: the lengths of the two axes.
    #[verifier::external_body]
    fn shape(&self) -> (d: (usize, usize))
        ensures
            has_shape(matrix_cells(*self), d.0 as nat, d.1 as nat),
    {
        self.cells.dim()
    }

    /// Relies on ndarray's `ArrayBase::len`: the total number of elements,
    /// the product of the lengths of the two axes.
    #[verifier::external_body]
    pub(crate) fn len(&self) -> (n: usize)
        ensures
            forall|width: nat, height: nat|
                #[trigger] has_shape(matrix_cells(*self), width, height) ==> n == width * height,
    {
        self.cells.len()
    }

    /// The number of columns and the number of rows.
    pub fn dim(&self) -> (d: (usize, usize))
        ensures
            has_shape(matrix_cells(*self), d.0 as nat, d.1 as nat),
    {
        self.shape()
    }

    /// The value at column `x`, row `y`, or `None` outside the matrix.
    pub fn get(&self, x: usize, y: usize) -> (v: Option<u8>)
        ensures
            v == (if x < matrix_cells(*self).len() && y < matrix_cells(*self)[x as int].len() {
                Some(matrix_cells(*self)[x as int][y as int])
            } else {
                None
            }),
    {
        let (width, height) = self.shape();
        if x < width && y < height {
            Some(self.cell(x, y))
        } else {
            None
        }
    }
}

} // verus!
