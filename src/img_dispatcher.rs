use crate::img_matrix::{has_shape, matrix_cells, LumaMatrix};
use std::collections::HashMap;
use vstd::prelude::*;

verus! {

broadcast use vstd::std_specs::hash::group_hash_axioms;

/// Identifies one layer of luminance data derived from the image.
pub type ImgLayerId = u16;

/// One vertical column-slice of the image: a luminance matrix per layer.
pub type ImgPacket = HashMap<ImgLayerId, LumaMatrix>;

/// The id of the one layer the dispatcher extracts: plain luminance.
pub const NAIVE_LAYER_ID: ImgLayerId = 0;

/// Which vertical extent of a layer an interpreter is responsible for.
/// Coordinates are in the space of the complete image.
#[derive(Clone, Copy, Debug)]
pub struct ImgLayerMetadata {
    pub img_layer_id: ImgLayerId,
    pub y_start: usize,
    pub y_end: usize,
    pub total_img_height: usize,
}

impl ImgLayerMetadata {
    pub open spec fn wf(&self) -> bool {
        self.y_start < self.y_end <= self.total_img_height
    }
}

/// The luminance that the image library gives an RGB pixel.
pub open spec fn luma_of(r: u8, g: u8, b: u8) -> u8 {
    ((2126 * r + 7152 * g + 722 * b) / 10000) as u8
}

/// An image of 8-bit RGB pixels, stored row by row, three bytes a pixel.
pub struct RgbImage24Bit {
    width: u32,
    height: u32,
    data: Vec<u8>,
}

impl RgbImage24Bit {
    pub closed spec fn img_width(&self) -> nat {
        self.width as nat
    }

    pub closed spec fn img_height(&self) -> nat {
        self.height as nat
    }

    /// The raw bytes, row-major, red, green and blue for each pixel.
    pub closed spec fn bytes(&self) -> Seq<u8> {
        self.data@
    }

    /// Three bytes for each pixel, and sides that an array axis can hold.
    pub open spec fn wf(&self) -> bool {
        &&& self.bytes().len() == 3 * self.img_width() * self.img_height()
        &&& self.img_width() <= isize::MAX
        &&& self.img_height() <= isize::MAX
    }

    /// Channel `c` (0 red, 1 green, 2 blue) of the pixel at column `x`, row `y`.
    pub open spec fn channel(&self, x: int, y: int, c: int) -> u8 {
        self.bytes()[3 * (y * self.img_width() + x) + c]
    }

    /// The luminance of the pixel at column `x`, row `y`.
    pub open spec fn luma_at(&self, x: int, y: int) -> u8 {
        luma_of(self.channel(x, y, 0), self.channel(x, y, 1), self.channel(x, y, 2))
    }

    /// An image of the given size over `data`, or `None` when `data` does not
    /// hold exactly three bytes for each pixel or a side is longer than
    /// `isize::MAX` (which only a 32-bit target allows).
    pub fn from_raw(width: u32, height: u32, data: Vec<u8>) -> (img: Option<RgbImage24Bit>)
        ensures
            img is Some <==> data@.len() == 3 * width * height && width <= isize::MAX && height
                <= isize::MAX,
            img matches Some(i) ==> i.wf() && i.img_width() == width && i.img_height() == height
                && i.bytes() == data@,
    {
        assert(width * height <= 0xffff_ffff * 0xffff_ffff) by (nonlinear_arith)
            requires
                width <= 0xffff_ffff,
                height <= 0xffff_ffff,
        ;
        let pixels: u128 = (width as u128) * (height as u128);
        let expected: u128 = 3 * pixels;
        assert(expected == 3 * width * height) by (nonlinear_arith)
            requires
                pixels == width * height,
                expected == 3 * pixels,
        ;
        if data.len() as u128 == expected && width as u64 <= isize::MAX as u64 && height as u64
            <= isize::MAX as u64 {
            Some(RgbImage24Bit { width, height, data })
        } else {
            None
        }
    }

    pub fn width(&self) -> (w: u32)
        ensures
            w == self.img_width(),
    {
        self.width
    }

    pub fn height(&self) -> (h: u32)
        ensures
            h == self.img_height(),
    {
        self.height
    }

    /// The raw bytes, row-major, three for each pixel.
    pub fn as_raw(&self) -> (data: &Vec<u8>)
        ensures
            data@ == self.bytes(),
    {
        &self.data
    }

    /// The columns `[x, x + width)` of the image, all rows.
    pub fn sub_image(&self, x: u32, width: u32) -> (sub: RgbImage24Bit)
        requires
            self.wf(),
            x + width <= self.img_width(),
        ensures
            sub.wf(),
            sub.img_width() == width,
            sub.img_height() == self.img_height(),
            forall|px: int, py: int, c: int|
                0 <= px < width && 0 <= py < self.img_height() && 0 <= c < 3 ==> #[trigger] sub.channel(
                    px,
                    py,
                    c,
                ) == self.channel(x + px, py, c),
    {
        let full_width = self.width as usize;
        let height = self.height as usize;
        let x0 = x as usize;
        let total = self.data.len();
        if height == 0 {
            let sub = RgbImage24Bit { width, height: 0, data: Vec::new() };
            assert(sub.bytes().len() == 3 * sub.img_width() * sub.img_height()) by (nonlinear_arith)
                requires sub.img_height() == 0, sub.bytes().len() == 0;
            return sub;
        }
        assert(3 * width <= 3 * full_width * height) by (nonlinear_arith)
            requires width <= full_width, 1 <= height;
        let row_len = 3 * (width as usize);
        let ghost src = self.data@;
        let mut data = Vec::<u8>::new();
        let mut y: usize = 0;
        while y < height
            invariant
                self.wf(),
                src == self.data@,
                total == src.len(),
                full_width == self.img_width(),
                height == self.img_height(),
                x0 + width <= full_width,
                row_len == 3 * width,
                y <= height,
                data@.len() == row_len * y,
                forall|yy: int, j: int|
                    0 <= yy < y && 0 <= j < row_len ==> #[trigger] data@[row_len * yy + j] == src[3
                        * (yy * full_width + x0) + j],
            decreases height - y,
        {
            proof {
                lemma_row_start_bound(y as int, x0 as int, width as int, full_width as int, height as int);
            }
            let row_start = 3 * (y * full_width + x0);
            let mut j: usize = 0;
            while j < row_len
                invariant
                    self.wf(),
                    src == self.data@,
                    total == src.len(),
                    full_width == self.img_width(),
                    height == self.img_height(),
                    x0 + width <= full_width,
                    row_len == 3 * width,
                    y < height,
                    row_start == 3 * (y * full_width + x0),
                    row_start + row_len <= src.len(),
                    j <= row_len,
                    data@.len() == row_len * y + j,
                    forall|yy: int, jj: int|
                        0 <= yy < y && 0 <= jj < row_len ==> #[trigger] data@[row_len * yy + jj]
                            == src[3 * (yy * full_width + x0) + jj],
                    forall|jj: int| 0 <= jj < j ==> #[trigger] data@[row_len * y + jj] == src[row_start + jj],
                decreases row_len - j,
            {
                let ghost prev = data@;
                data.push(self.data[row_start + j]);
                proof {
                    assert forall|yy: int, jj: int| 0 <= yy < y && 0 <= jj < row_len implies #[trigger] data@[
                        row_len * yy + jj] == src[3 * (yy * full_width + x0) + jj] by {
                        assert(row_len * yy + jj < row_len * (yy + 1)) by (nonlinear_arith)
                            requires jj < row_len;
                        assert(row_len * (yy + 1) <= row_len * y) by (nonlinear_arith)
                            requires yy + 1 <= y;
                        assert(data@[row_len * yy + jj] == prev[row_len * yy + jj]);
                    }
                }
                j = j + 1;
            }
            proof {
                assert(row_len * (y + 1) == row_len * y + row_len) by (nonlinear_arith);
            }
            y = y + 1;
        }
        let sub = RgbImage24Bit { width, height: self.height, data };
        assert forall|px: int, py: int, c: int|
            0 <= px < width && 0 <= py < self.img_height() && 0 <= c < 3 implies #[trigger] sub.channel(
            px,
            py,
            c,
        ) == self.channel(x + px, py, c) by {
            assert(3 * (py * width + px) + c == row_len * py + (3 * px + c)) by (nonlinear_arith)
                requires row_len == 3 * width;
            assert(3 * (py * full_width + x0) + (3 * px + c) == 3 * (py * full_width + (x0 + px))
                + c);
        }
        sub
    }
}

/// Where row `y` of columns `[x0, x0 + width)` ends in the raw bytes of an
/// image `full_width` pixels wide and `height` rows high.
proof fn lemma_row_start_bound(y: int, x0: int, width: int, full_width: int, height: int)
    requires
        0 <= y < height,
        0 <= x0,
        0 <= width,
        x0 + width <= full_width,
    ensures
        3 * (y * full_width + x0) + 3 * width <= 3 * full_width * height,
        0 <= y * full_width,
{
    assert(3 * (y * full_width + x0) + 3 * width <= 3 * full_width * height) by (nonlinear_arith)
        requires
            0 <= y < height,
            0 <= full_width,
            x0 + width <= full_width,
    ;
    assert(0 <= y * full_width) by (nonlinear_arith)
        requires
            0 <= y,
            0 <= full_width,
    ;
}

/// Relies on `image::imageops::grayscale` over an RGB buffer: the result has
/// one byte per pixel, in the same row-major order, and each byte is
/// `(2126 r + 7152 g + 722 b) / 10000` of that pixel's channels.
#[verifier::external_body]
fn grayscale(width: u32, height: u32, rgb: &Vec<u8>) -> (luma: Vec<u8>)
    requires
        rgb@.len() == 3 * width * height,
    ensures
        luma@.len() == width * height,
        forall|i: int|
            0 <= i < width * height ==> #[trigger] luma@[i] == luma_of(
                rgb@[3 * i],
                rgb@[3 * i + 1],
                rgb@[3 * i + 2],
            ),
{
    let img = image::RgbImage::from_raw(width, height, rgb.clone()).unwrap();
    image::imageops::grayscale(&img).into_raw()
}

/// The luminance layer of `img` as a matrix indexed `[x, y]`: the value at
/// column `x`, row `y` is the luminance of the pixel at that column and row.
pub fn naive_layer_extractor(img: &RgbImage24Bit) -> (m: LumaMatrix)
    requires
        img.wf(),
    ensures
        has_shape(matrix_cells(m), img.img_width(), img.img_height()),
        forall|x: int, y: int|
            0 <= x < img.img_width() && 0 <= y < img.img_height() ==> #[trigger] matrix_cells(
                m,
            )[x][y] == img.luma_at(x, y),
{
    let width = img.width();
    let height = img.height();
    let byte_count = img.as_raw().len();
    let luma = grayscale(width, height, img.as_raw());
    assert(width * height <= isize::MAX) by (nonlinear_arith)
        requires
            3 * width * height == byte_count,
            byte_count <= usize::MAX,
            usize::MAX == 2 * isize::MAX + 1,
    ;
    let m = LumaMatrix::from_row_major(width as usize, height as usize, luma);
    assert forall|x: int, y: int|
        0 <= x < img.img_width() && 0 <= y < img.img_height() implies #[trigger] matrix_cells(
        m,
    )[x][y] == img.luma_at(x, y) by {
        assert(x + y * width < width * height) by (nonlinear_arith)
            requires
                0 <= x < width,
                0 <= y < height,
        ;
        assert(3 * (x + y * width) == 3 * (y * width + x));
    }
    m
}

/// What a correct split of an image `width` columns wide into slices of at
/// most `chunk_width` columns looks like: slice `i` starts at column
/// `i * chunk_width`; every slice but the last is `chunk_width` wide; the last
/// one ends at the image's right edge and is not empty unless the image is.
pub open spec fn is_slice_plan(slices: Seq<(u32, u32)>, width: nat, chunk_width: nat) -> bool {
    &&& slices.len() >= 1
    &&& forall|i: int| 0 <= i < slices.len() ==> (#[trigger] slices[i]).0 == i * chunk_width
    &&& forall|i: int| 0 <= i < slices.len() - 1 ==> (#[trigger] slices[i]).1 == chunk_width
    &&& slices.last().0 + slices.last().1 == width
    &&& slices.last().1 <= chunk_width
    &&& (width > 0 ==> slices.last().1 > 0)
}

/// An image narrower than one chunk is dispatched as a single slice of its
/// full width.
pub proof fn lemma_narrow_image_single_slice(slices: Seq<(u32, u32)>, width: nat, chunk_width: nat)
    requires
        is_slice_plan(slices, width, chunk_width),
        width < chunk_width,
    ensures
        slices.len() == 1,
        slices[0] == (0u32, width as u32),
{
    let k = slices.len() - 1;
    if k >= 1 {
        assert(slices[k].0 == k * chunk_width);
        assert(k * chunk_width >= chunk_width) by (nonlinear_arith)
            requires
                k >= 1,
        ;
    }
    assert(slices[0].0 == 0 * chunk_width);
}

/// Whether column `col` lies in `slice`.
pub open spec fn slice_holds(slice: (u32, u32), col: int) -> bool {
    slice.0 <= col < slice.0 + slice.1
}

/// A slice plan dispatches every column of the image exactly once.
pub proof fn lemma_slice_plan_covers_each_column_once(
    slices: Seq<(u32, u32)>,
    width: nat,
    chunk_width: nat,
    col: int,
)
    requires
        is_slice_plan(slices, width, chunk_width),
        chunk_width > 0,
        0 <= col < width,
    ensures
        exists|i: int| 0 <= i < slices.len() && #[trigger] slice_holds(slices[i], col),
        forall|i: int, j: int|
            0 <= i < slices.len() && 0 <= j < slices.len() && #[trigger] slice_holds(slices[i], col)
                && #[trigger] slice_holds(slices[j], col) ==> i == j,
{
    let last = slices.len() - 1;
    let q = col / (chunk_width as int);
    vstd::arithmetic::div_mod::lemma_fundamental_div_mod(col, chunk_width as int);
    vstd::arithmetic::div_mod::lemma_mod_bound(col, chunk_width as int);
    assert(q >= 0) by {
        vstd::arithmetic::div_mod::lemma_div_pos_is_pos(col, chunk_width as int);
    }
    if q < last {
        assert(slices[q].0 == q * chunk_width);
        assert(q * chunk_width <= col < q * chunk_width + chunk_width) by (nonlinear_arith)
            requires
                col == chunk_width * q + col % (chunk_width as int),
                0 <= col % (chunk_width as int) < chunk_width,
        ;
        assert(slice_holds(slices[q], col));
    } else {
        assert(slices[last].0 == last * chunk_width);
        assert(last * chunk_width <= col) by (nonlinear_arith)
            requires
                col == chunk_width * q + col % (chunk_width as int),
                0 <= col % (chunk_width as int),
                last <= q,
                chunk_width > 0,
        ;
        assert(slice_holds(slices[last], col));
    }
    assert forall|i: int, j: int|
        0 <= i < slices.len() && 0 <= j < slices.len() && #[trigger] slice_holds(slices[i], col)
            && #[trigger] slice_holds(slices[j], col) implies i == j by {
        assert(slices[i].0 == i * chunk_width);
        assert(slices[j].0 == j * chunk_width);
        assert(slices[i].1 <= chunk_width);
        assert(slices[j].1 <= chunk_width);
        if i < j {
            assert(i * chunk_width + chunk_width <= j * chunk_width) by (nonlinear_arith)
                requires
                    i + 1 <= j,
                    chunk_width > 0,
            ;
        } else if j < i {
            assert(j * chunk_width + chunk_width <= i * chunk_width) by (nonlinear_arith)
                requires
                    j + 1 <= i,
                    chunk_width > 0,
            ;
        }
    }
}

/// Cuts the image into vertical slices and extracts the luminance layers of
/// each one.
pub struct StaticImgDispatcher {
    img: RgbImage24Bit,
    chunk_width: u32,
}

impl StaticImgDispatcher {
    pub closed spec fn image(&self) -> RgbImage24Bit {
        self.img
    }

    pub closed spec fn chunk_width_spec(&self) -> nat {
        self.chunk_width as nat
    }

    pub open spec fn wf(&self) -> bool {
        &&& self.image().wf()
        &&& self.chunk_width_spec() > 0
    }

    /// A dispatcher over `img` that cuts slices `chunk_width` columns wide.
    pub fn new(img: RgbImage24Bit, chunk_width: u32) -> (d: StaticImgDispatcher)
        requires
            img.wf(),
            chunk_width > 0,
        ensures
            d.wf(),
            d.image() == img,
            d.chunk_width_spec() == chunk_width,
    {
        StaticImgDispatcher { img, chunk_width }
    }

    /// The layers found in every packet: one luminance layer covering the
    /// whole height of the image.
    pub fn layers_metadata(&self) -> (layers: Vec<ImgLayerMetadata>)
        ensures
            layers@.len() == 1,
            layers@[0].img_layer_id == NAIVE_LAYER_ID,
            layers@[0].y_start == 0,
            layers@[0].y_end == self.image().img_height(),
            layers@[0].total_img_height == self.image().img_height(),
    {
        let height = self.img.height() as usize;
        vec![
            ImgLayerMetadata {
                img_layer_id: NAIVE_LAYER_ID,
                y_start: 0,
                y_end: height,
                total_img_height: height,
            },
        ]
    }

    /// The `(start_x, width)` of each slice, left to right: full chunks while
    /// a chunk ends short of the right edge, then one slice up to the edge.
    pub fn slice_bounds(&self) -> (slices: Vec<(u32, u32)>)
        requires
            self.wf(),
        ensures
            is_slice_plan(slices@, self.image().img_width(), self.chunk_width_spec()),
    {
        let chunk_width = self.chunk_width;
        let img_width = self.img.width();
        let mut slices = Vec::<(u32, u32)>::new();
        let mut current_x: u32 = 0;
        assert(slices@.len() * chunk_width == 0) by (nonlinear_arith)
            requires
                slices@.len() == 0,
        ;
        loop
            invariant_except_break
                chunk_width > 0,
                current_x == slices@.len() * chunk_width,
                current_x == 0 || current_x < img_width,
                forall|i: int|
                    0 <= i < slices@.len() ==> (#[trigger] slices@[i]).0 == i * chunk_width
                        && slices@[i].1 == chunk_width,
            ensures
                is_slice_plan(slices@, img_width as nat, chunk_width as nat),
            decreases img_width - current_x,
        {
            if current_x as u64 + chunk_width as u64 >= img_width as u64 {
                slices.push((current_x, img_width - current_x));
                break;
            } else {
                slices.push((current_x, chunk_width));
                assert((slices@.len() - 1) * chunk_width + chunk_width == slices@.len()
                    * chunk_width) by (nonlinear_arith);
                current_x = current_x + chunk_width;
            }
        }
        slices
    }

    /// The packet for the columns `[start_x, start_x + width)`: the luminance
    /// layer of that slice under its layer id.
    pub fn dispatch_slice(&self, start_x: u32, width: u32) -> (packet: ImgPacket)
        requires
            self.wf(),
            start_x + width <= self.image().img_width(),
        ensures
            packet@.dom() == set![NAIVE_LAYER_ID],
            has_shape(matrix_cells(packet@[NAIVE_LAYER_ID]), width as nat, self.image().img_height()),
            forall|x: int, y: int|
                0 <= x < width && 0 <= y < self.image().img_height() ==> #[trigger] matrix_cells(
                    packet@[NAIVE_LAYER_ID],
                )[x][y] == self.image().luma_at(start_x + x, y),
    {
        let slice = self.img.sub_image(start_x, width);
        let layer = naive_layer_extractor(&slice);
        let mut packet = ImgPacket::new();
        packet.insert(NAIVE_LAYER_ID, layer);
        assert(packet@.dom() =~= set![NAIVE_LAYER_ID]);
        assert forall|x: int, y: int|
            0 <= x < width && 0 <= y < self.image().img_height() implies #[trigger] matrix_cells(
            packet@[NAIVE_LAYER_ID],
        )[x][y] == self.image().luma_at(start_x + x, y) by {
            assert(slice.channel(x, y, 0) == self.img.channel(start_x + x, y, 0));
            assert(slice.channel(x, y, 1) == self.img.channel(start_x + x, y, 1));
            assert(slice.channel(x, y, 2) == self.img.channel(start_x + x, y, 2));
        }
        packet
    }
}

} // verus!
