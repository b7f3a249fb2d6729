use vstd::arithmetic::div_mod::{lemma_fundamental_div_mod, lemma_fundamental_div_mod_converse};
use vstd::arithmetic::mul::lemma_mul_is_commutative;
use vstd::prelude::*;

verus! {

/// A tile set as mathematical values: the image, the size of one glyph and the
/// padding that separates glyphs in the image, all in pixels.
pub struct Atlas {
    pub width: nat,
    pub height: nat,
    /// Interleaved red, green and blue bytes, row by row, first row on top.
    pub pixels: Seq<u8>,
    pub glyph_width: nat,
    pub glyph_height: nat,
    pub padding_x: nat,
    pub padding_y: nat,
}

impl Atlas {
    /// The atlas of an image, a glyph size and a padding.
    pub open spec fn of(
        image_size: (u32, u32),
        pixels: Seq<u8>,
        glyph_size: (u16, u16),
        glyph_padding: (u16, u16),
    ) -> Atlas {
        Atlas {
            width: image_size.0 as nat,
            height: image_size.1 as nat,
            pixels,
            glyph_width: glyph_size.0 as nat,
            glyph_height: glyph_size.1 as nat,
            padding_x: glyph_padding.0 as nat,
            padding_y: glyph_padding.1 as nat,
        }
    }

    /// Horizontal distance between the origins of two neighbouring glyphs.
    pub open spec fn cell_width(self) -> nat {
        self.glyph_width + self.padding_x
    }

    /// Vertical distance between the origins of two neighbouring glyphs.
    pub open spec fn cell_height(self) -> nat {
        self.glyph_height + self.padding_y
    }

    pub open spec fn columns(self) -> nat {
        self.width / self.cell_width()
    }

    pub open spec fn rows(self) -> nat {
        self.height / self.cell_height()
    }

    /// Glyphs are not empty, the image is not empty, the glyph cells tile it
    /// without remainder, and the buffer holds exactly three bytes per pixel.
    pub open spec fn wf(self) -> bool {
        &&& self.glyph_width > 0
        &&& self.glyph_height > 0
        &&& self.width > 0
        &&& self.height > 0
        &&& self.width % self.cell_width() == 0
        &&& self.height % self.cell_height() == 0
        &&& self.pixels.len() == 3 * self.width * self.height
    }

    /// The glyph ids whose row stays inside the atlas.
    pub open spec fn has_glyph(self, id: nat) -> bool {
        id / self.rows() < self.rows()
    }

    /// Atlas column of a glyph, counted from the left.
    pub open spec fn column_of(self, id: nat) -> nat {
        id % self.columns()
    }

    /// Atlas row of a glyph, counted from the bottom of the texture.
    pub open spec fn row_of(self, id: nat) -> int {
        self.rows() - 1 - id / self.rows()
    }

    /// Left edge of a glyph in texture pixels.
    pub open spec fn left(self, id: nat) -> int {
        (self.column_of(id) * self.cell_width()) as int
    }

    /// Bottom edge of a glyph in texture pixels.
    pub open spec fn bottom(self, id: nat) -> int {
        self.row_of(id) * self.cell_height()
    }

    /// The glyph's footprint in texture pixels: bottom-left, top-left,
    /// top-right and bottom-right corner, each as `[x, y]`. Divided by the
    /// image's width and height they are the normalised texture coordinates.
    pub open spec fn corners(self, id: nat) -> [[u32; 2]; 4] {
        let l = self.left(id) as u32;
        let b = self.bottom(id) as u32;
        let r = (self.left(id) + self.glyph_width) as u32;
        let t = (self.bottom(id) + self.glyph_height) as u32;
        [[l, b], [l, t], [r, t], [r, b]]
    }

    /// The image with its rows in reverse order: the texture's first row is the
    /// image's last.
    pub open spec fn texture(self) -> Seq<u8> {
        flipped_rows(self.pixels, 3 * self.width as int)
    }
}

/// `s` cut into rows of `stride` items, the rows put in reverse order, the
/// items of each row left as they are.
pub open spec fn flipped_rows(s: Seq<u8>, stride: int) -> Seq<u8> {
    Seq::new(s.len(), |k: int| s[(s.len() as int / stride - 1 - k / stride) * stride + k % stride])
}

/// A well-formed atlas has at least one column and one row, and its cells
/// cover the image exactly.
pub proof fn lemma_atlas_tiles(a: Atlas)
    requires
        a.wf(),
    ensures
        a.columns() >= 1,
        a.rows() >= 1,
        a.columns() * a.cell_width() == a.width,
        a.rows() * a.cell_height() == a.height,
        a.has_glyph(0),
{
    lemma_fundamental_div_mod(a.width as int, a.cell_width() as int);
    lemma_fundamental_div_mod(a.height as int, a.cell_height() as int);
    lemma_mul_is_commutative(a.columns() as int, a.cell_width() as int);
    lemma_mul_is_commutative(a.rows() as int, a.cell_height() as int);
    assert(a.columns() >= 1) by (nonlinear_arith)
        requires
            a.columns() * a.cell_width() == a.width,
            a.width > 0,
    ;
    assert(a.rows() >= 1) by (nonlinear_arith)
        requires
            a.rows() * a.cell_height() == a.height,
            a.height > 0,
    ;
}

/// The footprint of a glyph that the atlas has lies inside the image.
pub proof fn lemma_glyph_inside(a: Atlas, id: nat)
    requires
        a.wf(),
        a.has_glyph(id),
    ensures
        0 <= a.column_of(id) < a.columns(),
        0 <= a.row_of(id) < a.rows(),
        0 <= a.left(id),
        a.left(id) + a.cell_width() <= a.width,
        0 <= a.bottom(id),
        a.bottom(id) + a.cell_height() <= a.height,
{
    lemma_atlas_tiles(a);
    let col = a.column_of(id) as int;
    let row = a.row_of(id);
    let cw = a.cell_width() as int;
    let ch = a.cell_height() as int;
    assert(0 <= col * cw && (col + 1) * cw <= a.columns() * cw) by (nonlinear_arith)
        requires
            0 <= col < a.columns(),
            cw > 0,
    ;
    assert(0 <= row * ch && (row + 1) * ch <= a.rows() * ch) by (nonlinear_arith)
        requires
            0 <= row < a.rows(),
            ch > 0,
    ;
    assert((col + 1) * cw == col * cw + cw) by (nonlinear_arith);
    assert((row + 1) * ch == row * ch + ch) by (nonlinear_arith);
}

/// The normalised bottom-left corner of a glyph is its column over the number
/// of columns and its row over the number of rows, and the footprint is one
/// glyph wide and one glyph high.
pub proof fn lemma_corners_normalised(a: Atlas, id: nat)
    requires
        a.wf(),
        a.has_glyph(id),
        a.width <= u32::MAX,
        a.height <= u32::MAX,
    ensures
        a.corners(id)[0][0] * a.columns() == a.column_of(id) * a.width,
        a.corners(id)[0][1] * a.rows() == a.row_of(id) * a.height,
        a.corners(id)[2][0] == a.corners(id)[0][0] + a.glyph_width,
        a.corners(id)[2][1] == a.corners(id)[0][1] + a.glyph_height,
        a.corners(id)[1][0] == a.corners(id)[0][0],
        a.corners(id)[1][1] == a.corners(id)[2][1],
        a.corners(id)[3][0] == a.corners(id)[2][0],
        a.corners(id)[3][1] == a.corners(id)[0][1],
        a.corners(id)[2][0] <= a.width,
        a.corners(id)[2][1] <= a.height,
{
    lemma_atlas_tiles(a);
    lemma_glyph_inside(a, id);
    let col = a.column_of(id) as int;
    let row = a.row_of(id);
    let cw = a.cell_width() as int;
    let ch = a.cell_height() as int;
    let cols = a.columns() as int;
    let rows = a.rows() as int;
    assert(col * cw * cols == col * (cols * cw)) by (nonlinear_arith);
    assert(row * ch * rows == row * (rows * ch)) by (nonlinear_arith);
}

/// Glyph 0 is the tile in the first column and the topmost row of the texture:
/// its bottom-left corner is at the left edge, one cell below the top.
pub proof fn lemma_first_glyph(a: Atlas)
    requires
        a.wf(),
        a.width <= u32::MAX,
        a.height <= u32::MAX,
    ensures
        a.has_glyph(0),
        a.column_of(0) == 0,
        a.row_of(0) == a.rows() - 1,
        a.corners(0)[0][0] == 0,
        a.corners(0)[0][1] == a.height - a.cell_height(),
{
    lemma_atlas_tiles(a);
    lemma_glyph_inside(a, 0);
    let ch = a.cell_height() as int;
    let rows = a.rows() as int;
    assert((rows - 1) * ch == rows * ch - ch) by (nonlinear_arith);
}

/// Row `row` of the texture, counted from the bottom, is row
/// `height - 1 - row` of the image, byte for byte.
pub proof fn lemma_texture_pixel(a: Atlas, x: int, row: int, channel: int)
    requires
        a.wf(),
        0 <= x < a.width,
        0 <= row < a.height,
        0 <= channel < 3,
    ensures
        0 <= (row * a.width + x) * 3 + channel < a.texture().len(),
        a.texture().len() == a.pixels.len(),
        a.texture()[(row * a.width + x) * 3 + channel] == a.pixels[((a.height - 1 - row) * a.width
            + x) * 3 + channel],
{
    let w = a.width as int;
    let h = a.height as int;
    let stride = 3 * w;
    let k = (row * w + x) * 3 + channel;
    let r = 3 * x + channel;
    assert(k == row * stride + r) by (nonlinear_arith)
        requires
            k == (row * w + x) * 3 + channel,
            stride == 3 * w,
            r == 3 * x + channel,
    ;
    assert(0 <= row * stride && row * stride + stride <= h * stride) by (nonlinear_arith)
        requires
            0 <= row < h,
            stride > 0,
    ;
    assert(h * stride == 3 * w * h) by (nonlinear_arith)
        requires
            stride == 3 * w,
    ;
    lemma_fundamental_div_mod_converse(k, stride, row, r);
    lemma_fundamental_div_mod_converse(a.pixels.len() as int, stride, h, 0);
    assert((h - 1 - row) * stride + r == ((h - 1 - row) * w + x) * 3 + channel)
        by (nonlinear_arith)
        requires
            stride == 3 * w,
            r == 3 * x + channel,
    ;
}

/// Glyph `id` shows the tile of the image in column `id % columns` and row
/// `id / rows`, rows counted from the top as the image is seen. The texel `dx`
/// to the right of and `dy` above the glyph's bottom-left corner is the pixel
/// of that tile `dx` from its left edge and `dy` above its lowest row.
pub proof fn lemma_glyph_texel(a: Atlas, id: nat, dx: int, dy: int, channel: int)
    requires
        a.wf(),
        a.has_glyph(id),
        0 <= dx < a.glyph_width,
        0 <= dy < a.glyph_height,
        0 <= channel < 3,
    ensures
        a.texture()[((a.bottom(id) + dy) * a.width + (a.left(id) + dx)) * 3 + channel]
            == a.pixels[(((id / a.rows() + 1) * a.cell_height() - 1 - dy) * a.width + (a.left(id)
            + dx)) * 3 + channel],
{
    lemma_atlas_tiles(a);
    lemma_glyph_inside(a, id);
    lemma_texture_pixel(a, a.left(id) + dx, a.bottom(id) + dy, channel);
    let ch = a.cell_height() as int;
    let rows = a.rows() as int;
    let down = (id / a.rows()) as int;
    assert(rows * ch - 1 - ((rows - 1 - down) * ch + dy) == (down + 1) * ch - 1 - dy)
        by (nonlinear_arith);
}

/// A glyph atlas: a decoded RGB image cut into glyph cells of one size.
pub struct TileSet {
    image_size: (u32, u32),
    pixels: Vec<u8>,
    glyph_size: (u16, u16),
    glyph_padding: (u16, u16),
}

impl View for TileSet {
    type V = Atlas;

    closed spec fn view(&self) -> Atlas {
        Atlas::of(self.image_size, self.pixels@, self.glyph_size, self.glyph_padding)
    }
}

/// Calls `glium::texture::RawImage2d::from_raw_rgb_reversed` and keeps the
/// pixel data of its result. The contract is not proved: it says what the
/// outside function's source shows. That function cuts the data into chunks of
/// three times the width and puts the chunks together last to first. The
/// contract claims this for data that consists of whole rows, and leaves out
/// a chunk length of zero, on which the outside function panics.
#[verifier::external_body]
fn reversed_rgb_rows(pixels: &Vec<u8>, width: u32, height: u32) -> (out: Vec<u8>)
    requires
        width > 0,
        3 * width <= usize::MAX,
        pixels@.len() == 3 * width * height,
    ensures
        out@ == flipped_rows(pixels@, 3 * width as int),
{
    glium::texture::RawImage2d::from_raw_rgb_reversed(pixels.as_slice(), (width, height))
        .data
        .into_owned()
}

impl TileSet {
    /// Builds the atlas from a decoded image. Succeeds exactly when the
    /// geometry is well-formed.
    pub fn new(
        image_size: (u32, u32),
        pixels: Vec<u8>,
        glyph_size: (u16, u16),
        glyph_padding: (u16, u16),
    ) -> (tile_set: Option<TileSet>)
        ensures
            tile_set is Some <==> Atlas::of(image_size, pixels@, glyph_size, glyph_padding).wf(),
            tile_set matches Some(t) ==> t@ == Atlas::of(
                image_size,
                pixels@,
                glyph_size,
                glyph_padding,
            ),
    {
        if glyph_size.0 == 0 || glyph_size.1 == 0 || image_size.0 == 0 || image_size.1 == 0 {
            return None;
        }
        let cell_w: u32 = glyph_size.0 as u32 + glyph_padding.0 as u32;
        let cell_h: u32 = glyph_size.1 as u32 + glyph_padding.1 as u32;
        if image_size.0 % cell_w != 0 || image_size.1 % cell_h != 0 {
            return None;
        }
        assert(3 * image_size.0 * image_size.1 == 3 * (image_size.0 * image_size.1))
            by (nonlinear_arith);
        assert(0 <= image_size.0 * image_size.1 <= 0xffff_ffff * 0xffff_ffff)
            by (nonlinear_arith)
            requires
                0 <= image_size.0 <= 0xffff_ffff,
                0 <= image_size.1 <= 0xffff_ffff,
        ;
        let area: u128 = image_size.0 as u128 * image_size.1 as u128;
        if pixels.len() as u128 != 3 * area {
            return None;
        }
        Some(TileSet { image_size, pixels, glyph_size, glyph_padding })
    }

    /// Width and height of the image in pixels.
    pub fn image_size(&self) -> (size: (u32, u32))
        ensures
            size.0 == self@.width,
            size.1 == self@.height,
    {
        self.image_size
    }

    /// Width and height of one glyph in pixels.
    pub fn glyph_size(&self) -> (size: (u16, u16))
        ensures
            size.0 == self@.glyph_width,
            size.1 == self@.glyph_height,
    {
        self.glyph_size
    }

    /// Horizontal and vertical padding between glyphs in pixels.
    pub fn glyph_padding(&self) -> (padding: (u16, u16))
        ensures
            padding.0 == self@.padding_x,
            padding.1 == self@.padding_y,
    {
        self.glyph_padding
    }

    /// The image as it was decoded: first row on top.
    pub fn pixels(&self) -> (pixels: &Vec<u8>)
        ensures
            pixels@ == self@.pixels,
    {
        &self.pixels
    }

    /// Number of glyph columns in the atlas.
    pub fn columns(&self) -> (n: u32)
        requires
            self@.wf(),
        ensures
            n == self@.columns(),
    {
        self.image_size.0 / (self.glyph_size.0 as u32 + self.glyph_padding.0 as u32)
    }

    /// Number of glyph rows in the atlas.
    pub fn rows(&self) -> (n: u32)
        requires
            self@.wf(),
        ensures
            n == self@.rows(),
    {
        self.image_size.1 / (self.glyph_size.1 as u32 + self.glyph_padding.1 as u32)
    }

    /// The aspect ratio of a glyph as the exact fraction width over height.
    pub fn ratio(&self) -> (ratio: (u16, u16))
        ensures
            ratio.0 == self@.glyph_width,
            ratio.1 == self@.glyph_height,
    {
        (self.glyph_size.0, self.glyph_size.1)
    }

    /// Whether the atlas has a glyph with this id.
    pub fn has_glyph(&self, id: u32) -> (known: bool)
        requires
            self@.wf(),
        ensures
            known == self@.has_glyph(id as nat),
    {
        proof {
            lemma_atlas_tiles(self@);
        }
        let rows = self.rows();
        id / rows < rows
    }

    /// The four texture corners of a glyph, in texture pixels, or `None` for an
    /// id that the atlas does not have.
    pub fn get_glyph(&self, id: u32) -> (corners: Option<[[u32; 2]; 4]>)
        requires
            self@.wf(),
        ensures
            corners == if self@.has_glyph(id as nat) {
                Some(self@.corners(id as nat))
            } else {
                None
            },
    {
        proof {
            lemma_atlas_tiles(self@);
        }
        let cell_w: u32 = self.glyph_size.0 as u32 + self.glyph_padding.0 as u32;
        let cell_h: u32 = self.glyph_size.1 as u32 + self.glyph_padding.1 as u32;
        let a_w: u32 = self.image_size.0 / cell_w;
        let a_h: u32 = self.image_size.1 / cell_h;
        let down: u32 = id / a_h;
        if down >= a_h {
            return None;
        }
        proof {
            lemma_glyph_inside(self@, id as nat);
        }
        let idx: u32 = id % a_w;
        let idy: u32 = a_h - 1 - down;
        let left: u32 = idx * cell_w;
        let bottom: u32 = idy * cell_h;
        let right: u32 = left + self.glyph_size.0 as u32;
        let top: u32 = bottom + self.glyph_size.1 as u32;
        Some([[left, bottom], [left, top], [right, top], [right, bottom]])
    }

    /// The pixel data for the texture, whose first row is the bottom one.
    pub fn texture_pixels(&self) -> (data: Vec<u8>)
        requires
            self@.wf(),
        ensures
            data@ == self@.texture(),
    {
        let ghost w = self.image_size.0 as int;
        let ghost h = self.image_size.1 as int;
        assert(3 * w <= 3 * w * h) by (nonlinear_arith)
            requires
                w >= 0,
                h >= 1,
        ;
        assert(self.pixels.len() <= usize::MAX);
        reversed_rgb_rows(&self.pixels, self.image_size.0, self.image_size.1)
    }
}

} // verus!
