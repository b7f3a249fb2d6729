use crate::console::ColoredChar;
use crate::grid::Grid;
use crate::tileset::{lemma_glyph_inside, Atlas};
use vstd::arithmetic::div_mod::lemma_fundamental_div_mod_converse;
use vstd::prelude::*;

verus! {

/// The exact fraction `num / den`.
#[derive(Clone, Copy, Debug, PartialEq, Eq)]
pub struct Ratio {
    pub num: i64,
    pub den: i64,
}

/// The overlay depth of a vertex is its layer divided by this number.
pub const LAYERS_PER_DEPTH_UNIT: usize = 5;

/// A corner of the quad that shows one cell.
#[derive(Clone, Copy, Debug, PartialEq, Eq)]
pub enum Corner {
    BottomLeft,
    TopLeft,
    TopRight,
    BottomRight,
}

impl Corner {
    /// Place of the corner among the four texture corners of a glyph.
    pub open spec fn ordinal(self) -> int {
        match self {
            Corner::BottomLeft => 0,
            Corner::TopLeft => 1,
            Corner::TopRight => 2,
            Corner::BottomRight => 3,
        }
    }

    /// 1 for the two corners on the right, else 0.
    pub open spec fn right(self) -> int {
        match self {
            Corner::TopRight | Corner::BottomRight => 1,
            _ => 0,
        }
    }

    /// 1 for the two corners on top, else 0.
    pub open spec fn up(self) -> int {
        match self {
            Corner::TopLeft | Corner::TopRight => 1,
            _ => 0,
        }
    }
}

/// One vertex of the list that is handed to the rasteriser, in exact numbers.
#[derive(Clone, Copy, Debug, PartialEq, Eq)]
pub struct Vertex {
    /// Normalised device coordinates, `[x, y]`, each in `[-1, 1]` for a corner
    /// on the screen.
    pub position: [Ratio; 2],
    /// Normalised texture coordinates, `[x, y]`.
    pub tex_position: [Ratio; 2],
    /// Foreground colour; 255 is full intensity.
    pub fg: [u8; 3],
    /// Background colour; 255 is full intensity.
    pub bg: [u8; 3],
    /// Layer of the cell; see `LAYERS_PER_DEPTH_UNIT`.
    pub layer: usize,
    pub use_true_color: bool,
}

/// The corner at place `k` among the six vertices of a quad: the triangle
/// bottom-left, top-left, top-right, then the triangle bottom-left, top-right,
/// bottom-right.
pub open spec fn triangle_corner(k: int) -> Corner {
    if k == 0 || k == 3 {
        Corner::BottomLeft
    } else if k == 1 {
        Corner::TopLeft
    } else if k == 2 || k == 4 {
        Corner::TopRight
    } else {
        Corner::BottomRight
    }
}

/// Horizontal device coordinate of a corner of the cell in column `x`: the
/// cell's left edge is `(x / width) * 2 - 1`, and a cell is `2 / width` wide,
/// the share of one column in the viewport, however many pixels that has.
pub open spec fn position_x(g: Grid, x: int, corner: Corner) -> Ratio {
    Ratio { num: (2 * (x + corner.right()) - g.width) as i64, den: g.width as i64 }
}

/// Vertical device coordinate of a corner of the cell in array row `y`: the
/// cell's lower edge is `(y / height) * 2 - 1`, and the quad's height is its
/// width, `2 / width`, times the glyph's ratio, `glyph_width / glyph_height`.
pub open spec fn position_y(g: Grid, a: Atlas, y: int, corner: Corner) -> Ratio {
    Ratio {
        num: ((2 * y - g.height) * (g.width * a.glyph_height) + corner.up() * (2 * a.glyph_width
            * g.height)) as i64,
        den: (g.height * (g.width * a.glyph_height)) as i64,
    }
}

/// The vertex at a corner of the quad of the cell in column `x` and array row
/// `y` of a layer.
pub open spec fn vertex_of(
    g: Grid,
    a: Atlas,
    x: int,
    y: int,
    layer: int,
    corner: Corner,
) -> Vertex {
    let cell = g.layers[layer][x + g.width * y];
    let tex = a.corners(cell.id as nat)[corner.ordinal()];
    Vertex {
        position: [position_x(g, x, corner), position_y(g, a, y, corner)],
        tex_position: [
            Ratio { num: tex[0] as i64, den: a.width as i64 },
            Ratio { num: tex[1] as i64, den: a.height as i64 },
        ],
        fg: cell.fg_color,
        bg: cell.bg_color,
        layer: layer as usize,
        use_true_color: cell.use_true_color,
    }
}

/// Number of quads: one per cell and layer.
pub open spec fn quad_count(g: Grid) -> nat {
    g.area() * g.layers.len()
}

/// Layer of quad `q`. Quads come column by column, in a column row by row from
/// array row 0, and in a cell layer by layer from layer 0.
pub open spec fn quad_layer(g: Grid, q: int) -> int {
    q % (g.layers.len() as int)
}

/// Array row of quad `q`.
pub open spec fn quad_row(g: Grid, q: int) -> int {
    (q / (g.layers.len() as int)) % (g.height as int)
}

/// Column of quad `q`.
pub open spec fn quad_column(g: Grid, q: int) -> int {
    (q / (g.layers.len() as int)) / (g.height as int)
}

/// Vertex `k` of the list: six vertices per quad.
pub open spec fn vertex_at(g: Grid, a: Atlas, k: int) -> Vertex {
    let q = k / 6;
    vertex_of(g, a, quad_column(g, q), quad_row(g, q), quad_layer(g, q), triangle_corner(k % 6))
}

/// The whole vertex list of a grid.
pub open spec fn vertices(g: Grid, a: Atlas) -> Seq<Vertex> {
    Seq::new(6 * quad_count(g), |k: int| vertex_at(g, a, k))
}

/// Whether the atlas has the glyph of every cell of every layer.
pub open spec fn glyphs_known(g: Grid, a: Atlas) -> bool {
    forall|i: int, k: int|
        0 <= i < g.layers.len() && 0 <= k < g.layers[i].len() ==> a.has_glyph(
            (#[trigger] g.layers[i][k]).id as nat,
        )
}

/// Index of the quad of a cell and layer in drawing order.
pub open spec fn quad_index(g: Grid, x: int, y: int, layer: int) -> int {
    (x * g.height + y) * g.layers.len() + layer
}

/// `quad_index` and the three functions that read a quad's column, row and
/// layer off its index are inverse to each other.
pub proof fn lemma_quad_index(g: Grid, x: int, y: int, layer: int)
    requires
        0 <= x < g.width,
        0 <= y < g.height,
        0 <= layer < g.layers.len(),
    ensures
        0 <= quad_index(g, x, y, layer) < quad_count(g),
        quad_column(g, quad_index(g, x, y, layer)) == x,
        quad_row(g, quad_index(g, x, y, layer)) == y,
        quad_layer(g, quad_index(g, x, y, layer)) == layer,
{
    let w = g.width as int;
    let h = g.height as int;
    let n = g.layers.len() as int;
    let t = x * h + y;
    let q = t * n + layer;
    assert(0 <= x * h && x * h + h <= w * h) by (nonlinear_arith)
        requires
            0 <= x < w,
            h > 0,
    ;
    assert(0 <= t * n && t * n + n <= w * h * n) by (nonlinear_arith)
        requires
            0 <= t < w * h,
            n > 0,
    ;
    lemma_fundamental_div_mod_converse(q, n, t, layer);
    lemma_fundamental_div_mod_converse(t, h, x, y);
}

/// The list holds six vertices for every cell of every layer, and the six of
/// the cell in column `x` and array row `y` of a layer stand together at
/// `6 * quad_index(..)`, each at its corner.
pub proof fn lemma_vertices_of_quad(g: Grid, a: Atlas, x: int, y: int, layer: int, k: int)
    requires
        0 <= x < g.width,
        0 <= y < g.height,
        0 <= layer < g.layers.len(),
        0 <= k < 6,
    ensures
        vertices(g, a).len() == 6 * (g.width * g.height * g.layers.len()),
        0 <= 6 * quad_index(g, x, y, layer) + k < vertices(g, a).len(),
        vertices(g, a)[6 * quad_index(g, x, y, layer) + k] == vertex_of(
            g,
            a,
            x,
            y,
            layer,
            triangle_corner(k),
        ),
{
    lemma_quad_index(g, x, y, layer);
}

/// The numbers of a vertex are exact. On a grid whose cell indices fit in 32
/// bits, with an atlas that has the cell's glyph, no numerator and no
/// denominator is cut to fit its type, and every denominator is positive.
pub proof fn lemma_vertex_exact(g: Grid, a: Atlas, x: int, y: int, layer: int, corner: Corner)
    requires
        g.wf(),
        g.area() <= u32::MAX,
        g.layers.len() <= usize::MAX,
        a.wf(),
        a.width <= u32::MAX,
        a.height <= u32::MAX,
        a.glyph_width <= u16::MAX,
        a.glyph_height <= u16::MAX,
        0 <= x < g.width,
        0 <= y < g.height,
        0 <= layer < g.layers.len(),
        a.has_glyph(g.layers[layer][x + g.width * y].id as nat),
    ensures
        ({
            let v = vertex_of(g, a, x, y, layer, corner);
            let id = g.layers[layer][x + g.width * y].id as nat;
            &&& v.position[0].num == 2 * (x + corner.right()) - g.width
            &&& v.position[0].den == g.width
            &&& v.position[1].num == (2 * y - g.height) * (g.width * a.glyph_height) + corner.up()
                * (2 * a.glyph_width * g.height)
            &&& v.position[1].den == g.height * (g.width * a.glyph_height)
            &&& v.tex_position[0].num == a.left(id) + corner.right() * a.glyph_width
            &&& v.tex_position[0].den == a.width
            &&& v.tex_position[1].num == a.bottom(id) + corner.up() * a.glyph_height
            &&& v.tex_position[1].den == a.height
            &&& v.position[0].den > 0
            &&& v.position[1].den > 0
            &&& v.tex_position[0].den > 0
            &&& v.tex_position[1].den > 0
            &&& v.layer == layer
        }),
{
    let w = g.width as int;
    let h = g.height as int;
    let gw = a.glyph_width as int;
    let gh = a.glyph_height as int;
    let id = g.layers[layer][x + g.width * y].id as nat;
    lemma_glyph_inside(a, id);
    assert(w <= w * h && h <= w * h) by (nonlinear_arith)
        requires
            0 < w,
            0 < h,
    ;
    assert(0 < w * gh <= 0xffff_ffff * 0xffff && -(h * (w * gh)) <= (2 * y - h) * (w * gh) <= h * (w
        * gh) && 0 < h * (w * gh) <= 0xffff_ffff * 0xffff && 0 <= 2 * gw * h <= 2 * 0xffff
        * 0xffff_ffff) by (nonlinear_arith)
        requires
            0 <= y < h,
            0 < w,
            0 <= w * h <= 0xffff_ffff,
            h <= 0xffff_ffff,
            0 < gh <= 0xffff,
            0 < gw <= 0xffff,
    ;
}

/// The cell that the placement functions address as `pos` is shown by the
/// quad of column `pos.0` and array row `height - 1 - pos.1`: position
/// `(x, 0)` is drawn in the top row of the screen.
pub proof fn lemma_placed_cell_is_drawn(
    g: Grid,
    a: Atlas,
    layer: int,
    pos: (u32, u32),
    corner: Corner,
)
    requires
        g.wf(),
        g.contains(pos),
        0 <= layer < g.layers.len(),
    ensures
        ({
            let v = vertex_of(g, a, pos.0 as int, g.array_row(pos.1), layer, corner);
            let cell = g.cell(layer, pos);
            &&& 0 <= g.array_row(pos.1) < g.height
            &&& v.fg == cell.fg_color
            &&& v.bg == cell.bg_color
            &&& v.use_true_color == cell.use_true_color
            &&& v.tex_position[0].num == a.corners(cell.id as nat)[corner.ordinal()][0]
            &&& v.tex_position[1].num == a.corners(cell.id as nat)[corner.ordinal()][1]
            &&& v.position[0] == position_x(g, pos.0 as int, corner)
            &&& v.position[1] == position_y(g, a, g.height - 1 - pos.1, corner)
        }),
{
}

} // verus!
