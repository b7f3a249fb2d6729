use crate::grid::{
    lemma_index_of, lemma_index_of_row, lemma_put_colored_str_empty, lemma_put_colored_str_step,
    Grid,
};
use crate::tileset::{Atlas, TileSet};
use crate::vertex::{
    glyphs_known, lemma_quad_index, quad_count, quad_index, vertex_at, vertex_of, vertices, Corner,
    Ratio, Vertex,
};
use vstd::prelude::*;

verus! {

/// One grid position's coloured glyph in one layer.
#[derive(Clone, Copy, Debug, PartialEq, Eq)]
pub struct ColoredChar {
    pub id: u32,
    pub fg_color: [u8; 3],
    pub bg_color: [u8; 3],
    pub use_true_color: bool,
}

impl ColoredChar {
    /// The empty cell: glyph 0, white on black, tinted.
    pub open spec fn spec_empty() -> ColoredChar {
        ColoredChar {
            id: 0,
            fg_color: [255u8, 255u8, 255u8],
            bg_color: [0u8, 0u8, 0u8],
            use_true_color: false,
        }
    }

    /// The empty cell: glyph 0, white on black, tinted.
    #[verifier::when_used_as_spec(spec_empty)]
    pub fn empty() -> (cell: ColoredChar)
        ensures
            cell == Self::spec_empty(),
    {
        ColoredChar { id: 0, fg_color: [255, 255, 255], bg_color: [0, 0, 0], use_true_color: false }
    }

    /// A tinted cell.
    pub fn new_with_color(id: u32, fg_color: [u8; 3], bg_color: [u8; 3]) -> (cell: ColoredChar)
        ensures
            cell == (ColoredChar { id, fg_color, bg_color, use_true_color: false }),
    {
        ColoredChar { id, fg_color, bg_color, use_true_color: false }
    }

    /// A cell whose glyph is drawn in the atlas's own colours.
    pub fn new_with_true_color(id: u32) -> (cell: ColoredChar)
        ensures
            cell == (ColoredChar {
                id,
                fg_color: [0u8, 0u8, 0u8],
                bg_color: [0u8, 0u8, 0u8],
                use_true_color: true,
            }),
    {
        ColoredChar { id, fg_color: [0, 0, 0], bg_color: [0, 0, 0], use_true_color: true }
    }
}

/// The console: a glyph atlas and a stack of cell layers of one size.
pub struct Root {
    tile_set: TileSet,
    screens: Vec<Vec<ColoredChar>>,
    size: (u32, u32),
}

impl View for Root {
    type V = Grid;

    closed spec fn view(&self) -> Grid {
        Grid {
            width: self.size.0 as nat,
            height: self.size.1 as nat,
            layers: Seq::new(self.screens@.len(), |i: int| self.screens@[i]@),
        }
    }
}

impl Root {
    /// The atlas the console draws with.
    pub closed spec fn atlas(&self) -> Atlas {
        self.tile_set@
    }

    /// The grid and the atlas are well-formed, and a cell index fits in 32 bits.
    pub open spec fn wf(&self) -> bool {
        &&& self@.wf()
        &&& self.atlas().wf()
        &&& self@.area() <= u32::MAX
    }

    /// A console of the given size with one layer of empty cells.
    pub fn new(tile_set: TileSet, size: (u32, u32)) -> (root: Root)
        requires
            tile_set@.wf(),
            size.0 * size.1 <= u32::MAX,
        ensures
            root.wf(),
            root.atlas() == tile_set@,
            root@ == Grid::blank(size.0 as nat, size.1 as nat),
    {
        let screen = Self::empty_layer(size);
        let mut screens: Vec<Vec<ColoredChar>> = Vec::new();
        screens.push(screen);
        let root = Root { tile_set, screens, size };
        assert(root@.layers =~= Grid::blank(size.0 as nat, size.1 as nat).layers);
        root
    }

    /// A layer of `size.0 * size.1` empty cells.
    fn empty_layer(size: (u32, u32)) -> (layer: Vec<ColoredChar>)
        requires
            size.0 * size.1 <= u32::MAX,
        ensures
            layer@ == Grid::empty_layer(size.0 as nat, size.1 as nat),
    {
        let total_size: usize = (size.0 * size.1) as usize;
        let layer = vec![ColoredChar::empty(); total_size];
        layer
    }

    /// Width and height of the grid in cells.
    pub fn size(&self) -> (size: (u32, u32))
        ensures
            size.0 == self@.width,
            size.1 == self@.height,
    {
        self.size
    }

    /// The atlas the console draws with.
    pub fn tile_set(&self) -> (tile_set: &TileSet)
        ensures
            tile_set@ == self.atlas(),
    {
        &self.tile_set
    }

    /// Number of layers.
    pub fn layer_count(&self) -> (count: usize)
        ensures
            count == self@.layers.len(),
    {
        self.screens.len()
    }

    /// The cells of a layer in storage order, or `None` where there is no such
    /// layer.
    pub fn layer(&self, index: usize) -> (layer: Option<&Vec<ColoredChar>>)
        ensures
            layer is Some <==> index < self@.layers.len(),
            layer matches Some(cells) ==> cells@ == self@.layers[index as int],
    {
        if index < self.screens.len() {
            Some(&self.screens[index])
        } else {
            None
        }
    }

    /// Index of a position in a layer.
    fn locate(&self, pos: (u32, u32)) -> (loc: usize)
        requires
            self.wf(),
            self@.contains(pos),
        ensures
            loc == self@.index_of(pos),
            loc < self@.area(),
    {
        proof {
            lemma_index_of(self@, pos);
        }
        let pos_y: u32 = self.size.1 - 1 - pos.1;
        assert(self.size.0 * pos_y <= self.size.0 * self.size.1) by (nonlinear_arith)
            requires
                pos_y <= self.size.1,
        ;
        let loc: u32 = pos.0 + self.size.0 * pos_y;
        loc as usize
    }

    /// The cell at a position of a layer, or `None` where the layer or the
    /// position does not exist.
    pub fn cell(&self, layer: usize, pos: (u32, u32)) -> (cell: Option<ColoredChar>)
        requires
            self.wf(),
        ensures
            cell == if layer < self@.layers.len() && self@.contains(pos) {
                Some(self@.cell(layer as int, pos))
            } else {
                None
            },
    {
        if layer < self.screens.len() && pos.0 < self.size.0 && pos.1 < self.size.1 {
            let loc = self.locate(pos);
            assert(self@.layers[layer as int].len() == self@.area());
            Some(self.screens[layer][loc])
        } else {
            None
        }
    }

    /// Drops all layers and gives the grid a new size, with one layer of empty
    /// cells.
    pub fn rescale(&mut self, size: (u32, u32))
        requires
            old(self).wf(),
            size.0 * size.1 <= u32::MAX,
        ensures
            final(self).wf(),
            final(self).atlas() == old(self).atlas(),
            final(self)@ == old(self)@.rescaled(size),
    {
        self.screens.clear();
        self.size = size;
        let screen = Self::empty_layer(size);
        self.screens.push(screen);
        assert(self@.layers =~= old(self)@.rescaled(size).layers);
    }

    /// Resets the grid to one layer of empty cells.
    pub fn clear(&mut self)
        requires
            old(self).wf(),
        ensures
            final(self).wf(),
            final(self).atlas() == old(self).atlas(),
            final(self)@ == old(self)@.cleared(),
    {
        self.screens.clear();
        let screen = Self::empty_layer(self.size);
        self.screens.push(screen);
        assert(self@.layers =~= old(self)@.cleared().layers);
    }

    /// Sets the glyph and the true-colour flag of a cell of layer 0.
    pub fn put_char(&mut self, glyph: u32, pos: (u32, u32), true_color: bool)
        requires
            old(self).wf(),
            old(self)@.contains(pos),
        ensures
            final(self).wf(),
            final(self).atlas() == old(self).atlas(),
            final(self)@ == old(self)@.put_char(glyph, pos, true_color),
    {
        let loc = self.locate(pos);
        assert(self@.layers[0].len() == self@.area());
        self.screens[0][loc].id = glyph;
        self.screens[0][loc].use_true_color = true_color;
        assert(self@.layers[0] =~= old(self)@.put_char(glyph, pos, true_color).layers[0]);
        assert(self@.layers =~= old(self)@.put_char(glyph, pos, true_color).layers);
    }

    /// Sets the background colour of a cell of layer 0.
    pub fn set_background(&mut self, color: [u8; 3], pos: (u32, u32))
        requires
            old(self).wf(),
            old(self)@.contains(pos),
        ensures
            final(self).wf(),
            final(self).atlas() == old(self).atlas(),
            final(self)@ == old(self)@.set_background(color, pos),
    {
        let loc = self.locate(pos);
        assert(self@.layers[0].len() == self@.area());
        self.screens[0][loc].bg_color = color;
        assert(self@.layers =~= old(self)@.set_background(color, pos).layers);
    }

    /// Sets the foreground colour of a cell of layer 0.
    pub fn set_foreground(&mut self, color: [u8; 3], pos: (u32, u32))
        requires
            old(self).wf(),
            old(self)@.contains(pos),
        ensures
            final(self).wf(),
            final(self).atlas() == old(self).atlas(),
            final(self)@ == old(self)@.set_foreground(color, pos),
    {
        let loc = self.locate(pos);
        assert(self@.layers[0].len() == self@.area());
        self.screens[0][loc].fg_color = color;
        assert(self@.layers =~= old(self)@.set_foreground(color, pos).layers);
    }

    /// Sets the glyph and both colours of a cell of layer 0; the true-colour
    /// flag stays as it is.
    pub fn put_colored_char(
        &mut self,
        glyph: u32,
        foreground: [u8; 3],
        background: [u8; 3],
        pos: (u32, u32),
    )
        requires
            old(self).wf(),
            old(self)@.contains(pos),
        ensures
            final(self).wf(),
            final(self).atlas() == old(self).atlas(),
            final(self)@ == old(self)@.put_colored_char(glyph, foreground, background, pos),
    {
        let loc = self.locate(pos);
        assert(self@.layers[0].len() == self@.area());
        self.screens[0][loc].id = glyph;
        self.screens[0][loc].fg_color = foreground;
        self.screens[0][loc].bg_color = background;
        let ghost after = old(self)@.put_colored_char(glyph, foreground, background, pos);
        assert(self@.layers[0] =~= after.layers[0]);
        assert(self@.layers =~= after.layers);
    }

    /// Puts a layer on top of the stack.
    pub fn add_overlay(&mut self, layer: Vec<ColoredChar>)
        requires
            old(self).wf(),
            layer@.len() == old(self)@.area(),
        ensures
            final(self).wf(),
            final(self).atlas() == old(self).atlas(),
            final(self)@ == old(self)@.add_overlay(layer@),
    {
        self.screens.push(layer);
        assert(self@.layers =~= old(self)@.add_overlay(layer@).layers);
    }

    /// Sets a whole cell of a layer that the caller holds.
    pub fn put_colored_char_overlay(
        &self,
        layer: &mut Vec<ColoredChar>,
        glyph: u32,
        foreground: [u8; 3],
        background: [u8; 3],
        pos: (u32, u32),
        use_true_color: bool,
    )
        requires
            self.wf(),
            self@.contains(pos),
            old(layer)@.len() == self@.area(),
        ensures
            final(layer)@ == self@.layer_with(
                old(layer)@,
                pos,
                ColoredChar {
                    id: glyph,
                    fg_color: foreground,
                    bg_color: background,
                    use_true_color,
                },
            ),
    {
        let loc = self.locate(pos);
        layer[loc].id = glyph;
        layer[loc].fg_color = foreground;
        layer[loc].bg_color = background;
        layer[loc].use_true_color = use_true_color;
    }

    /// A fresh layer of empty cells of the grid's size.
    pub fn create_overlay(&self) -> (layer: Vec<ColoredChar>)
        requires
            self.wf(),
        ensures
            layer@ == Grid::empty_layer(self@.width, self@.height),
    {
        Self::empty_layer(self.size)
    }

    /// Writes one glyph per entry of `glyphs` at one position, entry `i` on
    /// layer `i`, and creates the layers that are missing.
    pub fn put_colored_multichar(
        &mut self,
        glyphs: Vec<u32>,
        foreground: [u8; 3],
        background: [u8; 3],
        pos: (u32, u32),
    )
        requires
            old(self).wf(),
            old(self)@.contains(pos),
        ensures
            final(self).wf(),
            final(self).atlas() == old(self).atlas(),
            final(self)@ == old(self)@.put_colored_multichar(glyphs@, foreground, background, pos),
    {
        let loc = self.locate(pos);
        let ghost before = self@;
        let ghost after = before.put_colored_multichar(glyphs@, foreground, background, pos);
        let mut i: usize = 0;
        while i < glyphs.len()
            invariant
                self.wf(),
                self.atlas() == old(self).atlas(),
                before == old(self)@,
                after == before.put_colored_multichar(glyphs@, foreground, background, pos),
                self@.width == before.width,
                self@.height == before.height,
                loc == before.index_of(pos),
                loc < before.area(),
                i <= glyphs.len(),
                self@.layers.len() == if i > before.layers.len() {
                    i as nat
                } else {
                    before.layers.len()
                },
                forall|j: int| 0 <= j < i ==> #[trigger] self@.layers[j] == after.layers[j],
                forall|j: int|
                    i <= j < self@.layers.len() ==> #[trigger] self@.layers[j] == before.layers[j],
            decreases glyphs.len() - i,
        {
            if self.screens.len() <= i {
                let layer = self.create_overlay();
                self.add_overlay(layer);
            }
            let ghost mid = self@;
            let ghost stack = self.screens@;
            assert(mid.layers[i as int] == before.layer_or_empty(i as int));
            assert(stack[i as int]@.len() == mid.area());
            self.screens[i][loc].id = glyphs[i];
            self.screens[i][loc].fg_color = foreground;
            self.screens[i][loc].bg_color = background;
            assert(self.screens@.len() == stack.len());
            assert(self@.layers[i as int] =~= after.layers[i as int]);
            assert forall|j: int| 0 <= j < stack.len() && j != i implies #[trigger] self@.layers[j]
                == mid.layers[j] by {
                assert(self.screens@[j] == stack[j]);
            }
            assert forall|j: int| 0 <= j < stack.len() implies (#[trigger] self@.layers[j]).len()
                == self@.area() by {
                if j != i {
                    assert(self@.layers[j] == mid.layers[j]);
                    assert(mid.layers[j].len() == mid.area());
                }
            }
            i += 1;
        }
        assert(self@.layers =~= after.layers);
    }

    /// Writes the characters of `text` into consecutive cells of layer 0,
    /// starting at `pos` and going right. Characters whose column the grid
    /// does not have are dropped.
    pub fn put_colored_str(
        &mut self,
        text: &str,
        foreground: [u8; 3],
        background: [u8; 3],
        pos: (u32, u32),
    )
        requires
            old(self).wf(),
            pos.0 < old(self)@.width && text@.len() > 0 ==> pos.1 < old(self)@.height,
        ensures
            final(self).wf(),
            final(self).atlas() == old(self).atlas(),
            final(self)@ == old(self)@.put_colored_str(text@, foreground, background, pos),
    {
        let ghost before = self@;
        let mut x: u32 = pos.0;
        proof {
            lemma_put_colored_str_empty(before, text@.take(0), foreground, background, pos);
        }
        for c in it: text.chars()
            invariant
                self.wf(),
                self.atlas() == old(self).atlas(),
                before == old(self)@,
                before.wf(),
                it.seq() == text@,
                pos.0 < before.width && text@.len() > 0 ==> pos.1 < before.height,
                x == if pos.0 + it.index() <= before.width {
                    pos.0 + it.index()
                } else if pos.0 <= before.width {
                    before.width as int
                } else {
                    pos.0 as int
                },
                self@ == before.put_colored_str(
                    text@.take(it.index() as int),
                    foreground,
                    background,
                    pos,
                ),
        {
            proof {
                lemma_put_colored_str_step(
                    before,
                    text@,
                    foreground,
                    background,
                    pos,
                    it.index() as int,
                );
            }
            if x < self.size.0 {
                self.put_colored_char(c as u32, foreground, background, (x, pos.1));
                x = x + 1;
            }
        }
        assert(text@.take(text@.len() as int) =~= text@);
    }

    /// Whether the atlas has the glyph of every cell of every layer.
    pub fn glyphs_known(&self) -> (known: bool)
        requires
            self.wf(),
        ensures
            known == glyphs_known(self@, self.atlas()),
    {
        let mut i: usize = 0;
        while i < self.screens.len()
            invariant
                self.wf(),
                i <= self.screens.len(),
                forall|l: int, k: int|
                    0 <= l < i && 0 <= k < self@.layers[l].len() ==> self.atlas().has_glyph(
                        (#[trigger] self@.layers[l][k]).id as nat,
                    ),
            decreases self.screens.len() - i,
        {
            let layer = &self.screens[i];
            let mut k: usize = 0;
            while k < layer.len()
                invariant
                    self.wf(),
                    i < self.screens.len(),
                    layer@ == self@.layers[i as int],
                    k <= layer.len(),
                    forall|j: int|
                        0 <= j < k ==> self.atlas().has_glyph((#[trigger] layer@[j]).id as nat),
                decreases layer.len() - k,
            {
                if !self.tile_set.has_glyph(layer[k].id) {
                    return false;
                }
                k += 1;
            }
            i += 1;
        }
        true
    }

    /// The vertex at one corner of the quad of a cell.
    fn corner_vertex(
        &self,
        x: u32,
        y: u32,
        layer: usize,
        cell: ColoredChar,
        tex: &[[u32; 2]; 4],
        corner: Corner,
    ) -> (vertex: Vertex)
        requires
            self.wf(),
            x < self@.width,
            y < self@.height,
            layer < self@.layers.len(),
            cell == self@.layers[layer as int][x + self@.width * y],
            self.atlas().has_glyph(cell.id as nat),
            *tex == self.atlas().corners(cell.id as nat),
        ensures
            vertex == vertex_of(self@, self.atlas(), x as int, y as int, layer as int, corner),
    {
        let w: i64 = self.size.0 as i64;
        let h: i64 = self.size.1 as i64;
        let glyph = self.tile_set.glyph_size();
        let image = self.tile_set.image_size();
        let gw: i64 = glyph.0 as i64;
        let gh: i64 = glyph.1 as i64;
        let (right, up, place): (i64, i64, usize) = match corner {
            Corner::BottomLeft => (0, 0, 0),
            Corner::TopLeft => (0, 1, 1),
            Corner::TopRight => (1, 1, 2),
            Corner::BottomRight => (1, 0, 3),
        };
        assert(0 <= w * gh <= 0xffff_ffff * 0xffff && -(h * (w * gh)) <= (2 * y - h) * (w * gh) <= h
            * (w * gh) && 0 <= h * (w * gh) <= 0xffff_ffff * 0xffff && 0 <= 2 * gw * h <= 2 * 0xffff
            * 0xffff_ffff) by (nonlinear_arith)
            requires
                0 <= y < h,
                0 <= w,
                0 <= w * h <= 0xffff_ffff,
                h <= 0xffff_ffff,
                0 < gh <= 0xffff,
                0 < gw <= 0xffff,
        ;
        let wg: i64 = w * gh;
        let rise: i64 = 2 * gw * h;
        let num_y: i64 = (2 * (y as i64) - h) * wg + up * rise;
        let den_y: i64 = h * wg;
        Vertex {
            position: [
                Ratio { num: 2 * (x as i64 + right) - w, den: w },
                Ratio { num: num_y, den: den_y },
            ],
            tex_position: [
                Ratio { num: tex[place][0] as i64, den: image.0 as i64 },
                Ratio { num: tex[place][1] as i64, den: image.1 as i64 },
            ],
            fg: cell.fg_color,
            bg: cell.bg_color,
            layer,
            use_true_color: cell.use_true_color,
        }
    }

    /// The vertex list of the whole grid: for every column, every array row and
    /// every layer, in this order, the two triangles of the cell's quad. `None`
    /// if a cell holds a glyph that the atlas does not have.
    pub fn draw(&self) -> (list: Option<Vec<Vertex>>)
        requires
            self.wf(),
        ensures
            list is Some <==> glyphs_known(self@, self.atlas()),
            list matches Some(v) ==> v@ == vertices(self@, self.atlas()),
    {
        if !self.glyphs_known() {
            return None;
        }
        let ghost g = self@;
        let ghost a = self.atlas();
        let layers = self.screens.len();
        let mut out: Vec<Vertex> = Vec::new();
        let mut x: u32 = 0;
        assert(quad_index(g, 0, 0, 0) == 0) by (nonlinear_arith);
        while x < self.size.0
            invariant
                self.wf(),
                g == self@,
                a == self.atlas(),
                glyphs_known(g, a),
                layers == g.layers.len(),
                x <= self.size.0,
                out@.len() == 6 * quad_index(g, x as int, 0, 0),
                forall|k: int| 0 <= k < out@.len() ==> out@[k] == vertex_at(g, a, k),
            decreases self.size.0 - x,
        {
            let mut y: u32 = 0;
            while y < self.size.1
                invariant
                    self.wf(),
                    g == self@,
                    a == self.atlas(),
                    glyphs_known(g, a),
                    layers == g.layers.len(),
                    x < self.size.0,
                    y <= self.size.1,
                    out@.len() == 6 * quad_index(g, x as int, y as int, 0),
                    forall|k: int| 0 <= k < out@.len() ==> out@[k] == vertex_at(g, a, k),
                decreases self.size.1 - y,
            {
                proof {
                    lemma_index_of_row(g, x as int, y as int);
                }
                let loc: usize = (x + self.size.0 * y) as usize;
                let mut i: usize = 0;
                while i < layers
                    invariant
                        self.wf(),
                        g == self@,
                        a == self.atlas(),
                        glyphs_known(g, a),
                        layers == g.layers.len(),
                        x < self.size.0,
                        y < self.size.1,
                        loc == x + g.width * y,
                        loc < g.area(),
                        i <= layers,
                        out@.len() == 6 * quad_index(g, x as int, y as int, i as int),
                        forall|k: int| 0 <= k < out@.len() ==> out@[k] == vertex_at(g, a, k),
                    decreases layers - i,
                {
                    assert(g.layers[i as int].len() == g.area());
                    let cc = self.screens[i][loc];
                    let tex = self.tile_set.get_glyph(cc.id).unwrap();
                    let v1 = self.corner_vertex(x, y, i, cc, &tex, Corner::BottomLeft);
                    let v2 = self.corner_vertex(x, y, i, cc, &tex, Corner::TopLeft);
                    let v3 = self.corner_vertex(x, y, i, cc, &tex, Corner::TopRight);
                    let v4 = self.corner_vertex(x, y, i, cc, &tex, Corner::BottomRight);
                    proof {
                        lemma_quad_index(g, x as int, y as int, i as int);
                    }
                    out.push(v1);
                    out.push(v2);
                    out.push(v3);
                    out.push(v1);
                    out.push(v3);
                    out.push(v4);
                    i += 1;
                }
                assert(quad_index(g, x as int, y as int, layers as int) == quad_index(
                    g,
                    x as int,
                    y + 1,
                    0,
                )) by (nonlinear_arith)
                    requires
                        layers == g.layers.len(),
                ;
                y += 1;
            }
            x += 1;
            assert(quad_index(g, x as int, 0, 0) == quad_index(g, x - 1, g.height as int, 0))
                by (nonlinear_arith);
        }
        assert(quad_index(g, g.width as int, 0, 0) == quad_count(g)) by (nonlinear_arith);
        Some(out)
    }
}

} // verus!
