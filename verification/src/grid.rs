use crate::console::ColoredChar;
use vstd::arithmetic::div_mod::{
    lemma_fundamental_div_mod, lemma_fundamental_div_mod_converse, lemma_mod_pos_bound,
};
use vstd::prelude::*;

verus! {

/// The layered cell grid as a mathematical value. Every layer is one flat
/// sequence of `width * height` cells; the cell of column `x` and array row
/// `r` sits at index `x + width * r`, and array row 0 is drawn at the bottom.
pub struct Grid {
    pub width: nat,
    pub height: nat,
    pub layers: Seq<Seq<ColoredChar>>,
}

impl Grid {
    /// Number of cells in one layer.
    pub open spec fn area(self) -> nat {
        self.width * self.height
    }

    /// There is a layer 0, and every layer has exactly `area()` cells.
    pub open spec fn wf(self) -> bool {
        &&& self.layers.len() >= 1
        &&& forall|i: int|
            0 <= i < self.layers.len() ==> (#[trigger] self.layers[i]).len() == self.area()
    }

    /// Whether a position names a cell of the grid.
    pub open spec fn contains(self, pos: (u32, u32)) -> bool {
        pos.0 < self.width && pos.1 < self.height
    }

    /// Array row in which the placement functions store the cells of `y`.
    pub open spec fn array_row(self, y: u32) -> int {
        self.height - 1 - y
    }

    /// Index of a position in a layer.
    pub open spec fn index_of(self, pos: (u32, u32)) -> int {
        pos.0 + self.width * self.array_row(pos.1)
    }

    /// A layer of `width * height` empty cells.
    pub open spec fn empty_layer(width: nat, height: nat) -> Seq<ColoredChar> {
        Seq::new(width * height, |k: int| ColoredChar::spec_empty())
    }

    /// The grid of the given size with one layer of empty cells.
    pub open spec fn blank(width: nat, height: nat) -> Grid {
        Grid { width, height, layers: seq![Self::empty_layer(width, height)] }
    }

    /// The grid after `clear`.
    pub open spec fn cleared(self) -> Grid {
        Self::blank(self.width, self.height)
    }

    /// The grid after `rescale`.
    pub open spec fn rescaled(self, size: (u32, u32)) -> Grid {
        Self::blank(size.0 as nat, size.1 as nat)
    }

    /// The cell at a position of a layer.
    pub open spec fn cell(self, layer: int, pos: (u32, u32)) -> ColoredChar {
        self.layers[layer][self.index_of(pos)]
    }

    /// A layer with the cell at `pos` replaced.
    pub open spec fn layer_with(
        self,
        layer: Seq<ColoredChar>,
        pos: (u32, u32),
        cell: ColoredChar,
    ) -> Seq<ColoredChar> {
        layer.update(self.index_of(pos), cell)
    }

    /// The grid with one cell of one layer replaced.
    pub open spec fn with_cell(self, layer: int, pos: (u32, u32), cell: ColoredChar) -> Grid {
        Grid {
            layers: self.layers.update(layer, self.layer_with(self.layers[layer], pos, cell)),
            ..self
        }
    }

    /// The grid after `put_char`.
    pub open spec fn put_char(self, id: u32, pos: (u32, u32), true_color: bool) -> Grid {
        self.with_cell(0, pos, ColoredChar { id, use_true_color: true_color, ..self.cell(0, pos) })
    }

    /// The grid after `set_background`.
    pub open spec fn set_background(self, color: [u8; 3], pos: (u32, u32)) -> Grid {
        self.with_cell(0, pos, ColoredChar { bg_color: color, ..self.cell(0, pos) })
    }

    /// The grid after `set_foreground`.
    pub open spec fn set_foreground(self, color: [u8; 3], pos: (u32, u32)) -> Grid {
        self.with_cell(0, pos, ColoredChar { fg_color: color, ..self.cell(0, pos) })
    }

    /// The grid after `put_colored_char`.
    pub open spec fn put_colored_char(
        self,
        id: u32,
        foreground: [u8; 3],
        background: [u8; 3],
        pos: (u32, u32),
    ) -> Grid {
        self.with_cell(
            0,
            pos,
            ColoredChar { id, fg_color: foreground, bg_color: background, ..self.cell(0, pos) },
        )
    }

    /// The grid after `add_overlay`.
    pub open spec fn add_overlay(self, layer: Seq<ColoredChar>) -> Grid {
        Grid { layers: self.layers.push(layer), ..self }
    }

    /// Layer `i` as `put_colored_multichar` finds it: the layer that is there,
    /// or a fresh empty one.
    pub open spec fn layer_or_empty(self, i: int) -> Seq<ColoredChar> {
        if i < self.layers.len() {
            self.layers[i]
        } else {
            Self::empty_layer(self.width, self.height)
        }
    }

    /// The grid after `put_colored_multichar`.
    pub open spec fn put_colored_multichar(
        self,
        ids: Seq<u32>,
        foreground: [u8; 3],
        background: [u8; 3],
        pos: (u32, u32),
    ) -> Grid {
        let count = if ids.len() > self.layers.len() {
            ids.len()
        } else {
            self.layers.len()
        };
        Grid {
            layers: Seq::new(
                count,
                |i: int|
                    if i < ids.len() {
                        let base = self.layer_or_empty(i);
                        self.layer_with(
                            base,
                            pos,
                            ColoredChar {
                                id: ids[i],
                                fg_color: foreground,
                                bg_color: background,
                                ..base[self.index_of(pos)]
                            },
                        )
                    } else {
                        self.layers[i]
                    },
            ),
            ..self
        }
    }

    /// Whether `put_colored_str` writes the cell at index `k` of layer 0: the
    /// cell lies in the row of `pos` and its column holds a character.
    pub open spec fn str_covers(self, len: nat, pos: (u32, u32), k: int) -> bool {
        &&& self.width > 0
        &&& k / (self.width as int) == self.array_row(pos.1)
        &&& pos.0 <= k % (self.width as int) < pos.0 + len
    }

    /// The grid after `put_colored_str`.
    pub open spec fn put_colored_str(
        self,
        text: Seq<char>,
        foreground: [u8; 3],
        background: [u8; 3],
        pos: (u32, u32),
    ) -> Grid {
        Grid {
            layers: self.layers.update(
                0,
                Seq::new(
                    self.layers[0].len(),
                    |k: int|
                        if self.str_covers(text.len(), pos, k) {
                            ColoredChar {
                                id: text[k % (self.width as int) - pos.0] as u32,
                                fg_color: foreground,
                                bg_color: background,
                                ..self.layers[0][k]
                            }
                        } else {
                            self.layers[0][k]
                        },
                ),
            ),
            ..self
        }
    }
}

/// A position of the grid has an index inside a layer, and the index gives the
/// position back: its column by the remainder, its array row by the quotient.
pub proof fn lemma_index_of(g: Grid, pos: (u32, u32))
    requires
        g.contains(pos),
    ensures
        0 <= g.index_of(pos) < g.area(),
        g.index_of(pos) % (g.width as int) == pos.0,
        g.index_of(pos) / (g.width as int) == g.array_row(pos.1),
{
    let w = g.width as int;
    let h = g.height as int;
    let r = g.array_row(pos.1);
    assert(0 <= w * r && w * r + w <= w * h) by (nonlinear_arith)
        requires
            0 <= r < h,
            w > 0,
    ;
    assert(w * r == r * w) by (nonlinear_arith);
    lemma_fundamental_div_mod_converse(g.index_of(pos), w, r, pos.0 as int);
}

/// Two positions of the grid with one index are one position.
pub proof fn lemma_index_of_injective(g: Grid, p: (u32, u32), q: (u32, u32))
    requires
        g.contains(p),
        g.contains(q),
        g.index_of(p) == g.index_of(q),
    ensures
        p == q,
{
    lemma_index_of(g, p);
    lemma_index_of(g, q);
}

/// The cell of column `x` and array row `y` has an index inside a layer.
pub proof fn lemma_index_of_row(g: Grid, x: int, y: int)
    requires
        0 <= x < g.width,
        0 <= y < g.height,
    ensures
        0 <= g.width * y,
        x + g.width * y < g.area(),
{
    let w = g.width as int;
    let h = g.height as int;
    assert(0 <= w * y && w * y + w <= w * h) by (nonlinear_arith)
        requires
            0 <= y < h,
            w > 0,
    ;
}

/// With no character to place, `put_colored_str` leaves the grid as it is.
pub proof fn lemma_put_colored_str_empty(
    g: Grid,
    text: Seq<char>,
    foreground: [u8; 3],
    background: [u8; 3],
    pos: (u32, u32),
)
    requires
        g.wf(),
        text.len() == 0,
    ensures
        g.put_colored_str(text, foreground, background, pos) == g,
{
    let after = g.put_colored_str(text, foreground, background, pos);
    assert(after.layers[0] =~= g.layers[0]);
    assert(after.layers =~= g.layers);
}

/// Placing the first `i + 1` characters of a string is placing the first `i`
/// and then character `i` in its column, if the grid has that column.
pub proof fn lemma_put_colored_str_step(
    g: Grid,
    text: Seq<char>,
    foreground: [u8; 3],
    background: [u8; 3],
    pos: (u32, u32),
    i: int,
)
    requires
        g.wf(),
        g.width <= u32::MAX,
        0 <= i < text.len(),
        pos.0 + i < g.width ==> pos.1 < g.height,
    ensures
        g.put_colored_str(text.take(i + 1), foreground, background, pos) == if pos.0 + i
            < g.width {
            g.put_colored_str(text.take(i), foreground, background, pos).put_colored_char(
                text[i] as u32,
                foreground,
                background,
                ((pos.0 + i) as u32, pos.1),
            )
        } else {
            g.put_colored_str(text.take(i), foreground, background, pos)
        },
{
    let before = g.put_colored_str(text.take(i), foreground, background, pos);
    let after = g.put_colored_str(text.take(i + 1), foreground, background, pos);
    let w = g.width as int;
    if pos.0 + i < g.width {
        let at = ((pos.0 + i) as u32, pos.1);
        let placed = before.put_colored_char(text[i] as u32, foreground, background, at);
        let idx = g.index_of(at);
        lemma_index_of(g, at);
        assert forall|k: int| 0 <= k < g.area() implies after.layers[0][k]
            == placed.layers[0][k] by {
            lemma_fundamental_div_mod(k, w);
        }
        assert(after.layers[0] =~= placed.layers[0]);
        assert(after.layers =~= placed.layers);
    } else {
        assert forall|k: int| 0 <= k < g.area() implies after.layers[0][k]
            == before.layers[0][k] by {
            if w > 0 {
                lemma_mod_pos_bound(k, w);
            }
        }
        assert(after.layers[0] =~= before.layers[0]);
    }
}

/// A blank grid is well-formed and has exactly one layer, which has
/// `width * height` cells, every one of them the empty cell.
pub proof fn lemma_blank(width: nat, height: nat)
    ensures
        Grid::blank(width, height).wf(),
        Grid::blank(width, height).layers.len() == 1,
        Grid::blank(width, height).layers[0].len() == width * height,
        forall|k: int|
            0 <= k < width * height ==> #[trigger] Grid::blank(width, height).layers[0][k]
                == ColoredChar::spec_empty(),
{
}

/// After `clear` the grid has one layer, and every cell of the grid is the
/// empty cell.
pub proof fn lemma_clear_resets(g: Grid, pos: (u32, u32))
    requires
        g.contains(pos),
    ensures
        g.cleared().wf(),
        g.cleared().width == g.width,
        g.cleared().height == g.height,
        g.cleared().layers.len() == 1,
        g.cleared().cell(0, pos) == ColoredChar::spec_empty(),
{
    lemma_blank(g.width, g.height);
    lemma_index_of(g.cleared(), pos);
}

/// After `rescale` and then `clear` the grid has the new size, and every one of
/// its layers has as many cells as the new width times the new height.
pub proof fn lemma_rescale_then_clear(g: Grid, size: (u32, u32), layer: int)
    requires
        0 <= layer < g.rescaled(size).cleared().layers.len(),
    ensures
        g.rescaled(size).cleared() == Grid::blank(size.0 as nat, size.1 as nat),
        g.rescaled(size).cleared().wf(),
        g.rescaled(size).cleared().layers[layer].len() == size.0 * size.1,
{
    lemma_blank(size.0 as nat, size.1 as nat);
}

/// Replacing a cell changes that cell and no other: the grid keeps its size
/// and its number of layers, the cell reads back, and every other cell of every
/// layer is as before.
pub proof fn lemma_with_cell(
    g: Grid,
    layer: int,
    pos: (u32, u32),
    cell: ColoredChar,
    other_layer: int,
    other: (u32, u32),
)
    requires
        g.wf(),
        0 <= layer < g.layers.len(),
        g.contains(pos),
        0 <= other_layer < g.layers.len(),
        g.contains(other),
    ensures
        g.with_cell(layer, pos, cell).wf(),
        g.with_cell(layer, pos, cell).width == g.width,
        g.with_cell(layer, pos, cell).height == g.height,
        g.with_cell(layer, pos, cell).layers.len() == g.layers.len(),
        g.with_cell(layer, pos, cell).cell(layer, pos) == cell,
        other_layer != layer || other != pos ==> g.with_cell(layer, pos, cell).cell(
            other_layer,
            other,
        ) == g.cell(other_layer, other),
{
    lemma_index_of(g, pos);
    lemma_index_of(g, other);
    if other != pos {
        if g.index_of(pos) == g.index_of(other) {
            lemma_index_of_injective(g, pos, other);
        }
    }
}

/// After `put_char` the cell reads back the glyph and the true-colour flag
/// that were written, its colours are as before, and every other cell of every
/// layer is as before.
pub proof fn lemma_put_char_read_back(
    g: Grid,
    id: u32,
    pos: (u32, u32),
    true_color: bool,
    other_layer: int,
    other: (u32, u32),
)
    requires
        g.wf(),
        g.contains(pos),
        0 <= other_layer < g.layers.len(),
        g.contains(other),
    ensures
        g.put_char(id, pos, true_color).wf(),
        g.put_char(id, pos, true_color).layers.len() == g.layers.len(),
        g.put_char(id, pos, true_color).cell(0, pos).id == id,
        g.put_char(id, pos, true_color).cell(0, pos).use_true_color == true_color,
        g.put_char(id, pos, true_color).cell(0, pos).fg_color == g.cell(0, pos).fg_color,
        g.put_char(id, pos, true_color).cell(0, pos).bg_color == g.cell(0, pos).bg_color,
        other_layer != 0 || other != pos ==> g.put_char(id, pos, true_color).cell(
            other_layer,
            other,
        ) == g.cell(other_layer, other),
{
    let cell = ColoredChar { id, use_true_color: true_color, ..g.cell(0, pos) };
    lemma_with_cell(g, 0, pos, cell, other_layer, other);
}

/// Two writes to one cell of one layer are one write of the later value.
proof fn lemma_with_cell_twice(
    g: Grid,
    layer: int,
    pos: (u32, u32),
    first: ColoredChar,
    second: ColoredChar,
)
    requires
        g.wf(),
        0 <= layer < g.layers.len(),
        g.contains(pos),
    ensures
        g.with_cell(layer, pos, first).with_cell(layer, pos, second) == g.with_cell(
            layer,
            pos,
            second,
        ),
        g.with_cell(layer, pos, first).cell(layer, pos) == first,
        g.with_cell(layer, pos, first).wf(),
        g.with_cell(layer, pos, first).index_of(pos) == g.index_of(pos),
{
    lemma_index_of(g, pos);
    let once = g.with_cell(layer, pos, first);
    let twice = once.with_cell(layer, pos, second);
    let direct = g.with_cell(layer, pos, second);
    assert(twice.layers[layer] =~= direct.layers[layer]);
    assert(twice.layers =~= direct.layers);
}

/// `put_colored_char` does what `put_char`, `set_foreground` and
/// `set_background` do one after the other, in any of the six orders, where
/// `put_char` is given the true-colour flag that the cell has.
pub proof fn lemma_put_colored_char_is_three_writes(
    g: Grid,
    id: u32,
    foreground: [u8; 3],
    background: [u8; 3],
    pos: (u32, u32),
)
    requires
        g.wf(),
        g.contains(pos),
    ensures
        ({
            let flag = g.cell(0, pos).use_true_color;
            let all = g.put_colored_char(id, foreground, background, pos);
            &&& all == g.put_char(id, pos, flag).set_foreground(foreground, pos).set_background(
                background,
                pos,
            )
            &&& all == g.put_char(id, pos, flag).set_background(background, pos).set_foreground(
                foreground,
                pos,
            )
            &&& all == g.set_foreground(foreground, pos).put_char(id, pos, flag).set_background(
                background,
                pos,
            )
            &&& all == g.set_foreground(foreground, pos).set_background(background, pos).put_char(
                id,
                pos,
                flag,
            )
            &&& all == g.set_background(background, pos).put_char(id, pos, flag).set_foreground(
                foreground,
                pos,
            )
            &&& all == g.set_background(background, pos).set_foreground(foreground, pos).put_char(
                id,
                pos,
                flag,
            )
        }),
{
    let c = g.cell(0, pos);
    let flag = c.use_true_color;
    let with_id = ColoredChar { id, use_true_color: flag, ..c };
    let with_fg = ColoredChar { fg_color: foreground, ..c };
    let with_bg = ColoredChar { bg_color: background, ..c };
    let id_fg = ColoredChar { fg_color: foreground, ..with_id };
    let id_bg = ColoredChar { bg_color: background, ..with_id };
    let fg_bg = ColoredChar { bg_color: background, ..with_fg };
    let full = ColoredChar { id, fg_color: foreground, bg_color: background, ..c };
    lemma_with_cell_twice(g, 0, pos, with_id, id_fg);
    lemma_with_cell_twice(g, 0, pos, with_id, id_bg);
    lemma_with_cell_twice(g, 0, pos, with_fg, id_fg);
    lemma_with_cell_twice(g, 0, pos, with_fg, fg_bg);
    lemma_with_cell_twice(g, 0, pos, with_bg, id_bg);
    lemma_with_cell_twice(g, 0, pos, with_bg, fg_bg);
    lemma_with_cell_twice(g, 0, pos, id_fg, full);
    lemma_with_cell_twice(g, 0, pos, id_bg, full);
    lemma_with_cell_twice(g, 0, pos, fg_bg, full);
}

/// After `put_colored_str` the cells of the row of `pos` from its column on
/// hold the characters of the string in order, each with the two colours and
/// with the true-colour flag it had. Characters beyond the last column are in
/// no cell. Every other cell of every layer is as before, and so is the number
/// of layers.
pub proof fn lemma_put_colored_str_cells(
    g: Grid,
    text: Seq<char>,
    foreground: [u8; 3],
    background: [u8; 3],
    pos: (u32, u32),
    layer: int,
    at: (u32, u32),
)
    requires
        g.wf(),
        0 <= layer < g.layers.len(),
        g.contains(at),
    ensures
        g.put_colored_str(text, foreground, background, pos).wf(),
        g.put_colored_str(text, foreground, background, pos).width == g.width,
        g.put_colored_str(text, foreground, background, pos).height == g.height,
        g.put_colored_str(text, foreground, background, pos).layers.len() == g.layers.len(),
        g.put_colored_str(text, foreground, background, pos).cell(layer, at) == if layer == 0
            && at.1 == pos.1 && pos.0 <= at.0 < pos.0 + text.len() {
            ColoredChar {
                id: text[at.0 - pos.0] as u32,
                fg_color: foreground,
                bg_color: background,
                ..g.cell(0, at)
            }
        } else {
            g.cell(layer, at)
        },
{
    lemma_index_of(g, at);
}

/// After `put_colored_multichar` the grid has as many layers as before, or as
/// many as there are glyphs if that is more: exactly one per glyph where it had
/// no more layers than that. On each of the first layers, one per glyph, the
/// cell at `pos` holds that layer's glyph and the two colours, the same on all
/// of them; its true-colour flag is as before, and unset on a new layer.
pub proof fn lemma_put_colored_multichar_layers(
    g: Grid,
    ids: Seq<u32>,
    foreground: [u8; 3],
    background: [u8; 3],
    pos: (u32, u32),
    i: int,
)
    requires
        g.wf(),
        g.contains(pos),
        0 <= i < ids.len(),
    ensures
        g.put_colored_multichar(ids, foreground, background, pos).wf(),
        g.layers.len() <= ids.len() ==> g.put_colored_multichar(
            ids,
            foreground,
            background,
            pos,
        ).layers.len() == ids.len(),
        g.layers.len() >= ids.len() ==> g.put_colored_multichar(
            ids,
            foreground,
            background,
            pos,
        ).layers.len() == g.layers.len(),
        g.put_colored_multichar(ids, foreground, background, pos).cell(i, pos) == (ColoredChar {
            id: ids[i],
            fg_color: foreground,
            bg_color: background,
            use_true_color: i < g.layers.len() && g.cell(i, pos).use_true_color,
        }),
{
    lemma_index_of(g, pos);
    let after = g.put_colored_multichar(ids, foreground, background, pos);
    assert forall|j: int| 0 <= j < after.layers.len() implies (#[trigger] after.layers[j]).len()
        == after.area() by {}
}

} // verus!
