use glyph_console::console::Root;
use glyph_console::tileset::TileSet;
use glyph_console::vertex::{Ratio, Vertex, LAYERS_PER_DEPTH_UNIT};

const RED: [u8; 3] = [200, 10, 20];
const BLUE: [u8; 3] = [1, 2, 250];

fn square_atlas() -> TileSet {
    TileSet::new((100, 100), vec![0u8; 30000], (10, 10), (0, 0)).unwrap()
}

fn tall_atlas() -> TileSet {
    TileSet::new((80, 160), vec![0u8; 38400], (8, 16), (0, 0)).unwrap()
}

fn value(r: Ratio) -> f64 {
    r.num as f64 / r.den as f64
}

fn xy(v: &Vertex) -> (f64, f64) {
    (value(v.position[0]), value(v.position[1]))
}

fn uv(v: &Vertex) -> (f64, f64) {
    (value(v.tex_position[0]), value(v.tex_position[1]))
}

#[test]
fn draw_gives_six_vertices_per_cell_and_layer() {
    let mut root = Root::new(square_atlas(), (4, 3));
    assert_eq!(root.draw().unwrap().len(), 6 * 4 * 3);
    root.put_colored_multichar(vec![1, 2, 3], RED, BLUE, (0, 0));
    assert_eq!(root.draw().unwrap().len(), 6 * 4 * 3 * 3);
}

#[test]
fn draw_one_cell_exactly() {
    let mut root = Root::new(tall_atlas(), (1, 1));
    root.put_colored_char(11, RED, BLUE, (0, 0));
    let list = root.draw().unwrap();
    assert_eq!(list.len(), 6);
    // Glyph 11 of a 10 x 10 atlas: column 1, one row below the top.
    let corner = |right: i64, up: i64| Vertex {
        position: [
            Ratio { num: 2 * right - 1, den: 1 },
            Ratio { num: -16 + 16 * up, den: 16 },
        ],
        tex_position: [
            Ratio { num: 8 + 8 * right, den: 80 },
            Ratio { num: 128 + 16 * up, den: 160 },
        ],
        fg: RED,
        bg: BLUE,
        layer: 0,
        use_true_color: false,
    };
    let (bl, tl, tr, br) = (corner(0, 0), corner(0, 1), corner(1, 1), corner(1, 0));
    assert_eq!(list, vec![bl, tl, tr, bl, tr, br]);
}

#[test]
fn draw_positions_tile_the_screen_for_square_glyphs() {
    let root = Root::new(square_atlas(), (80, 80));
    let list = root.draw().unwrap();
    assert_eq!(list.len(), 6 * 80 * 80);
    // The first quad is the cell of column 0 and array row 0: the lower left.
    assert_eq!(xy(&list[0]), (-1.0, -1.0));
    assert_eq!(xy(&list[1]), (-1.0, -1.0 + 2.0 / 80.0));
    assert_eq!(xy(&list[2]), (-1.0 + 2.0 / 80.0, -1.0 + 2.0 / 80.0));
    assert_eq!(xy(&list[5]), (-1.0 + 2.0 / 80.0, -1.0));
    // The last quad is the cell of column 79 and array row 79: the upper right.
    let last = &list[6 * 80 * 80 - 6..];
    assert_eq!(xy(&last[0]), (1.0 - 2.0 / 80.0, 1.0 - 2.0 / 80.0));
    assert_eq!(xy(&last[2]), (1.0, 1.0));
    assert_eq!(last[0].position[0], Ratio { num: 78, den: 80 });
    assert_eq!(last[0].position[1], Ratio { num: 62400, den: 64000 });
    assert_eq!(last[2].position[1], Ratio { num: 64000, den: 64000 });
}

#[test]
fn draw_quad_height_follows_the_glyph_ratio() {
    let root = Root::new(tall_atlas(), (4, 2));
    let list = root.draw().unwrap();
    // Width 2 / 4; height (2 / 4) * (8 / 16).
    let (x0, y0) = xy(&list[0]);
    let (x1, y1) = xy(&list[2]);
    assert_eq!((x0, y0), (-1.0, -1.0));
    assert_eq!(x1 - x0, 0.5);
    assert_eq!(y1 - y0, 0.25);
    assert_eq!(list[2].position[1], Ratio { num: -2 * 64 + 2 * 8 * 2, den: 2 * 64 });
}

#[test]
fn draw_goes_by_column_then_row_then_layer() {
    let mut root = Root::new(square_atlas(), (2, 3));
    root.put_colored_multichar(vec![0, 0], RED, BLUE, (0, 0));
    let list = root.draw().unwrap();
    assert_eq!(list.len(), 6 * 2 * 3 * 2);
    let mut k = 0;
    for x in 0..2i64 {
        for y in 0..3i64 {
            for layer in 0..2usize {
                let v = &list[k];
                assert_eq!(v.position[0], Ratio { num: 2 * x - 2, den: 2 });
                assert_eq!(v.position[1], Ratio { num: (2 * y - 3) * 20, den: 60 });
                assert_eq!(v.layer, layer);
                for j in 0..6 {
                    assert_eq!(list[k + j].layer, layer);
                }
                k += 6;
            }
        }
    }
}

#[test]
fn draw_shows_position_zero_zero_in_the_top_row() {
    let mut root = Root::new(square_atlas(), (2, 2));
    root.put_colored_char(99, RED, BLUE, (0, 0));
    let list = root.draw().unwrap();
    // Quads: (0, 0), (0, 1), (1, 0), (1, 1) by column and array row.
    let top_left = &list[6..12];
    assert_eq!(xy(&top_left[0]), (-1.0, 0.0));
    assert_eq!(top_left[0].fg, RED);
    assert_eq!(top_left[0].bg, BLUE);
    assert_eq!(uv(&top_left[0]), (0.9, 0.0));
    assert_eq!(uv(&top_left[2]), (1.0, 0.1));
    for (i, v) in list.iter().enumerate() {
        if !(6..12).contains(&i) {
            assert_eq!(v.fg, [255, 255, 255]);
            assert_eq!(v.bg, [0, 0, 0]);
            assert_eq!(uv(v).1 >= 0.9, true);
        }
    }
}

#[test]
fn draw_texture_corners_follow_the_triangles() {
    let mut root = Root::new(square_atlas(), (1, 1));
    root.put_char(23, (0, 0), true);
    let list = root.draw().unwrap();
    let tex: Vec<(i64, i64)> =
        list.iter().map(|v| (v.tex_position[0].num, v.tex_position[1].num)).collect();
    assert_eq!(tex, vec![(30, 70), (30, 80), (40, 80), (30, 70), (40, 80), (40, 70)]);
    for v in &list {
        assert_eq!(v.tex_position[0].den, 100);
        assert_eq!(v.tex_position[1].den, 100);
        assert!(v.use_true_color);
    }
}

#[test]
fn draw_carries_the_layer_for_the_overlay_depth() {
    let mut root = Root::new(square_atlas(), (1, 1));
    root.put_colored_multichar(vec![1, 2, 3], RED, BLUE, (0, 0));
    let list = root.draw().unwrap();
    let depths: Vec<f32> =
        list.iter().step_by(6).map(|v| v.layer as f32 / LAYERS_PER_DEPTH_UNIT as f32).collect();
    assert_eq!(depths, vec![0.0, 1.0 / 5.0, 2.0 / 5.0]);
}

#[test]
fn draw_refuses_a_glyph_that_the_atlas_does_not_have() {
    let mut root = Root::new(square_atlas(), (3, 3));
    assert!(root.glyphs_known());
    root.put_char(99, (1, 1), false);
    assert!(root.glyphs_known());
    assert!(root.draw().is_some());
    root.put_char(100, (1, 1), false);
    assert!(!root.glyphs_known());
    assert_eq!(root.draw(), None);
    root.put_char(0, (1, 1), false);
    assert!(root.draw().is_some());
}

#[test]
fn draw_refuses_an_unknown_glyph_on_an_overlay() {
    let mut root = Root::new(square_atlas(), (2, 2));
    root.put_colored_multichar(vec![1, 5000], RED, BLUE, (1, 0));
    assert!(!root.glyphs_known());
    assert_eq!(root.draw(), None);
    root.clear();
    assert!(root.draw().is_some());
}

#[test]
fn draw_of_a_large_grid_stays_exact() {
    let root = Root::new(tall_atlas(), (60000, 1));
    let list = root.draw().unwrap();
    assert_eq!(list.len(), 360000);
    let v = list[list.len() - 4];
    assert_eq!(v.position[0], Ratio { num: 60000, den: 60000 });
    assert_eq!(v.position[1], Ratio { num: -960000 + 16, den: 960000 });
}
