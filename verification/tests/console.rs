use glyph_console::console::{ColoredChar, Root};
use glyph_console::tileset::TileSet;

const WHITE: [u8; 3] = [255, 255, 255];
const BLACK: [u8; 3] = [0, 0, 0];
const RED: [u8; 3] = [200, 10, 20];
const BLUE: [u8; 3] = [1, 2, 250];

fn atlas() -> TileSet {
    TileSet::new((100, 100), vec![0u8; 30000], (10, 10), (0, 0)).unwrap()
}

fn console(width: u32, height: u32) -> Root {
    Root::new(atlas(), (width, height))
}

fn empty_cell() -> ColoredChar {
    ColoredChar { id: 0, fg_color: WHITE, bg_color: BLACK, use_true_color: false }
}

fn assert_all_empty_but(root: &Root, layer: usize, touched: &[(u32, u32)]) {
    let (w, h) = root.size();
    for x in 0..w {
        for y in 0..h {
            if !touched.contains(&(x, y)) {
                assert_eq!(root.cell(layer, (x, y)), Some(empty_cell()), "cell ({}, {})", x, y);
            }
        }
    }
}

#[test]
fn empty_cell_is_glyph_zero_white_on_black_tinted() {
    assert_eq!(ColoredChar::empty(), empty_cell());
}

#[test]
fn new_with_color_is_tinted() {
    assert_eq!(
        ColoredChar::new_with_color(65, RED, BLUE),
        ColoredChar { id: 65, fg_color: RED, bg_color: BLUE, use_true_color: false }
    );
}

#[test]
fn new_with_true_color_has_black_colours() {
    assert_eq!(
        ColoredChar::new_with_true_color(12),
        ColoredChar { id: 12, fg_color: BLACK, bg_color: BLACK, use_true_color: true }
    );
}

#[test]
fn new_console_has_one_layer_of_empty_cells() {
    let root = console(7, 5);
    assert_eq!(root.size(), (7, 5));
    assert_eq!(root.layer_count(), 1);
    assert_all_empty_but(&root, 0, &[]);
    assert_eq!(root.tile_set().image_size(), (100, 100));
}

#[test]
fn new_console_of_no_cells() {
    let root = console(0, 9);
    assert_eq!(root.layer_count(), 1);
    assert_eq!(root.cell(0, (0, 0)), None);
    assert_eq!(root.create_overlay().len(), 0);
    assert_eq!(root.draw(), Some(vec![]));
}

#[test]
fn cell_is_none_outside_the_grid() {
    let root = console(4, 3);
    assert!(root.cell(0, (3, 2)).is_some());
    assert_eq!(root.cell(0, (4, 0)), None);
    assert_eq!(root.cell(0, (0, 3)), None);
    assert_eq!(root.cell(1, (0, 0)), None);
    assert_eq!(root.cell(0, (u32::MAX, u32::MAX)), None);
}

#[test]
fn put_char_reads_back_and_leaves_the_rest() {
    for &(x, y) in &[(0u32, 0u32), (3, 0), (0, 2), (3, 2), (1, 1)] {
        let mut root = console(4, 3);
        root.set_foreground(RED, (x, y));
        root.set_background(BLUE, (x, y));
        root.put_char(42, (x, y), true);
        assert_eq!(
            root.cell(0, (x, y)),
            Some(ColoredChar { id: 42, fg_color: RED, bg_color: BLUE, use_true_color: true })
        );
        assert_all_empty_but(&root, 0, &[(x, y)]);
        assert_eq!(root.layer_count(), 1);
        root.put_char(43, (x, y), false);
        assert_eq!(
            root.cell(0, (x, y)),
            Some(ColoredChar { id: 43, fg_color: RED, bg_color: BLUE, use_true_color: false })
        );
    }
}

#[test]
fn set_foreground_and_background_touch_one_field() {
    let mut root = console(4, 3);
    root.put_char(5, (2, 1), true);
    root.set_foreground(RED, (2, 1));
    assert_eq!(
        root.cell(0, (2, 1)),
        Some(ColoredChar { id: 5, fg_color: RED, bg_color: BLACK, use_true_color: true })
    );
    root.set_background(BLUE, (2, 1));
    assert_eq!(
        root.cell(0, (2, 1)),
        Some(ColoredChar { id: 5, fg_color: RED, bg_color: BLUE, use_true_color: true })
    );
    assert_all_empty_but(&root, 0, &[(2, 1)]);
}

#[test]
fn put_colored_char_keeps_the_true_colour_flag() {
    let mut root = console(4, 3);
    root.put_colored_char(9, RED, BLUE, (1, 2));
    assert_eq!(
        root.cell(0, (1, 2)),
        Some(ColoredChar { id: 9, fg_color: RED, bg_color: BLUE, use_true_color: false })
    );
    root.put_char(9, (1, 2), true);
    root.put_colored_char(10, BLUE, RED, (1, 2));
    assert_eq!(
        root.cell(0, (1, 2)),
        Some(ColoredChar { id: 10, fg_color: BLUE, bg_color: RED, use_true_color: true })
    );
    assert_all_empty_but(&root, 0, &[(1, 2)]);
}

#[test]
fn put_colored_char_equals_the_three_writes_in_any_order() {
    let pos = (2, 0);
    for &flag in &[false, true] {
        let mut base = console(4, 3);
        base.put_char(1, pos, flag);
        let mut all = console(4, 3);
        all.put_char(1, pos, flag);
        all.put_colored_char(77, RED, BLUE, pos);
        let expected = all.cell(0, pos);
        assert_eq!(
            expected,
            Some(ColoredChar { id: 77, fg_color: RED, bg_color: BLUE, use_true_color: flag })
        );
        for order in [[0, 1, 2], [0, 2, 1], [1, 0, 2], [1, 2, 0], [2, 0, 1], [2, 1, 0]] {
            let mut root = console(4, 3);
            root.put_char(1, pos, flag);
            for step in order {
                match step {
                    0 => root.put_char(77, pos, flag),
                    1 => root.set_foreground(RED, pos),
                    _ => root.set_background(BLUE, pos),
                }
            }
            assert_eq!(root.cell(0, pos), expected);
            assert_all_empty_but(&root, 0, &[pos]);
        }
    }
}

#[test]
fn clear_resets_every_cell_and_drops_the_overlays() {
    let mut root = console(5, 4);
    root.put_colored_str("hello", RED, BLUE, (0, 1));
    root.put_colored_multichar(vec![1, 2, 3], RED, BLUE, (4, 3));
    assert_eq!(root.layer_count(), 3);
    root.clear();
    assert_eq!(root.layer_count(), 1);
    assert_eq!(root.size(), (5, 4));
    assert_all_empty_but(&root, 0, &[]);
    assert_eq!(root.cell(1, (0, 0)), None);
}

#[test]
fn rescale_gives_one_empty_layer_of_the_new_size() {
    let mut root = console(5, 4);
    root.put_colored_multichar(vec![1, 2], RED, BLUE, (4, 3));
    root.rescale((3, 7));
    assert_eq!(root.size(), (3, 7));
    assert_eq!(root.layer_count(), 1);
    assert_all_empty_but(&root, 0, &[]);
    assert_eq!(root.cell(0, (3, 0)), None);
    assert_eq!(root.cell(0, (2, 6)), Some(empty_cell()));
    assert_eq!(root.create_overlay().len(), 21);
}

#[test]
fn rescale_then_clear_has_layers_of_the_new_area() {
    let mut root = console(5, 4);
    root.rescale((6, 2));
    root.clear();
    assert_eq!(root.size(), (6, 2));
    assert_eq!(root.layer_count(), 1);
    assert_eq!(root.layer(0), Some(&vec![empty_cell(); 12]));
    assert_eq!(root.layer(1), None);
    assert_eq!(root.draw().unwrap().len(), 6 * 6 * 2);
    assert_all_empty_but(&root, 0, &[]);
    root.put_colored_multichar(vec![4, 5, 6], RED, BLUE, (5, 1));
    root.rescale((2, 2));
    root.clear();
    assert_eq!(root.layer_count(), 1);
    assert_eq!(root.draw().unwrap().len(), 6 * 2 * 2);
}

#[test]
fn string_fills_consecutive_cells_of_its_row() {
    let mut root = console(8, 3);
    root.put_colored_str("abc", RED, BLUE, (2, 1));
    for (i, c) in "abc".chars().enumerate() {
        assert_eq!(
            root.cell(0, (2 + i as u32, 1)),
            Some(ColoredChar { id: c as u32, fg_color: RED, bg_color: BLUE, use_true_color: false })
        );
    }
    assert_all_empty_but(&root, 0, &[(2, 1), (3, 1), (4, 1)]);
    assert_eq!(root.layer_count(), 1);
}

#[test]
fn string_beyond_the_last_column_is_cut_without_wrapping() {
    let mut root = console(5, 3);
    root.put_colored_str("wxyz", RED, BLUE, (3, 0));
    assert_eq!(root.cell(0, (3, 0)).unwrap().id, 'w' as u32);
    assert_eq!(root.cell(0, (4, 0)).unwrap().id, 'x' as u32);
    assert_all_empty_but(&root, 0, &[(3, 0), (4, 0)]);
}

#[test]
fn string_that_starts_beyond_the_grid_writes_nothing() {
    let mut root = console(5, 3);
    root.put_colored_str("abc", RED, BLUE, (5, 1));
    root.put_colored_str("abc", RED, BLUE, (u32::MAX, 1));
    root.put_colored_str("abc", RED, BLUE, (7, 99));
    assert_all_empty_but(&root, 0, &[]);
}

#[test]
fn empty_string_writes_nothing() {
    let mut root = console(5, 3);
    root.put_colored_str("", RED, BLUE, (1, 1));
    root.put_colored_str("", RED, BLUE, (1, 50));
    assert_all_empty_but(&root, 0, &[]);
}

#[test]
fn string_takes_characters_not_bytes() {
    let mut root = console(5, 1);
    root.put_colored_str("é€x", RED, BLUE, (1, 0));
    assert_eq!(root.cell(0, (1, 0)).unwrap().id, 0xe9);
    assert_eq!(root.cell(0, (2, 0)).unwrap().id, 0x20ac);
    assert_eq!(root.cell(0, (3, 0)).unwrap().id, 'x' as u32);
    assert_eq!(root.cell(0, (4, 0)), Some(empty_cell()));
}

#[test]
fn string_keeps_the_true_colour_flags() {
    let mut root = console(4, 1);
    root.put_char(1, (1, 0), true);
    root.put_colored_str("ab", RED, BLUE, (0, 0));
    assert!(!root.cell(0, (0, 0)).unwrap().use_true_color);
    assert_eq!(
        root.cell(0, (1, 0)),
        Some(ColoredChar { id: 'b' as u32, fg_color: RED, bg_color: BLUE, use_true_color: true })
    );
}

#[test]
fn multichar_creates_one_layer_per_glyph() {
    let mut root = console(4, 3);
    root.put_colored_multichar(vec![11, 22, 33, 44], RED, BLUE, (1, 2));
    assert_eq!(root.layer_count(), 4);
    for i in 0..4 {
        assert_eq!(root.layer(i).unwrap().len(), 12);
    }
    for (i, id) in [11u32, 22, 33, 44].iter().enumerate() {
        assert_eq!(
            root.cell(i, (1, 2)),
            Some(ColoredChar { id: *id, fg_color: RED, bg_color: BLUE, use_true_color: false })
        );
        assert_all_empty_but(&root, i, &[(1, 2)]);
    }
    assert_eq!(root.cell(4, (1, 2)), None);
}

#[test]
fn multichar_with_fewer_glyphs_than_layers_keeps_the_layers() {
    let mut root = console(4, 3);
    root.put_colored_multichar(vec![1, 2, 3], RED, BLUE, (0, 0));
    root.put_colored_multichar(vec![9], BLUE, RED, (0, 0));
    assert_eq!(root.layer_count(), 3);
    assert_eq!(
        root.cell(0, (0, 0)),
        Some(ColoredChar { id: 9, fg_color: BLUE, bg_color: RED, use_true_color: false })
    );
    assert_eq!(
        root.cell(1, (0, 0)),
        Some(ColoredChar { id: 2, fg_color: RED, bg_color: BLUE, use_true_color: false })
    );
    assert_eq!(root.cell(2, (0, 0)).unwrap().id, 3);
}

#[test]
fn multichar_without_glyphs_changes_nothing() {
    let mut root = console(4, 3);
    root.put_colored_multichar(vec![], RED, BLUE, (2, 2));
    assert_eq!(root.layer_count(), 1);
    assert_all_empty_but(&root, 0, &[]);
}

#[test]
fn multichar_keeps_the_true_colour_flag_of_layer_zero() {
    let mut root = console(2, 2);
    root.put_char(3, (1, 1), true);
    root.put_colored_multichar(vec![7, 8], RED, BLUE, (1, 1));
    assert_eq!(
        root.cell(0, (1, 1)),
        Some(ColoredChar { id: 7, fg_color: RED, bg_color: BLUE, use_true_color: true })
    );
    assert_eq!(
        root.cell(1, (1, 1)),
        Some(ColoredChar { id: 8, fg_color: RED, bg_color: BLUE, use_true_color: false })
    );
}

#[test]
fn overlay_is_built_outside_and_added() {
    let mut root = console(3, 2);
    let mut layer = root.create_overlay();
    assert_eq!(layer, vec![empty_cell(); 6]);
    root.put_colored_char_overlay(&mut layer, 65, RED, BLUE, (2, 0), true);
    // Position (2, 0) is column 2 of array row 1.
    let mut expected = vec![empty_cell(); 6];
    expected[5] = ColoredChar { id: 65, fg_color: RED, bg_color: BLUE, use_true_color: true };
    assert_eq!(layer, expected);
    root.add_overlay(layer);
    assert_eq!(root.layer_count(), 2);
    assert_eq!(root.cell(1, (2, 0)), Some(expected[5]));
    assert_all_empty_but(&root, 1, &[(2, 0)]);
    assert_all_empty_but(&root, 0, &[]);
}

#[test]
fn overlay_cell_is_replaced_whole() {
    let root = console(3, 2);
    let mut layer = root.create_overlay();
    root.put_colored_char_overlay(&mut layer, 1, RED, BLUE, (0, 1), true);
    root.put_colored_char_overlay(&mut layer, 2, BLUE, RED, (0, 1), false);
    assert_eq!(
        layer[0],
        ColoredChar { id: 2, fg_color: BLUE, bg_color: RED, use_true_color: false }
    );
}
