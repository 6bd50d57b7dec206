//! Tests of the textual grid view.

use life_automata::text::render_text;

#[test]
fn renders_rows_of_glyphs() {
    let grid = vec![1u8, 0, 0, 1];
    let s = render_text(&grid, 2, 2);
    assert_eq!(s, "\n\u{25fc} \u{25fb} \n\u{25fb} \u{25fc} ");
}

#[test]
fn renders_single_row() {
    let grid = vec![0u8, 1, 1];
    let s = render_text(&grid, 1, 3);
    assert_eq!(s, "\n\u{25fb} \u{25fc} \u{25fc} ");
}

#[test]
fn renders_empty_grid_as_empty_text() {
    let grid: Vec<u8> = Vec::new();
    let s = render_text(&grid, 0, 0);
    assert_eq!(s, "");
}
