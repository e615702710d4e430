use imgui_core::make_text_mesh_data;
use imgui_core::Metric;
use imgui_core::TextAlign;
use imgui_core::FP_ONE;

const SCREEN: (u32, u32) = (800, 600);
// Glyph cell extents in fixed-point NDC: (16 * hidpi) / screen, truncated.
const GW: i64 = 1310;
const GH: i64 = 1747;

#[test]
fn left_align_starts_every_line_at_zero() {
    let m = make_text_mesh_data("ab\nc", SCREEN, FP_ONE, TextAlign::Left);
    assert_eq!(m.vertices.len(), 36);
    // line one: both glyphs offset from zero by whole cells
    assert_eq!(m.vertices[0], 0);
    assert_eq!(m.vertices[12], GW);
    // line two: single glyph back at zero, one double cell-height down
    assert_eq!(m.vertices[24], 0);
    assert_eq!(m.vertices[25], -2 * GH);
}

#[test]
fn right_align_shifts_short_lines_by_the_slack() {
    let m = make_text_mesh_data("ab\nc", SCREEN, FP_ONE, TextAlign::Right);
    // the longest line keeps offset zero
    assert_eq!(m.vertices[0], 0);
    // the short line shifts by (2 - 1) glyph widths
    assert_eq!(m.vertices[24], GW);
}

#[test]
fn center_align_shifts_short_lines_by_half_the_slack() {
    let m = make_text_mesh_data("ab\nc", SCREEN, FP_ONE, TextAlign::Center);
    assert_eq!(m.vertices[0], 0);
    assert_eq!(m.vertices[24], GW / 2);
}

#[test]
fn glyph_quads_span_one_cell() {
    let m = make_text_mesh_data("a", SCREEN, FP_ONE, TextAlign::Left);
    assert_eq!(
        m.vertices,
        vec![0, 0, 0, 0, -GH, 0, GW, -GH, 0, GW, 0, 0]
    );
}

#[test]
fn uvs_pick_the_bitmap_cell_of_the_code() {
    // 'a' is code 97: column 1, row 6 of the 16-column bitmap.
    let m = make_text_mesh_data("a", SCREEN, FP_ONE, TextAlign::Left);
    let u = FP_ONE / 16;
    let v = FP_ONE / 8;
    assert_eq!(m.uvs, vec![u, 6 * v, u, 7 * v, 2 * u, 7 * v, 2 * u, 6 * v]);
}

#[test]
fn codes_beyond_ascii_clamp_to_cell_128() {
    let m = make_text_mesh_data("\u{20ac}", SCREEN, FP_ONE, TextAlign::Left);
    // cell 128: column 0, row 8.
    assert_eq!(m.uvs[0], 0);
    assert_eq!(m.uvs[1], 8 * (FP_ONE / 8));
}

#[test]
fn clamping_goes_by_the_whole_code_point() {
    // code point 257: beyond ASCII, so cell 128 — not the low byte (cell 1)
    let m = make_text_mesh_data("\u{0101}", SCREEN, FP_ONE, TextAlign::Left);
    assert_eq!(m.uvs[0], 0);
    assert_eq!(m.uvs[1], 8 * (FP_ONE / 8));
}

#[test]
fn indices_build_two_triangles_per_glyph() {
    let m = make_text_mesh_data("ab\nc", SCREEN, FP_ONE, TextAlign::Left);
    assert_eq!(
        m.indices,
        vec![0, 1, 2, 0, 2, 3, 4, 5, 6, 4, 6, 7, 8, 9, 10, 8, 10, 11]
    );
}

#[test]
fn trailing_line_break_adds_an_empty_line() {
    let m = make_text_mesh_data("a\n", SCREEN, FP_ONE, TextAlign::Left);
    assert_eq!(m.vertices.len(), 12);
    assert_eq!(m.indices.len(), 6);
}

#[test]
fn metric_reexport_is_usable_alongside_text() {
    // the text mesh carries no positioning; that is the translation's job
    let _pos = Metric::Native(0, 0);
    let m = make_text_mesh_data("aa", SCREEN, FP_ONE, TextAlign::Left);
    assert_eq!(m.vertices.len(), 24);
}
