use imgui_core::compute_size_to_ndc;
use imgui_core::compute_translate;
use imgui_core::make_quad_mesh_data;
use imgui_core::to_pixel_pos;
use imgui_core::Metric;
use imgui_core::FP_ONE;

const SCREEN: (u32, u32) = (800, 600);

#[test]
fn half_screen_pixel_offset_is_one_ndc_unit() {
    let r = to_pixel_pos(400 * FP_ONE, 300 * FP_ONE, SCREEN, FP_ONE);
    assert_eq!(r, (FP_ONE, FP_ONE));
}

#[test]
fn pixel_offset_is_signed_and_truncates() {
    assert_eq!(to_pixel_pos(-400 * FP_ONE, 0, SCREEN, FP_ONE), (-FP_ONE, 0));
    // one pixel of 800 is 2/800 NDC: 163.84 fixed-point units, truncated.
    assert_eq!(to_pixel_pos(FP_ONE, 0, SCREEN, FP_ONE), (163, 0));
}

#[test]
fn hidpi_scales_pixel_offsets() {
    let r = to_pixel_pos(400 * FP_ONE, 0, SCREEN, 2 * FP_ONE);
    assert_eq!(r.0, 2 * FP_ONE);
}

#[test]
fn size_to_ndc_doubles_native_fractions() {
    let r = compute_size_to_ndc(&Metric::Native(FP_ONE / 2, FP_ONE / 4), SCREEN, FP_ONE);
    assert_eq!(r, (FP_ONE, FP_ONE / 2));
}

#[test]
fn size_to_ndc_sums_mixed_parts() {
    let m = Metric::Mixed((FP_ONE / 2, 0), (400 * FP_ONE, 0));
    let r = compute_size_to_ndc(&m, SCREEN, FP_ONE);
    assert_eq!(r, (2 * FP_ONE, 0));
}

#[test]
fn quad_mesh_extends_down_and_right() {
    let m = make_quad_mesh_data((100, 200));
    assert_eq!(m.vertices, vec![0, 0, 0, 0, -200, 0, 100, -200, 0, 100, 0, 0]);
    assert_eq!(m.uvs, vec![0, FP_ONE, 0, 0, FP_ONE, 0, FP_ONE, FP_ONE]);
    assert_eq!(m.indices, vec![0, 1, 2, 0, 2, 3]);
}

#[test]
fn center_pivot_offsets_translation_by_half_the_bounds() {
    let t = compute_translate(
        &Metric::Native(0, 0),
        &Metric::Native(FP_ONE / 2, FP_ONE / 2),
        SCREEN,
        FP_ONE,
        FP_ONE,
        2 * FP_ONE,
    );
    assert_eq!(t, (-FP_ONE - FP_ONE / 2, FP_ONE + FP_ONE, 0));
}

#[test]
fn screen_center_maps_to_ndc_origin() {
    let t = compute_translate(
        &Metric::Pixel(400 * FP_ONE, 300 * FP_ONE),
        &Metric::Native(0, 0),
        SCREEN,
        FP_ONE,
        0,
        0,
    );
    assert_eq!(t, (0, 0, 0));
}

#[test]
fn top_left_maps_to_ndc_corner() {
    let t = compute_translate(&Metric::Native(0, 0), &Metric::Native(0, 0), SCREEN, FP_ONE, 0, 0);
    assert_eq!(t, (-FP_ONE, FP_ONE, 0));
}
