use imgui_core::ImageKind;
use imgui_core::ImageRef;
use imgui_core::ImguiState;
use imgui_core::Image;
use imgui_core::Label;
use imgui_core::Metric;
use imgui_core::TextAlign;
use imgui_core::FP_ONE;

const SCREEN: (u32, u32) = (800, 600);
const GW: i64 = 1310;
const GH: i64 = 1747;

#[test]
fn label_bind_measures_its_own_text() {
    let state = ImguiState { pivot: Metric::Native(0, 0), text_align: TextAlign::Left };
    let l = Label::new(1, Metric::Native(0, 0), state, "ab".to_string());
    let b = l.bind_data(SCREEN, FP_ONE);
    assert_eq!(b.width, 2 * GW);
    assert_eq!(b.height, GH);
    assert_eq!(b.translation, (-FP_ONE, FP_ONE, 0));
    assert_eq!(b.mesh.vertices.len(), 24);
}

#[test]
fn center_pivot_image_lands_center_anchored() {
    let state = ImguiState {
        pivot: Metric::Native(FP_ONE / 2, FP_ONE / 2),
        text_align: TextAlign::Left,
    };
    let img = Image::new(
        1,
        Metric::Native(0, 0),
        Metric::Native(FP_ONE / 2, FP_ONE / 2),
        state,
        ImageKind::Texture(ImageRef(3)),
    );
    let b = img.bind_data(SCREEN, FP_ONE);
    assert_eq!(b.width, FP_ONE);
    assert_eq!(b.height, FP_ONE);
    assert_eq!(b.translation, (-FP_ONE - FP_ONE / 2, FP_ONE + FP_ONE / 2, 0));
}

#[test]
fn image_bind_builds_a_sized_quad() {
    let state = ImguiState { pivot: Metric::Native(0, 0), text_align: TextAlign::Left };
    let img = Image::new(
        2,
        Metric::Native(0, 0),
        Metric::Pixel(400 * FP_ONE, 300 * FP_ONE),
        state,
        ImageKind::Material(ImageRef(9)),
    );
    let b = img.bind_data(SCREEN, FP_ONE);
    assert_eq!(
        b.mesh.vertices,
        vec![0, 0, 0, 0, -FP_ONE, 0, FP_ONE, -FP_ONE, 0, FP_ONE, 0, 0]
    );
    assert_eq!(b.mesh.indices, vec![0, 1, 2, 0, 2, 3]);
    assert_eq!(b.width, FP_ONE);
    assert_eq!(b.height, FP_ONE);
}

#[test]
fn label_snapshot_pivot_controls_placement() {
    let state = ImguiState {
        pivot: Metric::Native(FP_ONE / 2, FP_ONE / 2),
        text_align: TextAlign::Left,
    };
    let l = Label::new(1, Metric::Native(0, 0), state, "ab".to_string());
    let b = l.bind_data(SCREEN, FP_ONE);
    // center-anchored: shifted back by half the measured extents
    assert_eq!(b.translation.0, -FP_ONE - b.width / 2);
    assert_eq!(b.translation.1, FP_ONE + b.height / 2);
}

#[test]
fn material_names_are_fixed() {
    assert_eq!(imgui_core::default_ui_program(), "default_ui");
    assert_eq!(imgui_core::default_font_bitmap(), "default_font_bitmap");
}

#[test]
fn images_reuse_materials_and_wrap_textures() {
    let state = ImguiState { pivot: Metric::Native(0, 0), text_align: TextAlign::Left };
    let with_material = Image::new(
        1,
        Metric::Native(0, 0),
        Metric::Native(1, 1),
        state,
        ImageKind::Material(ImageRef(5)),
    );
    let with_texture = Image::new(
        2,
        Metric::Native(0, 0),
        Metric::Native(1, 1),
        state,
        ImageKind::Texture(ImageRef(6)),
    );
    let reuse = with_material.create_material();
    let wrap = with_texture.create_material();
    assert_eq!(reuse.source, imgui_core::MaterialSource::Reuse(ImageRef(5)));
    assert_eq!(wrap.source, imgui_core::MaterialSource::WrapTexture(ImageRef(6)));
    assert_eq!(reuse.queue, imgui_core::RenderQueue::UI);
    assert_eq!(wrap.queue, imgui_core::RenderQueue::UI);
}

#[test]
fn labels_draw_with_the_font_bitmap_material() {
    let state = ImguiState { pivot: Metric::Native(0, 0), text_align: TextAlign::Left };
    let l = Label::new(1, Metric::Native(0, 0), state, "a".to_string());
    let plan = l.material_plan();
    assert_eq!(plan.source, imgui_core::MaterialSource::FontBitmap);
    assert_eq!(plan.queue, imgui_core::RenderQueue::UI);
}
