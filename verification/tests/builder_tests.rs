use imgui_core::begin;
use imgui_core::end;
use imgui_core::image;
use imgui_core::image_with_material;
use imgui_core::label;
use imgui_core::pivot;
use imgui_core::text_align;
use imgui_core::ImageKind;
use imgui_core::ImageRef;
use imgui_core::Imgui;
use imgui_core::Metric;
use imgui_core::TextAlign;
use imgui_core::Widget;
use imgui_core::FP_ONE;

#[test]
fn ids_are_sequential_from_one() {
    let mut ui = Imgui::new();
    begin(&mut ui);
    label(&mut ui, Metric::Native(0, 0), "a");
    label(&mut ui, Metric::Native(0, 0), "b");
    image(&mut ui, Metric::Native(0, 0), Metric::Native(1, 1), ImageRef(7));
    assert_eq!(ui.id, 3);
    assert_eq!(ui.render_list.len(), 3);
    assert_eq!(ui.render_list[0].id(), 1);
    assert_eq!(ui.render_list[1].id(), 2);
    assert_eq!(ui.render_list[2].id(), 3);
}

#[test]
fn begin_resets_ids_but_keeps_style() {
    let mut ui = Imgui::new();
    begin(&mut ui);
    pivot(&mut ui, (FP_ONE / 2, FP_ONE / 2));
    text_align(&mut ui, TextAlign::Center);
    label(&mut ui, Metric::Native(0, 0), "a");
    end();
    begin(&mut ui);
    assert_eq!(ui.id, 0);
    assert!(ui.render_list.is_empty());
    assert_eq!(ui.state.pivot, Metric::Native(FP_ONE / 2, FP_ONE / 2));
    assert_eq!(ui.state.text_align, TextAlign::Center);
}

#[test]
fn style_is_snapshot_at_declaration() {
    let mut ui = Imgui::new();
    begin(&mut ui);
    label(&mut ui, Metric::Native(0, 0), "before");
    pivot(&mut ui, (FP_ONE, FP_ONE));
    text_align(&mut ui, TextAlign::Right);
    label(&mut ui, Metric::Native(0, 0), "after");
    match (&ui.render_list[0], &ui.render_list[1]) {
        (Widget::Label(first), Widget::Label(second)) => {
            assert_eq!(first.state.pivot, Metric::Native(0, 0));
            assert_eq!(first.state.text_align, TextAlign::Left);
            assert_eq!(second.state.pivot, Metric::Native(FP_ONE, FP_ONE));
            assert_eq!(second.state.text_align, TextAlign::Right);
        },
        _ => panic!("expected two labels"),
    }
}

#[test]
fn image_sources_keep_their_kind() {
    let mut ui = Imgui::new();
    begin(&mut ui);
    image(&mut ui, Metric::Native(0, 0), Metric::Native(1, 1), ImageRef(1));
    image_with_material(&mut ui, Metric::Native(0, 0), Metric::Native(1, 1), ImageRef(1));
    match (&ui.render_list[0], &ui.render_list[1]) {
        (Widget::Image(tex), Widget::Image(mat)) => {
            assert_eq!(tex.kind, ImageKind::Texture(ImageRef(1)));
            assert_eq!(mat.kind, ImageKind::Material(ImageRef(1)));
            assert_ne!(tex.kind, mat.kind);
        },
        _ => panic!("expected two images"),
    }
}

#[test]
fn handles_compare_by_identity() {
    assert_eq!(ImageRef(42), ImageRef(42));
    assert_ne!(ImageRef(42), ImageRef(43));
}

#[test]
fn add_widget_appends_under_the_next_identity() {
    let mut ui = Imgui::new();
    begin(&mut ui);
    let state = ui.state;
    let w = Widget::Label(imgui_core::Label::new(1, Metric::Native(0, 0), state, "x".to_string()));
    imgui_core::add_widget(&mut ui, w);
    assert_eq!(ui.id, 1);
    assert_eq!(ui.render_list[0].id(), 1);
}
