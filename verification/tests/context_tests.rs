use imgui_core::begin;
use imgui_core::image;
use imgui_core::label;
use imgui_core::pre_render;
use imgui_core::Context;
use imgui_core::ImageRef;
use imgui_core::Imgui;
use imgui_core::Metric;

fn declare_labels(ui: &mut Imgui, texts: &[&str]) {
    begin(ui);
    for t in texts {
        label(ui, Metric::Native(0, 0), t);
    }
}

#[test]
fn first_frame_binds_everything() {
    let mut ui = Imgui::new();
    let mut ctx = Context::new();
    declare_labels(&mut ui, &["a", "b", "c"]);
    let binds = pre_render(&ui, &mut ctx);
    assert_eq!(binds.len(), 3);
    assert_eq!(binds[0].id, 1);
    assert_eq!(binds[1].id, 2);
    assert_eq!(binds[2].id, 3);
}

#[test]
fn stable_identity_binds_nothing_on_second_frame() {
    let mut ui = Imgui::new();
    let mut ctx = Context::new();
    declare_labels(&mut ui, &["a", "b", "c"]);
    pre_render(&ui, &mut ctx);
    declare_labels(&mut ui, &["a", "b", "c"]);
    let binds = pre_render(&ui, &mut ctx);
    assert!(binds.is_empty());
}

#[test]
fn change_detection_rebinds_exactly_the_changed_id() {
    let mut ui = Imgui::new();
    let mut ctx = Context::new();
    declare_labels(&mut ui, &["a", "b", "c"]);
    pre_render(&ui, &mut ctx);
    let node_of_1 = ctx.go.get(&1).unwrap().node;
    let node_of_2 = ctx.go.get(&2).unwrap().node;
    declare_labels(&mut ui, &["a", "B", "c"]);
    let binds = pre_render(&ui, &mut ctx);
    assert_eq!(binds.len(), 1);
    assert_eq!(binds[0].id, 2);
    assert_eq!(ctx.go.get(&1).unwrap().node, node_of_1);
    assert_ne!(ctx.go.get(&2).unwrap().node, node_of_2);
}

#[test]
fn eviction_prunes_ids_beyond_the_new_maximum() {
    let mut ui = Imgui::new();
    let mut ctx = Context::new();
    declare_labels(&mut ui, &["a", "b", "c", "d", "e"]);
    pre_render(&ui, &mut ctx);
    assert_eq!(ctx.go.len(), 5);
    declare_labels(&mut ui, &["a", "b", "c"]);
    pre_render(&ui, &mut ctx);
    assert_eq!(ctx.go.len(), 3);
    assert!(ctx.go.contains_key(&1));
    assert!(ctx.go.contains_key(&2));
    assert!(ctx.go.contains_key(&3));
    assert!(!ctx.go.contains_key(&4));
    assert!(!ctx.go.contains_key(&5));
}

#[test]
fn changing_an_image_source_rebinds_it() {
    let mut ui = Imgui::new();
    let mut ctx = Context::new();
    begin(&mut ui);
    image(&mut ui, Metric::Native(0, 0), Metric::Native(1, 1), ImageRef(1));
    pre_render(&ui, &mut ctx);
    begin(&mut ui);
    image(&mut ui, Metric::Native(0, 0), Metric::Native(1, 1), ImageRef(2));
    let binds = pre_render(&ui, &mut ctx);
    assert_eq!(binds.len(), 1);
    assert_eq!(binds[0].id, 1);
}

#[test]
fn reset_then_empty_frame_leaves_empty_cache_and_no_binds() {
    let mut ui = Imgui::new();
    let mut ctx = Context::new();
    declare_labels(&mut ui, &["a", "b"]);
    pre_render(&ui, &mut ctx);
    ctx.reset();
    assert!(ctx.go.is_empty());
    begin(&mut ui);
    let binds = pre_render(&ui, &mut ctx);
    assert!(binds.is_empty());
    assert!(ctx.go.is_empty());
}

#[test]
fn every_bind_gets_a_fresh_node() {
    let mut ui = Imgui::new();
    let mut ctx = Context::new();
    declare_labels(&mut ui, &["a", "b"]);
    let first = pre_render(&ui, &mut ctx);
    declare_labels(&mut ui, &["x", "y"]);
    let second = pre_render(&ui, &mut ctx);
    let mut nodes: Vec<u64> = first.iter().chain(second.iter()).map(|b| b.node).collect();
    nodes.sort();
    nodes.dedup();
    assert_eq!(nodes.len(), 4);
}
