//! An immediate-mode GUI layer for a retained-mode scene graph.
//!
//! Callers describe labels and images anew each frame; the library assigns
//! sequential identities, diffs the declared elements against a cache of
//! previously bound ones, reports exactly which elements need (re)binding,
//! and evicts stale cache entries.  Geometry helpers turn text and sizes
//! into mesh data and translations in normalized device coordinates.
//!
//! All scalar coordinates are fixed-point values: [`FP_ONE`] stands for 1.0.
//! The host application converts these to its own floating-point types at
//! the boundary.

mod bind;
mod builder;
mod context;
mod geometry;
mod laws;
mod metric;
mod text;
mod widgets;

pub use bind::extent_of;
pub use bind::BindData;
pub use builder::add_widget;
pub use builder::begin;
pub use builder::end;
pub use builder::image;
pub use builder::image_with_material;
pub use builder::label;
pub use builder::pivot;
pub use builder::text_align;
pub use builder::Imgui;
pub use context::cache_v;
pub use context::needs_bind;
pub use context::pre_render;
pub use context::pre_render_spec;
pub use context::reconcile_rec;
pub use context::reconcile_step;
pub use context::strip_spec;
pub use context::BindAction;
pub use context::CacheEntry;
pub use context::Context;
pub use context::EntryV;
pub use context::RecOut;
pub use geometry::compute_size_to_ndc;
pub use geometry::compute_translate;
pub use geometry::div_trunc;
pub use geometry::make_quad_mesh_data;
pub use geometry::metric_ok;
pub use geometry::screen_ok;
pub use geometry::spec_size_to_ndc;
pub use geometry::spec_to_pixel_pos;
pub use geometry::spec_translate;
pub use geometry::to_pixel_pos;
pub use geometry::MeshData;
pub use geometry::EXTENT_MAX;
pub use geometry::HIDPI_MAX;
pub use geometry::MET_MAX;
pub use geometry::NDC_MAX;
pub use geometry::PIVOT_MAX;
pub use laws::distinct_ids;
pub use laws::frame_wf;
pub use laws::lemma_add_comm;
pub use laws::lemma_add_sub_cancel;
pub use laws::lemma_center_pivot;
pub use laws::lemma_change_detection;
pub use laws::lemma_eviction;
pub use laws::lemma_reset_idempotent;
pub use laws::lemma_stable_identity;
pub use metric::add_in_range;
pub use metric::neg_in_range;
pub use metric::spec_add;
pub use metric::spec_neg;
pub use metric::spec_sub;
pub use metric::sub_in_range;
pub use metric::Metric;
pub use metric::FP_ONE;
pub use text::align_halves;
pub use text::glyph_cell;
pub use text::lemma_text_verts_len;
pub use text::line_uvs;
pub use text::line_verts;
pub use text::line_xoff;
pub use text::make_text_mesh_data;
pub use text::max_len_of;
pub use text::max_line_len;
pub use text::mesh_indices;
pub use text::split_glyph_lines;
pub use text::text_lines;
pub use text::text_uvs;
pub use text::text_verts;
pub use text::total_glyphs;
pub use text::GLYPHS_MAX;
pub use text::UV_U;
pub use text::UV_V;
pub use text::VERT_MAX;
pub use widgets::widget_id;
pub use widgets::Image;
pub use widgets::ImageKind;
pub use widgets::ImageRef;
pub use widgets::ImguiState;
pub use widgets::Label;
pub use widgets::LabelV;
pub use widgets::TextAlign;
pub use widgets::Widget;
pub use widgets::WidgetV;
pub use bind::default_font_bitmap;
pub use bind::default_ui_program;
pub use bind::MaterialPlan;
pub use bind::MaterialSource;
pub use bind::RenderQueue;
