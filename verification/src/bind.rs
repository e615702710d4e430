//! Binding data: everything computable about materializing a descriptor
//! into scene-graph state — the mesh and the translation that places it.
//! Attaching these to a scene node is the host's side of the boundary.

use crate::geometry::compute_size_to_ndc;
use crate::geometry::compute_translate;
use crate::geometry::div_trunc;
use crate::geometry::make_quad_mesh_data;
use crate::geometry::metric_ok;
use crate::geometry::screen_ok;
use crate::geometry::spec_size_to_ndc;
use crate::geometry::spec_translate;
use crate::geometry::MeshData;
use crate::geometry::EXTENT_MAX;
use crate::geometry::PIVOT_MAX;
use crate::metric::Metric;
use crate::text::lemma_text_verts_len;
use crate::text::make_text_mesh_data;
use crate::text::max_line_len;
use crate::text::mesh_indices;
use crate::text::text_lines;
use crate::text::text_uvs;
use crate::text::text_verts;
use crate::text::total_glyphs;
use crate::text::GLYPHS_MAX;
use crate::widgets::Image;
use crate::widgets::ImageKind;
use crate::widgets::ImageRef;
use crate::widgets::Label;
use vstd::prelude::*;

verus! {

/// The name of the fixed shader program every UI material is built from.
pub fn default_ui_program() -> (r: &'static str)
    ensures
        r@ == "default_ui"@,
{
    "default_ui"
}

/// The name of the bitmap-font texture that every label's material samples.
pub fn default_font_bitmap() -> (r: &'static str)
    ensures
        r@ == "default_font_bitmap"@,
{
    "default_font_bitmap"
}

/// The render queue every material this library plans is tagged for.
#[derive(Debug, PartialEq, Eq, Structural, Clone, Copy)]
pub enum RenderQueue {
    UI,
}

/// Where an element's material comes from.
#[derive(Debug, PartialEq, Eq, Structural, Clone, Copy)]
pub enum MaterialSource {
    /// Reuse the ready-made material behind this handle, untouched.
    Reuse(ImageRef),
    /// Build a fresh material from the [`default_ui_program`] shader, with
    /// the texture behind this handle as its diffuse map.
    WrapTexture(ImageRef),
    /// Build a fresh material from the [`default_ui_program`] shader, with
    /// the texture named by [`default_font_bitmap`] as its diffuse map.
    FontBitmap,
}

/// The material recipe for one element: its source and the render queue the
/// host must tag it for.
#[derive(Debug, PartialEq, Eq, Structural, Clone, Copy)]
pub struct MaterialPlan {
    pub source: MaterialSource,
    pub queue: RenderQueue,
}

/// What binding one element produces: its mesh, the extents of the mesh's
/// bounding box, and the translation that places it.
pub struct BindData {
    pub mesh: MeshData,
    pub width: i64,
    pub height: i64,
    pub translation: (i64, i64, i64),
}

/// The extents of a bind result match its mesh on the given axis (0 for
/// width, 1 for height): some pair of vertices realizes the extent, and no
/// pair exceeds it.
pub open spec fn extent_of(vs: Seq<i64>, axis: int, e: i64) -> bool {
    &&& (exists|i: int, j: int|
        0 <= i < vs.len() / 3 && 0 <= j < vs.len() / 3 && e == #[trigger] vs[3 * i + axis]
            - #[trigger] vs[3 * j + axis])
    &&& (forall|i: int, j: int|
        0 <= i < vs.len() / 3 && 0 <= j < vs.len() / 3 ==> #[trigger] vs[3 * i + axis]
            - #[trigger] vs[3 * j + axis] <= e)
}

/// The smallest and largest value on one axis of a flattened `(x, y, z)`
/// vertex buffer.
fn axis_bounds(vs: &Vec<i64>, axis: usize) -> (r: (i64, i64))
    requires
        axis < 3,
        vs@.len() % 3 == 0,
        vs@.len() >= 3,
    ensures
        forall|i: int| 0 <= i < vs@.len() / 3 ==> r.0 <= #[trigger] vs@[3 * i + axis] <= r.1,
        exists|i: int| 0 <= i < vs@.len() / 3 && #[trigger] vs@[3 * i + axis] == r.0,
        exists|i: int| 0 <= i < vs@.len() / 3 && #[trigger] vs@[3 * i + axis] == r.1,
{
    proof {
        vstd::arithmetic::div_mod::lemma_fundamental_div_mod(vs@.len() as int, 3);
    }
    let mut mn = vs[axis];
    let mut mx = vs[axis];
    proof {
        assert(vs@[3 * 0 + axis] == vs@[axis as int]);
    }
    let mut i: usize = 1;
    while i < vs.len() / 3
        invariant
            1 <= i <= vs@.len() / 3,
            axis < 3,
            vs@.len() % 3 == 0,
            vs@.len() >= 3,
            forall|j: int| 0 <= j < i ==> mn <= #[trigger] vs@[3 * j + axis] <= mx,
            exists|j: int| 0 <= j < i && #[trigger] vs@[3 * j + axis] == mn,
            exists|j: int| 0 <= j < i && #[trigger] vs@[3 * j + axis] == mx,
        decreases vs@.len() / 3 - i,
    {
        proof {
            vstd::arithmetic::div_mod::lemma_fundamental_div_mod(vs@.len() as int, 3);
        }
        let v = vs[3 * i + axis];
        if v < mn {
            mn = v;
        }
        if v > mx {
            mx = v;
        }
        i = i + 1;
    }
    (mn, mx)
}

/// Computes the bounding-box extents of a mesh whose vertex coordinates are
/// bounded, and the translation placing an element with those bounds.
fn measure_and_place(
    mesh: MeshData,
    pos: &Metric,
    pivot: &Metric,
    ssize: (u32, u32),
    hidpi: i64,
) -> (r: BindData)
    requires
        screen_ok(ssize.0, ssize.1, hidpi),
        metric_ok(*pos),
        *pivot is Native,
        *pivot matches Metric::Native(px, py) ==> -PIVOT_MAX <= px <= PIVOT_MAX && -PIVOT_MAX
            <= py <= PIVOT_MAX,
        mesh.vertices@.len() % 3 == 0,
        mesh.vertices@.len() >= 3,
        forall|k: int|
            0 <= k < mesh.vertices@.len() ==> -(EXTENT_MAX / 2) <= #[trigger] mesh.vertices@[k]
                <= EXTENT_MAX / 2,
    ensures
        r.mesh == mesh,
        0 <= r.width <= EXTENT_MAX,
        0 <= r.height <= EXTENT_MAX,
        extent_of(r.mesh.vertices@, 0, r.width),
        extent_of(r.mesh.vertices@, 1, r.height),
        (r.translation.0 as int, r.translation.1 as int, r.translation.2 as int) == spec_translate(
            *pos,
            *pivot,
            ssize.0 as int,
            ssize.1 as int,
            hidpi as int,
            r.width as int,
            r.height as int,
        ),
{
    proof {
        vstd::arithmetic::div_mod::lemma_fundamental_div_mod(mesh.vertices@.len() as int, 3);
    }
    let (mnx, mxx) = axis_bounds(&mesh.vertices, 0);
    let (mny, mxy) = axis_bounds(&mesh.vertices, 1);
    let w = mxx - mnx;
    let h = mxy - mny;
    let translation = compute_translate(pos, pivot, ssize, hidpi, w, h);
    BindData { mesh, width: w, height: h, translation }
}

impl Label {
    /// The fixed material of every label: the default UI shader sampling the
    /// default font bitmap, drawn in the UI render queue.
    pub fn material_plan(&self) -> (r: MaterialPlan)
        ensures
            r == (MaterialPlan { source: MaterialSource::FontBitmap, queue: RenderQueue::UI }),
    {
        MaterialPlan { source: MaterialSource::FontBitmap, queue: RenderQueue::UI }
    }

    /// Computes the text mesh for this label and the translation that
    /// places it by its position and pivot, measured against the mesh's own
    /// bounding box.  The pivot must be of the native kind (anything else
    /// violates the contract), and the text must produce at least one
    /// glyph, or there is no box to measure.
    pub fn bind_data(&self, ssize: (u32, u32), hidpi: i64) -> (r: BindData)
        requires
            screen_ok(ssize.0, ssize.1, hidpi),
            self@.text.len() <= GLYPHS_MAX,
            total_glyphs(text_lines(self@.text)) >= 1,
            metric_ok(self.pos),
            self.state.pivot is Native,
            self.state.pivot matches Metric::Native(px, py) ==> -PIVOT_MAX <= px <= PIVOT_MAX
                && -PIVOT_MAX <= py <= PIVOT_MAX,
        ensures
            ({
                let lines = text_lines(self@.text);
                let gw = div_trunc(16 * hidpi, ssize.0 as int);
                let gh = div_trunc(16 * hidpi, ssize.1 as int);
                &&& r.mesh.vertices@.map_values(|v: i64| v as int) == text_verts(
                    lines,
                    max_line_len(lines),
                    self.state.text_align,
                    gw,
                    gh,
                    0,
                )
                &&& r.mesh.uvs@.map_values(|v: i64| v as int) == text_uvs(lines)
                &&& r.mesh.indices@.map_values(|x: u16| x as int) == mesh_indices(
                    total_glyphs(lines),
                )
                &&& 0 <= r.width <= EXTENT_MAX
                &&& 0 <= r.height <= EXTENT_MAX
                &&& extent_of(r.mesh.vertices@, 0, r.width)
                &&& extent_of(r.mesh.vertices@, 1, r.height)
                &&& (r.translation.0 as int, r.translation.1 as int, r.translation.2 as int)
                    == spec_translate(
                    self.pos,
                    self.state.pivot,
                    ssize.0 as int,
                    ssize.1 as int,
                    hidpi as int,
                    r.width as int,
                    r.height as int,
                )
            }),
    {
        let mesh = make_text_mesh_data(self.s.as_str(), ssize, hidpi, self.state.text_align);
        proof {
            let lines = text_lines(self@.text);
            lemma_text_verts_len(
                lines,
                max_line_len(lines),
                self.state.text_align,
                div_trunc(16 * hidpi, ssize.0 as int),
                div_trunc(16 * hidpi, ssize.1 as int),
                0,
            );
            assert(mesh.vertices@.len() == 12 * total_glyphs(lines));
        }
        measure_and_place(mesh, &self.pos, &self.state.pivot, ssize, hidpi)
    }
}

impl Image {
    /// Resolves this image's material: a ready-made material is reused as it
    /// stands; a texture is wrapped in a fresh material built from the
    /// default UI shader.  Either way the material is drawn in the UI
    /// render queue.
    pub fn create_material(&self) -> (r: MaterialPlan)
        ensures
            r == (MaterialPlan {
                source: match self.kind {
                    ImageKind::Material(m) => MaterialSource::Reuse(m),
                    ImageKind::Texture(t) => MaterialSource::WrapTexture(t),
                },
                queue: RenderQueue::UI,
            }),
    {
        match self.kind {
            ImageKind::Material(m) => MaterialPlan {
                source: MaterialSource::Reuse(m),
                queue: RenderQueue::UI,
            },
            ImageKind::Texture(t) => MaterialPlan {
                source: MaterialSource::WrapTexture(t),
                queue: RenderQueue::UI,
            },
        }
    }

    /// Computes the quad mesh for this image, scaled to its requested size
    /// in normalized device coordinates, and the translation that places it
    /// by its position and pivot.  The pivot must be of the native kind.
    pub fn bind_data(&self, ssize: (u32, u32), hidpi: i64) -> (r: BindData)
        requires
            screen_ok(ssize.0, ssize.1, hidpi),
            metric_ok(self.pos),
            metric_ok(self.size),
            self.pivot is Native,
            self.pivot matches Metric::Native(px, py) ==> -PIVOT_MAX <= px <= PIVOT_MAX
                && -PIVOT_MAX <= py <= PIVOT_MAX,
        ensures
            ({
                let wh = spec_size_to_ndc(self.size, ssize.0 as int, ssize.1 as int, hidpi as int);
                &&& r.mesh.vertices@.map_values(|v: i64| v as int) == seq![
                    0,
                    0,
                    0,
                    0,
                    -wh.1,
                    0,
                    wh.0,
                    -wh.1,
                    0,
                    wh.0,
                    0,
                    0,
                ]
                &&& r.mesh.uvs@ == seq![
                    0i64,
                    crate::metric::FP_ONE,
                    0i64,
                    0i64,
                    crate::metric::FP_ONE,
                    0i64,
                    crate::metric::FP_ONE,
                    crate::metric::FP_ONE,
                ]
                &&& r.mesh.indices@ == seq![0u16, 1u16, 2u16, 0u16, 2u16, 3u16]
                &&& 0 <= r.width <= EXTENT_MAX
                &&& 0 <= r.height <= EXTENT_MAX
                &&& extent_of(r.mesh.vertices@, 0, r.width)
                &&& extent_of(r.mesh.vertices@, 1, r.height)
                &&& (r.translation.0 as int, r.translation.1 as int, r.translation.2 as int)
                    == spec_translate(
                    self.pos,
                    self.pivot,
                    ssize.0 as int,
                    ssize.1 as int,
                    hidpi as int,
                    r.width as int,
                    r.height as int,
                )
            }),
    {
        let wh = compute_size_to_ndc(&self.size, ssize, hidpi);
        let mesh = make_quad_mesh_data(wh);
        proof {
            assert(mesh.vertices@.map_values(|v: i64| v as int) =~= seq![
                0,
                0,
                0,
                0,
                -(wh.1 as int),
                0,
                wh.0 as int,
                -(wh.1 as int),
                0,
                wh.0 as int,
                0,
                0,
            ]);
        }
        measure_and_place(mesh, &self.pos, &self.pivot, ssize, hidpi)
    }
}

} // verus!
