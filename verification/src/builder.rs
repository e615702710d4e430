//! The frame builder: collects the descriptors declared between `begin` and
//! `end` into an ordered list indexed by sequential per-frame identities,
//! and holds the ambient style state that new descriptors snapshot.

use crate::metric::Metric;
use crate::widgets::ImguiState;
use crate::widgets::Label;
use crate::widgets::TextAlign;
use crate::widgets::Widget;
use crate::widgets::WidgetV;
use crate::widgets::widget_id;
use vstd::prelude::*;

verus! {

/// The per-frame declaration state.  One instance belongs to whichever
/// thread drives UI declaration; nothing is shared implicitly.  Declaration
/// calls are accepted whenever the builder is well-formed: one made before
/// the first `begin` simply extends the initial, empty frame.
pub struct Imgui {
    /// The running identity counter; the last assigned identity.
    pub id: u32,
    /// The ambient style state; persists across frames until changed.
    pub state: ImguiState,
    /// The descriptors declared so far this frame, in declaration order.
    pub render_list: Vec<Widget>,
}

impl Imgui {
    /// The declared frame as a sequence of descriptor values.
    pub open spec fn frame(&self) -> Seq<WidgetV> {
        self.render_list@.map_values(|w: Widget| w@)
    }

    /// Identities are assigned strictly in call order starting at 1, and the
    /// counter equals the number of declared elements.
    pub open spec fn wf(&self) -> bool {
        &&& self.frame().len() == self.id
        &&& forall|i: int|
            0 <= i < self.frame().len() ==> widget_id(#[trigger] self.frame()[i]) == i + 1
    }

    /// A fresh builder: empty frame, zeroed counter, default style.
    pub fn new() -> (r: Imgui)
        ensures
            r.wf(),
            r.id == 0,
            r.frame() == Seq::<WidgetV>::empty(),
            r.state == (ImguiState {
                pivot: Metric::Native(0i64, 0i64),
                text_align: TextAlign::Left,
            }),
    {
        let r = Imgui { id: 0, state: ImguiState::default(), render_list: Vec::new() };
        proof {
            assert(r.frame() =~= Seq::<WidgetV>::empty());
        }
        r
    }
}

/// Opens a frame: resets the identity counter and clears the frame list.
/// The ambient style state deliberately persists.
pub fn begin(ui: &mut Imgui)
    ensures
        final(ui).wf(),
        final(ui).id == 0,
        final(ui).frame() == Seq::<WidgetV>::empty(),
        final(ui).state == old(ui).state,
{
    ui.id = 0;
    ui.render_list.clear();
    proof {
        assert(ui.frame() =~= Seq::<WidgetV>::empty());
    }
}

/// Sets the ambient pivot: the normalized anchor point, as a fixed-point
/// pair, that subsequent elements are placed by.
pub fn pivot(ui: &mut Imgui, p: (i64, i64))
    ensures
        final(ui).state == (ImguiState {
            pivot: Metric::Native(p.0, p.1),
            text_align: old(ui).state.text_align,
        }),
        final(ui).id == old(ui).id,
        final(ui).frame() == old(ui).frame(),
        old(ui).wf() ==> final(ui).wf(),
{
    ui.state.pivot = Metric::Native(p.0, p.1);
}

/// Sets the ambient text alignment for subsequent labels.
pub fn text_align(ui: &mut Imgui, align: TextAlign)
    ensures
        final(ui).state == (ImguiState { pivot: old(ui).state.pivot, text_align: align }),
        final(ui).id == old(ui).id,
        final(ui).frame() == old(ui).frame(),
        old(ui).wf() ==> final(ui).wf(),
{
    ui.state.text_align = align;
}

/// Appends a descriptor that carries the next identity to the frame list and
/// advances the counter.
pub fn add_widget(ui: &mut Imgui, w: Widget)
    requires
        old(ui).wf(),
        old(ui).id < u32::MAX,
        widget_id(w@) == old(ui).id + 1,
    ensures
        final(ui).wf(),
        final(ui).id == old(ui).id + 1,
        final(ui).frame() == old(ui).frame().push(w@),
        final(ui).state == old(ui).state,
{
    ui.id = ui.id + 1;
    ui.render_list.push(w);
    proof {
        assert(ui.frame() =~= old(ui).frame().push(w@));
    }
}

/// Declares a label at `pos` with the current style state; it takes the next
/// sequential identity.
pub fn label(ui: &mut Imgui, pos: Metric, s: &str)
    requires
        old(ui).wf(),
        old(ui).id < u32::MAX,
    ensures
        final(ui).wf(),
        final(ui).id == old(ui).id + 1,
        final(ui).frame() == old(ui).frame().push(
            WidgetV::Label(
                crate::widgets::LabelV {
                    id: (old(ui).id + 1) as u32,
                    pos,
                    state: old(ui).state,
                    text: s@,
                },
            ),
        ),
        final(ui).state == old(ui).state,
{
    let id = ui.id + 1;
    let state = ui.state;
    add_widget(ui, Widget::Label(Label::new(id, pos, state, s.to_owned())));
}

/// Declares an image drawn from a texture handle; the fixed default UI
/// material is built around it at bind time.
pub fn image(ui: &mut Imgui, pos: Metric, size: Metric, tex: crate::widgets::ImageRef)
    requires
        old(ui).wf(),
        old(ui).id < u32::MAX,
    ensures
        final(ui).wf(),
        final(ui).id == old(ui).id + 1,
        final(ui).frame() == old(ui).frame().push(
            WidgetV::Image(
                crate::widgets::Image {
                    id: (old(ui).id + 1) as u32,
                    pos,
                    size,
                    pivot: old(ui).state.pivot,
                    kind: crate::widgets::ImageKind::Texture(tex),
                },
            ),
        ),
        final(ui).state == old(ui).state,
{
    let id = ui.id + 1;
    let state = ui.state;
    add_widget(
        ui,
        Widget::Image(
            crate::widgets::Image::new(id, pos, size, state, crate::widgets::ImageKind::Texture(tex)),
        ),
    );
}

/// Declares an image drawn with a ready-made material handle.
pub fn image_with_material(
    ui: &mut Imgui,
    pos: Metric,
    size: Metric,
    material: crate::widgets::ImageRef,
)
    requires
        old(ui).wf(),
        old(ui).id < u32::MAX,
    ensures
        final(ui).wf(),
        final(ui).id == old(ui).id + 1,
        final(ui).frame() == old(ui).frame().push(
            WidgetV::Image(
                crate::widgets::Image {
                    id: (old(ui).id + 1) as u32,
                    pos,
                    size,
                    pivot: old(ui).state.pivot,
                    kind: crate::widgets::ImageKind::Material(material),
                },
            ),
        ),
        final(ui).state == old(ui).state,
{
    let id = ui.id + 1;
    let state = ui.state;
    add_widget(
        ui,
        Widget::Image(
            crate::widgets::Image::new(
                id,
                pos,
                size,
                state,
                crate::widgets::ImageKind::Material(material),
            ),
        ),
    );
}

/// Closes a frame.  A boundary marker only: it performs no action.
pub fn end() {
}

} // verus!
