//! Widget descriptors: immutable, equality-comparable value objects created
//! once per declared element, plus the ambient style state they snapshot.

use crate::metric::Metric;
use vstd::prelude::*;

verus! {

/// Horizontal alignment of the lines of a multi-line label.
#[derive(Debug, PartialEq, Eq, Structural, Clone, Copy)]
pub enum TextAlign {
    Left,
    Right,
    Center,
}

impl Default for TextAlign {
    fn default() -> (r: TextAlign)
        ensures
            r == TextAlign::Left,
    {
        TextAlign::Left
    }
}

/// Ambient style state; snapshotted by value into every descriptor created
/// after a style call.
#[derive(Debug, Clone, Copy)]
pub struct ImguiState {
    pub pivot: Metric,
    pub text_align: TextAlign,
}

impl PartialEq for ImguiState {
    fn eq(&self, other: &ImguiState) -> (r: bool) {
        self.pivot == other.pivot && self.text_align == other.text_align
    }
}

impl Eq for ImguiState {

}

impl vstd::std_specs::cmp::PartialEqSpecImpl for ImguiState {
    open spec fn obeys_eq_spec() -> bool {
        true
    }

    open spec fn eq_spec(&self, other: &ImguiState) -> bool {
        *self == *other
    }
}

impl Default for ImguiState {
    fn default() -> (r: ImguiState)
        ensures
            r == (ImguiState { pivot: Metric::Native(0i64, 0i64), text_align: TextAlign::Left }),
    {
        ImguiState { pivot: Metric::Native(0, 0), text_align: TextAlign::Left }
    }
}

/// A shared asset handle, compared by identity of the underlying object,
/// never by its contents.
#[derive(Debug, PartialEq, Eq, Structural, Clone, Copy)]
pub struct ImageRef(pub u64);

/// What an image draws from: a texture wrapped in a fresh material, or a
/// ready-made material.
#[derive(Debug, Clone, Copy)]
pub enum ImageKind {
    Texture(ImageRef),
    Material(ImageRef),
}

impl PartialEq for ImageKind {
    fn eq(&self, other: &ImageKind) -> (r: bool) {
        match (self, other) {
            (ImageKind::Texture(a), ImageKind::Texture(b)) => a == b,
            (ImageKind::Material(a), ImageKind::Material(b)) => a == b,
            _ => false,
        }
    }
}

impl Eq for ImageKind {

}

impl vstd::std_specs::cmp::PartialEqSpecImpl for ImageKind {
    open spec fn obeys_eq_spec() -> bool {
        true
    }

    open spec fn eq_spec(&self, other: &ImageKind) -> bool {
        *self == *other
    }
}

/// A text element: its screen position, the style it snapshot at creation,
/// and the text to draw.
#[derive(Debug)]
pub struct Label {
    pub id: u32,
    pub pos: Metric,
    pub state: ImguiState,
    pub s: String,
}

/// The mathematical value of a [`Label`]: its text as a character sequence.
pub struct LabelV {
    pub id: u32,
    pub pos: Metric,
    pub state: ImguiState,
    pub text: Seq<char>,
}

impl View for Label {
    type V = LabelV;

    open spec fn view(&self) -> LabelV {
        LabelV { id: self.id, pos: self.pos, state: self.state, text: self.s@ }
    }
}

impl Label {
    /// Builds a label descriptor from the arguments of a declaration call.
    pub fn new(id: u32, pos: Metric, state: ImguiState, s: String) -> (r: Label)
        ensures
            r@ == (LabelV { id, pos, state, text: s@ }),
    {
        Label { id, pos, state, s }
    }
}

impl Clone for Label {
    fn clone(&self) -> (r: Label)
        ensures
            r@ == self@,
    {
        Label { id: self.id, pos: self.pos, state: self.state, s: self.s.clone() }
    }
}

/// An image element: position, requested size, the pivot it snapshot at
/// creation, and its texture or material source.
#[derive(Debug, Clone, Copy)]
pub struct Image {
    pub id: u32,
    pub pos: Metric,
    pub size: Metric,
    pub pivot: Metric,
    pub kind: ImageKind,
}

impl Image {
    /// Builds an image descriptor; the pivot is snapshot from the style state.
    pub fn new(id: u32, pos: Metric, size: Metric, state: ImguiState, kind: ImageKind) -> (r:
        Image)
        ensures
            r == (Image { id, pos, size, pivot: state.pivot, kind }),
    {
        Image { id, pos, size, pivot: state.pivot, kind }
    }
}

impl PartialEq for Image {
    fn eq(&self, other: &Image) -> (r: bool) {
        self.id == other.id && self.pos == other.pos && self.size == other.size && self.pivot
            == other.pivot && self.kind == other.kind
    }
}

impl Eq for Image {

}

impl vstd::std_specs::cmp::PartialEqSpecImpl for Image {
    open spec fn obeys_eq_spec() -> bool {
        true
    }

    open spec fn eq_spec(&self, other: &Image) -> bool {
        *self == *other
    }
}

/// A declared element: the closed sum of the supported descriptor variants.
/// Two descriptors of different variants never compare equal.
#[derive(Debug)]
pub enum Widget {
    Label(Label),
    Image(Image),
}

/// The mathematical value of a [`Widget`].
pub enum WidgetV {
    Label(LabelV),
    Image(Image),
}

impl View for Widget {
    type V = WidgetV;

    open spec fn view(&self) -> WidgetV {
        match self {
            Widget::Label(l) => WidgetV::Label(l@),
            Widget::Image(i) => WidgetV::Image(*i),
        }
    }
}

/// The per-frame identity a descriptor was declared under.
pub open spec fn widget_id(w: WidgetV) -> u32 {
    match w {
        WidgetV::Label(l) => l.id,
        WidgetV::Image(i) => i.id,
    }
}

impl Widget {
    /// The per-frame identity this descriptor was declared under.
    pub fn id(&self) -> (r: u32)
        ensures
            r == widget_id(self@),
    {
        match self {
            Widget::Label(l) => l.id,
            Widget::Image(i) => i.id,
        }
    }
}

impl Clone for Widget {
    fn clone(&self) -> (r: Widget)
        ensures
            r@ == self@,
    {
        match self {
            Widget::Label(l) => Widget::Label(l.clone()),
            Widget::Image(i) => Widget::Image(*i),
        }
    }
}

impl PartialEq for Widget {
    fn eq(&self, other: &Widget) -> (r: bool) {
        match (self, other) {
            (Widget::Label(a), Widget::Label(b)) => {
                a.id == b.id && a.pos == b.pos && a.state == b.state && a.s == b.s
            },
            (Widget::Image(a), Widget::Image(b)) => *a == *b,
            _ => false,
        }
    }
}

impl Eq for Widget {

}

impl vstd::std_specs::cmp::PartialEqSpecImpl for Widget {
    open spec fn obeys_eq_spec() -> bool {
        true
    }

    open spec fn eq_spec(&self, other: &Widget) -> bool {
        self@ == other@
    }
}

} // verus!
