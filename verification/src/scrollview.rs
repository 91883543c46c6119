//! A scroll view: the typed state of a scrolling container, held as plain
//! owned fields.

use vstd::prelude::*;

use crate::view::{Widget, WidgetModel};

verus! {

/// A scrolling container wrapping a widget state.
pub struct ScrollView {
    pub backing_node: Widget,
    /// Whether the container draws its own background.
    pub draws_background: bool,
    /// Whether a vertical scroller is shown.
    pub has_vertical_scroller: bool,
}

impl ScrollView {
    /// A fresh scroll view: layer-backed, not translating its
    /// autoresizing mask, drawing no background of its own, with a
    /// vertical scroller.
    pub fn new() -> (sv: ScrollView)
        ensures
            crate::view::wview(sv.backing_node) == (WidgetModel {
                wants_layer: true,
                translates_autoresizing_mask: false,
                needs_display: false,
                background_color: None,
            }),
            !sv.draws_background,
            sv.has_vertical_scroller,
    {
        ScrollView {
            backing_node: Widget {
                wants_layer: true,
                translates_autoresizing_mask: false,
                needs_display: false,
                background_color: None,
            },
            draws_background: false,
            has_vertical_scroller: true,
        }
    }

    /// The widget state this scroll view owns.
    pub fn get_root_backing_node(&self) -> (r: &Widget)
        ensures
            *r == self.backing_node,
    {
        &self.backing_node
    }
}

} // verus!
