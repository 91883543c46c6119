//! Text labels: a label variant of the view node, and a standalone text
//! element holding its string, text color and widget state as plain
//! fields.

use vstd::prelude::*;

use crate::color::Color;
use crate::view::{fresh_view, vview, wview, ViewKind, ViewNode, Widget, WidgetModel};

verus! {

/// The widget state a fresh label starts from: not layer-backed, not
/// translating its autoresizing mask, nothing to draw yet.
pub open spec fn label_widget_model() -> WidgetModel {
    WidgetModel {
        wants_layer: false,
        translates_autoresizing_mask: false,
        needs_display: false,
        background_color: None,
    }
}

/// Label construction.
pub struct Label;

impl Label {
    /// A text-label view node with a fresh label widget.
    pub fn named(name: &str) -> (v: ViewNode)
        ensures
            vview(v) == fresh_view(name@, ViewKind::Label, label_widget_model()),
    {
        ViewNode::named_of_kind_with_backing_node(
            name,
            ViewKind::Label,
            Widget {
                wants_layer: false,
                translates_autoresizing_mask: false,
                needs_display: false,
                background_color: None,
            },
        )
    }
}

/// A standalone text element: its string, text color and widget state.
pub struct Text {
    pub backing_node: Widget,
    pub text: String,
    pub text_color: Option<Color>,
}

impl Text {
    /// A fresh, empty text element.
    pub fn new() -> (t: Text)
        ensures
            wview(t.backing_node) == label_widget_model(),
            t.text@ == Seq::<char>::empty(),
            t.text_color is None,
    {
        Text {
            backing_node: Widget {
                wants_layer: false,
                translates_autoresizing_mask: false,
                needs_display: false,
                background_color: None,
            },
            text: String::new(),
            text_color: None,
        }
    }

    /// Sets the background color the element draws and marks it for
    /// redisplay.
    pub fn set_background_color(&mut self, color: &Color)
        ensures
            final(self).backing_node == (Widget {
                background_color: Some(*color),
                needs_display: true,
                ..old(self).backing_node
            }),
            final(self).text == old(self).text,
            final(self).text_color == old(self).text_color,
    {
        self.backing_node.background_color = Some(*color);
        self.backing_node.needs_display = true;
    }

    /// Replaces the displayed string.
    pub fn set_text(&mut self, text: &str)
        ensures
            final(self).text@ == text@,
            final(self).backing_node == old(self).backing_node,
            final(self).text_color == old(self).text_color,
    {
        self.text = text.to_owned();
    }

    /// Sets the color the string is drawn in.
    pub fn set_text_color(&mut self, color: &Color)
        ensures
            final(self).text_color == Some(*color),
            final(self).backing_node == old(self).backing_node,
            final(self).text == old(self).text,
    {
        self.text_color = Some(*color);
    }
}

} // verus!
