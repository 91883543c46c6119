//! The root window of an application: its title, frame, background color
//! and content view, held as plain owned fields.

use vstd::prelude::*;

use crate::color::{Color, ColorModel};
use crate::view::{vview, ViewModel, ViewNode, WidgetModel};

verus! {

/// A top-level window wrapping a content view.
pub struct Window {
    pub title: String,
    /// Origin and size: (top, left, width, height).
    pub frame: (i64, i64, i64, i64),
    pub background_color: Option<Color>,
    /// Whether the window has been made the key window.
    pub is_key: bool,
    pub content_view: ViewNode,
}

/// The mathematical model of a window.
#[verifier::ext_equal]
pub struct WindowModel {
    pub title: Seq<char>,
    pub frame: (int, int, int, int),
    pub background_color: Option<ColorModel>,
    pub is_key: bool,
    pub content_view: ViewModel,
}

/// The model of a window.
pub open spec fn window_view(w: Window) -> WindowModel {
    WindowModel {
        title: w.title@,
        frame: (w.frame.0 as int, w.frame.1 as int, w.frame.2 as int, w.frame.3 as int),
        background_color: match w.background_color {
            Some(c) => Some(c.model()),
            None => None,
        },
        is_key: w.is_key,
        content_view: vview(w.content_view),
    }
}

impl Window {
    /// A window with the given title and frame, holding the view as its
    /// content view. The content view translates its autoresizing mask
    /// into constraints, as a window's root view fills the window.
    pub fn new(view: ViewNode, title: &str, top: i32, left: i32, width: i32, height: i32) -> (w:
        Window)
        ensures
            window_view(w) == (WindowModel {
                title: title@,
                frame: (top as int, left as int, width as int, height as int),
                background_color: None,
                is_key: false,
                content_view: ViewModel {
                    widget: WidgetModel {
                        translates_autoresizing_mask: true,
                        ..vview(view).widget
                    },
                    ..vview(view)
                },
            }),
    {
        let mut content = view;
        content.translates_resizing_mask_into_constraints(true);
        let w = Window {
            title: title.to_owned(),
            frame: (top as i64, left as i64, width as i64, height as i64),
            background_color: None,
            is_key: false,
            content_view: content,
        };
        proof {
            assert(window_view(w) =~= (WindowModel {
                title: title@,
                frame: (top as int, left as int, width as int, height as int),
                background_color: None,
                is_key: false,
                content_view: ViewModel {
                    widget: WidgetModel {
                        translates_autoresizing_mask: true,
                        ..vview(view).widget
                    },
                    ..vview(view)
                },
            }));
        }
        w
    }

    /// Marks the window as the key window.
    pub fn make_key(&mut self)
        ensures
            window_view(*final(self)) == (WindowModel { is_key: true, ..window_view(*old(self)) }),
    {
        self.is_key = true;
        proof {
            assert(window_view(*final(self)) =~= (WindowModel {
                is_key: true,
                ..window_view(*old(self))
            }));
        }
    }

    /// Moves and resizes the window.
    pub fn set_frame(&mut self, top: i64, left: i64, width: i64, height: i64)
        ensures
            window_view(*final(self)) == (WindowModel {
                frame: (top as int, left as int, width as int, height as int),
                ..window_view(*old(self))
            }),
    {
        self.frame = (top, left, width, height);
        proof {
            assert(window_view(*final(self)) =~= (WindowModel {
                frame: (top as int, left as int, width as int, height as int),
                ..window_view(*old(self))
            }));
        }
    }

    /// Sets the window's background color.
    pub fn set_background_color(&mut self, color: Color)
        ensures
            window_view(*final(self)) == (WindowModel {
                background_color: Some(color.model()),
                ..window_view(*old(self))
            }),
    {
        self.background_color = Some(color);
        proof {
            assert(window_view(*final(self)) =~= (WindowModel {
                background_color: Some(color.model()),
                ..window_view(*old(self))
            }));
        }
    }
}

} // verus!
