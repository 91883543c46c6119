//! The application shell: it owns the root window and drives the style
//! pass over it. The window block of a style tree ("window") must carry a
//! background color and the integer fields "defaultWidth" and
//! "defaultHeight"; the content view tree is then styled against the same
//! tree.

use vstd::prelude::*;

use crate::color::{color_from_node, Color, ColorModel};
use crate::error::StyleError;
use crate::json::{jview, node_field, Json, JsonV};
use crate::view::{styled, styled_view, vview, MissingKeyPolicy, ViewModel, ViewNode, WidgetModel};
use crate::window::{window_view, Window, WindowModel};

verus! {

/// An application: the root window (the native application handle the
/// platform layer holds is not part of this state).
pub struct App {
    pub window: Window,
}

/// What styling an application's window means: the tree must hold a
/// "window" block; the block's "backgroundColor" is parsed as a color (an
/// absent field fails like an empty color node), "defaultWidth" and
/// "defaultHeight" must be integers and become the window's size at
/// origin (0, 0); then the content view is styled against the same tree.
/// The first failure, in that order, is the result.
pub open spec fn styled_app_window(w: WindowModel, styles: JsonV, p: MissingKeyPolicy) -> Result<
    WindowModel,
    StyleError,
> {
    match node_field(styles, "window"@) {
        None => Err(StyleError::StyleKeyNotFound),
        Some(wblock) => {
            let cnode = match node_field(wblock, "backgroundColor"@) {
                Some(c) => c,
                None => JsonV::Null,
            };
            match color_from_node(cnode) {
                Err(e) => Err(e),
                Ok(c) => match node_field(wblock, "defaultWidth"@) {
                    None => Err(StyleError::MissingField),
                    Some(JsonV::Int(dw)) => match node_field(wblock, "defaultHeight"@) {
                        None => Err(StyleError::MissingField),
                        Some(JsonV::Int(dh)) => match styled(w.content_view, styles, p) {
                            Err(e) => Err(e),
                            Ok(cv) => Ok(
                                WindowModel {
                                    background_color: Some(c),
                                    frame: (0, 0, dw, dh),
                                    content_view: cv,
                                    ..w
                                },
                            ),
                        },
                        Some(_) => Err(StyleError::TypeMismatch),
                    },
                    Some(_) => Err(StyleError::TypeMismatch),
                },
            }
        },
    }
}

impl App {
    /// An application titled `title` whose window wraps the given content
    /// view, with an empty frame until styles size it.
    pub fn new(title: &str, view: ViewNode) -> (a: App)
        ensures
            window_view(a.window) == (WindowModel {
                title: title@,
                frame: (0, 0, 0, 0),
                background_color: None,
                is_key: false,
                content_view: ViewModel {
                    widget: WidgetModel {
                        translates_autoresizing_mask: true,
                        ..vview(view).widget
                    },
                    ..vview(view)
                },
            }),
    {
        App { window: Window::new(view, title, 0, 0, 0, 0) }
    }

    /// Styles the window and its content view tree from the style tree,
    /// as [`styled_app_window`] says. On an error nothing is changed.
    pub fn apply_styles(&mut self, styles: &Json, policy: MissingKeyPolicy) -> (r: Result<
        (),
        StyleError,
    >)
        ensures
            match r {
                Ok(_) => styled_app_window(window_view(old(self).window), jview(*styles), policy)
                    == Ok::<WindowModel, StyleError>(window_view(final(self).window)),
                Err(e) => styled_app_window(window_view(old(self).window), jview(*styles), policy)
                    == Err::<WindowModel, StyleError>(e) && *final(self) == *old(self),
            },
    {
        let window_key: String = "window".to_owned();
        let wblock = match styles.get(&window_key) {
            None => {
                return Err(StyleError::StyleKeyNotFound);
            },
            Some(b) => b,
        };
        let bg_key: String = "backgroundColor".to_owned();
        let color = match wblock.get(&bg_key) {
            None => {
                proof {
                    assert(color_from_node(JsonV::Null) == Err::<ColorModel, StyleError>(
                        StyleError::MissingField,
                    ));
                }
                return Err(StyleError::MissingField);
            },
            Some(cnode) => match Color::from_json(cnode) {
                Ok(c) => c,
                Err(e) => {
                    return Err(e);
                },
            },
        };
        let width_key: String = "defaultWidth".to_owned();
        let dw = match wblock.get(&width_key) {
            None => {
                return Err(StyleError::MissingField);
            },
            Some(node) => match node {
                Json::Int(x) => *x,
                _ => {
                    return Err(StyleError::TypeMismatch);
                },
            },
        };
        let height_key: String = "defaultHeight".to_owned();
        let dh = match wblock.get(&height_key) {
            None => {
                return Err(StyleError::MissingField);
            },
            Some(node) => match node {
                Json::Int(x) => *x,
                _ => {
                    return Err(StyleError::TypeMismatch);
                },
            },
        };
        let new_content = match styled_view(&self.window.content_view, styles, policy) {
            Ok(cv) => cv,
            Err(e) => {
                return Err(e);
            },
        };
        self.window.set_background_color(color);
        self.window.set_frame(0, 0, dw, dh);
        self.window.content_view = new_content;
        proof {
            assert(window_view(final(self).window) =~= (WindowModel {
                background_color: Some(color.model()),
                frame: (0, 0, dw as int, dh as int),
                content_view: crate::view::vview(new_content),
                ..window_view(old(self).window)
            }));
        }
        Ok(())
    }
}

} // verus!
