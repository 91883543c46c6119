//! A small GUI support library: a JSON-like style model, theme loading
//! with deep merge, a view tree with typed autolayout constraints, and a
//! table/list data-source bridge. The style resolution and constraint
//! bookkeeping are verified; platform rendering lives outside this crate.

pub mod application;
pub mod color;
pub mod error;
pub mod json;
pub mod label;
pub mod listview;
pub mod scrollview;
pub mod stylesheet;
pub mod view;
pub mod window;

use vstd::prelude::*;

use crate::application::{styled_app_window, App};
use crate::error::StyleError;
use crate::json::{entries_get, entries_has, entries_view, Json};
use crate::stylesheet::{load_styles, loaded_styles, style_for_theme, MergePolicy};
use crate::view::MissingKeyPolicy;
use crate::window::window_view;

verus! {

/// Resolves the supplied (theme name, style tree) pairs into a style
/// document, picks the "default" theme, and styles the application's
/// window and view tree with it. The styled application is handed back
/// for the platform layer to run; a missing "default" theme is a
/// [`StyleError::StyleKeyNotFound`].
pub fn run(
    user_styles: Vec<(String, Json)>,
    application: App,
    merge_policy: MergePolicy,
    missing_policy: MissingKeyPolicy,
) -> (r: Result<App, StyleError>)
    ensures
        ({
            let docs = loaded_styles(entries_view(user_styles@), merge_policy);
            match r {
                Ok(styled_app) => entries_has(docs, "default"@) && styled_app_window(
                    window_view(application.window),
                    entries_get(docs, "default"@),
                    missing_policy,
                ) == Ok::<crate::window::WindowModel, StyleError>(window_view(styled_app.window)),
                Err(e) => if !entries_has(docs, "default"@) {
                    e == StyleError::StyleKeyNotFound
                } else {
                    styled_app_window(
                        window_view(application.window),
                        entries_get(docs, "default"@),
                        missing_policy,
                    ) == Err::<crate::window::WindowModel, StyleError>(e)
                },
            }
        }),
{
    let styles = load_styles(user_styles, merge_policy);
    let default_key: String = "default".to_owned();
    match style_for_theme(&styles, &default_key) {
        None => Err(StyleError::StyleKeyNotFound),
        Some(tree) => {
            let mut app = application;
            match app.apply_styles(tree, missing_policy) {
                Ok(_) => Ok(app),
                Err(e) => Err(e),
            }
        },
    }
}

} // verus!
