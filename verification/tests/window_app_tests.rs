use shinekit::application::App;
use shinekit::color::Color;
use shinekit::error::StyleError;
use shinekit::json::Json;
use shinekit::stylesheet::{MergePolicy, StyleSheet};
use shinekit::view::{MissingKeyPolicy, ViewNode};
use shinekit::window::Window;

fn obj(entries: Vec<(&str, Json)>) -> Json {
    Json::Obj(entries.into_iter().map(|(k, v)| (k.to_string(), v)).collect())
}

fn color_node(r: i64, g: i64, b: i64) -> Json {
    obj(vec![("r", Json::Int(r)), ("g", Json::Int(g)), ("b", Json::Int(b))])
}

fn window_block() -> (&'static str, Json) {
    (
        "window",
        obj(vec![
            ("backgroundColor", color_node(10, 20, 30)),
            ("defaultWidth", Json::Int(800)),
            ("defaultHeight", Json::Int(600)),
        ]),
    )
}

fn full_styles() -> Json {
    let (wk, wv) = window_block();
    obj(vec![
        (wk, wv),
        ("root", obj(vec![("backgroundColor", color_node(255, 255, 255))])),
    ])
}

#[test]
fn window_new_sets_frame_and_translation() {
    let w = Window::new(ViewNode::named("root"), "My App", 1, 2, 3, 4);
    assert_eq!(w.title, "My App");
    assert_eq!(w.frame, (1, 2, 3, 4));
    assert_eq!(w.background_color, None);
    assert!(!w.is_key);
    assert!(w.content_view.widget.translates_autoresizing_mask);
}

#[test]
fn window_make_key_and_set_frame() {
    let mut w = Window::new(ViewNode::named("root"), "t", 0, 0, 0, 0);
    w.make_key();
    assert!(w.is_key);
    w.set_frame(0, 0, 640, 480);
    assert_eq!(w.frame, (0, 0, 640, 480));
    w.set_background_color(Color::rgb(9, 9, 9));
    assert_eq!(w.background_color, Some(Color::rgb(9, 9, 9)));
}

#[test]
fn app_apply_styles_sizes_window_and_styles_content() {
    let mut app = App::new("t", ViewNode::named("root"));
    app.apply_styles(&full_styles(), MissingKeyPolicy::Fail).unwrap();
    assert_eq!(app.window.background_color, Some(Color::rgb(10, 20, 30)));
    assert_eq!(app.window.frame, (0, 0, 800, 600));
    assert_eq!(
        app.window.content_view.widget.background_color,
        Some(Color::rgb(255, 255, 255))
    );
}

#[test]
fn app_apply_styles_requires_window_block() {
    let mut app = App::new("t", ViewNode::named("root"));
    let styles = obj(vec![("root", obj(vec![]))]);
    assert_eq!(
        app.apply_styles(&styles, MissingKeyPolicy::Fail),
        Err(StyleError::StyleKeyNotFound)
    );
    assert_eq!(app.window.background_color, None);
}

#[test]
fn app_apply_styles_requires_window_dimensions() {
    let mut app = App::new("t", ViewNode::named("root"));
    let styles = obj(vec![(
        "window",
        obj(vec![("backgroundColor", color_node(1, 1, 1))]),
    )]);
    assert_eq!(
        app.apply_styles(&styles, MissingKeyPolicy::Fail),
        Err(StyleError::MissingField)
    );

    let mut app2 = App::new("t", ViewNode::named("root"));
    let styles2 = obj(vec![(
        "window",
        obj(vec![
            ("backgroundColor", color_node(1, 1, 1)),
            ("defaultWidth", Json::Str("wide".to_string())),
            ("defaultHeight", Json::Int(600)),
        ]),
    )]);
    assert_eq!(
        app2.apply_styles(&styles2, MissingKeyPolicy::Fail),
        Err(StyleError::TypeMismatch)
    );
}

#[test]
fn run_styles_application_from_default_theme() {
    let app = App::new("t", ViewNode::named("root"));
    let styled = shinekit::run(
        vec![StyleSheet::default(full_styles())],
        app,
        MergePolicy::Sequential,
        MissingKeyPolicy::Fail,
    )
    .unwrap();
    assert_eq!(styled.window.frame, (0, 0, 800, 600));
    assert_eq!(styled.window.background_color, Some(Color::rgb(10, 20, 30)));
}

#[test]
fn run_without_default_theme_fails() {
    let app = App::new("t", ViewNode::named("root"));
    let r = shinekit::run(
        vec![StyleSheet::theme("dark", full_styles())],
        app,
        MergePolicy::Sequential,
        MissingKeyPolicy::Fail,
    );
    assert!(matches!(r, Err(StyleError::StyleKeyNotFound)));
}
