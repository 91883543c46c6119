use shinekit::color::Color;
use shinekit::error::StyleError;
use shinekit::json::Json;
use shinekit::label::{Label, Text};
use shinekit::view::{LayoutConstraint, MissingKeyPolicy, ViewKind, ViewNode};

fn obj(entries: Vec<(&str, Json)>) -> Json {
    Json::Obj(entries.into_iter().map(|(k, v)| (k.to_string(), v)).collect())
}

fn color_node(r: i64, g: i64, b: i64) -> Json {
    obj(vec![("r", Json::Int(r)), ("g", Json::Int(g)), ("b", Json::Int(b))])
}

fn two_level_tree() -> ViewNode {
    ViewNode::named("root").subviews(vec![ViewNode::named("sidebar"), ViewNode::named("content")])
}

#[test]
fn named_builds_fresh_container() {
    let v = ViewNode::named("root");
    assert_eq!(v.name, "root");
    assert!(matches!(v.kind, ViewKind::View));
    assert!(v.widget.wants_layer);
    assert!(!v.widget.translates_autoresizing_mask);
    assert_eq!(v.widget.background_color, None);
    assert!(v.subviews.is_empty());
    assert_eq!(v.width, None);
}

#[test]
fn label_named_builds_label_kind() {
    let v = Label::named("title");
    assert!(matches!(v.kind, ViewKind::Label));
    assert_eq!(v.name, "title");
}

#[test]
fn subviews_builder_attaches_children_in_order() {
    let v = two_level_tree();
    assert_eq!(v.subviews.len(), 2);
    assert_eq!(v.subviews[0].name, "sidebar");
    assert_eq!(v.subviews[1].name, "content");
}

#[test]
fn add_subview_appends() {
    let mut v = ViewNode::named("root");
    v.add_subview(ViewNode::named("a"));
    v.add_subview(ViewNode::named("b"));
    assert_eq!(v.subviews.len(), 2);
    assert_eq!(v.subviews[1].name, "b");
}

#[test]
fn set_background_color_marks_for_display() {
    let mut v = ViewNode::named("root");
    v.set_background_color(&Color::rgb(5, 6, 7));
    assert_eq!(v.widget.background_color, Some(Color::rgb(5, 6, 7)));
    assert!(v.widget.needs_display);
}

#[test]
fn constraints_collect_in_fixed_order() {
    let sibling = ViewNode::named("root");
    let mut v = ViewNode::named("sidebar");
    v.set_width(300);
    v.set_height(200);
    v.top_relative_to(&sibling, 5);
    v.bottom_relative_to(&sibling, 10);
    let batch = v.activate_constraints();
    assert_eq!(
        batch,
        vec![
            LayoutConstraint::Width(300),
            LayoutConstraint::Height(200),
            LayoutConstraint::Top("root".to_string(), 5),
            LayoutConstraint::Bottom("root".to_string(), -10),
        ]
    );
}

#[test]
fn trailing_and_bottom_negate_margins() {
    let sibling = ViewNode::named("root");
    let mut v = ViewNode::named("content");
    v.trailing_relative_to(&sibling, 15);
    v.bottom_relative_to(&sibling, 20);
    assert_eq!(v.trailing, Some(("root".to_string(), -15)));
    assert_eq!(v.bottom, Some(("root".to_string(), -20)));
}

#[test]
fn empty_constraint_batch() {
    let v = ViewNode::named("root");
    assert_eq!(v.activate_constraints(), vec![]);
}

#[test]
fn apply_styles_two_level_tree() {
    let mut v = two_level_tree();
    let styles = obj(vec![
        (
            "root",
            obj(vec![("backgroundColor", color_node(255, 0, 0)), ("width", Json::Int(300))]),
        ),
        ("sidebar", obj(vec![("backgroundColor", color_node(0, 255, 0))])),
        (
            "content",
            obj(vec![("backgroundColor", color_node(0, 0, 255)), ("height", Json::Int(40))]),
        ),
    ]);
    v.apply_styles(&styles, MissingKeyPolicy::Fail).unwrap();
    assert_eq!(v.widget.background_color, Some(Color::rgb(255, 0, 0)));
    assert_eq!(v.width, Some(300));
    assert_eq!(v.height, None);
    assert_eq!(v.subviews[0].widget.background_color, Some(Color::rgb(0, 255, 0)));
    assert_eq!(v.subviews[0].width, None);
    assert_eq!(v.subviews[1].widget.background_color, Some(Color::rgb(0, 0, 255)));
    assert_eq!(v.subviews[1].height, Some(40));
    assert!(v.widget.needs_display);
}

#[test]
fn apply_styles_missing_name_fails() {
    let mut v = two_level_tree();
    let styles = obj(vec![
        ("root", obj(vec![("backgroundColor", color_node(255, 0, 0))])),
        ("content", obj(vec![("backgroundColor", color_node(0, 0, 255))])),
    ]);
    let r = v.apply_styles(&styles, MissingKeyPolicy::Fail);
    assert_eq!(r, Err(StyleError::StyleKeyNotFound));
    // The tree is left as it was.
    assert_eq!(v.widget.background_color, None);
    assert_eq!(v.subviews[1].widget.background_color, None);
}

#[test]
fn apply_styles_missing_name_skips() {
    let mut v = two_level_tree();
    let styles = obj(vec![
        ("root", obj(vec![("backgroundColor", color_node(255, 0, 0))])),
        ("content", obj(vec![("backgroundColor", color_node(0, 0, 255))])),
    ]);
    v.apply_styles(&styles, MissingKeyPolicy::Skip).unwrap();
    assert_eq!(v.widget.background_color, Some(Color::rgb(255, 0, 0)));
    assert_eq!(v.subviews[0].widget.background_color, None);
    assert_eq!(v.subviews[1].widget.background_color, Some(Color::rgb(0, 0, 255)));
}

#[test]
fn apply_styles_bad_color_node() {
    let mut v = ViewNode::named("root");
    let styles = obj(vec![(
        "root",
        obj(vec![("backgroundColor", obj(vec![("r", Json::Int(1))]))]),
    )]);
    assert_eq!(v.apply_styles(&styles, MissingKeyPolicy::Fail), Err(StyleError::MissingField));
}

#[test]
fn apply_styles_ignores_non_integer_sizes() {
    let mut v = ViewNode::named("root");
    let styles = obj(vec![(
        "root",
        obj(vec![("width", Json::Str("wide".to_string()))]),
    )]);
    v.apply_styles(&styles, MissingKeyPolicy::Fail).unwrap();
    assert_eq!(v.width, None);
}

#[test]
fn scroll_view_defaults() {
    let sv = shinekit::scrollview::ScrollView::new();
    assert!(sv.backing_node.wants_layer);
    assert!(!sv.backing_node.translates_autoresizing_mask);
    assert!(!sv.draws_background);
    assert!(sv.has_vertical_scroller);
    assert_eq!(sv.get_root_backing_node().background_color, None);
}

#[test]
fn text_element_setters() {
    let mut t = Text::new();
    assert_eq!(t.text, "");
    t.set_text("hello");
    t.set_text_color(&Color::rgb(1, 2, 3));
    t.set_background_color(&Color::rgb(4, 5, 6));
    assert_eq!(t.text, "hello");
    assert_eq!(t.text_color, Some(Color::rgb(1, 2, 3)));
    assert_eq!(t.backing_node.background_color, Some(Color::rgb(4, 5, 6)));
    assert!(t.backing_node.needs_display);
}
