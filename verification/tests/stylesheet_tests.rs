use shinekit::color::Color;
use shinekit::json::Json;
use shinekit::stylesheet::{load_styles, style_for_theme, MergePolicy, StyleSheet};

fn obj(entries: Vec<(&str, Json)>) -> Json {
    Json::Obj(entries.into_iter().map(|(k, v)| (k.to_string(), v)).collect())
}

fn color_node(r: i64, g: i64, b: i64) -> Json {
    obj(vec![("r", Json::Int(r)), ("g", Json::Int(g)), ("b", Json::Int(b))])
}

fn default_and_dark() -> Vec<(String, Json)> {
    vec![
        StyleSheet::default(obj(vec![(
            "root",
            obj(vec![("backgroundColor", color_node(255, 0, 0)), ("width", Json::Int(100))]),
        )])),
        StyleSheet::theme(
            "dark",
            obj(vec![("root", obj(vec![("backgroundColor", color_node(0, 0, 0))]))]),
        ),
    ]
}

#[test]
fn builders_pair_names_with_trees() {
    let d = StyleSheet::default(Json::Null);
    assert_eq!(d.0, "default");
    assert_eq!(d.1, Json::Null);
    let t = StyleSheet::theme("dark", Json::Bool(true));
    assert_eq!(t.0, "dark");
    assert_eq!(t.1, Json::Bool(true));
}

#[test]
fn theme_inherits_unspecified_fields_from_default() {
    let styles = load_styles(default_and_dark(), MergePolicy::Sequential);
    let dark = style_for_theme(&styles, &"dark".to_string()).unwrap();
    let root = dark.get(&"root".to_string()).unwrap();
    // The width is inherited from the default theme.
    assert_eq!(root.get(&"width".to_string()), Some(&Json::Int(100)));
    // The background color is the dark theme's own.
    let bg = root.get(&"backgroundColor".to_string()).unwrap();
    assert_eq!(Color::from_json(bg).unwrap(), Color::rgb(0, 0, 0));
    // The default theme itself is stored unchanged.
    let dflt = style_for_theme(&styles, &"default".to_string()).unwrap();
    let droot = dflt.get(&"root".to_string()).unwrap();
    assert_eq!(
        Color::from_json(droot.get(&"backgroundColor".to_string()).unwrap()).unwrap(),
        Color::rgb(255, 0, 0)
    );
}

#[test]
fn sequential_policy_is_order_dependent() {
    let mut pairs = vec![StyleSheet::theme(
        "early",
        obj(vec![("root", obj(vec![("backgroundColor", color_node(1, 2, 3))]))]),
    )];
    pairs.extend(default_and_dark());
    let styles = load_styles(pairs, MergePolicy::Sequential);
    // "early" was processed before any default existed: stored unmerged.
    let early = style_for_theme(&styles, &"early".to_string()).unwrap();
    let eroot = early.get(&"root".to_string()).unwrap();
    assert_eq!(eroot.get(&"width".to_string()), None);
    // "dark" came after the default: it inherits the width.
    let dark = style_for_theme(&styles, &"dark".to_string()).unwrap();
    let droot = dark.get(&"root".to_string()).unwrap();
    assert_eq!(droot.get(&"width".to_string()), Some(&Json::Int(100)));
}

#[test]
fn default_base_policy_is_order_independent() {
    let mut pairs = vec![StyleSheet::theme(
        "early",
        obj(vec![("root", obj(vec![("backgroundColor", color_node(1, 2, 3))]))]),
    )];
    pairs.extend(default_and_dark());
    let styles = load_styles(pairs, MergePolicy::DefaultBase);
    // "early" inherits from the default even though it was supplied first.
    let early = style_for_theme(&styles, &"early".to_string()).unwrap();
    let eroot = early.get(&"root".to_string()).unwrap();
    assert_eq!(eroot.get(&"width".to_string()), Some(&Json::Int(100)));
    let bg = eroot.get(&"backgroundColor".to_string()).unwrap();
    assert_eq!(Color::from_json(bg).unwrap(), Color::rgb(1, 2, 3));
}

#[test]
fn themes_without_default_are_stored_verbatim() {
    let tree = obj(vec![("root", obj(vec![("width", Json::Int(7))]))]);
    let styles = load_styles(vec![StyleSheet::theme("only", tree.deep_clone())], MergePolicy::Sequential);
    assert_eq!(style_for_theme(&styles, &"only".to_string()), Some(&tree));
    assert_eq!(style_for_theme(&styles, &"default".to_string()), None);
}

#[test]
fn later_pair_under_same_name_wins() {
    let styles = load_styles(
        vec![
            StyleSheet::theme("t", obj(vec![("a", Json::Int(1))])),
            StyleSheet::theme("t", obj(vec![("b", Json::Int(2))])),
        ],
        MergePolicy::Sequential,
    );
    let t = style_for_theme(&styles, &"t".to_string()).unwrap();
    assert_eq!(t.get(&"a".to_string()), None);
    assert_eq!(t.get(&"b".to_string()), Some(&Json::Int(2)));
}
