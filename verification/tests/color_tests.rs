use shinekit::color::Color;
use shinekit::error::StyleError;
use shinekit::json::Json;

fn color_node(r: i64, g: i64, b: i64) -> Json {
    Json::Obj(vec![
        ("r".to_string(), Json::Int(r)),
        ("g".to_string(), Json::Int(g)),
        ("b".to_string(), Json::Int(b)),
    ])
}

#[test]
fn rgb_normalizes_channels() {
    let c = Color::rgb(255, 0, 128);
    assert_eq!(c.r, 255);
    assert_eq!(c.g, 0);
    assert_eq!(c.b, 128);
    assert_eq!(c.a, 255);
}

#[test]
fn rgb_alpha_is_always_full() {
    for (r, g, b) in [(0, 0, 0), (255, 255, 255), (1, 2, 3)] {
        assert_eq!(Color::rgb(r, g, b).a, 255);
    }
}

#[test]
fn rgb_keeps_out_of_range_inputs() {
    let c = Color::rgb(300, -5, 256);
    assert_eq!(c.r, 300);
    assert_eq!(c.g, -5);
    assert_eq!(c.b, 256);
}

#[test]
fn from_json_round_trips_rgb() {
    let node = color_node(12, 34, 56);
    let parsed = Color::from_json(&node).unwrap();
    assert_eq!(parsed, Color::rgb(12, 34, 56));
}

#[test]
fn from_json_missing_channel() {
    let node = Json::Obj(vec![
        ("r".to_string(), Json::Int(1)),
        ("g".to_string(), Json::Int(2)),
    ]);
    assert_eq!(Color::from_json(&node), Err(StyleError::MissingField));
}

#[test]
fn from_json_non_numeric_channel() {
    let node = Json::Obj(vec![
        ("r".to_string(), Json::Str("red".to_string())),
        ("g".to_string(), Json::Int(2)),
        ("b".to_string(), Json::Int(3)),
    ]);
    assert_eq!(Color::from_json(&node), Err(StyleError::TypeMismatch));
}

#[test]
fn from_json_non_object_node() {
    assert_eq!(Color::from_json(&Json::Null), Err(StyleError::MissingField));
    assert_eq!(Color::from_json(&Json::Int(7)), Err(StyleError::MissingField));
}
