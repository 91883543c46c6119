use shinekit::color::Color;
use shinekit::listview::{make_view, number_of_items, row_widget_for, ListView, TableViewData, TableViewRow};
use shinekit::view::Widget;

struct HighlightRow3 {
    count: usize,
    highlight: Color,
}

impl TableViewData for HighlightRow3 {
    fn number_of_items(&self) -> usize {
        self.count
    }

    fn configure_item(&mut self, view: &mut TableViewRow, row: usize) {
        if row == 3 {
            view.set_background_color(&self.highlight);
        }
    }
}

#[test]
fn bridge_reports_provider_count() {
    let provider = HighlightRow3 { count: 10, highlight: Color::rgb(200, 0, 0) };
    assert_eq!(number_of_items(&provider), 10);
}

#[test]
fn exactly_one_row_carries_the_distinct_color() {
    let highlight = Color::rgb(200, 0, 0);
    let mut provider = HighlightRow3 { count: 10, highlight };
    let rows: Vec<TableViewRow> =
        (0..number_of_items(&provider)).map(|i| make_view(&mut provider, None, i)).collect();
    assert_eq!(rows.len(), 10);
    let colored: Vec<&TableViewRow> =
        rows.iter().filter(|r| r.view.background_color == Some(highlight)).collect();
    assert_eq!(colored.len(), 1);
    assert_eq!(colored[0].row, 3);
    assert!(colored[0].view.needs_display);
}

#[test]
fn fresh_row_widget_has_default_flags() {
    let w = row_widget_for(None);
    assert!(w.wants_layer);
    assert!(!w.translates_autoresizing_mask);
    assert!(!w.needs_display);
    assert_eq!(w.background_color, None);
}

#[test]
fn recycled_row_widget_is_reused_as_is() {
    let recycled = Widget {
        wants_layer: true,
        translates_autoresizing_mask: false,
        needs_display: false,
        background_color: Some(Color::rgb(1, 2, 3)),
    };
    assert_eq!(row_widget_for(Some(recycled)), recycled);
}

#[test]
fn make_view_hands_row_index_to_provider() {
    let mut provider = HighlightRow3 { count: 4, highlight: Color::rgb(9, 9, 9) };
    let row = make_view(&mut provider, None, 2);
    assert_eq!(row.row, 2);
    assert_eq!(row.view.background_color, None);
}

#[test]
fn list_view_owns_its_provider() {
    let lv = ListView::new(HighlightRow3 { count: 7, highlight: Color::rgb(0, 0, 0) });
    assert_eq!(lv.provider.count, 7);
    assert_eq!(number_of_items(&lv.provider), 7);
}

#[test]
fn row_set_background_color_marks_display() {
    let mut row = TableViewRow { row: 0, view: row_widget_for(None) };
    row.set_background_color(&Color::rgb(4, 4, 4));
    assert_eq!(row.view.background_color, Some(Color::rgb(4, 4, 4)));
    assert!(row.view.needs_display);
}
