//! The table/list data-source bridge. A row provider — an external object
//! supplying a row count and a per-row configuration callback — is owned
//! by the list view for its lifetime; the platform's list machinery calls
//! the two bridge functions below for its row-count and
//! cell-materialization callback slots.

use vstd::prelude::*;

use crate::color::Color;
use crate::view::{container_widget_model, wview, Widget};

verus! {

/// One materialized row: its index and the widget it renders into.
pub struct TableViewRow {
    pub row: usize,
    pub view: Widget,
}

impl TableViewRow {
    /// Sets the background color of the row's widget and marks it for
    /// redisplay.
    pub fn set_background_color(&mut self, color: &Color)
        ensures
            final(self).row == old(self).row,
            final(self).view == (Widget {
                background_color: Some(*color),
                needs_display: true,
                ..old(self).view
            }),
    {
        self.view.background_color = Some(*color);
        self.view.needs_display = true;
    }
}

/// A row provider: the external object a list view draws its contents
/// from. Implementations are supplied by the embedding application; what
/// `configure_item` does to a row is up to them.
pub trait TableViewData {
    /// How many rows the provider currently offers; the default offers
    /// none.
    fn number_of_items(&self) -> (r: usize)
        default_ensures
            r == 0,
    {
        0
    }

    /// Fills in the given row's content and appearance.
    fn configure_item(&mut self, view: &mut TableViewRow, row: usize);
}

/// Hooks for a row's own layout and refresh passes; implementations come
/// from the embedding application.
pub trait TableViewUI {
    /// Lays the row's content out.
    fn layout(&self, view: &TableViewRow);

    /// Refreshes the row's content.
    fn update(&self, view: &TableViewRow);
}

/// The row-count callback slot of the bridge: hands back the provider's
/// current count, exactly as the provider's own `number_of_items`
/// promises it. Nothing is mutated, so the call is safe to repeat
/// between redraws.
pub fn number_of_items<T: TableViewData>(provider: &T) -> (r: usize)
    ensures
        call_ensures(T::number_of_items, (provider,), r),
{
    provider.number_of_items()
}

/// The widget a row is materialized into: a recycled widget is reused as
/// it stands, and otherwise a fresh row widget is built with the default
/// row flags (layer-backed, not translating its autoresizing mask).
pub fn row_widget_for(recycled: Option<Widget>) -> (w: Widget)
    ensures
        match recycled {
            Some(r) => w == r,
            None => wview(w) == container_widget_model(),
        },
{
    match recycled {
        Some(w) => w,
        None => Widget {
            wants_layer: true,
            translates_autoresizing_mask: false,
            needs_display: false,
            background_color: None,
        },
    }
}

/// The cell-materialization callback slot of the bridge: picks the row's
/// widget as [`row_widget_for`] says, builds the cell for this row index,
/// and hands exactly that cell to the provider's configuration callback,
/// whose own promises then say what the returned row holds; if the
/// callback fails, the bridge has no recovery.
pub fn make_view<T: TableViewData>(provider: &mut T, recycled: Option<Widget>, row: usize) -> (r:
    TableViewRow)
    ensures
        exists|p: &mut T, v: &mut TableViewRow|
            mut_ref_current(p) == *old(provider) && mut_ref_future(p) == *final(provider)
                && mut_ref_current(v).row == row && (match recycled {
                Some(w) => mut_ref_current(v).view == w,
                None => wview(mut_ref_current(v).view) == container_widget_model(),
            }) && mut_ref_future(v) == r && call_ensures(T::configure_item, (p, v, row), ()),
{
    let widget = row_widget_for(recycled);
    let mut cell = TableViewRow { row, view: widget };
    provider.configure_item(&mut cell, row);
    cell
}

/// A list view: it owns its row provider for the view's lifetime. The
/// platform-side table machinery is not part of this state; the bridge
/// functions above serve its callback slots.
pub struct ListView<T: TableViewData> {
    pub provider: T,
}

impl<T: TableViewData> ListView<T> {
    /// Takes ownership of the data source for the view's lifetime.
    pub fn new(datasource: T) -> (lv: ListView<T>)
        ensures
            lv.provider == datasource,
    {
        ListView { provider: datasource }
    }
}

} // verus!
