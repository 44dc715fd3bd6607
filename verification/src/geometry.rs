//! Screen areas and the panel layout, with focus kept on visible panes.
use crate::state::{Focus, Ui};
use vstd::prelude::*;

verus! {

/// Signed coordinates allow full-width content to slide beyond the terminal edge.
#[derive(Clone, Copy, Debug, PartialEq, Eq, Structural)]
pub struct Area {
    pub x: i32,
    pub y: i32,
    pub w: i32,
    pub h: i32,
}

impl Area {
    /// An area; negative sizes become empty.
    pub fn new(x: i32, y: i32, w: i32, h: i32) -> (area: Area)
        ensures
            area == (Area { x, y, w: if w > 0 { w } else { 0 }, h: if h > 0 { h } else { 0 } }),
    {
        Area { x, y, w: if w > 0 { w } else { 0 }, h: if h > 0 { h } else { 0 } }
    }

    /// Whether `point` lies inside the area.
    pub fn contains(self, point: (i32, i32)) -> (inside: bool)
        ensures
            inside == (self.x <= point.0 < self.x + self.w && self.y <= point.1 < self.y + self.h),
    {
        let (px, py) = point;
        px as i64 >= self.x as i64 && (px as i64) < self.x as i64 + self.w as i64 && py as i64
            >= self.y as i64 && (py as i64) < self.y as i64 + self.h as i64
    }
}

/// Where the main list, the navigation and side panels and the player bar go.
#[derive(Clone, Copy, Debug, PartialEq, Eq, Structural)]
pub struct Layout {
    pub main: Area,
    pub nav: Option<Area>,
    pub side: Option<Area>,
    pub player: Area,
}

/// The full width of the navigation panel.
pub const NAV_WIDTH: i32 = 21;

/// The full width of the side panel at `width` columns.
pub open spec fn side_width(width: int) -> int {
    if width >= 130 { 29 } else { 25 }
}

/// `value` as an area size: negative sizes become empty.
pub open spec fn size(value: int) -> int {
    if value > 0 { value } else { 0 }
}

/// Whether the layout arithmetic stays within `i32`.
pub open spec fn fits_layout(width: int, height: int, left: int, right: int) -> bool {
    &&& i32::MIN <= left + 3 <= i32::MAX
    &&& i32::MIN <= width - left <= i32::MAX
    &&& i32::MIN <= width - left - right <= i32::MAX
    &&& i32::MIN <= width - left - right - 6 <= i32::MAX
    &&& i32::MIN <= height - 9 <= i32::MAX
    &&& i32::MIN <= left - NAV_WIDTH <= i32::MAX
    &&& i32::MIN <= width - right <= i32::MAX
    &&& i32::MIN <= height - 5 <= i32::MAX
}

/// The layout for panel widths `left` and `right`; while sliding, panels keep their full
/// width and move in from the edges.
pub open spec fn layout_spec(width: int, height: int, left: int, right: int, sliding: bool) -> Layout {
    let full_left = if sliding { NAV_WIDTH as int } else { left };
    let full_right = if sliding { side_width(width) } else { right };
    Layout {
        main: Area { x: (left + 3) as i32, y: 4, w: size(width - left - right - 6) as i32, h: size(height - 9) as i32 },
        nav: if left > 0 {
            Some(Area { x: (left - full_left) as i32, y: 4, w: size(full_left) as i32, h: size(height - 9) as i32 })
        } else {
            None
        },
        side: if right > 0 {
            Some(Area { x: (width - right) as i32, y: 4, w: size(full_right) as i32, h: size(height - 9) as i32 })
        } else {
            None
        },
        player: Area { x: 0, y: (height - 5) as i32, w: size(width) as i32, h: 5 },
    }
}

/// The panel widths the interface asks for: open panels at full width, then, when the
/// main list would be narrower than 40 columns, the preferred side keeps its panel.
pub open spec fn requested_widths(width: int, ui: Ui) -> (int, int) {
    let left = if ui.left_open { NAV_WIDTH as int } else { 0 };
    let right = if ui.right_open { side_width(width) } else { 0 };
    if width - left - right - 6 < 40 {
        if ui.preferred == Focus::Right && right > 0 {
            (0, right)
        } else {
            (left, 0)
        }
    } else {
        (left, right)
    }
}

impl Layout {
    /// The layout for the open panels of `ui` at `width` × `height`.
    pub fn new(width: i32, height: i32, ui: &Ui) -> (layout: Layout)
        requires
            fits_layout(width as int, height as int, NAV_WIDTH as int, 29),
            fits_layout(width as int, height as int, 0, 0),
        ensures
            layout == layout_spec(
                width as int,
                height as int,
                requested_widths(width as int, *ui).0,
                requested_widths(width as int, *ui).1,
                false,
            ),
    {
        let mut left: i32 = if ui.left_open { NAV_WIDTH } else { 0 };
        let mut right: i32 = if ui.right_open {
            if width >= 130 { 29 } else { 25 }
        } else {
            0
        };
        if (width as i64) - (left as i64) - (right as i64) - 6 < 40 {
            if ui.preferred == Focus::Right && right > 0 {
                left = 0;
            } else {
                right = 0;
            }
        }
        Self::with_widths(width, height, [left, right], false)
    }

    /// The layout for panel widths `sizes`.
    pub fn with_widths(width: i32, height: i32, sizes: [i32; 2], sliding: bool) -> (layout: Layout)
        requires
            fits_layout(width as int, height as int, sizes@[0] as int, sizes@[1] as int),
        ensures
            layout == layout_spec(width as int, height as int, sizes@[0] as int, sizes@[1] as int, sliding),
    {
        let left = sizes[0];
        let right = sizes[1];
        let full_left = if sliding { NAV_WIDTH } else { left };
        let full_right = if sliding {
            if width >= 130 { 29 } else { 25 }
        } else {
            right
        };
        Layout {
            main: Area::new(left + 3, 4, width - left - right - 6, height - 9),
            nav: if left > 0 {
                Some(Area::new(left - full_left, 4, full_left, height - 9))
            } else {
                None
            },
            side: if right > 0 {
                Some(Area::new(width - right, 4, full_right, height - 9))
            } else {
                None
            },
            player: Area::new(0, height - 5, width, 5),
        }
    }
}

impl Ui {
    /// The layout at `width` × `height`; focus on a pane that is not shown returns to
    /// the main list.
    pub fn fit(&mut self, width: i32, height: i32) -> (layout: Layout)
        requires
            fits_layout(width as int, height as int, NAV_WIDTH as int, 29),
            fits_layout(width as int, height as int, 0, 0),
        ensures
            layout == layout_spec(
                width as int,
                height as int,
                requested_widths(width as int, *old(self)).0,
                requested_widths(width as int, *old(self)).1,
                false,
            ),
            final(self).focus == (if (old(self).focus == Focus::Nav && layout.nav is None) || (
            old(self).focus == Focus::Right && layout.side is None) {
                Focus::Main
            } else {
                old(self).focus
            }),
            *final(self) == (Ui { focus: final(self).focus, ..*old(self) }),
    {
        let layout = Layout::new(width, height, self);
        if (self.focus == Focus::Nav && layout.nav.is_none()) || (self.focus == Focus::Right
            && layout.side.is_none()) {
            self.focus = Focus::Main;
        }
        layout
    }

    /// Opens or closes a side pane: a pane that is not shown opens and takes focus, a
    /// shown one closes (returning focus to the main list); either way it becomes the
    /// preferred pane.
    pub fn toggle_panel(&mut self, pane: Focus, layout: Layout)
        ensures
            *final(self) == panel_toggled(*old(self), pane, layout),
    {
        let visible = match pane {
            Focus::Nav => {
                self.left_open = layout.nav.is_none();
                layout.nav.is_some()
            },
            Focus::Right => {
                self.right_open = layout.side.is_none();
                layout.side.is_some()
            },
            Focus::Main => return ,
        };
        self.preferred = pane;
        if !visible {
            self.focus = pane;
        } else if self.focus == pane {
            self.focus = Focus::Main;
        }
    }

    /// Moves focus to the next (or previous) shown pane, in the order navigation,
    /// main list, side panel.
    pub fn cycle_focus(&mut self, layout: Layout, backwards: bool)
        ensures
            *final(self) == (Ui { focus: cycled(old(self).focus, layout, backwards), ..*old(self) }),
    {
        let mut panes: Vec<Focus> = Vec::new();
        if layout.nav.is_some() {
            panes.push(Focus::Nav);
        }
        panes.push(Focus::Main);
        if layout.side.is_some() {
            panes.push(Focus::Right);
        }
        assert(panes@ =~= shown_panes(layout));
        let mut index: usize = 0;
        let mut i: usize = 0;
        while i < panes.len()
            invariant
                panes@ == shown_panes(layout),
                i <= panes@.len(),
                index == pane_index(panes@.take(i as int), old(self).focus),
                *self == *old(self),
            decreases panes@.len() - i,
        {
            assert(panes@.take(i + 1).drop_last() =~= panes@.take(i as int));
            if index == i && panes[i] != self.focus {
                index = i + 1;
            }
            i = i + 1;
        }
        assert(panes@.take(panes@.len() as int) =~= panes@);
        let n = panes.len();
        let index = if index < n { index } else { 0 };
        let next = if backwards { (index + n - 1) % n } else { (index + 1) % n };
        self.focus = panes[next];
    }
}

/// The interface after opening or closing the side pane `pane` shown as `layout` says
/// (see `Ui::toggle_panel`); the main list is no pane to toggle.
pub open spec fn panel_toggled(ui: Ui, pane: Focus, layout: Layout) -> Ui {
    match pane {
        Focus::Main => ui,
        Focus::Nav => Ui {
            left_open: layout.nav is None,
            preferred: Focus::Nav,
            focus: if layout.nav is None {
                Focus::Nav
            } else if ui.focus == Focus::Nav {
                Focus::Main
            } else {
                ui.focus
            },
            ..ui
        },
        Focus::Right => Ui {
            right_open: layout.side is None,
            preferred: Focus::Right,
            focus: if layout.side is None {
                Focus::Right
            } else if ui.focus == Focus::Right {
                Focus::Main
            } else {
                ui.focus
            },
            ..ui
        },
    }
}

/// The panes shown by a layout, in focus order.
pub open spec fn shown_panes(layout: Layout) -> Seq<Focus> {
    (if layout.nav is Some { seq![Focus::Nav] } else { Seq::empty() }) + seq![Focus::Main] + (
    if layout.side is Some { seq![Focus::Right] } else { Seq::empty() })
}

/// The index of the first occurrence of `focus` in `panes`, or the length when absent.
pub open spec fn pane_index(panes: Seq<Focus>, focus: Focus) -> int
    decreases panes.len(),
{
    if panes.len() == 0 {
        0
    } else {
        let before = pane_index(panes.drop_last(), focus);
        if before == panes.len() - 1 && panes.last() != focus {
            panes.len() as int
        } else {
            before
        }
    }
}

/// The pane after (or before) `focus` among the shown ones; a hidden focus counts as
/// the first shown pane.
pub open spec fn cycled(focus: Focus, layout: Layout, backwards: bool) -> Focus {
    let panes = shown_panes(layout);
    let n = panes.len() as int;
    let found = pane_index(panes, focus);
    let index = if found < n { found } else { 0 };
    panes[if backwards { (index + n - 1) % n } else { (index + 1) % n }]
}

} // verus!
