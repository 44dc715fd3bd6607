//! What the pointer does: hovering, clicking the drawn regions, double clicks on rows,
//! dragging the seek and volume bars, and scrolling.
use crate::choices::dialog_chosen;
use crate::commands::{dialog_row_count, keyed};
use crate::controller::{App, opened, went_to};
use crate::controls::{activated, bounded, current_item, seeked, volume_moved, FULL_VOLUME};
use crate::edits::favorite_marked;
use crate::geometry::{Area, Layout};
use crate::input::selection_moved;
use crate::menus::dialog_moved;
use crate::protocol::{ItemRef, Kind, Source};
use crate::scene::{Action, Hit, holds, last_holding, topmost};
use crate::state::{Dialog, Focus, Ui, item_key_spec};
use crate::text::same_text;
use vstd::prelude::*;

verus! {

/// How soon a second click on the same row counts as a double click, in milliseconds.
pub const DOUBLE_CLICK_MS: u64 = 400;

/// A pointer button.
#[derive(Clone, Copy, Debug, PartialEq, Eq, Structural)]
pub enum Button {
    Left,
    Right,
    Middle,
}

/// What the pointer did.
#[derive(Clone, Copy, Debug, PartialEq, Eq, Structural)]
pub enum PointerKind {
    Down(Button),
    Up(Button),
    Drag(Button),
    Moved,
    ScrollDown,
    ScrollUp,
    ScrollLeft,
    ScrollRight,
}

/// A pointer event at a terminal cell.
#[derive(Clone, Copy, Debug, PartialEq, Eq, Structural)]
pub struct Pointer {
    pub kind: PointerKind,
    pub column: u16,
    pub row: u16,
}

/// A bar being dragged: the seek bar of a queue entry, or the volume bar.
#[derive(Clone, Debug)]
pub enum Drag {
    Seek(Area, String),
    Volume(Area),
}

/// The row a click landed on: a queue entry, or a main row in a navigation.
#[derive(Clone, Debug)]
pub struct Click {
    pub queue: bool,
    pub revision: u64,
    pub index: usize,
    pub identity: String,
}

/// The pointer's state between events: the bar being dragged and the last row clicked.
#[derive(Debug)]
pub struct Mouse {
    pub drag: Option<Drag>,
    pub last_click: Option<(Click, u64)>,
}

/// Whether two clicks landed on the same row.
pub open spec fn same_click(a: Click, b: Click) -> bool {
    a.queue == b.queue && a.revision == b.revision && a.index == b.index && a.identity@ == b.identity@
}

/// `app` with the pointer hovering at `point` since `now_ms` (unchanged while it stays).
pub open spec fn hovered(app: App, point: (i32, i32), now_ms: u64) -> App {
    if app.ui.hover == Some(point) {
        app
    } else {
        App { ui: Ui { hover: Some(point), hover_since: now_ms, ..app.ui }, ..app }
    }
}

/// The pane a click at `point` focuses: the side pane, the navigation or the main list
/// holding it, or `current` when none does.
pub open spec fn pointer_focus(layout: Layout, point: (i32, i32), current: Focus) -> Focus {
    if layout.side matches Some(a) && holds(a, point) {
        Focus::Right
    } else if layout.nav matches Some(a) && holds(a, point) {
        Focus::Nav
    } else if holds(layout.main, point) {
        Focus::Main
    } else {
        current
    }
}

/// Where along `area` the column `x` lies, in `scale` steps from its left edge to its
/// right edge, bounded to the bar.
pub open spec fn bar_value(x: int, area: Area, scale: int) -> int {
    let span: int = if area.w - 1 > 1 { area.w - 1 } else { 1 };
    if x - area.x <= 0 {
        0
    } else {
        bounded((x - area.x) * scale / span, 0, scale)
    }
}

/// Whether `new_mouse` and `new_app` are `mouse` and `app` after the dragged bar followed
/// the column `x`: the volume follows; the seek bar seeks while its entry still plays;
/// otherwise the drag ends.
pub open spec fn slid(mouse: Mouse, app: App, new_mouse: Mouse, new_app: App, x: int) -> bool {
    match mouse.drag {
        Some(Drag::Volume(area)) => new_mouse == mouse && volume_moved(
            app,
            new_app,
            bar_value(x, area, FULL_VOLUME as int),
        ),
        Some(Drag::Seek(area, entry)) => if app.data@.player matches Some(p) && p.current_entry_id matches Some(
            e,
        ) && e@ == entry@ {
            &&& new_mouse == mouse
            &&& match current_item(app.data@) {
                Some(i) if i.duration_ms is Some => seeked(
                    app,
                    new_app,
                    bounded(bar_value(x, area, i.duration_ms->0 as int), 0, i64::MAX as int),
                ),
                _ => new_app == app,
            }
        } else {
            new_mouse == Mouse { drag: None, ..mouse } && new_app == app
        },
        None => new_mouse == mouse && new_app == app,
    }
}

/// The identity of row `index` of the queue or the main list, if there is such a row.
pub open spec fn row_identity(app: App, index: usize, queue: bool) -> Option<Seq<char>> {
    if queue {
        match app.data@.queue {
            Some(q) => if index < q.entries.len() {
                Some(q.entries[index as int].id@)
            } else {
                None
            },
            None => None,
        }
    } else if index < app.data@.items.len() {
        Some(item_key_spec(app.data@.items[index as int].item_ref@))
    } else {
        None
    }
}

/// Whether `new_app` is `app` with the row `index` of the queue (or main list) selected
/// and its pane focused.
pub open spec fn row_selected(app: App, new_app: App, index: usize, queue: bool) -> bool {
    let at: int = if queue { 1 } else { 0 };
    &&& new_app == App {
        ui: Ui { focus: if queue { Focus::Right } else { Focus::Main }, cursors: new_app.ui.cursors, ..app.ui },
        ..app
    }
    &&& new_app.ui.cursors[at] == index
    &&& new_app.ui.cursors[1 - at] == app.ui.cursors[1 - at]
}

/// Whether `new_mouse` and `new_app` are `mouse` and `app` after a click at `now_ms` on
/// the row `index` of the queue (or main list) drawn with the identity `key`: a row that
/// changed since it was drawn is ignored; otherwise the row is selected, and a second
/// click on it within the double-click time acts on it.
pub open spec fn row_clicked(
    mouse: Mouse,
    app: App,
    new_mouse: Mouse,
    new_app: App,
    index: usize,
    queue: bool,
    key: Seq<char>,
    now_ms: u64,
) -> bool {
    if row_identity(app, index, queue) != Some(key) {
        new_mouse == Mouse { last_click: None, ..mouse } && new_app == app
    } else {
        let revision = if queue { 0 } else { app.navigation_revision };
        let at = if queue { 0 } else { index };
        let double = mouse.last_click matches Some((previous, since)) && previous.queue == queue && previous.revision
            == revision && previous.index == at && previous.identity@ == key && now_ms < since + DOUBLE_CLICK_MS;
        if double {
            &&& new_mouse == Mouse { last_click: None, ..mouse }
            &&& exists|chosen: App| #[trigger] row_selected(app, chosen, index, queue) && activated(chosen, new_app)
        } else {
            &&& new_mouse.drag == mouse.drag
            &&& new_mouse.last_click matches Some((c, t)) && c.queue == queue && c.revision == revision && c.index == at
                && c.identity@ == key && t == now_ms
            &&& row_selected(app, new_app, index, queue)
        }
    }
}

/// Whether `new_mouse` and `new_app` are `mouse` and `app` after a left click on `hit` at
/// `point` (see `Mouse::handle`), and `going` whether the interface goes on.
pub open spec fn hit_clicked(
    mouse: Mouse,
    app: App,
    new_mouse: Mouse,
    new_app: App,
    hit: Hit,
    point: (i32, i32),
    layout: Layout,
    now_ms: u64,
    unix_ms: u64,
    going: bool,
) -> bool {
    let open_dialog = app.ui.dialog is Some;
    let allowed = hit.action is Dialog || (hit.action matches Action::Key(k) && (k@ == "M"@ || k@ == "esc"@));
    let d = App { ui: Ui { editor: None, ..app.ui }, ..app };
    let cleared = Mouse { drag: None, last_click: if hit.action is Select { mouse.last_click } else { None } };
    if open_dialog && !allowed {
        new_mouse == mouse && new_app == app && going
    } else {
        match hit.action {
            Action::Key(k) => new_mouse == cleared && keyed(d, new_app, k@, layout, now_ms, unix_ms) && going == !(k@
                == "ctrl-c"@ || k@ == "q"@),
            Action::Go(view) => new_mouse == cleared && went_to(d, new_app, view) && going,
            Action::Collection(id) => new_mouse == cleared && opened(
                d,
                new_app,
                ItemRef { id, kind: Kind::Playlist, source: Source::Collection },
            ) && going,
            Action::Open(item) => new_mouse == cleared && opened(d, new_app, item) && going,
            Action::Select { index, queue, key } => row_clicked(cleared, d, new_mouse, new_app, index, queue, key@, now_ms)
                && going,
            Action::Favorite(item) => new_mouse == cleared && favorite_marked(d, new_app, item, now_ms) && going,
            Action::Seek => {
                let entry = match d.data@.player {
                    Some(p) => p.current_entry_id,
                    None => None,
                };
                let dragged = Mouse {
                    drag: match entry {
                        Some(e) => Some(Drag::Seek(hit.area, e)),
                        None => None,
                    },
                    ..cleared
                };
                slid(dragged, d, new_mouse, new_app, point.0 as int) && going
            },
            Action::Volume => slid(
                Mouse { drag: Some(Drag::Volume(hit.area)), ..cleared },
                d,
                new_mouse,
                new_app,
                point.0 as int,
            ) && going,
            Action::Dialog(index) => new_mouse == cleared && going && match d.ui.dialog {
                Some(dialog) => exists|highlighted: App|
                    #[trigger] highlight_at(d, highlighted, index) && dialog_chosen(highlighted, new_app),
                None => new_app == d,
            },
        }
    }
}

/// Whether `new_app` is `app` with the highlight of its open dialog on row `index`, or on
/// its last row when there are fewer.
pub open spec fn highlight_at(app: App, new_app: App, index: usize) -> bool {
    let dialog = app.ui.dialog->0;
    let delta = bounded(index - dialog.cursor_spec(), i32::MIN as int, i32::MAX as int);
    &&& app.ui.dialog is Some
    &&& new_app == App { ui: Ui { dialog: new_app.ui.dialog, ..app.ui }, ..app }
    &&& new_app.ui.dialog matches Some(moved) && dialog_moved(dialog, moved, delta, dialog_row_count(dialog, app.data@))
}

/// Whether `new_mouse` and `new_app` are `mouse` and `app` after a press, release or
/// scroll of kind `kind` at `point` (the tour stopped and the pointer hovering): open help
/// closes on a left click (unless on the settings entry); a click with no text field or
/// dialog open focuses the pane under it; scrolling moves a dialog's highlight or the
/// selection; a left click acts on the region drawn topmost there.
pub open spec fn pressed_at(
    mouse: Mouse,
    app: App,
    new_mouse: Mouse,
    new_app: App,
    kind: PointerKind,
    point: (i32, i32),
    layout: Layout,
    hits: Seq<Hit>,
    now_ms: u64,
    unix_ms: u64,
    going: bool,
) -> bool {
    if app.ui.help {
        &&& new_mouse == mouse
        &&& if kind == PointerKind::Down(Button::Left) {
            match last_holding(hits, point) {
                Some(i) if hits[i].action matches Action::Key(k) && k@ == ","@ => keyed(
                    app,
                    new_app,
                    ","@,
                    layout,
                    now_ms,
                    unix_ms,
                ) && going,
                _ => new_app == App { ui: Ui { help: false, ..app.ui }, ..app } && going,
            }
        } else {
            new_app == app && going
        }
    } else {
        let c = if app.ui.dialog is None && app.ui.editor is None {
            App { ui: Ui { focus: pointer_focus(layout, point, app.ui.focus), ..app.ui }, ..app }
        } else {
            app
        };
        let scroll: int = match kind {
            PointerKind::ScrollUp => -1,
            PointerKind::ScrollDown => 1,
            _ => 0,
        };
        if scroll != 0 {
            &&& new_mouse == Mouse { drag: None, last_click: None }
            &&& going
            &&& if c.ui.dialog is Some {
                &&& new_app == App { ui: Ui { dialog: new_app.ui.dialog, ..c.ui }, ..c }
                &&& new_app.ui.dialog matches Some(moved) && dialog_moved(
                    c.ui.dialog->0,
                    moved,
                    scroll,
                    dialog_row_count(c.ui.dialog->0, c.data@),
                )
            } else if c.ui.editor is None {
                selection_moved(c, new_app, scroll, unix_ms)
            } else {
                new_app == c
            }
        } else if kind != PointerKind::Down(Button::Left) {
            new_mouse == mouse && new_app == c && going
        } else {
            match last_holding(hits, point) {
                None => new_mouse == mouse && new_app == c && going,
                Some(i) => hit_clicked(mouse, c, new_mouse, new_app, hits[i], point, layout, now_ms, unix_ms, going),
            }
        }
    }
}

/// Whether `new_mouse` and `new_app` are `mouse` and `app` after the pointer event
/// `event` at `now_ms` (see `Mouse::handle`), and `going` whether the interface goes on.
pub open spec fn pointed(
    mouse: Mouse,
    app: App,
    new_mouse: Mouse,
    new_app: App,
    event: Pointer,
    layout: Layout,
    hits: Seq<Hit>,
    now_ms: u64,
    unix_ms: u64,
    going: bool,
) -> bool {
    let point = (event.column as i32, event.row as i32);
    let a = hovered(app, point, now_ms);
    match event.kind {
        PointerKind::Up(_) => new_mouse == Mouse { drag: None, ..mouse } && new_app == a && going,
        PointerKind::Drag(Button::Left) => slid(mouse, a, new_mouse, new_app, point.0 as int) && going,
        PointerKind::Moved | PointerKind::Drag(_) => new_mouse == mouse && new_app == a && going,
        _ => pressed_at(
            mouse,
            App { ui: Ui { tour: None, ..a.ui }, ..a },
            new_mouse,
            new_app,
            event.kind,
            point,
            layout,
            hits,
            now_ms,
            unix_ms,
            going,
        ),
    }
}

/// The pane a click at `point` focuses (see `pointer_focus`).
fn pane_at(layout: Layout, point: (i32, i32), current: Focus) -> (focus: Focus)
    ensures
        focus == pointer_focus(layout, point, current),
{
    if let Some(a) = layout.side {
        if a.contains(point) {
            return Focus::Right;
        }
    }
    if let Some(a) = layout.nav {
        if a.contains(point) {
            return Focus::Nav;
        }
    }
    if layout.main.contains(point) {
        Focus::Main
    } else {
        current
    }
}

/// Where along `area` the column `x` lies, in `scale` steps (see `bar_value`).
fn bar_level(x: i32, area: Area, scale: u64) -> (value: u64)
    ensures
        value == bar_value(x as int, area, scale as int),
{
    let offset: i64 = x as i64 - area.x as i64;
    if offset <= 0 {
        return 0;
    }
    let span: i64 = if area.w as i64 - 1 > 1 { area.w as i64 - 1 } else { 1 };
    assert(0 < offset <= 0x1_0000_0000 && scale <= u64::MAX);
    assert(offset * scale <= 0x1_0000_0000 * u64::MAX) by (nonlinear_arith)
        requires
            0 < offset <= 0x1_0000_0000,
            scale <= u64::MAX,
    ;
    let product: u128 = offset as u128 * scale as u128;
    let steps: u128 = product / span as u128;
    if steps > scale as u128 {
        scale
    } else {
        steps as u64
    }
}

impl Default for Mouse {
    fn default() -> (mouse: Mouse)
        ensures
            mouse.drag is None,
            mouse.last_click is None,
    {
        Mouse { drag: None, last_click: None }
    }
}

impl Mouse {
    /// Forgets the drag and the last click.
    pub fn reset(&mut self)
        ensures
            *final(self) == (Mouse { drag: None, last_click: None }),
    {
        self.drag = None;
        self.last_click = None;
    }

    /// Follows the dragged bar to the column `x` (see `slid`).
    fn slide(&mut self, app: &mut App, x: i32)
        requires
            old(app).wf(),
        ensures
            final(app).wf(),
            slid(*old(self), *old(app), *final(self), *final(app), x as int),
    {
        let (volume, seek) = match &self.drag {
            Some(Drag::Volume(area)) => (Some(*area), None),
            Some(Drag::Seek(area, entry)) => {
                let playing = match &app.data.player {
                    Some(p) => match &p.current_entry_id {
                        Some(e) => same_text(e.as_str(), entry.as_str()),
                        None => false,
                    },
                    None => false,
                };
                (None, Some((*area, playing)))
            },
            None => (None, None),
        };
        if let Some(area) = volume {
            let level = bar_level(x, area, FULL_VOLUME as u64);
            app.volume_to(level as i64);
        } else if let Some((area, playing)) = seek {
            if playing {
                let duration = match app.data.current() {
                    Some(i) => i.duration_ms,
                    None => None,
                };
                if let Some(d) = duration {
                    let at = bar_level(x, area, d);
                    app.seek(if at > i64::MAX as u64 { i64::MAX } else { at as i64 });
                }
            } else {
                self.drag = None;
            }
        }
    }

    /// Handles the pointer event `event` at `now_ms` (and the wall clock `unix_ms`) over a
    /// frame whose panes are `layout` and whose clickable regions are `hits`, in drawing
    /// order (see `pointed`); says whether the interface goes on.
    pub fn handle(
        &mut self,
        app: &mut App,
        event: Pointer,
        layout: Layout,
        hits: &Vec<Hit>,
        now_ms: u64,
        unix_ms: u64,
    ) -> (going: bool)
        requires
            old(app).wf(),
            old(app).navigation_revision < u64::MAX - 1,
        ensures
            final(app).wf(),
            pointed(*old(self), *old(app), *final(self), *final(app), event, layout, hits@, now_ms, unix_ms, going),
    {
        let point = (event.column as i32, event.row as i32);
        let resting = match app.ui.hover {
            Some(p) => p.0 == point.0 && p.1 == point.1,
            None => false,
        };
        if !resting {
            app.ui.hover = Some(point);
            app.ui.hover_since = now_ms;
        }
        match event.kind {
            PointerKind::Up(_) => {
                self.drag = None;
                return true;
            },
            PointerKind::Drag(Button::Left) => {
                self.slide(app, point.0);
                return true;
            },
            PointerKind::Moved | PointerKind::Drag(_) => {
                return true;
            },
            _ => {},
        }
        app.ui.tour = None;
        self.press(app, event.kind, point, layout, hits, now_ms, unix_ms)
    }

    /// Handles a press, release or scroll (see `pressed_at`).
    fn press(
        &mut self,
        app: &mut App,
        kind: PointerKind,
        point: (i32, i32),
        layout: Layout,
        hits: &Vec<Hit>,
        now_ms: u64,
        unix_ms: u64,
    ) -> (going: bool)
        requires
            old(app).wf(),
            old(app).navigation_revision < u64::MAX - 1,
        ensures
            final(app).wf(),
            pressed_at(*old(self), *old(app), *final(self), *final(app), kind, point, layout, hits@, now_ms, unix_ms, going),
    {
        if app.ui.help {
            return help_click(app, kind, point, layout, hits, now_ms, unix_ms);
        }
        if app.ui.dialog.is_none() && app.ui.editor.is_none() {
            let focus = pane_at(layout, point, app.ui.focus);
            app.ui.focus = focus;
        }
        let scroll: i32 = match kind {
            PointerKind::ScrollUp => -1,
            PointerKind::ScrollDown => 1,
            _ => 0,
        };
        if scroll != 0 {
            self.reset();
            if app.ui.dialog.is_some() {
                app.move_highlight(scroll);
            } else if app.ui.editor.is_none() {
                app.move_selection(scroll, unix_ms);
            }
            return true;
        }
        if kind != PointerKind::Down(Button::Left) {
            return true;
        }
        match topmost(hits, point) {
            None => true,
            Some(i) => self.click(app, &hits[i], point, layout, now_ms, unix_ms),
        }
    }

    /// Acts on a left click on `hit` at `point` (see `hit_clicked`).
    fn click(&mut self, app: &mut App, hit: &Hit, point: (i32, i32), layout: Layout, now_ms: u64, unix_ms: u64) -> (going: bool)
        requires
            old(app).wf(),
            old(app).navigation_revision < u64::MAX - 1,
        ensures
            final(app).wf(),
            hit_clicked(*old(self), *old(app), *final(self), *final(app), *hit, point, layout, now_ms, unix_ms, going),
    {
        let allowed = match &hit.action {
            Action::Dialog(_) => true,
            Action::Key(k) => same_text(k, "M") || same_text(k, "esc"),
            _ => false,
        };
        if app.ui.dialog.is_some() && !allowed {
            return true;
        }
        app.ui.editor = None;
        self.drag = None;
        if !matches!(hit.action, Action::Select { .. }) {
            self.last_click = None;
        }
        match &hit.action {
            Action::Key(k) => {
                return app.key(k, layout, now_ms, unix_ms);
            },
            Action::Go(view) => {
                app.go(*view);
            },
            Action::Collection(id) => {
                app.open(ItemRef { id: id.clone(), kind: Kind::Playlist, source: Source::Collection });
            },
            Action::Open(item) => {
                app.open(item.duplicate());
            },
            Action::Select { index, queue, key } => {
                self.click_row(app, *index, *queue, key, now_ms);
            },
            Action::Favorite(item) => {
                app.favorite_at(item.duplicate(), now_ms);
            },
            Action::Seek => {
                let entry = match &app.data.player {
                    Some(p) => match &p.current_entry_id {
                        Some(e) => Some(e.clone()),
                        None => None,
                    },
                    None => None,
                };
                self.drag = match entry {
                    Some(e) => Some(Drag::Seek(hit.area, e)),
                    None => None,
                };
                self.slide(app, point.0);
            },
            Action::Volume => {
                self.drag = Some(Drag::Volume(hit.area));
                self.slide(app, point.0);
            },
            Action::Dialog(index) => {
                click_dialog(app, *index);
            },
        }
        true
    }

    /// Acts on a click at `now_ms` on row `index` of the queue (or main list) drawn with
    /// the identity `key` (see `row_clicked`).
    fn click_row(&mut self, app: &mut App, index: usize, queue: bool, key: &String, now_ms: u64)
        requires
            old(app).wf(),
            old(app).navigation_revision < u64::MAX,
        ensures
            final(app).wf(),
            row_clicked(*old(self), *old(app), *final(self), *final(app), index, queue, key@, now_ms),
    {
        let identity = app.data.row_key(index, queue);
        let same = match &identity {
            Some(i) => same_text(i.as_str(), key.as_str()),
            None => false,
        };
        if !same {
            self.last_click = None;
            return;
        }
        app.ui.focus = if queue { Focus::Right } else { Focus::Main };
        app.ui.cursors.set(if queue { 1 } else { 0 }, index);
        let ghost chosen = *app;
        let revision = if queue { 0 } else { app.navigation_revision };
        let at = if queue { 0 } else { index };
        let double = match &self.last_click {
            Some((previous, since)) => previous.queue == queue && previous.revision == revision && previous.index == at
                && same_text(previous.identity.as_str(), key.as_str()) && (*since > u64::MAX - DOUBLE_CLICK_MS || now_ms
                < *since + DOUBLE_CLICK_MS),
            None => false,
        };
        if double {
            app.activate();
            self.last_click = None;
            assert(row_selected(*old(app), chosen, index, queue));
        } else {
            self.last_click = Some((Click { queue, revision, index: at, identity: key.clone() }, now_ms));
        }
    }
}

/// Handles a press while help is open: a left click on the settings entry opens the
/// settings, any other left click closes help.
fn help_click(
    app: &mut App,
    kind: PointerKind,
    point: (i32, i32),
    layout: Layout,
    hits: &Vec<Hit>,
    now_ms: u64,
    unix_ms: u64,
) -> (going: bool)
    requires
        old(app).wf(),
        old(app).navigation_revision < u64::MAX - 1,
        old(app).ui.help,
    ensures
        final(app).wf(),
        if kind == PointerKind::Down(Button::Left) {
            match last_holding(hits@, point) {
                Some(i) if hits@[i].action matches Action::Key(k) && k@ == ","@ => keyed(
                    *old(app),
                    *final(app),
                    ","@,
                    layout,
                    now_ms,
                    unix_ms,
                ) && going,
                _ => *final(app) == (App { ui: Ui { help: false, ..old(app).ui }, ..*old(app) }) && going,
            }
        } else {
            *final(app) == *old(app) && going
        },
{
    if kind != PointerKind::Down(Button::Left) {
        return true;
    }
    let settings = match topmost(hits, point) {
        Some(i) => match &hits[i].action {
            Action::Key(k) => same_text(k, ","),
            _ => false,
        },
        None => false,
    };
    if settings {
        proof {
            reveal_strlit(",");
            reveal_strlit("ctrl-c");
            reveal_strlit("q");
            assert(","@ != "ctrl-c"@ && ","@ != "q"@) by {
                assert(","@.len() != "ctrl-c"@.len());
                assert(","@[0] != "q"@[0]);
            }
        }
        return app.key(",", layout, now_ms, unix_ms);
    }
    app.ui.help = false;
    true
}

/// Highlights row `index` of the open dialog and chooses it.
fn click_dialog(app: &mut App, index: usize)
    requires
        old(app).wf(),
        old(app).navigation_revision < u64::MAX - 1,
    ensures
        final(app).wf(),
        match old(app).ui.dialog {
            Some(dialog) => exists|highlighted: App|
                #[trigger] highlight_at(*old(app), highlighted, index) && dialog_chosen(highlighted, *final(app)),
            None => *final(app) == *old(app),
        },
{
    let cursor = match &app.ui.dialog {
        Some(d) => d.cursor(),
        None => return,
    };
    let wanted: i128 = index as i128 - cursor as i128;
    let delta: i32 = if wanted > i32::MAX as i128 {
        i32::MAX
    } else if wanted < i32::MIN as i128 {
        i32::MIN
    } else {
        wanted as i32
    };
    app.move_highlight(delta);
    let ghost highlighted = *app;
    app.choose_dialog();
    assert(highlight_at(*old(app), highlighted, index));
}

} // verus!
