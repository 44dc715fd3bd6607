//! What the keyboard does: typing in a text field, moving in a dialog, and the commands
//! of the main screen; the guided tour.
use crate::choices::{collections_of, first_collection};
use crate::controller::{App, loaded_more, opened, queue_read, refreshed, sent_to, went_to, without};
use crate::controls::{bounded, current_item, lyrics_focused, queued_focus, sent_plainly};
use crate::data::active_line;
use crate::editing::insertion;
use crate::protocol::{Command, ErrorCode, Failure, ItemRef, Source};
use crate::state::{EditAction, Editor, Focus, NAV_LEN, Screen, Ui, limit_spec};
use crate::target::{Target, TargetView, lookup};
use crate::text::{chars_of, join_chars, string_of};
use crate::theme::THEME_COUNT;
use vstd::prelude::*;

verus! {

broadcast use vstd::std_specs::vec::group_vec_axioms;

/// How long a typed search waits before it runs, in milliseconds.
pub const SEARCH_DELAY_MS: u64 = 180;

/// How long each step of the guided tour lasts, in milliseconds.
pub const TOUR_STEP_MS: u64 = 5000;

/// `a + b`, or the largest `u64` when that is larger.
pub open spec fn saturating_sum(a: u64, b: u64) -> u64 {
    if a + b > u64::MAX { u64::MAX } else { (a + b) as u64 }
}

/// Whether `new` is `old` with a text field for `action` open, holding the sanitized
/// start of `buffer`, and nothing else changed.
pub open spec fn editing(old: App, new: App, action: EditAction, buffer: Seq<char>) -> bool {
    &&& new == App { ui: Ui { editor: new.ui.editor, ..old.ui }, ..old }
    &&& new.ui.editor matches Some(e) && e.wf() && e.action == action && (e.buffer@, e.cursor as int) == insertion(
        Seq::empty(),
        0,
        limit_spec(action) as int,
        buffer,
    )
}

/// Whether `new` is `old` after the search field changed at `now_ms`: the typed text is
/// the query, the main list starts over from its first row and loads anew, and the
/// search runs once typing pauses. Other fields change nothing else.
pub open spec fn search_changed_spec(old: App, new: App, now_ms: u64) -> bool {
    match old.ui.editor {
        Some(e) if e.action is Search => {
            &&& new.queue() == without(old.queue(), TargetView::Main)
            &&& new.requests@ == old.requests@.after_invalidate(TargetView::Main)
            &&& new.data@ == old.data@.after_cancel(TargetView::Main).after_begin(TargetView::Main, 0)
            &&& new.ui == Ui { query: e.buffer, cursors: new.ui.cursors, ..old.ui }
            &&& new.ui.cursors[0] == 0
            &&& new.ui.cursors[1] == old.ui.cursors[1]
            &&& new.search_due_ms == Some(saturating_sum(now_ms, SEARCH_DELAY_MS))
            &&& new.same_navigation(&App { ui: new.ui, search_due_ms: new.search_due_ms, ..old })
        },
        _ => new == old,
    }
}

/// Whether `new` is `old` after retrying the main list: a refused authorization asks
/// for it again; anything else reloads the backend state and the main list.
pub open spec fn retried(old: App, new: App) -> bool {
    match lookup(old.data@.errors, TargetView::Main) {
        Some(f) if f.code == ErrorCode::NotAuthorized => sent_plainly(
            old,
            new,
            TargetView::Mutation,
            |c: Command| c == Command::Authorize,
        ),
        _ => exists|mid: App|
            {
                &&& sent_plainly(old, mid, TargetView::Bootstrap, |c: Command| c == Command::Snapshot)
                &&& refreshed(App { refresh_extent: 0, ..mid }, new, 0)
                &&& new.same_navigation(&App { refresh_extent: 0, ..mid })
            },
    }
}

/// The saved playlist the open container names, if the store lists it.
pub open spec fn open_saved_playlist(app: App) -> Option<crate::protocol::Collection> {
    match app.focused_detail_spec() {
        Some(d) if d.source == Source::Collection => match first_collection(collections_of(app), d.id@) {
            Some(k) => Some(collections_of(app)[k]),
            None => None,
        },
        _ => None,
    }
}

/// The lyrics line a manual scroll starts from, in thousandths of a line: the chosen
/// position, or the line before the one playing at `unix_ms`.
pub open spec fn lyric_start(app: App, unix_ms: u64) -> int {
    match app.ui.lyric_manual {
        Some(m) => m as int,
        None => {
            let line = match active_line(app.data@.lyrics, app.data@.position_at(unix_ms)) {
                Some(l) => l as int,
                None => 0,
            };
            (if line > 0 { line - 1 } else { 0 }) * 1000
        },
    }
}

/// The rows of the focused list: the loaded queue entries or the main rows.
pub open spec fn row_count(app: App) -> int {
    if queued_focus(app.ui) {
        match app.data@.queue {
            Some(q) => q.entries.len() as int,
            None => 0,
        }
    } else {
        app.data@.items.len() as int
    }
}

/// Whether `new` is `old` after moving the selection by `delta` rows (see
/// `App::move_selection`).
pub open spec fn selection_moved(old: App, new: App, delta: int, unix_ms: u64) -> bool {
    if old.ui.focus == Focus::Nav {
        new == App {
            ui: Ui { nav_cursor: bounded(old.ui.nav_cursor + delta, 0, NAV_LEN - 1) as usize, ..old.ui },
            ..old
        }
    } else if lyrics_focused(old.ui) {
        let count: int = match old.data@.lyrics {
            Some(l) => l.lines@.len() as int,
            None => 0,
        };
        let last: int = if count > 0 { (count - 1) * 1000 } else { 0 };
        new == App {
            ui: Ui {
                lyric_manual: Some(bounded(lyric_start(old, unix_ms) + delta * 1000, 0, last) as u64),
                ..old.ui
            },
            ..old
        }
    } else {
        let queue = queued_focus(old.ui);
        let index: int = if queue { 1 } else { 0 };
        let count = row_count(old);
        let cursor = bounded(old.ui.cursors[index] + delta, 0, if count > 0 { count - 1 } else { 0 });
        let mid = App { ui: Ui { cursors: new.ui.cursors, ..old.ui }, ..old };
        &&& new.ui.cursors[index] == cursor
        &&& new.ui.cursors[1 - index] == old.ui.cursors[1 - index]
        &&& if delta > 0 && cursor + 1 >= count {
            if queue {
                match old.data@.queue {
                    Some(q) if q.next_offset is Some && lookup(old.data@.loading, TargetView::Queue) is None => {
                        &&& sent_to(
                            mid,
                            new,
                            TargetView::Queue,
                            q.next_offset->0,
                            |c: Command| queue_read(c, mid.data@, q.next_offset->0),
                        )
                        &&& new.same_navigation(&mid)
                    },
                    _ => new == mid,
                }
            } else {
                loaded_more(mid, new)
            }
        } else {
            new == mid
        }
    }
}

/// Whether `new` is `old` after the tour's first step: the next theme, and the album of
/// the playing track (or the track) opened, or the home view without one.
pub open spec fn tour_began(old: App, new: App) -> bool {
    let themed = App { ui: Ui { theme: ((old.ui.theme + 1) % (THEME_COUNT as int)) as usize, ..old.ui }, ..old };
    match current_item(old.data@) {
        Some(item) => opened(
            themed,
            new,
            match item.album_ref {
                Some(album) => album,
                None => item.item_ref,
            },
        ),
        None => went_to(themed, new, Screen::Home),
    }
}

/// The step of the tour started at `start` reached at `now_ms`.
pub open spec fn tour_step_at(start: u64, now_ms: u64) -> u64 {
    if now_ms > start { ((now_ms - start) / (TOUR_STEP_MS as int)) as u64 } else { 0 }
}

/// Whether `new` is `old` after the tour was advanced to `now_ms`, and whether it moved
/// on (see `App::tour`): each five seconds it shows the next of the playing album, the
/// search, the albums, the playlists and the songs.
pub open spec fn toured(old: App, new: App, now_ms: u64, moved: bool) -> bool {
    match old.ui.tour {
        None => !moved && new == old,
        Some(start) => {
            let step = tour_step_at(start, now_ms);
            if step == old.ui.tour_step {
                !moved && new == old
            } else {
                let next = App { ui: Ui { tour_step: step, ..old.ui }, ..old };
                &&& moved
                &&& match step % 5 {
                    0 => tour_began(next, new),
                    1 => went_to(next, new, Screen::Search),
                    2 => went_to(next, new, Screen::Albums),
                    3 => went_to(next, new, Screen::Playlists),
                    _ => went_to(next, new, Screen::Songs),
                }
            }
        },
    }
}

impl App {
    /// Follows a change of the search field at `now_ms` (see `search_changed_spec`).
    pub fn search_changed(&mut self, now_ms: u64)
        requires
            old(self).wf(),
        ensures
            final(self).wf(),
            search_changed_spec(*old(self), *final(self), now_ms),
    {
        let query = match &self.ui.editor {
            Some(e) => if let EditAction::Search = e.action {
                e.buffer.clone()
            } else {
                return;
            },
            None => return,
        };
        self.ui.query = query;
        self.ui.cursors.set(0, 0);
        self.invalidate_target(Target::Main);
        self.data.begin(Target::Main, 0);
        self.search_due_ms = Some(if now_ms <= u64::MAX - SEARCH_DELAY_MS {
            now_ms + SEARCH_DELAY_MS
        } else {
            u64::MAX
        });
    }

    /// Inserts pasted `text` into the open text field at `now_ms`; without a field
    /// nothing happens.
    pub fn paste(&mut self, text: &str, now_ms: u64)
        requires
            old(self).wf(),
        ensures
            final(self).wf(),
            match old(self).ui.editor {
                Some(e) => exists|typed: Editor|
                    {
                        &&& typed.wf()
                        &&& typed.action == e.action
                        &&& (typed.buffer@, typed.cursor as int) == insertion(
                            e.buffer@,
                            e.cursor as int,
                            limit_spec(e.action) as int,
                            text@,
                        )
                        &&& search_changed_spec(
                            App { ui: Ui { editor: Some(typed), ..old(self).ui }, ..*old(self) },
                            *final(self),
                            now_ms,
                        )
                    },
                None => *final(self) == *old(self),
            },
    {
        let mut editor = match self.ui.editor.take() {
            Some(e) => e,
            None => return,
        };
        editor.insert(text);
        self.ui.editor = Some(editor);
        self.search_changed(now_ms);
    }

    /// Retries the main list (see `retried`).
    pub fn retry(&mut self)
        requires
            old(self).wf(),
        ensures
            final(self).wf(),
            retried(*old(self), *final(self)),
    {
        let refused = match self.data.errors.get(&Target::Main) {
            Some(f) => f.code == ErrorCode::NotAuthorized,
            None => false,
        };
        if refused {
            self.send_plainly(Command::Authorize, Target::Mutation);
        } else {
            self.send_plainly(Command::Snapshot, Target::Bootstrap);
            let ghost mid = *self;
            self.refresh(0);
        }
    }

    /// Opens a lyrics search for the playing track, starting from its artist and title.
    pub fn find_lyrics(&mut self)
        ensures
            match current_item(old(self).data@) {
                Some(item) => editing(
                    *old(self),
                    *final(self),
                    EditAction::Lyrics(item.item_ref),
                    item.artist@ + " "@ + item.title@,
                ),
                None => *final(self) == *old(self),
            },
    {
        let (reference, query) = match self.data.current() {
            Some(item) => {
                let spaced = join_chars(&chars_of(item.artist.as_str()), &chars_of(" "));
                let query = join_chars(&spaced, &chars_of(item.title.as_str()));
                (item.item_ref.duplicate(), string_of(query.as_slice()))
            },
            None => return,
        };
        proof {
            reveal_strlit(" ");
        }
        self.edit(EditAction::Lyrics(reference), query);
    }

    /// Opens the field renaming the saved playlist that is open, starting from its name.
    pub fn rename(&mut self)
        requires
            old(self).wf(),
        ensures
            match open_saved_playlist(*old(self)) {
                Some(c) => editing(*old(self), *final(self), EditAction::Rename(c.id), c.name@),
                None => *final(self) == *old(self),
            },
    {
        let (id, name) = match self.focused_detail() {
            Some(d) => if d.source == Source::Collection {
                match &self.data.store {
                    Some(store) => match crate::choices::find_collection(&store.collections, &d.id) {
                        Some(k) => (store.collections[k].id.clone(), store.collections[k].name.clone()),
                        None => return,
                    },
                    None => return,
                }
            } else {
                return;
            },
            None => return,
        };
        self.edit(EditAction::Rename(id), name);
    }

    /// Moves the selection of the focused pane by `delta` rows: the navigation cursor,
    /// the manual lyrics position (starting from the line before the one playing at
    /// `unix_ms`), or the queue or main cursor, within their rows; moving down past the
    /// last row loads more rows when there are more.
    pub fn move_selection(&mut self, delta: i32, unix_ms: u64)
        requires
            old(self).wf(),
        ensures
            final(self).wf(),
            selection_moved(*old(self), *final(self), delta as int, unix_ms),
    {
        if self.ui.focus == Focus::Nav {
            let wanted: i64 = self.ui.nav_cursor as i64 + delta as i64;
            self.ui.nav_cursor = if wanted < 0 {
                0
            } else if wanted > (NAV_LEN - 1) as i64 {
                NAV_LEN - 1
            } else {
                wanted as usize
            };
            return;
        }
        if self.ui.lyrics_focus() {
            self.scroll_lyrics(delta, unix_ms);
            return;
        }
        self.move_in_list(delta);
    }

    /// Moves the queue or main cursor by `delta` rows (see `selection_moved`).
    #[verifier::spinoff_prover]
    fn move_in_list(&mut self, delta: i32)
        requires
            old(self).wf(),
            old(self).ui.focus != Focus::Nav,
            !lyrics_focused(old(self).ui),
        ensures
            final(self).wf(),
            selection_moved(*old(self), *final(self), delta as int, 0),
    {
        let queue = self.ui.queue_focus();
        let index: usize = if queue { 1 } else { 0 };
        let count: usize = if queue {
            match &self.data.queue {
                Some(q) => q.entries.len(),
                None => 0,
            }
        } else {
            self.data.items.len()
        };
        let last: i128 = if count > 0 { count as i128 - 1 } else { 0 };
        let wanted: i128 = self.ui.cursors[index] as i128 + delta as i128;
        let cursor: usize = if wanted < 0 {
            0
        } else if wanted > last {
            last as usize
        } else {
            wanted as usize
        };
        self.place_cursor(index, cursor);
        let ghost placed = *self;
        if delta > 0 && cursor as u128 + 1 >= count as u128 {
            self.load_past(queue);
        }
        assert(self.ui == placed.ui);
        assert(placed == App { ui: Ui { cursors: self.ui.cursors, ..old(self).ui }, ..*old(self) });
    }

    /// Puts the cursor `index` (main or queue) at `cursor`.
    fn place_cursor(&mut self, index: usize, cursor: usize)
        requires
            index < 2,
        ensures
            *final(self) == (App { ui: Ui { cursors: final(self).ui.cursors, ..old(self).ui }, ..*old(self) }),
            final(self).ui.cursors[index as int] == cursor,
            final(self).ui.cursors[1 - index as int] == old(self).ui.cursors[1 - index as int],
    {
        self.ui.cursors.set(index, cursor);
    }

    /// Loads more rows of the queue (when it has more and is not loading) or of the main
    /// list, after the selection moved past the last loaded row.
    fn load_past(&mut self, queue: bool)
        requires
            old(self).wf(),
        ensures
            final(self).wf(),
            if queue {
                match old(self).data@.queue {
                    Some(q) if q.next_offset is Some && lookup(old(self).data@.loading, TargetView::Queue) is None => {
                        &&& sent_to(
                            *old(self),
                            *final(self),
                            TargetView::Queue,
                            q.next_offset->0,
                            |c: Command| queue_read(c, old(self).data@, q.next_offset->0),
                        )
                        &&& final(self).same_navigation(old(self))
                    },
                    _ => *final(self) == *old(self),
                }
            } else {
                loaded_more(*old(self), *final(self))
            },
    {
        if queue {
            let next = match &self.data.queue {
                Some(q) => q.next_offset,
                None => None,
            };
            if let Some(offset) = next {
                if !self.data.is_loading(&Target::Queue) {
                    self.queue_page(offset);
                }
            }
        } else {
            self.more();
        }
    }

    /// Scrolls the lyrics by `delta` lines from where they stand (see `lyric_start`).
    fn scroll_lyrics(&mut self, delta: i32, unix_ms: u64)
        requires
            old(self).wf(),
        ensures
            final(self).wf(),
            ({
                let count: int = match old(self).data@.lyrics {
                    Some(l) => l.lines@.len() as int,
                    None => 0,
                };
                let last: int = if count > 0 { (count - 1) * 1000 } else { 0 };
                *final(self) == App {
                    ui: Ui {
                        lyric_manual: Some(bounded(lyric_start(*old(self), unix_ms) + delta * 1000, 0, last) as u64),
                        ..old(self).ui
                    },
                    ..*old(self)
                }
            }),
    {
        let count: u64 = match &self.data.lyrics {
            Some(l) => l.lines.len() as u64,
            None => 0,
        };
        let last: i128 = if count > 0 { (count as i128 - 1) * 1000 } else { 0 };
        let current: i128 = match self.ui.lyric_manual {
            Some(m) => m as i128,
            None => {
                let line: u64 = match self.data.active_lyric(self.data.position(unix_ms)) {
                    Some(l) => l as u64,
                    None => 0,
                };
                (if line > 0 { line as i128 - 1 } else { 0 }) * 1000
            },
        };
        let wanted = current + delta as i128 * 1000;
        let position: u64 = if wanted < 0 {
            0
        } else if wanted > last {
            last as u64
        } else {
            wanted as u64
        };
        self.ui.lyric_manual = Some(position);
    }

    /// Advances the guided tour to `now_ms` (see `toured`); says whether it moved on.
    pub fn tour(&mut self, now_ms: u64) -> (moved: bool)
        requires
            old(self).wf(),
            old(self).navigation_revision < u64::MAX,
        ensures
            final(self).wf(),
            toured(*old(self), *final(self), now_ms, moved),
    {
        let start = match self.ui.tour {
            Some(s) => s,
            None => return false,
        };
        let step: u64 = if now_ms > start { (now_ms - start) / TOUR_STEP_MS } else { 0 };
        if step == self.ui.tour_step {
            return false;
        }
        self.ui.tour_step = step;
        let phase = step % 5;
        if phase == 0 {
            self.begin_tour();
        } else {
            let view = if phase == 1 {
                Screen::Search
            } else if phase == 2 {
                Screen::Albums
            } else if phase == 3 {
                Screen::Playlists
            } else {
                Screen::Songs
            };
            self.go(view);
        }
        true
    }

    /// The tour's first step (see `tour_began`).
    fn begin_tour(&mut self)
        requires
            old(self).wf(),
            old(self).navigation_revision < u64::MAX,
        ensures
            final(self).wf(),
            tour_began(*old(self), *final(self)),
    {
        self.ui.theme = (self.ui.theme + 1) % THEME_COUNT;
        let album = match self.data.current() {
            Some(item) => Some(match &item.album_ref {
                Some(a) => a.duplicate(),
                None => item.item_ref.duplicate(),
            }),
            None => None,
        };
        match album {
            Some(a) => self.open(a),
            None => self.go(Screen::Home),
        }
    }
}

} // verus!
