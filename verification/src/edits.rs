//! What the text fields, favorites and playlist edits ask of the host.
use crate::controller::{App, kept, lemma_without_shrinks, loaded_more, sent_to, text_view, trimmed, went_to, without_wish};
use crate::controls::{accepts, sent_plainly};
use crate::data::DataView;
use crate::offsets::{OffsetInput, offset_input, read_offset};
use crate::protocol::{
    CollectionCopy, CollectionCreate, CollectionMove, CollectionRemove, CollectionUpdate, Command, FavoriteParams,
    ItemRef, Kind, LyricsChooseParams, LyricsOffsetParams, LyricsSearchParams, Source,
};
use crate::state::{Dialog, EditAction, Editor, Screen, Ui, item_key, item_key_spec, limit_spec};
use crate::target::{Target, TargetView, lookup};
use crate::text::{chars_of, string_of, trim_end_chars, trim_start_chars};
use vstd::prelude::*;

verus! {

broadcast use vstd::std_specs::vec::group_vec_axioms;

/// The refusal of a field's text beyond its limit.
pub open spec fn too_long_message() -> Seq<char> {
    "입력할 수 있는 길이를 초과했습니다"@
}

/// The refusal of an empty field that needs text.
pub open spec fn empty_message() -> Seq<char> {
    "내용을 입력해주세요"@
}

/// The refusal of a lyrics field whose track stopped playing.
pub open spec fn track_changed_message() -> Seq<char> {
    "재생 중인 곡이 변경되었습니다"@
}

/// The refusal of a second playlist creation.
pub open spec fn creating_message() -> Seq<char> {
    "플레이리스트를 만드는 중입니다"@
}

/// The refusal of a timing that is not a number.
pub open spec fn not_seconds_message() -> Seq<char> {
    "초 단위 숫자를 입력해주세요"@
}

/// The refusal of a timing beyond 30 seconds.
pub open spec fn offset_range_message() -> Seq<char> {
    "-30~30초 사이로 입력해주세요"@
}

/// The refusal when the outbox is full.
pub open spec fn retry_message() -> Seq<char> {
    "잠시 후 다시 시도해주세요"@
}

/// The text of a field, without surrounding white space.
pub open spec fn edit_value(editor: Editor) -> Seq<char> {
    trimmed(editor.buffer@)
}

/// Whether the field creates a playlist.
pub open spec fn creates(action: EditAction) -> bool {
    action is Create || action is Copy
}

/// Why the text `value` of a field for `action` cannot be committed in `app`, if it
/// cannot: too long, empty where text is needed, lyrics of a track no longer playing, a
/// second creation, or a timing that is not a number within 30 seconds.
pub open spec fn refusal(app: App, action: EditAction, value: Seq<char>) -> Option<Seq<char>> {
    if value.len() > limit_spec(action) {
        Some(too_long_message())
    } else if value.len() == 0 && !(action is Search || action is Describe) {
        Some(empty_message())
    } else if match action {
        EditAction::Lyrics(item) => app.data@.current_ref() != Some(item@),
        EditAction::Offset(item) => app.data@.current_ref() != Some(item@),
        _ => false,
    } {
        Some(track_changed_message())
    } else if creates(action) && lookup(app.data@.loading, TargetView::Create) is Some {
        Some(creating_message())
    } else {
        match action {
            EditAction::Offset(_) => match offset_input(value) {
                OffsetInput::Invalid => Some(not_seconds_message()),
                OffsetInput::OutOfRange => Some(offset_range_message()),
                OffsetInput::Millis(_) => None,
            },
            _ => None,
        }
    }
}

/// The view a committed field's request is for.
pub open spec fn edit_target_of(action: EditAction) -> TargetView {
    match action {
        EditAction::Create(_) | EditAction::Copy(_) => TargetView::Create,
        EditAction::Rename(_) | EditAction::Describe(_) => TargetView::Mutation,
        EditAction::Lyrics(_) => TargetView::LyricMatches,
        EditAction::Offset(_) => TargetView::Lyrics,
        EditAction::Search => TargetView::Main,
    }
}

/// Whether `command` is what committing `action` with the text `value` asks for: a new
/// playlist named `value` (holding the item it was made from), a copy, a new name or
/// description, a lyrics search, or a lyrics timing.
pub open spec fn edit_request(action: EditAction, value: Seq<char>, command: Command) -> bool {
    match action {
        EditAction::Create(item) => command matches Command::CollectionCreate(p) && p.name@ == value
            && p.description@.len() == 0 && match item {
            Some(r) => p.items matches Some(v) && v@.len() == 1 && v@[0]@ == r@,
            None => p.items is None,
        },
        EditAction::Copy(item) => command matches Command::CollectionCopy(p) && p.item@ == item@ && p.name@
            == value,
        EditAction::Rename(id) => command matches Command::CollectionUpdate(p) && p.id@ == id@ && text_view(p.name)
            == Some(value) && p.description is None,
        EditAction::Describe(id) => command matches Command::CollectionUpdate(p) && p.id@ == id@ && p.name is None
            && text_view(p.description) == Some(value),
        EditAction::Lyrics(item) => command matches Command::LyricsSearch(p) && p.item@ == item@ && p.query@
            == value,
        EditAction::Offset(item) => command matches Command::LyricsOffset(p) && p.item@ == item@
            && offset_input(value) == OffsetInput::Millis(p.offset_ms),
        EditAction::Search => false,
    }
}

/// Whether `new` is `old` after the request committing `action` with the text `value`
/// was queued (see `App::commit_edit`): a creation remembers the navigation it started
/// in, a lyrics search drops the previous matches and opens the choice of matches, and
/// the field closes.
pub open spec fn committed(old: App, new: App, action: EditAction, value: Seq<char>) -> bool {
    let target = edit_target_of(action);
    let rest = kept(old.queue(), target);
    let begun = old.data@.after_begin(target, 0);
    let searching = target == TargetView::LyricMatches;
    &&& new.requests@ == if target == TargetView::Mutation {
        old.requests@
    } else {
        old.requests@.after_invalidate(target)
    }
    &&& new.queue().len() == rest.len() + 1
    &&& new.queue().take(rest.len() as int) == rest
    &&& new.queue().last().target@ == target
    &&& edit_request(action, value, new.queue().last().command)
    &&& new.data@ == if searching { DataView { matches: None, ..begun } } else { begun }
    &&& new.ui == Ui {
        editor: None,
        dialog: if searching { Some(Dialog::Lyrics { cursor: 0 }) } else { old.ui.dialog },
        ..old.ui
    }
    &&& new.create_revision == if creates(action) { Some(old.navigation_revision) } else { old.create_revision }
    &&& new.same_navigation(&App { ui: new.ui, create_revision: new.create_revision, ..old })
}

/// Whether `new` is `old` after committing the open text field, with `result` (see
/// `App::commit_edit`).
pub open spec fn edit_committed(old: App, new: App, result: Result<(), String>) -> bool {
    match old.ui.editor {
        None => result is Ok && new == old,
        Some(editor) => match refusal(old, editor.action, edit_value(editor)) {
            Some(message) => (result matches Err(e) && e@ == message) && new == old,
            None => if editor.action is Search {
                result is Ok && searched(old, new, edit_value(editor))
            } else if accepts(old, edit_target_of(editor.action)) {
                result is Ok && committed(old, new, editor.action, edit_value(editor))
            } else {
                &&& (result matches Err(e) && e@ == retry_message())
                &&& sent_plainly(
                    old,
                    new,
                    edit_target_of(editor.action),
                    |c: Command| edit_request(editor.action, edit_value(editor), c),
                )
            },
        },
    }
}

/// Whether `new` is `old` after searching for the field's text: the typed query is
/// shown as a search and the field closes.
pub open spec fn searched(old: App, new: App, value: Seq<char>) -> bool {
    exists|query: String, mid: App|
        {
            &&& query@ == value
            &&& went_to(App { ui: Ui { query, ..old.ui }, ..old }, mid, Screen::Search)
            &&& new == App { ui: Ui { editor: None, ..mid.ui }, ..mid }
        }
}

/// The wish last recorded for the favorite `key`.
pub open spec fn wish_for(favorites: Seq<(String, bool)>, key: Seq<char>) -> Option<bool>
    decreases favorites.len(),
{
    if favorites.len() == 0 {
        None
    } else if favorites.last().0@ == key {
        Some(favorites.last().1)
    } else {
        wish_for(favorites.drop_last(), key)
    }
}

/// Whether toggling `item` in `app` saves it: the opposite of the wish last recorded
/// for it, or of whether the store lists it.
pub open spec fn saves(app: App, item: ItemRef) -> bool {
    !match wish_for(app.wanted_favorites@, item_key_spec(item@)) {
        Some(wish) => wish,
        None => app.data@.is_favorite(item@),
    }
}

/// Whether `new` is `old` after toggling the favorite `item` (see `App::toggle_favorite`).
pub open spec fn favorite_toggled(old: App, new: App, item: ItemRef) -> bool {
    let key = item_key_spec(item@);
    let enabled = saves(old, item);
    let rest = without_wish(old.wanted_favorites@, key);
    &&& sent_to(
        old,
        new,
        TargetView::Favorite(key),
        0,
        |c: Command| c matches Command::Favorite(p) && p.item == item && p.enabled == enabled,
    )
    &&& if accepts(old, TargetView::Favorite(key)) {
        &&& new.wanted_favorites@.len() == rest.len() + 1
        &&& new.wanted_favorites@.take(rest.len() as int) == rest
        &&& new.wanted_favorites@.last().0@ == key
        &&& new.wanted_favorites@.last().1 == enabled
    } else {
        new.wanted_favorites@ == rest
    }
    &&& new.same_navigation(&App { wanted_favorites: new.wanted_favorites, ..old })
}

/// A copy of `action`.
fn copy_action(action: &EditAction) -> (copy: EditAction)
    ensures
        copy == *action,
{
    match action {
        EditAction::Search => EditAction::Search,
        EditAction::Create(item) => EditAction::Create(
            match item {
                Some(r) => Some(r.duplicate()),
                None => None,
            },
        ),
        EditAction::Rename(id) => EditAction::Rename(id.clone()),
        EditAction::Describe(id) => EditAction::Describe(id.clone()),
        EditAction::Copy(item) => EditAction::Copy(item.duplicate()),
        EditAction::Lyrics(item) => EditAction::Lyrics(item.duplicate()),
        EditAction::Offset(item) => EditAction::Offset(item.duplicate()),
    }
}

/// The request committing `action` with the text `value` makes, and its view.
fn request_of(action: &EditAction, value: &Vec<char>) -> (request: (Command, Target))
    requires
        !(action is Search),
        action is Offset ==> offset_input(value@) is Millis,
    ensures
        edit_request(*action, value@, request.0),
        request.1@ == edit_target_of(*action),
{
    let text = string_of(value.as_slice());
    match action {
        EditAction::Create(item) => {
            let items = match item {
                Some(r) => Some(vec![r.duplicate()]),
                None => None,
            };
            (Command::CollectionCreate(CollectionCreate { name: text, description: String::new(), items }), Target::Create)
        },
        EditAction::Copy(item) => (Command::CollectionCopy(CollectionCopy { item: item.duplicate(), name: text }), Target::Create),
        EditAction::Rename(id) => (
            Command::CollectionUpdate(CollectionUpdate { id: id.clone(), name: Some(text), description: None }),
            Target::Mutation,
        ),
        EditAction::Describe(id) => (
            Command::CollectionUpdate(CollectionUpdate { id: id.clone(), name: None, description: Some(text) }),
            Target::Mutation,
        ),
        EditAction::Lyrics(item) => (
            Command::LyricsSearch(LyricsSearchParams { item: item.duplicate(), query: text }),
            Target::LyricMatches,
        ),
        EditAction::Offset(item) => {
            let offset_ms = match read_offset(value) {
                OffsetInput::Millis(ms) => ms,
                _ => {
                    proof {
                        assert(false);
                    }
                    0
                },
            };
            (Command::LyricsOffset(LyricsOffsetParams { item: item.duplicate(), offset_ms }), Target::Lyrics)
        },
        EditAction::Search => {
            proof {
                assert(false);
            }
            (Command::Snapshot, Target::Main)
        },
    }
}

/// Whether `new` is `old` after toggling the song `item` as a favorite, marked at
/// `now_ms` (see `App::favorite_at`); other kinds are only marked.
pub open spec fn favorite_marked(old: App, new: App, item: ItemRef, now_ms: u64) -> bool {
    let marked = App { ui: Ui { favorite_pulse: Some((item, now_ms)), ..old.ui }, ..old };
    if item.kind == Kind::Song {
        favorite_toggled(marked, new, item)
    } else {
        new == marked
    }
}

/// The open collection playlist, when the main list shows it and has focus.
pub open spec fn open_collection(app: App) -> Option<ItemRef> {
    match app.focused_detail_spec() {
        Some(d) => if d.source == Source::Collection {
            Some(d)
        } else {
            None
        },
        None => None,
    }
}

/// Whether `new` is `old` after toggling the selected song as a favorite at `now_ms` (see `App::favorite_selected`).
pub open spec fn selected_favorite_toggled(old: App, new: App, now_ms: u64) -> bool {
    match old.selected_spec() {
        Some(item) if item.item_ref.kind == Kind::Song => favorite_toggled(
            App { ui: Ui { favorite_pulse: Some((item.item_ref, now_ms)), ..old.ui }, ..old },
            new,
            item.item_ref,
        ),
        _ => new == old,
    }
}

/// Whether `new` is `old` after removing the selected song from the open playlist (see `App::remove_collection_song`).
pub open spec fn collection_song_removed(old: App, new: App) -> bool {
    match open_collection(old) {
        Some(d) if old.list_ready_spec(TargetView::Main) && old.ui.cursors[0]
            < old.data@.items.len() => sent_plainly(
            old,
            new,
            TargetView::MainEdit,
            |c: Command| c matches Command::CollectionRemove(p) && p.id@ == d.id@ && p.index
                == old.ui.cursors[0] as u64,
        ),
        _ => new == old,
    }
}

/// Whether `new` is `old` after moving the selected song of the open playlist (see `App::move_collection_song`).
pub open spec fn collection_song_moved(old: App, new: App, down: bool) -> bool {
    ({
        let from = old.ui.cursors[0] as int;
        let to = if down { from + 1 } else if from > 0 { from - 1 } else { 0 };
        match open_collection(old) {
            Some(d) if old.list_ready_spec(TargetView::Main) && from < old.data@.items.len() => {
                if to >= old.data@.items.len() {
                    loaded_more(old, new)
                } else if to == from {
                    new == old
                } else {
                    let moved = App {
                        ui: Ui { cursors: new.ui.cursors, ..old.ui },
                        ..old
                    };
                    &&& sent_to(
                        old,
                        new,
                        TargetView::MainEdit,
                        0,
                        |c: Command| c matches Command::CollectionMove(p) && p.id@ == d.id@ && p.from
                            == from as u64 && p.to == to as u64,
                    )
                    &&& new.ui.cursors[1] == old.ui.cursors[1]
                    &&& new.ui.cursors[0] == if accepts(old, TargetView::MainEdit) {
                        to as usize
                    } else {
                        from as usize
                    }
                    &&& new.same_navigation(&moved)
                }
            },
            _ => new == old,
        }
    })
}

impl App {
    /// Opens a text field for `action` holding `buffer`.
    pub fn edit(&mut self, action: EditAction, buffer: String)
        ensures
            *final(self) == (App { ui: Ui { editor: final(self).ui.editor, ..old(self).ui }, ..*old(self) }),
            (final(self).ui.editor matches Some(e) && e.wf() && e.action == action && (e.buffer@, e.cursor as int)
                == crate::editing::insertion(Seq::empty(), 0, limit_spec(action) as int, buffer@)),
    {
        self.ui.editor = Some(Editor::new(action, buffer));
    }

    /// Why `value` cannot be committed for `action` (see `refusal`).
    fn refusal_of(&self, action: &EditAction, value: &Vec<char>) -> (refused: Option<&'static str>)
        requires
            self.wf(),
        ensures
            match refused {
                Some(m) => refusal(*self, *action, value@) == Some(m@),
                None => refusal(*self, *action, value@) is None,
            },
    {
        if value.len() > action.limit() {
            return Some("입력할 수 있는 길이를 초과했습니다");
        }
        if value.len() == 0 && !(matches!(action, EditAction::Search) || matches!(action, EditAction::Describe(_))) {
            return Some("내용을 입력해주세요");
        }
        let track = match action {
            EditAction::Lyrics(item) => Some(item),
            EditAction::Offset(item) => Some(item),
            _ => None,
        };
        if let Some(item) = track {
            let playing = match self.data.current() {
                Some(i) => i.item_ref.same(item),
                None => false,
            };
            if !playing {
                return Some("재생 중인 곡이 변경되었습니다");
            }
        }
        let creating = matches!(action, EditAction::Create(_)) || matches!(action, EditAction::Copy(_));
        if creating && self.data.is_loading(&Target::Create) {
            return Some("플레이리스트를 만드는 중입니다");
        }
        if let EditAction::Offset(_) = action {
            match read_offset(value) {
                OffsetInput::Invalid => return Some("초 단위 숫자를 입력해주세요"),
                OffsetInput::OutOfRange => return Some("-30~30초 사이로 입력해주세요"),
                OffsetInput::Millis(_) => {},
            }
        }
        None
    }

    /// Commits the open text field: a search shows its results, other fields send
    /// their request (see `committed`); a refused text leaves everything as it was and
    /// says why. Without a field nothing happens.
    pub fn commit_edit(&mut self) -> (result: Result<(), String>)
        requires
            old(self).wf(),
            old(self).navigation_revision < u64::MAX,
        ensures
            final(self).wf(),
            edit_committed(*old(self), *final(self), result),
    {
        let (action, value) = match &self.ui.editor {
            Some(e) => {
                let chars = chars_of(e.buffer.as_str());
                let start = trim_start_chars(&chars);
                (copy_action(&e.action), trim_end_chars(&start))
            },
            None => return Ok(()),
        };
        if let Some(message) = self.refusal_of(&action, &value) {
            return Err(String::from_str(message));
        }
        if let EditAction::Search = action {
            self.commit_search(value);
            Ok(())
        } else {
            self.commit_request(action, value)
        }
    }

    /// Shows the search for `value` and closes the field.
    fn commit_search(&mut self, value: Vec<char>)
        requires
            old(self).wf(),
            old(self).navigation_revision < u64::MAX,
        ensures
            final(self).wf(),
            searched(*old(self), *final(self), value@),
    {
        let ghost before = *self;
        self.ui.query = string_of(value.as_slice());
        let ghost queried = *self;
        self.go(Screen::Search);
        self.ui.editor = None;
        assert(queried == App { ui: Ui { query: queried.ui.query, ..before.ui }, ..before });
    }

    /// Sends the request committing `action` with the text `value`, which is not
    /// refused (see `committed`).
    fn commit_request(&mut self, action: EditAction, value: Vec<char>) -> (result: Result<(), String>)
        requires
            old(self).wf(),
            !(action is Search),
            action is Offset ==> offset_input(value@) is Millis,
        ensures
            final(self).wf(),
            if accepts(*old(self), edit_target_of(action)) {
                result is Ok && committed(*old(self), *final(self), action, value@)
            } else {
                &&& (result matches Err(e) && e@ == retry_message())
                &&& sent_plainly(
                    *old(self),
                    *final(self),
                    edit_target_of(action),
                    |c: Command| edit_request(action, value@, c),
                )
            },
    {
        let creating = matches!(action, EditAction::Create(_)) || matches!(action, EditAction::Copy(_));
        let (command, target) = request_of(&action, &value);
        let lyric_matches = matches!(target, Target::LyricMatches);
        let queued = self.send_plainly(command, target);
        if !queued {
            return Err(String::from_str("잠시 후 다시 시도해주세요"));
        }
        self.finish_commit(creating, lyric_matches);
        Ok(())
    }

    /// Closes the committed field; a creation remembers the navigation it started in,
    /// and a lyrics search drops the previous matches and opens the choice of matches.
    fn finish_commit(&mut self, creating: bool, searching: bool)
        requires
            old(self).wf(),
        ensures
            final(self).wf(),
            final(self).data@ == if searching {
                DataView { matches: None, ..old(self).data@ }
            } else {
                old(self).data@
            },
            final(self).ui == (Ui {
                editor: None,
                dialog: if searching { Some(Dialog::Lyrics { cursor: 0 }) } else { old(self).ui.dialog },
                ..old(self).ui
            }),
            final(self).create_revision == if creating {
                Some(old(self).navigation_revision)
            } else {
                old(self).create_revision
            },
            final(self).queue() == old(self).queue(),
            final(self).requests == old(self).requests,
            final(self).same_navigation(
                &App { ui: final(self).ui, create_revision: final(self).create_revision, ..*old(self) },
            ),
    {
        if creating {
            self.create_revision = Some(self.navigation_revision);
        }
        if searching {
            self.data.matches = None;
            self.ui.dialog = Some(Dialog::Lyrics { cursor: 0 });
        }
        self.ui.editor = None;
    }

    /// The wish recorded for `key`, if any.
    fn wish(&self, key: &String) -> (wish: Option<bool>)
        ensures
            wish == wish_for(self.wanted_favorites@, key@),
    {
        let mut i = self.wanted_favorites.len();
        assert(self.wanted_favorites@.take(i as int) =~= self.wanted_favorites@);
        while i > 0
            invariant
                i <= self.wanted_favorites@.len(),
                wish_for(self.wanted_favorites@, key@) == wish_for(self.wanted_favorites@.take(i as int), key@),
            decreases i,
        {
            let ghost prefix = self.wanted_favorites@.take(i as int);
            assert(prefix.drop_last() =~= self.wanted_favorites@.take(i - 1));
            if crate::text::same_text(self.wanted_favorites[i - 1].0.as_str(), key.as_str()) {
                return Some(self.wanted_favorites[i - 1].1);
            }
            i = i - 1;
        }
        None
    }

    /// Toggles whether the song `item` is a favorite, from the wish last recorded for it
    /// or from the store; the wish is remembered while the request is queued. Other
    /// kinds are left alone.
    pub fn toggle_favorite(&mut self, item: ItemRef)
        requires
            old(self).wf(),
        ensures
            final(self).wf(),
            if item.kind == Kind::Song {
                favorite_toggled(*old(self), *final(self), item)
            } else {
                *final(self) == *old(self)
            },
    {
        if item.kind != Kind::Song {
            return;
        }
        let key = item_key(&item);
        let saved = match self.wish(&key) {
            Some(wish) => wish,
            None => self.data.saved(&item),
        };
        let enabled = !saved;
        let ghost before = *self;
        let ghost wanted = item;
        let command = Command::Favorite(FavoriteParams { item, enabled });
        assert(command matches Command::Favorite(p) && p.item == wanted && p.enabled == enabled);
        let queued = self.send(command, Target::Favorite(key.clone()), 0);
        let ghost mid = *self;
        self.forget_wish(&key);
        if queued {
            self.wanted_favorites.push((key, enabled));
        }
        proof {
            lemma_without_shrinks(before.queue(), TargetView::Favorite(key@));
            let rest = kept(before.queue(), TargetView::Favorite(key@));
            if queued {
                assert(mid.queue().take(rest.len() as int) =~= rest);
                let w = without_wish(before.wanted_favorites@, key@);
                assert(self.wanted_favorites@.take(w.len() as int) =~= w);
            }
        }
    }

    /// Toggles whether the selected song is a favorite, marking it at `now_ms`.
    pub fn favorite_selected(&mut self, now_ms: u64)
        requires
            old(self).wf(),
        ensures
            final(self).wf(),
            selected_favorite_toggled(*old(self), *final(self), now_ms),

    {
        let item = match self.selected() {
            Some(i) => if i.item_ref.kind == Kind::Song {
                i.item_ref.duplicate()
            } else {
                return;
            },
            None => return,
        };
        self.favorite_at(item, now_ms);
    }

    /// Toggles whether the song `item` is a favorite, marking it at `now_ms`.
    pub fn favorite_at(&mut self, item: ItemRef, now_ms: u64)
        requires
            old(self).wf(),
        ensures
            final(self).wf(),
            favorite_marked(*old(self), *final(self), item, now_ms),
    {
        self.ui.favorite_pulse = Some((item.duplicate(), now_ms));
        self.toggle_favorite(item);
    }

    /// Asks for lyrics match `id` for the playing track.
    pub fn choose_lyrics(&mut self, id: u64)
        requires
            old(self).wf(),
        ensures
            final(self).wf(),
            match old(self).data@.current_ref() {
                Some(item) => sent_plainly(
                    *old(self),
                    *final(self),
                    TargetView::Lyrics,
                    |c: Command| c matches Command::LyricsChoose(p) && p.item@ == item && p.match_id == id,
                ),
                None => *final(self) == *old(self),
            },
    {
        let item = match self.data.current() {
            Some(i) => i.item_ref.duplicate(),
            None => return,
        };
        let ghost wanted = item@;
        let command = Command::LyricsChoose(LyricsChooseParams { item, match_id: id });
        assert(command matches Command::LyricsChoose(p) && p.item@ == wanted && p.match_id == id);
        self.send_plainly(command, Target::Lyrics);
    }

    /// Removes the selected song from the open collection playlist, once the list may
    /// be edited.
    pub fn remove_collection_song(&mut self)
        requires
            old(self).wf(),
        ensures
            final(self).wf(),
            collection_song_removed(*old(self), *final(self)),

    {
        if !self.list_ready(&Target::Main) || self.ui.cursors[0] >= self.data.items.len() {
            return;
        }
        let id = match self.focused_detail() {
            Some(d) => if d.source == Source::Collection {
                d.id.clone()
            } else {
                return;
            },
            None => return,
        };
        let ghost wanted = id@;
        let index = self.ui.cursors[0] as u64;
        let command = Command::CollectionRemove(CollectionRemove { id, index });
        assert(command matches Command::CollectionRemove(p) && p.id@ == wanted && p.index == index);
        self.send_plainly(command, Target::MainEdit);
    }

    /// Moves the selected song of the open collection playlist one place down or up,
    /// once the list may be edited; moving past the loaded songs loads more instead. The
    /// selection follows the song when the request was queued.
    pub fn move_collection_song(&mut self, down: bool)
        requires
            old(self).wf(),
        ensures
            final(self).wf(),
            collection_song_moved(*old(self), *final(self), down),

    {
        if !self.list_ready(&Target::Main) || self.ui.cursors[0] >= self.data.items.len() {
            return;
        }
        let id = match self.focused_detail() {
            Some(d) => if d.source == Source::Collection {
                d.id.clone()
            } else {
                return;
            },
            None => return,
        };
        let from = self.ui.cursors[0];
        let to = if down { from + 1 } else if from > 0 { from - 1 } else { 0 };
        if to >= self.data.items.len() {
            self.more();
            return;
        }
        if to == from {
            return;
        }
        self.send_collection_move(id, from, to);
    }

    /// Asks to move song `from` of the collection playlist `id` to `to`, and moves the
    /// selection with it when queued.
    fn send_collection_move(&mut self, id: String, from: usize, to: usize)
        requires
            old(self).wf(),
        ensures
            final(self).wf(),
            sent_to(
                *old(self),
                *final(self),
                TargetView::MainEdit,
                0,
                |c: Command| c matches Command::CollectionMove(p) && p.id@ == id@ && p.from == from as u64 && p.to
                    == to as u64,
            ),
            final(self).ui.cursors[1] == old(self).ui.cursors[1],
            final(self).ui.cursors[0] == if accepts(*old(self), TargetView::MainEdit) {
                to
            } else {
                old(self).ui.cursors[0]
            },
            final(self).same_navigation(
                &App { ui: Ui { cursors: final(self).ui.cursors, ..old(self).ui }, ..*old(self) },
            ),
    {
        let ghost wanted = id@;
        let command = Command::CollectionMove(CollectionMove { id, from: from as u64, to: to as u64 });
        assert(command matches Command::CollectionMove(p) && p.id@ == wanted && p.from == from as u64 && p.to
            == to as u64);
        let queued = self.send_plainly(command, Target::MainEdit);
        if queued {
            self.ui.cursors.set(0, to);
        }
    }
}

} // verus!
