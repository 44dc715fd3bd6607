//! The keys of the main screen and what each one does; `App::key` routes a key to a
//! text field, an open dialog or these commands.
use crate::choices::{dialog_chosen, setting_stepped, collection_rows, collections_of, filter_choices, language_rows, lyrics_rows, menu_opened,
    picker_rows, rows_show};
use crate::controller::{App, lyrics_left, opened, queue_read, related_sent, went_back, went_to};
use crate::controls::{activated, current_item, mute_toggled, played_detail, played_selected, queue_entry_moved,
    queue_entry_removed, queued_focus, repeat_cycled, saturated, seeked, sent_plainly, shuffle_toggled, volume_stepped};
use crate::data::{DataView, quiet_errors};
use crate::edits::{collection_song_moved, collection_song_removed, selected_favorite_toggled};
use crate::i18n::translated;
use crate::editing::{cluster_after, cluster_before, insertion};
use crate::edits::edit_committed;
use crate::input::{editing, open_saved_playlist, retried, search_changed_spec};
use crate::menus::dialog_moved;
use crate::settings::setting_order;
use crate::protocol::{Command, Control, ControlParams, Kind, Placement};
use crate::target::{Target, TargetView, lookup};
use crate::theme::THEME_COUNT;
use crate::geometry::{Layout, cycled, panel_toggled};
use crate::input::selection_moved;
use crate::state::{Dialog, EditAction, Editor, Focus, MenuRow, NAV_LEN, Panel, Screen, Ui, limit_spec, nav_at, nav_index_spec};
use crate::text::{chars_of, same_text};
use vstd::prelude::*;

verus! {

/// Whether `key` is `name`.
fn named(key: &str, name: &str) -> (same: bool)
    ensures
        same == (key@ == name@),
{
    same_text(key, name)
}

/// The keys that open, close and focus panes.
pub open spec fn pane_key(key: Seq<char>) -> bool {
    key == "["@ || key == "]"@ || key == "tab"@ || key == "backtab"@ || key == "I"@ || key == ","@ || key == "l"@
        || key == "Q"@
}

/// Whether `new` is `old` after the pane key `key` with the panes `layout` shows: the
/// navigation or side pane opens or closes (full-screen lyrics give way to the side
/// pane), focus moves between panes, the language or settings menu opens, or the side
/// pane shows lyrics or the queue and takes focus.
pub open spec fn pane_keyed(old: App, new: App, key: Seq<char>, layout: Layout) -> bool {
    if key == "["@ {
        new == App { ui: panel_toggled(old.ui, Focus::Nav, layout), ..old }
    } else if key == "]"@ {
        if layout.side is None {
            exists|mid: App| lyrics_left(old, mid) && new == App { ui: panel_toggled(mid.ui, Focus::Right, layout), ..mid }
        } else {
            new == App { ui: panel_toggled(old.ui, Focus::Right, layout), ..old }
        }
    } else if key == "tab"@ || key == "backtab"@ {
        new == App { ui: Ui { focus: cycled(old.ui.focus, layout, key == "backtab"@), ..old.ui }, ..old }
    } else if key == "I"@ {
        menu_opened(old, new, "Language / 언어"@, |rows: Seq<MenuRow>| language_rows(rows, old.ui.language))
    } else if key == ","@ {
        new == App { ui: Ui { help: false, dialog: Some(Dialog::Settings { cursor: 0 }), ..old.ui }, ..old }
    } else {
        exists|mid: App|
            lyrics_left(old, mid) && new == App {
                ui: Ui {
                    panel: if key == "l"@ { Panel::Lyrics } else { Panel::Queue },
                    right_open: true,
                    preferred: Focus::Right,
                    focus: Focus::Right,
                    lyric_manual: None,
                    ..mid.ui
                },
                ..mid
            }
    }
}

/// The keys that move the selection or the view.
pub open spec fn motion_key(key: Seq<char>) -> bool {
    key == "up"@ || key == "k"@ || key == "down"@ || key == "j"@ || key == "pageup"@ || key == "pagedown"@ || key
        == "home"@ || key == "end"@ || key == "left"@ || key == "right"@
}

/// The rows a page key moves: half the main list, less its frame, at least one.
pub open spec fn page_rows(layout: Layout) -> int {
    let rows = (layout.main.h - 4) / 2;
    if rows > 1 { rows } else { 1 }
}

/// Whether `new` is `old` after the motion key `key` (see `motion_key`): the selection
/// moves by a row, a page or to either end; left and right show the previous or next
/// view of the navigation list, counted from the view shown (or the navigation cursor).
pub open spec fn motion_keyed(old: App, new: App, key: Seq<char>, layout: Layout, unix_ms: u64) -> bool {
    if key == "up"@ || key == "k"@ {
        selection_moved(old, new, -1, unix_ms)
    } else if key == "down"@ || key == "j"@ {
        selection_moved(old, new, 1, unix_ms)
    } else if key == "pageup"@ {
        selection_moved(old, new, -page_rows(layout), unix_ms)
    } else if key == "pagedown"@ {
        selection_moved(old, new, page_rows(layout), unix_ms)
    } else if key == "home"@ {
        selection_moved(old, new, -1_000_000, unix_ms)
    } else if key == "end"@ {
        selection_moved(old, new, 1_000_000, unix_ms)
    } else {
        let from: int = match nav_index_spec(old.ui.view) {
            Some(i) => i as int,
            None => old.ui.nav_cursor as int,
        };
        went_to(old, new, nav_at((from + if key == "left"@ { NAV_LEN - 1 } else { 1 }) % (NAV_LEN as int)))
    }
}

/// The keys that control playback and edit the selection's list.
pub open spec fn play_key(key: Seq<char>) -> bool {
    key == "enter"@ || key == " "@ || key == "n"@ || key == "b"@ || key == "H"@ || key == "L"@ || key == "+"@ || key
        == "="@ || key == "-"@ || key == "m"@ || key == "s"@ || key == "r"@ || key == "f"@ || key == "a"@ || key
        == "A"@ || key == "d"@ || key == "J"@ || key == "K"@
}

/// How far the seek keys move, in milliseconds.
pub const SEEK_STEP_MS: i64 = 10000;

/// How far the volume keys move, in thousandths of full scale.
pub const VOLUME_STEP: i32 = 50;

/// Whether `new` is `old` after seeking by `delta_ms` from the wanted position, or from
/// the position reached at `unix_ms` (see `App::seek_by`).
pub open spec fn seeked_by(old: App, new: App, delta_ms: int, unix_ms: u64) -> bool {
    seeked(
        old,
        new,
        saturated(
            match old.wanted_position_ms {
                Some(p) => p as int,
                None => old.data@.position_at(unix_ms) as int,
            } + delta_ms,
        ),
    )
}

/// Whether `new` is `old` after the playback key `key` at `now_ms` and `unix_ms`: enter
/// shows the highlighted view, retries a failed list or acts on the selection; the
/// transport, seek, volume, mute, shuffle and repeat keys; favorites, the playlist
/// picker and queueing the selection last; removing and moving the selected entry of
/// the queue or of the open playlist.
pub open spec fn play_keyed(old: App, new: App, key: Seq<char>, now_ms: u64, unix_ms: u64) -> bool {
    if key == "enter"@ {
        if old.ui.focus == Focus::Nav {
            went_to(old, new, nav_at(old.ui.nav_cursor as int))
        } else if lookup(old.data@.errors, TargetView::Main) is Some && old.ui.focus == Focus::Main {
            retried(old, new)
        } else {
            activated(old, new)
        }
    } else if key == " "@ {
        sent_plainly(old, new, TargetView::Mutation, |c: Command| c == Command::Control(ControlParams { action: Control::Toggle }))
    } else if key == "n"@ {
        sent_plainly(old, new, TargetView::Mutation, |c: Command| c == Command::Control(ControlParams { action: Control::Next }))
    } else if key == "b"@ {
        sent_plainly(
            old,
            new,
            TargetView::Mutation,
            |c: Command| c == Command::Control(ControlParams { action: Control::Previous }),
        )
    } else if key == "H"@ {
        seeked_by(old, new, -SEEK_STEP_MS, unix_ms)
    } else if key == "L"@ {
        seeked_by(old, new, SEEK_STEP_MS as int, unix_ms)
    } else if key == "+"@ || key == "="@ {
        volume_stepped(old, new, VOLUME_STEP)
    } else if key == "-"@ {
        volume_stepped(old, new, (-VOLUME_STEP) as i32)
    } else if key == "m"@ {
        mute_toggled(old, new)
    } else if key == "s"@ {
        shuffle_toggled(old, new)
    } else if key == "r"@ {
        repeat_cycled(old, new)
    } else if key == "f"@ {
        selected_favorite_toggled(old, new, now_ms)
    } else if key == "a"@ {
        match old.selected_spec() {
            Some(item) if item.item_ref.kind == Kind::Song => menu_opened(
                old,
                new,
                translated(old.ui.language, "플레이리스트에 추가"@),
                |rows: Seq<MenuRow>| picker_rows(rows, old.ui.language, item.item_ref, collections_of(old)),
            ),
            _ => new == old,
        }
    } else if key == "A"@ {
        played_selected(old, new, Placement::Last)
    } else if key == "d"@ {
        if queued_focus(old.ui) {
            queue_entry_removed(old, new)
        } else {
            collection_song_removed(old, new)
        }
    } else {
        if queued_focus(old.ui) {
            queue_entry_moved(old, new, key == "J"@)
        } else {
            collection_song_moved(old, new, key == "J"@)
        }
    }
}

/// The keys that open views, fields and menus.
pub open spec fn view_key(key: Seq<char>) -> bool {
    key == "/"@ || key == "p"@ || key == "o"@ || key == "R"@ || key == "N"@ || key == ":"@ || key == "C"@ || key
        == "F"@ || key == "M"@ || key == "O"@ || key == "full_lyrics"@ || key == "play_detail"@ || key
        == "shuffle_detail"@ || key == "P"@ || key == "S"@ || key == "authorize"@ || key == "retry"@ || key
        == "retry_queue"@
}

/// Whether `new` is `old` after the search field opened on the typed query, by way of
/// `mid`, which shows the search.
pub open spec fn search_opened_via(old: App, mid: App, new: App) -> bool {
    &&& if old.ui.view != Screen::Search { went_to(old, mid, Screen::Search) } else { mid == old }
    &&& editing(App { ui: Ui { focus: Focus::Main, ..mid.ui }, ..mid }, new, EditAction::Search, old.ui.query@)
}

/// Whether `new` is `old` after the view key `key`: the search field (showing the
/// search), the playlists, the selection's album, renaming, a new playlist, the playlist,
/// view option and lyrics menus, a lyrics search, full-screen lyrics, playing the open
/// container in full or shuffled (`P`, `S`), authorization, and retrying the main list or the queue.
pub open spec fn view_keyed(old: App, new: App, key: Seq<char>) -> bool {
    if key == "/"@ {
        exists|mid: App| #[trigger] search_opened_via(old, mid, new)
    } else if key == "p"@ {
        went_to(old, new, Screen::Playlists)
    } else if key == "o"@ {
        match old.selected_spec() {
            Some(item) => opened(
                old,
                new,
                match item.album_ref {
                    Some(album) => album,
                    None => item.item_ref,
                },
            ),
            None => new == old,
        }
    } else if key == "R"@ {
        match open_saved_playlist(old) {
            Some(c) => editing(old, new, EditAction::Rename(c.id), c.name@),
            None => new == old,
        }
    } else if key == "N"@ {
        editing(old, new, EditAction::Create(None), Seq::empty())
    } else if key == ":"@ || key == "C"@ {
        menu_opened(
            old,
            new,
            translated(old.ui.language, "플레이리스트"@),
            |rows: Seq<MenuRow>| collection_rows(rows, old),
        )
    } else if key == "F"@ {
        if filter_choices(old).len() == 0 {
            new == old
        } else {
            menu_opened(
                old,
                new,
                translated(old.ui.language, "보기 옵션"@),
                |rows: Seq<MenuRow>| rows_show(rows, filter_choices(old)),
            )
        }
    } else if key == "M"@ {
        match current_item(old.data@) {
            Some(item) => editing(old, new, EditAction::Lyrics(item.item_ref), item.artist@ + " "@ + item.title@),
            None => new == old,
        }
    } else if key == "O"@ {
        match current_item(old.data@) {
            Some(item) => menu_opened(
                old,
                new,
                translated(old.ui.language, "가사"@),
                |rows: Seq<MenuRow>| lyrics_rows(rows, old.ui.language, item, old.data@.lyrics),
            ),
            None => new == old,
        }
    } else if key == "full_lyrics"@ {
        went_to(old, new, Screen::Lyrics)
    } else if key == "play_detail"@ || key == "shuffle_detail"@ || key == "P"@ || key == "S"@ {
        played_detail(old, new, key == "shuffle_detail"@ || key == "S"@)
    } else if key == "authorize"@ {
        sent_plainly(old, new, TargetView::Mutation, |c: Command| c == Command::Authorize)
    } else if key == "retry"@ {
        retried(old, new)
    } else {
        sent_plainly(old, new, TargetView::Queue, |c: Command| queue_read(c, old.data@, 0))
    }
}

/// The keys that change the look, start the tour, show help or step back.
pub open spec fn look_key(key: Seq<char>) -> bool {
    key == "T"@ || key == "1"@ || key == "2"@ || key == "3"@ || key == "4"@ || key == "5"@ || key == "v"@ || key
        == "?"@ || key == "z"@ || key == "t"@ || key == "esc"@
}

/// The theme a number key chooses.
pub open spec fn numbered_theme(key: Seq<char>) -> usize {
    if key == "1"@ {
        0
    } else if key == "2"@ {
        1
    } else if key == "3"@ {
        2
    } else if key == "4"@ {
        3
    } else {
        4
    }
}

/// Whether `new` is `old` after the look key `key` at `now_ms`: the next or a numbered
/// theme, the terminal background, help, reduced motion and the tour (each announced),
/// or escape, which dismisses the failures shown and returns focus to the main list, or
/// goes back from it.
pub open spec fn look_keyed(old: App, new: App, key: Seq<char>, now_ms: u64) -> bool {
    if key == "T"@ {
        new == App { ui: Ui { theme: ((old.ui.theme + 1) % (THEME_COUNT as int)) as usize, ..old.ui }, ..old }
    } else if key == "1"@ || key == "2"@ || key == "3"@ || key == "4"@ || key == "5"@ {
        new == App { ui: Ui { theme: numbered_theme(key), ..old.ui }, ..old }
    } else if key == "v"@ {
        new == App { ui: Ui { transparent: !old.ui.transparent, ..old.ui }, ..old }
    } else if key == "?"@ {
        new == App { ui: Ui { help: true, ..old.ui }, ..old }
    } else if key == "z"@ {
        let reduced = !old.ui.reduced_motion;
        &&& new == App { ui: Ui { reduced_motion: reduced, toast: new.ui.toast, ..old.ui }, ..old }
        &&& new.ui.toast matches Some((m, t)) && t == now_ms && m@ == if reduced {
            "움직임 줄임"@
        } else {
            "움직임 켬"@
        }
    } else if key == "t"@ {
        let tour = if old.ui.tour is Some { None } else { Some(now_ms) };
        &&& new == App { ui: Ui { tour, tour_step: 0, toast: new.ui.toast, ..old.ui }, ..old }
        &&& new.ui.toast matches Some((m, t)) && t == now_ms && m@ == if tour is Some {
            "둘러보기 시작"@
        } else {
            "둘러보기 멈춤"@
        }
    } else {
        exists|mid: App|
            {
                &&& mid.data@ == (DataView { errors: quiet_errors(old.data@.errors, old.data@), ..old.data@ })
                &&& mid == App { data: mid.data, ..old }
                &&& if old.ui.focus != Focus::Main {
                    new == App { ui: Ui { focus: Focus::Main, ..mid.ui }, ..mid }
                } else {
                    went_back(mid, new)
                }
            }
    }
}

/// A keystroke `key` in the text field `editor`, as its new text and cursor: cursor
/// moves by a grapheme or to either end, clearing, deleting a grapheme before or after
/// the cursor, or typing a single character; other keys change nothing.
pub open spec fn keystroke(editor: Editor, key: Seq<char>) -> (Seq<char>, int) {
    let b = editor.buffer@;
    let c = editor.cursor as int;
    if key == "left"@ {
        (b, c - cluster_before(b, c))
    } else if key == "right"@ {
        (b, c + cluster_after(b, c))
    } else if key == "home"@ {
        (b, 0)
    } else if key == "end"@ {
        (b, b.len() as int)
    } else if key == "clear"@ {
        (Seq::empty(), 0)
    } else if key == "backspace"@ {
        let n = cluster_before(b, c);
        (b.take(c - n) + b.skip(c), c - n)
    } else if key == "delete"@ {
        (b.take(c) + b.skip(c + cluster_after(b, c)), c)
    } else if key.len() == 1 {
        insertion(b, c, limit_spec(editor.action) as int, key)
    } else {
        (b, c)
    }
}

/// Whether `new` is `old` after the keystroke `key` at `now_ms` left the field as
/// `typed`: a changed text clears the message shown and follows the search (see
/// `search_changed_spec`).
pub open spec fn typed_via(old: App, typed: Editor, new: App, key: Seq<char>, now_ms: u64) -> bool {
    let e = old.ui.editor->0;
    let changed = typed.buffer@ != e.buffer@;
    let mid = App { ui: Ui { editor: Some(typed), toast: if changed { None } else { old.ui.toast }, ..old.ui }, ..old };
    &&& typed.wf()
    &&& typed.action == e.action
    &&& (typed.buffer@, typed.cursor as int) == keystroke(e, key)
    &&& if changed { search_changed_spec(mid, new, now_ms) } else { new == mid }
}

/// Whether `new` is `old` after the field was committed as `mid` with `result` at
/// `now_ms`: a refusal is shown as a message.
pub open spec fn committed_via(old: App, mid: App, new: App, result: Result<(), String>, now_ms: u64) -> bool {
    &&& edit_committed(old, mid, result)
    &&& new == match result {
        Ok(_) => mid,
        Err(message) => App { ui: Ui { toast: Some((message, now_ms)), ..mid.ui }, ..mid },
    }
}

/// Whether `new` is `old` after `key` at `now_ms` while a text field is open: enter
/// commits it, escape closes it, and other keys edit it.
pub open spec fn typed_key(old: App, new: App, key: Seq<char>, now_ms: u64) -> bool {
    if key == "enter"@ {
        exists|mid: App, result: Result<(), String>| #[trigger] committed_via(old, mid, new, result, now_ms)
    } else if key == "esc"@ {
        new == App { ui: Ui { editor: None, ..old.ui }, ..old }
    } else {
        exists|typed: Editor| #[trigger] typed_via(old, typed, new, key, now_ms)
    }
}

/// The rows the dialog `dialog` offers (see `Dialog::rows`).
pub open spec fn dialog_row_count(dialog: Dialog, data: crate::data::DataView) -> int {
    match dialog {
        Dialog::Menu { rows, .. } => rows@.len() as int,
        Dialog::Lyrics { .. } => match data.matches {
            Some(result) => result.matches@.len() as int,
            None => 0,
        },
        Dialog::Settings { .. } => setting_order().len() as int,
    }
}

/// Whether `new` is `old` after `key` while a dialog is open: escape (and, in the
/// settings, the settings key) closes it; left, right and space step a setting; enter
/// chooses the highlighted row; the arrows and tab move the highlight; in the choice of
/// lyrics matches, a new lyrics search can start.
pub open spec fn dialog_keyed(old: App, new: App, key: Seq<char>) -> bool {
    let settings = old.ui.dialog matches Some(Dialog::Settings { .. });
    let closed = App { ui: Ui { dialog: None, ..old.ui }, ..old };
    if key == "esc"@ {
        new == closed
    } else if key == ","@ && settings {
        new == closed
    } else if key == "left"@ && settings {
        setting_stepped(old, new, -1i32)
    } else if (key == "right"@ || key == " "@) && settings {
        setting_stepped(old, new, 1)
    } else if key == "enter"@ {
        dialog_chosen(old, new)
    } else if key == "up"@ || key == "k"@ || key == "down"@ || key == "j"@ || key == "tab"@ || key == "backtab"@ {
        let delta: int = if key == "up"@ || key == "k"@ || key == "backtab"@ { -1 } else { 1 };
        &&& new == App { ui: Ui { dialog: new.ui.dialog, ..old.ui }, ..old }
        &&& new.ui.dialog matches Some(moved) && dialog_moved(
            old.ui.dialog->0,
            moved,
            delta,
            dialog_row_count(old.ui.dialog->0, old.data@),
        )
    } else if key == "M"@ && (old.ui.dialog matches Some(Dialog::Lyrics { .. })) {
        match current_item(old.data@) {
            Some(item) => editing(closed, new, EditAction::Lyrics(item.item_ref), item.artist@ + " "@ + item.title@),
            None => new == closed,
        }
    } else {
        new == old
    }
}

/// Whether `new` is `old` after the command key `key` (see the key groups); other keys
/// change nothing.
pub open spec fn acted_on(old: App, new: App, key: Seq<char>, layout: Layout, now_ms: u64, unix_ms: u64) -> bool {
    if pane_key(key) {
        pane_keyed(old, new, key, layout)
    } else if motion_key(key) {
        motion_keyed(old, new, key, layout, unix_ms)
    } else if play_key(key) {
        play_keyed(old, new, key, now_ms, unix_ms)
    } else if view_key(key) {
        view_keyed(old, new, key)
    } else if look_key(key) {
        look_keyed(old, new, key, now_ms)
    } else {
        new == old
    }
}

/// Whether `new` is `old` after the command key `key` at `now_ms`, by way of `pressed`
/// and `acted`: any key but the tour key stops the tour, and the key is remembered;
/// open help closes on any key but the settings key; otherwise the key acts and what
/// goes with the new state is requested.
pub open spec fn commanded_via(
    old: App,
    pressed: App,
    acted: App,
    new: App,
    key: Seq<char>,
    layout: Layout,
    now_ms: u64,
    unix_ms: u64,
) -> bool {
    &&& pressed == App {
        ui: Ui { tour: if key == "t"@ { old.ui.tour } else { None }, pulse: pressed.ui.pulse, ..old.ui },
        ..old
    }
    &&& pressed.ui.pulse matches Some((k, t)) && k@ == key && t == now_ms
    &&& if pressed.ui.help && key != ","@ {
        new == App { ui: Ui { help: false, ..pressed.ui }, ..pressed }
    } else {
        &&& acted_on(pressed, acted, key, layout, now_ms, unix_ms)
        &&& related_sent(acted, new)
        &&& new.same_navigation(&acted)
    }
}

/// Whether `new` is `old` after `key` at `now_ms` (and the wall clock `unix_ms`) with the
/// panes `layout` shows (see `App::key`).
pub open spec fn keyed(old: App, new: App, key: Seq<char>, layout: Layout, now_ms: u64, unix_ms: u64) -> bool {
    if key == "ctrl-c"@ {
        new == old
    } else if old.ui.editor is Some {
        typed_key(old, new, key, now_ms)
    } else if key == "q"@ {
        new == old
    } else if old.ui.dialog is Some {
        dialog_keyed(old, new, key)
    } else {
        exists|pressed: App, acted: App| #[trigger] commanded_via(old, pressed, acted, new, key, layout, now_ms, unix_ms)
    }
}

impl App {
    /// Handles `key` when it is a pane key (see `pane_keyed`); says whether it was one.
    fn pane_command(&mut self, key: &str, layout: Layout) -> (handled: bool)
        requires
            old(self).wf(),
            old(self).navigation_revision < u64::MAX - 1,
        ensures
            final(self).wf(),
            handled == pane_key(key@),
            handled ==> pane_keyed(*old(self), *final(self), key@, layout),
            !handled ==> *final(self) == *old(self),
    {
        if named(key, "[") {
            self.ui.toggle_panel(Focus::Nav, layout);
        } else if named(key, "]") {
            self.toggle_side(layout);
        } else if named(key, "tab") || named(key, "backtab") {
            let backwards = named(key, "backtab");
            self.ui.cycle_focus(layout, backwards);
        } else if named(key, "I") {
            self.language_menu();
        } else if named(key, ",") {
            self.settings_menu();
        } else if named(key, "l") || named(key, "Q") {
            let lyrics = named(key, "l");
            self.show_side(if lyrics { Panel::Lyrics } else { Panel::Queue });
        } else {
            return false;
        }
        true
    }

    /// Handles `key` when it is a motion key (see `motion_keyed`); says whether it was one.
    fn motion_command(&mut self, key: &str, layout: Layout, unix_ms: u64) -> (handled: bool)
        requires
            old(self).wf(),
            old(self).navigation_revision < u64::MAX,
        ensures
            final(self).wf(),
            handled == motion_key(key@),
            handled ==> motion_keyed(*old(self), *final(self), key@, layout, unix_ms),
            !handled ==> *final(self) == *old(self),
    {
        if named(key, "up") || named(key, "k") {
            self.move_selection(-1, unix_ms);
        } else if named(key, "down") || named(key, "j") {
            self.move_selection(1, unix_ms);
        } else if named(key, "pageup") || named(key, "pagedown") {
            let half: i64 = (layout.main.h as i64 - 4) / 2;
            let rows: i32 = if half > 1 {
                if half > i32::MAX as i64 { i32::MAX } else { half as i32 }
            } else {
                1
            };
            assert(rows == page_rows(layout)) by {
                assert(layout.main.h - 4 >= i32::MIN - 4);
            }
            self.move_selection(if named(key, "pageup") { -rows } else { rows }, unix_ms);
        } else if named(key, "home") {
            self.move_selection(-1_000_000, unix_ms);
        } else if named(key, "end") {
            self.move_selection(1_000_000, unix_ms);
        } else if named(key, "left") || named(key, "right") {
            let from = match crate::state::nav_index(self.ui.view) {
                Some(i) => i,
                None => self.ui.nav_cursor,
            };
            let step = if named(key, "left") { NAV_LEN - 1 } else { 1 };
            self.go(crate::state::nav_view((from + step) % NAV_LEN));
        } else {
            return false;
        }
        true
    }

    /// Opens or closes the side pane; a side pane about to open makes full-screen lyrics
    /// give way.
    fn toggle_side(&mut self, layout: Layout)
        requires
            old(self).wf(),
            old(self).navigation_revision < u64::MAX - 1,
        ensures
            final(self).wf(),
            if layout.side is None {
                exists|mid: App|
                    lyrics_left(*old(self), mid) && *final(self) == (App {
                        ui: panel_toggled(mid.ui, Focus::Right, layout),
                        ..mid
                    })
            } else {
                *final(self) == (App { ui: panel_toggled(old(self).ui, Focus::Right, layout), ..*old(self) })
            },
    {
        if layout.side.is_none() {
            self.leave_full_lyrics();
        }
        let ghost mid = *self;
        self.ui.toggle_panel(Focus::Right, layout);
        assert(layout.side is None ==> lyrics_left(*old(self), mid));
    }

    /// Shows `panel` in the side pane and focuses it, following the playing line;
    /// full-screen lyrics give way.
    fn show_side(&mut self, panel: Panel)
        requires
            old(self).wf(),
            old(self).navigation_revision < u64::MAX - 1,
        ensures
            final(self).wf(),
            exists|mid: App|
                lyrics_left(*old(self), mid) && *final(self) == (App {
                    ui: Ui {
                        panel,
                        right_open: true,
                        preferred: Focus::Right,
                        focus: Focus::Right,
                        lyric_manual: None,
                        ..mid.ui
                    },
                    ..mid
                }),
    {
        self.leave_full_lyrics();
        let ghost mid = *self;
        self.ui.panel = panel;
        self.ui.right_open = true;
        self.ui.preferred = Focus::Right;
        self.ui.focus = Focus::Right;
        self.ui.lyric_manual = None;
        assert(lyrics_left(*old(self), mid));
    }

    /// Handles `key` when it is a playback key (see `play_keyed`); says whether it was one.
    fn play_command(&mut self, key: &str, now_ms: u64, unix_ms: u64) -> (handled: bool)
        requires
            old(self).wf(),
            old(self).navigation_revision < u64::MAX,
        ensures
            final(self).wf(),
            handled == play_key(key@),
            handled ==> play_keyed(*old(self), *final(self), key@, now_ms, unix_ms),
            !handled ==> *final(self) == *old(self),
    {
        if named(key, "enter") {
            if self.ui.focus == Focus::Nav {
                self.go(crate::state::nav_view(self.ui.nav_cursor));
            } else if self.data.has_failed(&Target::Main) && self.ui.focus == Focus::Main {
                self.retry();
            } else {
                self.activate();
            }
        } else if named(key, " ") {
            self.control(Control::Toggle);
        } else if named(key, "n") {
            self.control(Control::Next);
        } else if named(key, "b") {
            self.control(Control::Previous);
        } else if named(key, "H") {
            self.seek_by(-SEEK_STEP_MS, unix_ms);
        } else if named(key, "L") {
            self.seek_by(SEEK_STEP_MS, unix_ms);
        } else if named(key, "+") || named(key, "=") {
            self.volume_by(VOLUME_STEP);
        } else if named(key, "-") {
            self.volume_by(-VOLUME_STEP);
        } else if named(key, "m") {
            self.toggle_mute();
        } else if named(key, "s") {
            self.toggle_shuffle();
        } else if named(key, "r") {
            self.cycle_repeat();
        } else if named(key, "f") {
            self.favorite_selected(now_ms);
        } else if named(key, "a") {
            self.playlist_picker();
        } else if named(key, "A") {
            self.play_selected(Placement::Last);
        } else if named(key, "d") {
            if self.ui.queue_focus() {
                self.remove_queue();
            } else {
                self.remove_collection_song();
            }
        } else if named(key, "J") || named(key, "K") {
            let down = named(key, "J");
            if self.ui.queue_focus() {
                self.move_queue(down);
            } else {
                self.move_collection_song(down);
            }
        } else {
            return false;
        }
        true
    }

    /// Handles `key` when it is a view key (see `view_keyed`); says whether it was one.
    fn view_command(&mut self, key: &str) -> (handled: bool)
        requires
            old(self).wf(),
            old(self).navigation_revision < u64::MAX - 1,
        ensures
            final(self).wf(),
            handled == view_key(key@),
            handled ==> view_keyed(*old(self), *final(self), key@),
            !handled ==> *final(self) == *old(self),
    {
        let ghost start = *self;
        if named(key, "/") {
            self.search_field();
            assert(view_keyed(start, *self, key@));
        } else if named(key, "p") {
            self.go(Screen::Playlists);
            assert(view_keyed(start, *self, key@));
        } else if named(key, "o") {
            let album = match self.selected() {
                Some(item) => match &item.album_ref {
                    Some(a) => a.duplicate(),
                    None => item.item_ref.duplicate(),
                },
                None => return true,
            };
            self.open(album);
            assert(view_keyed(start, *self, key@));
        } else if named(key, "R") {
            self.rename();
            assert(view_keyed(start, *self, key@));
        } else if named(key, "N") {
            self.edit(EditAction::Create(None), String::new());
            assert(view_keyed(start, *self, key@));
        } else if named(key, ":") || named(key, "C") {
            self.collection_menu();
            assert(view_keyed(start, *self, key@));
        } else if named(key, "F") {
            self.filter_menu();
            assert(view_keyed(start, *self, key@));
        } else if named(key, "M") {
            self.find_lyrics();
            assert(view_keyed(start, *self, key@));
        } else if named(key, "O") {
            self.lyrics_menu();
            assert(view_keyed(start, *self, key@));
        } else if named(key, "full_lyrics") {
            self.go(Screen::Lyrics);
            assert(view_keyed(start, *self, key@));
        } else if named(key, "play_detail") || named(key, "shuffle_detail") || named(key, "P") || named(key, "S") {
            let shuffle = named(key, "shuffle_detail") || named(key, "S");
            self.play_detail(shuffle);
            assert(view_keyed(start, *self, key@));
        } else if named(key, "authorize") {
            self.send_plainly(Command::Authorize, Target::Mutation);
            assert(view_keyed(start, *self, key@));
        } else if named(key, "retry") {
            self.retry();
            assert(view_keyed(start, *self, key@));
        } else if named(key, "retry_queue") {
            self.queue_page(0);
            assert(view_keyed(start, *self, key@));
        } else {
            return false;
        }
        true
    }

    /// Opens the search field on the typed query, showing the search first.
    fn search_field(&mut self)
        requires
            old(self).wf(),
            old(self).navigation_revision < u64::MAX,
        ensures
            final(self).wf(),
            (exists|mid: App| #[trigger] search_opened_via(*old(self), mid, *final(self))),
    {
        let query = self.ui.query.clone();
        if self.ui.view != Screen::Search {
            self.go(Screen::Search);
        }
        let ghost mid = *self;
        self.ui.focus = Focus::Main;
        self.edit(EditAction::Search, query);
        assert(search_opened_via(*old(self), mid, *self));
    }

    /// Handles `key` when it is a look key (see `look_keyed`); says whether it was one.
    fn look_command(&mut self, key: &str, now_ms: u64) -> (handled: bool)
        requires
            old(self).wf(),
            old(self).navigation_revision < u64::MAX - 1,
        ensures
            final(self).wf(),
            handled == look_key(key@),
            handled ==> look_keyed(*old(self), *final(self), key@, now_ms),
            !handled ==> *final(self) == *old(self),
    {
        if named(key, "T") || named(key, "1") || named(key, "2") || named(key, "3") || named(key, "4") || named(key, "5") || named(key, "v")
            || named(key, "?") {
            self.restyle(key);
        } else if named(key, "z") || named(key, "t") {
            self.announce(key, now_ms);
        } else if named(key, "esc") {
            self.escape();
        } else {
            return false;
        }
        true
    }

    /// Changes the theme, the background or help for the look key `key`.
    fn restyle(&mut self, key: &str)
        requires
            old(self).wf(),
            key@ == "T"@ || key@ == "1"@ || key@ == "2"@ || key@ == "3"@ || key@ == "4"@ || key@ == "5"@ || key@
                == "v"@ || key@ == "?"@,
        ensures
            final(self).wf(),
            look_keyed(*old(self), *final(self), key@, 0),
    {
        if named(key, "T") {
            self.ui.theme = (self.ui.theme + 1) % THEME_COUNT;
        } else if named(key, "1") {
            self.ui.theme = 0;
        } else if named(key, "2") {
            self.ui.theme = 1;
        } else if named(key, "3") {
            self.ui.theme = 2;
        } else if named(key, "4") {
            self.ui.theme = 3;
        } else if named(key, "5") {
            self.ui.theme = 4;
        } else if named(key, "v") {
            self.ui.transparent = !self.ui.transparent;
        } else {
            self.ui.help = true;
        }
    }

    /// Switches reduced motion or the tour for `key`, announcing it at `now_ms`.
    fn announce(&mut self, key: &str, now_ms: u64)
        requires
            old(self).wf(),
            key@ == "z"@ || key@ == "t"@,
            !(key@ == "T"@ || key@ == "1"@ || key@ == "2"@ || key@ == "3"@ || key@ == "4"@ || key@ == "5"@ || key@
                == "v"@ || key@ == "?"@),
        ensures
            final(self).wf(),
            look_keyed(*old(self), *final(self), key@, now_ms),
    {
        if named(key, "z") {
            self.ui.reduced_motion = !self.ui.reduced_motion;
            let message = if self.ui.reduced_motion { "움직임 줄임" } else { "움직임 켬" };
            self.ui.toast = Some((String::from_str(message), now_ms));
        } else {
            self.ui.tour = if self.ui.tour.is_some() { None } else { Some(now_ms) };
            self.ui.tour_step = 0;
            let message = if self.ui.tour.is_some() { "둘러보기 시작" } else { "둘러보기 멈춤" };
            self.ui.toast = Some((String::from_str(message), now_ms));
        }
    }

    /// Dismisses the failures shown, then returns focus to the main list, or goes back
    /// from it.
    fn escape(&mut self)
        requires
            old(self).wf(),
            old(self).navigation_revision < u64::MAX - 1,
        ensures
            final(self).wf(),
            exists|mid: App|
                {
                    &&& mid.data@ == (DataView {
                        errors: quiet_errors(old(self).data@.errors, old(self).data@),
                        ..old(self).data@
                    })
                    &&& mid == (App { data: mid.data, ..*old(self) })
                    &&& if old(self).ui.focus != Focus::Main {
                        *final(self) == (App { ui: Ui { focus: Focus::Main, ..mid.ui }, ..mid })
                    } else {
                        went_back(mid, *final(self))
                    }
                },
    {
        self.data.clear_notifications();
        let ghost mid = *self;
        if self.ui.focus != Focus::Main {
            self.ui.focus = Focus::Main;
        } else {
            self.back();
        }
        assert(mid == (App { data: mid.data, ..*old(self) }));
    }

    /// Handles `key` at `now_ms` (and the wall clock `unix_ms`) with the panes `layout`
    /// shows (see `keyed`); says whether the interface goes on, which it does for every
    /// key but interrupt and, outside a text field, quit.
    pub fn key(&mut self, key: &str, layout: Layout, now_ms: u64, unix_ms: u64) -> (going: bool)
        requires
            old(self).wf(),
            old(self).navigation_revision < u64::MAX - 1,
        ensures
            final(self).wf(),
            going == !(key@ == "ctrl-c"@ || (old(self).ui.editor is None && key@ == "q"@)),
            keyed(*old(self), *final(self), key@, layout, now_ms, unix_ms),
    {
        if named(key, "ctrl-c") {
            return false;
        }
        if self.ui.editor.is_some() {
            self.type_key(key, now_ms);
            return true;
        }
        if named(key, "q") {
            return false;
        }
        if self.ui.dialog.is_some() {
            self.dialog_key(key);
            return true;
        }
        self.command_key(key, layout, now_ms, unix_ms);
        true
    }

    /// Handles `key` at `now_ms` in the open text field (see `typed_key`).
    fn type_key(&mut self, key: &str, now_ms: u64)
        requires
            old(self).wf(),
            old(self).navigation_revision < u64::MAX,
            old(self).ui.editor is Some,
        ensures
            final(self).wf(),
            typed_key(*old(self), *final(self), key@, now_ms),
    {
        if named(key, "enter") {
            let result = self.commit_edit();
            let ghost mid = *self;
            let ghost outcome = result;
            if let Err(message) = result {
                self.ui.toast = Some((message, now_ms));
            }
            assert(committed_via(*old(self), mid, *self, outcome, now_ms));
        } else if named(key, "esc") {
            self.ui.editor = None;
        } else {
            self.edit_key(key, now_ms);
        }
    }

    /// Applies the keystroke `key` at `now_ms` to the open text field (see `typed_via`).
    fn edit_key(&mut self, key: &str, now_ms: u64)
        requires
            old(self).wf(),
            old(self).ui.editor is Some,
            key@ != "enter"@,
            key@ != "esc"@,
        ensures
            final(self).wf(),
            exists|typed: Editor| #[trigger] typed_via(*old(self), typed, *final(self), key@, now_ms),
    {
        let mut editor = match self.ui.editor.take() {
            Some(e) => e,
            None => return,
        };
        let before = editor.buffer.clone();
        if named(key, "left") {
            editor.move_cursor(false);
        } else if named(key, "right") {
            editor.move_cursor(true);
        } else if named(key, "home") {
            editor.edge(false);
        } else if named(key, "end") {
            editor.edge(true);
        } else if named(key, "clear") {
            editor.clear();
            assert(editor.buffer@ =~= Seq::<char>::empty());
        } else if named(key, "backspace") {
            editor.backspace();
        } else if named(key, "delete") {
            editor.delete();
        } else if chars_of(key).len() == 1 {
            editor.insert(key);
        }
        let changed = !same_text(before.as_str(), editor.buffer.as_str());
        let ghost typed = editor;
        self.ui.editor = Some(editor);
        if changed {
            self.ui.toast = None;
            self.search_changed(now_ms);
        }
        assert(typed_via(*old(self), typed, *self, key@, now_ms));
    }

    /// Handles `key` in the open dialog (see `dialog_keyed`).
    fn dialog_key(&mut self, key: &str)
        requires
            old(self).wf(),
            old(self).navigation_revision < u64::MAX - 1,
            old(self).ui.dialog is Some,
        ensures
            final(self).wf(),
            dialog_keyed(*old(self), *final(self), key@),
    {
        let settings = matches!(self.ui.dialog, Some(Dialog::Settings { .. }));
        if named(key, "esc") {
            self.ui.dialog = None;
        } else if named(key, ",") && settings {
            self.ui.dialog = None;
        } else if named(key, "left") && settings {
            self.adjust_setting(-1);
        } else if (named(key, "right") || named(key, " ")) && settings {
            self.adjust_setting(1);
        } else if named(key, "enter") {
            self.choose_dialog();
        } else if named(key, "up") || named(key, "k") || named(key, "down") || named(key, "j") || named(key, "tab") || named(key, "backtab") {
            let back = named(key, "up") || named(key, "k") || named(key, "backtab");
            self.move_highlight(if back { -1 } else { 1 });
        } else if named(key, "M") && matches!(self.ui.dialog, Some(Dialog::Lyrics { .. })) {
            self.ui.dialog = None;
            self.find_lyrics();
        }
    }

    /// Moves the highlight of the open dialog by `delta` rows within its rows.
    pub(crate) fn move_highlight(&mut self, delta: i32)
        requires
            old(self).wf(),
            old(self).ui.dialog is Some,
        ensures
            final(self).wf(),
            *final(self) == (App { ui: Ui { dialog: final(self).ui.dialog, ..old(self).ui }, ..*old(self) }),
            (final(self).ui.dialog matches Some(moved) && dialog_moved(
                old(self).ui.dialog->0,
                moved,
                delta as int,
                dialog_row_count(old(self).ui.dialog->0, old(self).data@),
            )),
    {
        let count = match &self.ui.dialog {
            Some(d) => d.rows(&self.ui, &self.data).len(),
            None => return,
        };
        let mut dialog = match self.ui.dialog.take() {
            Some(d) => d,
            None => return,
        };
        dialog.move_by(delta, count);
        self.ui.dialog = Some(dialog);
    }

    /// Handles the command key `key` (see `commanded_via`).
    fn command_key(&mut self, key: &str, layout: Layout, now_ms: u64, unix_ms: u64)
        requires
            old(self).wf(),
            old(self).navigation_revision < u64::MAX - 1,
        ensures
            final(self).wf(),
            exists|pressed: App, acted: App| #[trigger] commanded_via(*old(self), pressed, acted, *final(self), key@, layout, now_ms, unix_ms),
    {
        if !named(key, "t") {
            self.ui.tour = None;
        }
        self.ui.pulse = Some((String::from_str(key), now_ms));
        let ghost pressed = *self;
        if self.ui.help && !named(key, ",") {
            self.ui.help = false;
            assert(commanded_via(*old(self), pressed, pressed, *self, key@, layout, now_ms, unix_ms));
            return;
        }
        self.act(key, layout, now_ms, unix_ms);
        let ghost acted = *self;
        self.related();
        assert(commanded_via(*old(self), pressed, acted, *self, key@, layout, now_ms, unix_ms));
    }

    /// Lets the command key `key` act (see `acted_on`).
    fn act(&mut self, key: &str, layout: Layout, now_ms: u64, unix_ms: u64)
        requires
            old(self).wf(),
            old(self).navigation_revision < u64::MAX - 1,
        ensures
            final(self).wf(),
            acted_on(*old(self), *final(self), key@, layout, now_ms, unix_ms),
    {
        if self.pane_command(key, layout) {
            return;
        }
        if self.motion_command(key, layout, unix_ms) {
            return;
        }
        if self.play_command(key, now_ms, unix_ms) {
            return;
        }
        if self.view_command(key) {
            return;
        }
        self.look_command(key, now_ms);
    }
}

} // verus!
