//! The menus the interface opens, and what choosing one of their rows does.
use crate::controller::{App, refreshed, related_sent, went_back, went_to};
use crate::controls::sent_plainly;
use crate::i18n::{Language, translated};
use crate::offsets::{seconds_text, seconds_text_spec};
use crate::protocol::{CollectionAdd, CollectionDelete, Command, ItemRef, Kind, LyricsStatus, Order, Source};
use crate::settings::{Setting, applied, setting_order, step_fits};
use crate::state::{Choice, Dialog, EditAction, MenuRow, Screen, Ui};
use crate::target::{Target, TargetView};
use crate::text::{chars_of, join_chars, string_of};
use vstd::prelude::*;

verus! {

broadcast use vstd::std_specs::vec::group_vec_axioms;

/// Whether `row` shows `label` with no detail, unchecked.
pub open spec fn labelled(row: MenuRow, label: Seq<char>) -> bool {
    row.label@ == label && row.detail@.len() == 0 && !row.checked
}

/// Whether `new` is `old` with a menu titled `title` open at its first row, whose rows
/// `rows` describes, and nothing else changed.
pub open spec fn menu_opened(old: App, new: App, title: Seq<char>, rows: spec_fn(Seq<MenuRow>) -> bool) -> bool {
    &&& new == App { ui: Ui { dialog: new.ui.dialog, ..old.ui }, ..old }
    &&& new.ui.dialog matches Some(Dialog::Menu { title: t, rows: r, cursor }) && t@ == title && cursor == 0
        && rows(r@)
}

/// The rows of the menu that adds `item` to a playlist: a new playlist holding it, then
/// each playlist of `collections` in order.
pub open spec fn picker_rows(rows: Seq<MenuRow>, language: Language, item: ItemRef, collections: Seq<crate::protocol::Collection>) -> bool {
    &&& rows.len() == collections.len() + 1
    &&& labelled(rows[0], translated(language, "새 플레이리스트"@))
    &&& rows[0].choice matches Choice::Edit(EditAction::Create(Some(r)), b) && r == item && b@.len() == 0
    &&& forall|i: int|
        0 <= i < collections.len() ==> {
            let c = #[trigger] collections[i];
            &&& labelled(rows[i + 1], c.name@)
            &&& rows[i + 1].choice matches Choice::Command(Command::CollectionAdd(p), Target::Mutation) && p.id@
                == c.id@ && p.items@.len() == 1 && p.items@[0] == item
        }
}

/// The rows of the language menu: English, then Korean, the current one checked.
pub open spec fn language_rows(rows: Seq<MenuRow>, current: Language) -> bool {
    &&& rows.len() == 2
    &&& rows[0].label@ == "English"@ && rows[0].detail@.len() == 0 && rows[0].checked == (current
        == Language::English) && rows[0].choice == Choice::Language(Language::English)
    &&& rows[1].label@ == "한국어"@ && rows[1].detail@.len() == 0 && rows[1].checked == (current
        == Language::Korean) && rows[1].choice == Choice::Language(Language::Korean)
}

/// The rows of the lyrics menu for the playing `item`: search for lyrics (starting
/// from its artist and title), full-screen lyrics, and, for synchronized lyrics, their
/// timing in seconds.
pub open spec fn lyrics_rows(rows: Seq<MenuRow>, language: Language, item: crate::protocol::Item, lyrics: Option<crate::protocol::Lyrics>) -> bool {
    let timed = lyrics matches Some(l) && l.status == LyricsStatus::Synced;
    &&& rows.len() == if timed { 3int } else { 2int }
    &&& labelled(rows[0], translated(language, "가사 찾기"@))
    &&& rows[0].choice matches Choice::Edit(EditAction::Lyrics(r), b) && r == item.item_ref && b@ == item.artist@
        + " "@ + item.title@
    &&& labelled(rows[1], translated(language, "전체 화면"@))
    &&& rows[1].choice == Choice::FullLyrics
    &&& timed ==> labelled(rows[2], translated(language, "시간 조절"@))
    &&& timed ==> (rows[2].choice matches Choice::Edit(EditAction::Offset(r), b) && r == item.item_ref && b@
        == seconds_text_spec(lyrics->0.offset_ms as int))
}

/// The rows of a search's view options: the kinds it looks for, then where it looks.
pub open spec fn search_choices(ui: Ui) -> Seq<(Seq<char>, bool, Choice)> {
    let l = ui.language;
    seq![
        (translated(l, "노래"@), ui.search_kind == Kind::Song, Choice::Kind(Kind::Song)),
        (translated(l, "앨범"@), ui.search_kind == Kind::Album, Choice::Kind(Kind::Album)),
        (translated(l, "아티스트"@), ui.search_kind == Kind::Artist, Choice::Kind(Kind::Artist)),
        (translated(l, "플레이리스트"@), ui.search_kind == Kind::Playlist, Choice::Kind(Kind::Playlist)),
        (translated(l, "스테이션"@), ui.search_kind == Kind::Station, Choice::Kind(Kind::Station)),
        ("Apple Music"@, ui.search_source == Source::Catalog, Choice::Source(Source::Catalog)),
        (translated(l, "보관함"@), ui.search_source == Source::Library, Choice::Source(Source::Library)),
    ]
}

/// The rows of a library list's view options: its orders, without the artist order
/// for artists and playlists.
pub open spec fn order_choices(ui: Ui) -> Seq<(Seq<char>, bool, Choice)> {
    let l = ui.language;
    let name = (translated(l, "이름순"@), ui.order == Order::Name, Choice::Order(Order::Name));
    let artist = (translated(l, "아티스트순"@), ui.order == Order::Artist, Choice::Order(Order::Artist));
    let recent = (translated(l, "최근순"@), ui.order == Order::Recent, Choice::Order(Order::Recent));
    if ui.view == Screen::Artists || ui.view == Screen::Playlists {
        seq![name, recent]
    } else {
        seq![name, artist, recent]
    }
}

/// The rows choosing which playlists the playlist view shows.
pub open spec fn library_choices(ui: Ui) -> Seq<(Seq<char>, bool, Choice)> {
    let l = ui.language;
    seq![
        (translated(l, "플레이리스트"@), !ui.playlist_library, Choice::PlaylistLibrary(false)),
        (translated(l, "보관함 플레이리스트"@), ui.playlist_library, Choice::PlaylistLibrary(true)),
    ]
}

/// Whether the view has orders to offer: a library list with no item open.
pub open spec fn orderable(app: App) -> bool {
    app.detail_ref is None && !(app.ui.view == Screen::Home || app.ui.view == Screen::Lyrics || app.ui.view
        == Screen::Recent)
}

/// The rows of the view options menu, as labels, checks and choices: the kinds and
/// sources of a search, the orders of a library list, and which playlists the playlist
/// view shows.
pub open spec fn filter_choices(app: App) -> Seq<(Seq<char>, bool, Choice)> {
    let first = if app.ui.view == Screen::Search {
        search_choices(app.ui)
    } else if orderable(app) {
        order_choices(app.ui)
    } else {
        Seq::empty()
    };
    first + if app.ui.view == Screen::Playlists { library_choices(app.ui) } else { Seq::empty() }
}

/// Whether `rows` shows `choices` in order, with no detail.
pub open spec fn rows_show(rows: Seq<MenuRow>, choices: Seq<(Seq<char>, bool, Choice)>) -> bool {
    &&& rows.len() == choices.len()
    &&& forall|i: int|
        0 <= i < rows.len() ==> {
            &&& #[trigger] rows[i].label@ == choices[i].0
            &&& rows[i].detail@.len() == 0
            &&& rows[i].checked == choices[i].1
            &&& rows[i].choice == choices[i].2
        }
}

/// Rows showing two lists of choices, one after the other, show both lists in order.
proof fn lemma_rows_concat(
    a: Seq<MenuRow>,
    b: Seq<MenuRow>,
    x: Seq<(Seq<char>, bool, Choice)>,
    y: Seq<(Seq<char>, bool, Choice)>,
)
    requires
        rows_show(a, x),
        rows_show(b, y),
    ensures
        rows_show(a + b, x + y),
{
    assert forall|i: int| 0 <= i < (a + b).len() implies {
        &&& #[trigger] (a + b)[i].label@ == (x + y)[i].0
        &&& (a + b)[i].detail@.len() == 0
        &&& (a + b)[i].checked == (x + y)[i].1
        &&& (a + b)[i].choice == (x + y)[i].2
    } by {
        if i < a.len() {
            assert((a + b)[i] == a[i]);
            assert((x + y)[i] == x[i]);
            assert(a[i].label@ == x[i].0);
        } else {
            let k = i - a.len();
            assert((a + b)[i] == b[k]);
            assert((x + y)[i] == y[k]);
            assert(b[k].label@ == y[k].0);
        }
    }
}

/// Whether `new` is `old` after `setting` was stepped by `direction` from the settings
/// modal: the interface changes as `applied` says (a new side panel content follows the
/// playing line again), full-screen lyrics give way to a reopened side panel, and what
/// goes with the new state is requested.
pub open spec fn setting_adjusted(old: App, new: App, setting: Setting, direction: i32) -> bool {
    let stepped = applied(setting, old.ui, direction);
    let ui = if setting == Setting::SideContent { Ui { lyric_manual: None, ..stepped } } else { stepped };
    let changed = App { ui, ..old };
    exists|mid: App|
        {
            &&& if setting == Setting::SidePanel && ui.right_open && changed.ui.view == Screen::Lyrics {
                went_back(changed, mid)
            } else {
                mid == changed
            }
            &&& related_sent(mid, new)
            &&& new.same_navigation(&mid)
        }
}

/// Whether `new` is `old` after the highlighted setting of an open settings modal was
/// stepped by `direction`; nothing changes otherwise.
pub open spec fn setting_stepped(old: App, new: App, direction: i32) -> bool {
    match old.ui.dialog {
        Some(Dialog::Settings { cursor }) if cursor < setting_order().len() => setting_adjusted(
            old,
            new,
            setting_order()[cursor as int],
            direction,
        ),
        _ => new == old,
    }
}

/// Whether `new` is `old` after the highlighted row of the open dialog was chosen (see
/// `App::choose_dialog`).
pub open spec fn dialog_chosen(old: App, new: App) -> bool {
    match old.ui.dialog {
        Some(Dialog::Settings { .. }) => setting_stepped(old, new, 1),
        Some(Dialog::Menu { rows, cursor, .. }) => if cursor < rows@.len() {
            chosen(old, new, rows@[cursor as int].choice)
        } else {
            new == old
        },
        Some(Dialog::Lyrics { cursor }) => match match_choice(old, cursor as int) {
            Some(choice) => chosen(old, new, choice),
            None => new == old,
        },
        None => new == old,
    }
}

/// Whether `new` is `old` after choosing `choice` in a menu (see `App::apply_choice`).
pub open spec fn chosen(old: App, new: App, choice: Choice) -> bool {
    let closed = App { ui: Ui { dialog: None, ..old.ui }, ..old };
    match choice {
        Choice::Close => new == closed,
        Choice::Language(language) => new == App { ui: Ui { language, ..closed.ui }, ..closed },
        Choice::Edit(action, buffer) => {
            &&& new == App { ui: Ui { editor: new.ui.editor, ..closed.ui }, ..closed }
            &&& new.ui.editor matches Some(e) && e.wf() && e.action == action && (e.buffer@, e.cursor as int)
                == crate::editing::insertion(Seq::empty(), 0, crate::state::limit_spec(action) as int, buffer@)
        },
        Choice::Command(command, target) => if command is CollectionDelete {
            exists|mid: App|
                went_to(closed, mid, Screen::Playlists) && sent_plainly(mid, new, target@, |c: Command| c == command)
        } else {
            sent_plainly(closed, new, target@, |c: Command| c == command)
        },
        Choice::Delete(id) => menu_opened(
            closed,
            new,
            translated(old.ui.language, "플레이리스트 삭제"@),
            |rows: Seq<MenuRow>|
                {
                    &&& rows.len() == 2
                    &&& labelled(rows[0], translated(old.ui.language, "돌아가기"@))
                    &&& rows[0].choice == Choice::Close
                    &&& labelled(rows[1], translated(old.ui.language, "삭제"@))
                    &&& rows[1].choice matches Choice::Command(Command::CollectionDelete(p), Target::Mutation)
                        && p.id == id
                },
        ),
        Choice::Kind(kind) => went_to(
            App {
                ui: Ui {
                    search_kind: kind,
                    search_source: if kind == Kind::Station { Source::Catalog } else { old.ui.search_source },
                    ..closed.ui
                },
                ..closed
            },
            new,
            Screen::Search,
        ),
        Choice::Source(source) => went_to(
            App {
                ui: Ui {
                    search_source: source,
                    search_kind: if source == Source::Library && old.ui.search_kind == Kind::Station {
                        Kind::Song
                    } else {
                        old.ui.search_kind
                    },
                    ..closed.ui
                },
                ..closed
            },
            new,
            Screen::Search,
        ),
        Choice::Order(order) => {
            let ordered = App { ui: Ui { order, ..closed.ui }, refresh_extent: 0, ..closed };
            refreshed(ordered, new, 0) && new.same_navigation(&ordered)
        },
        Choice::PlaylistLibrary(library) => went_to(
            App { ui: Ui { playlist_library: library, ..closed.ui }, ..closed },
            new,
            Screen::Playlists,
        ),
        Choice::FullLyrics => went_to(closed, new, Screen::Lyrics),
        Choice::Setting(setting) => setting_adjusted(closed, new, setting, 1),
    }
}

/// The playlists the store lists.
pub open spec fn collections_of(app: App) -> Seq<crate::protocol::Collection> {
    match app.data@.store {
        Some(s) => s.collections@,
        None => Seq::empty(),
    }
}

/// The position of the first playlist of `collections` with the identity `id`.
pub open spec fn first_collection(collections: Seq<crate::protocol::Collection>, id: Seq<char>) -> Option<int>
    decreases collections.len(),
{
    if collections.len() == 0 {
        None
    } else {
        match first_collection(collections.drop_last(), id) {
            Some(i) => Some(i),
            None => if collections.last().id@ == id {
                Some(collections.len() - 1)
            } else {
                None
            },
        }
    }
}

/// What the playlist menu acts on: the open container, or the selected item.
pub open spec fn menu_item(app: App) -> Option<ItemRef> {
    match app.focused_detail_spec() {
        Some(d) => Some(d),
        None => match app.selected_spec() {
            Some(i) => Some(i.item_ref),
            None => None,
        },
    }
}

/// The saved playlist the playlist menu edits, if it acts on one the store lists.
pub open spec fn edited_collection(app: App) -> Option<crate::protocol::Collection> {
    match menu_item(app) {
        Some(item) => if item.source == Source::Collection {
            match first_collection(collections_of(app), item.id@) {
                Some(k) => Some(collections_of(app)[k]),
                None => None,
            }
        } else {
            None
        },
        None => None,
    }
}

/// The name a copy starts from: the open container's title, the selected item's, or
/// the word for playlist.
pub open spec fn copy_source_name(app: App) -> Seq<char> {
    match app.data@.detail {
        Some(d) => d.title@,
        None => match app.selected_spec() {
            Some(i) => i.title@,
            None => translated(app.ui.language, "플레이리스트"@),
        },
    }
}

/// The rows of the playlist menu: a new playlist; for a saved playlist, its new name,
/// description and deletion; for an album or playlist, a copy.
pub open spec fn collection_rows(rows: Seq<MenuRow>, app: App) -> bool {
    let language = app.ui.language;
    let edits: int = if edited_collection(app) is Some { 3 } else { 0 };
    let copies = menu_item(app) matches Some(item) && (item.kind == Kind::Album || item.kind == Kind::Playlist);
    &&& rows.len() == 1 + edits + if copies { 1int } else { 0 }
    &&& labelled(rows[0], translated(language, "새 플레이리스트"@))
    &&& rows[0].choice matches Choice::Edit(EditAction::Create(None), b) && b@.len() == 0
    &&& edited_collection(app) matches Some(c) ==> {
        &&& labelled(rows[1], translated(language, "이름 변경"@))
        &&& rows[1].choice == Choice::Edit(EditAction::Rename(c.id), c.name)
        &&& labelled(rows[2], translated(language, "설명"@))
        &&& rows[2].choice == Choice::Edit(EditAction::Describe(c.id), c.description)
        &&& labelled(rows[3], translated(language, "삭제"@))
        &&& rows[3].choice == Choice::Delete(c.id)
    }
    &&& copies ==> {
        &&& labelled(rows[1 + edits], translated(language, "복사"@))
        &&& rows[1 + edits].choice matches Choice::Edit(EditAction::Copy(r), b) && Some(r) == menu_item(app) && b@
            == copy_source_name(app) + " "@ + translated(language, "복사본"@)
    }
}

/// The choice of lyrics match `index` of the current search, if there is one.
pub open spec fn match_choice(app: App, index: int) -> Option<Choice> {
    match app.data@.matches {
        Some(result) => if 0 <= index < result.matches@.len() {
            Some(
                Choice::Command(
                    Command::LyricsChoose(
                        crate::protocol::LyricsChooseParams { item: result.item, match_id: result.matches@[index].id },
                    ),
                    Target::Lyrics,
                ),
            )
        } else {
            None
        },
        None => None,
    }
}

/// A menu row showing `label`, offering `choice`.
fn row(label: &str, choice: Choice) -> (row: MenuRow)
    ensures
        labelled(row, label@),
        row.choice == choice,
{
    MenuRow::new(string_of(chars_of(label).as_slice()), choice)
}

/// A menu row showing `label`, checked as `checked`, offering `choice`.
fn checked_row(label: &str, checked: bool, choice: Choice) -> (row: MenuRow)
    ensures
        row.label@ == label@,
        row.detail@.len() == 0,
        row.checked == checked,
        row.choice == choice,
{
    let mut shown = row(label, choice);
    shown.checked = checked;
    shown
}

/// The rows of the lyrics menu for the playing `item` (see `lyrics_rows`).
fn lyric_rows_for(language: Language, item: &crate::protocol::Item, lyrics: &Option<crate::protocol::Lyrics>) -> (rows: Vec<MenuRow>)
    ensures
        lyrics_rows(rows@, language, *item, *lyrics),
{
    let spaced = join_chars(&chars_of(item.artist.as_str()), &chars_of(" "));
    let query = join_chars(&spaced, &chars_of(item.title.as_str()));
    proof {
        reveal_strlit(" ");
    }
    let mut rows: Vec<MenuRow> = Vec::new();
    rows.push(row(language.text("가사 찾기"), Choice::Edit(EditAction::Lyrics(item.item_ref.duplicate()), string_of(query.as_slice()))));
    rows.push(row(language.text("전체 화면"), Choice::FullLyrics));
    if let Some(l) = lyrics {
        if l.status == LyricsStatus::Synced {
            rows.push(row(language.text("시간 조절"), Choice::Edit(EditAction::Offset(item.item_ref.duplicate()), seconds_text(l.offset_ms))));
        }
    }
    rows
}

/// The position of the first playlist of `collections` with the identity `id`.
pub(crate) fn find_collection(collections: &Vec<crate::protocol::Collection>, id: &String) -> (found: Option<usize>)
    ensures
        match found {
            Some(k) => first_collection(collections@, id@) == Some(k as int) && k < collections@.len(),
            None => first_collection(collections@, id@) is None,
        },
{
    let mut i: usize = 0;
    while i < collections.len()
        invariant
            i <= collections@.len(),
            first_collection(collections@.take(i as int), id@) is None,
        decreases collections@.len() - i,
    {
        assert(collections@.take(i + 1).drop_last() =~= collections@.take(i as int));
        if crate::text::same_text(collections[i].id.as_str(), id.as_str()) {
            proof {
                lemma_first_collection_prefix(collections@, i + 1, id@);
            }
            return Some(i);
        }
        i = i + 1;
    }
    assert(collections@.take(i as int) =~= collections@);
    None
}

/// Once a prefix of `collections` has a playlist `id`, it is the first of all.
proof fn lemma_first_collection_prefix(collections: Seq<crate::protocol::Collection>, k: int, id: Seq<char>)
    requires
        0 <= k <= collections.len(),
        first_collection(collections.take(k), id) is Some,
    ensures
        first_collection(collections, id) == first_collection(collections.take(k), id),
    decreases collections.len(),
{
    if k < collections.len() {
        assert(collections.drop_last().take(k) =~= collections.take(k));
        lemma_first_collection_prefix(collections.drop_last(), k, id);
    } else {
        assert(collections.take(k) =~= collections);
    }
}

/// The rows adding `item` to a playlist (see `picker_rows`).
fn picker_rows_for(language: Language, item: &ItemRef, store: &Option<crate::protocol::StoreState>) -> (rows: Vec<MenuRow>)
    ensures
        picker_rows(
            rows@,
            language,
            *item,
            match store {
                Some(s) => s.collections@,
                None => Seq::empty(),
            },
        ),
{
    let mut rows: Vec<MenuRow> = Vec::new();
    rows.push(row(language.text("새 플레이리스트"), Choice::Edit(EditAction::Create(Some(item.duplicate())), String::new())));
    if let Some(store) = store {
        let ghost collections = store.collections@;
        let mut i: usize = 0;
        while i < store.collections.len()
            invariant
                collections == store.collections@,
                i <= collections.len(),
                rows@.len() == i + 1,
                labelled(rows@[0], translated(language, "새 플레이리스트"@)),
                rows@[0].choice matches Choice::Edit(EditAction::Create(Some(r)), b) && r == *item && b@.len() == 0,
                forall|k: int|
                    0 <= k < i ==> {
                        let c = #[trigger] collections[k];
                        &&& labelled(rows@[k + 1], c.name@)
                        &&& rows@[k + 1].choice matches Choice::Command(Command::CollectionAdd(p), Target::Mutation)
                            && p.id@ == c.id@ && p.items@.len() == 1 && p.items@[0] == *item
                    },
            decreases collections.len() - i,
        {
            let c = &store.collections[i];
            let add = CollectionAdd { id: c.id.clone(), items: vec![item.duplicate()] };
            rows.push(MenuRow::new(c.name.clone(), Choice::Command(Command::CollectionAdd(add), Target::Mutation)));
            i = i + 1;
        }
    }
    rows
}

/// The rows of a search's view options (see `search_choices`).
fn search_rows(ui: &Ui) -> (rows: Vec<MenuRow>)
    ensures
        rows_show(rows@, search_choices(*ui)),
{
    let l = ui.language;
    let rows = vec![
        checked_row(l.text("노래"), ui.search_kind == Kind::Song, Choice::Kind(Kind::Song)),
        checked_row(l.text("앨범"), ui.search_kind == Kind::Album, Choice::Kind(Kind::Album)),
        checked_row(l.text("아티스트"), ui.search_kind == Kind::Artist, Choice::Kind(Kind::Artist)),
        checked_row(l.text("플레이리스트"), ui.search_kind == Kind::Playlist, Choice::Kind(Kind::Playlist)),
        checked_row(l.text("스테이션"), ui.search_kind == Kind::Station, Choice::Kind(Kind::Station)),
        checked_row("Apple Music", ui.search_source == Source::Catalog, Choice::Source(Source::Catalog)),
        checked_row(l.text("보관함"), ui.search_source == Source::Library, Choice::Source(Source::Library)),
    ];
    assert(rows@.len() == 7);
    rows
}

/// The rows of a library list's view options (see `order_choices`).
fn order_rows(ui: &Ui) -> (rows: Vec<MenuRow>)
    ensures
        rows_show(rows@, order_choices(*ui)),
{
    let l = ui.language;
    let name = checked_row(l.text("이름순"), ui.order == Order::Name, Choice::Order(Order::Name));
    let recent = checked_row(l.text("최근순"), ui.order == Order::Recent, Choice::Order(Order::Recent));
    if ui.view == Screen::Artists || ui.view == Screen::Playlists {
        let rows = vec![name, recent];
        assert(rows@.len() == 2);
        rows
    } else {
        let artist = checked_row(l.text("아티스트순"), ui.order == Order::Artist, Choice::Order(Order::Artist));
        let rows = vec![name, artist, recent];
        assert(rows@.len() == 3);
        rows
    }
}

/// The rows choosing which playlists the playlist view shows (see `library_choices`).
fn library_rows(ui: &Ui) -> (rows: Vec<MenuRow>)
    ensures
        rows_show(rows@, library_choices(*ui)),
{
    let l = ui.language;
    let rows = vec![
        checked_row(l.text("플레이리스트"), !ui.playlist_library, Choice::PlaylistLibrary(false)),
        checked_row(l.text("보관함 플레이리스트"), ui.playlist_library, Choice::PlaylistLibrary(true)),
    ];
    assert(rows@.len() == 2);
    rows
}

impl App {
    /// Opens the menu titled `title` with `rows`, at its first row.
    fn menu(&mut self, title: &str, rows: Vec<MenuRow>)
        ensures
            *final(self) == (App { ui: Ui { dialog: final(self).ui.dialog, ..old(self).ui }, ..*old(self) }),
            (final(self).ui.dialog matches Some(Dialog::Menu { title: t, rows: r, cursor }) && t@ == title@ && r
                == rows && cursor == 0),
    {
        self.ui.dialog = Some(Dialog::Menu { title: string_of(chars_of(title).as_slice()), rows, cursor: 0 });
    }

    /// Does what `choice` says (see `chosen`); the open menu closes first.
    #[verifier::spinoff_prover]
    #[verifier::rlimit(100)]
    pub fn apply_choice(&mut self, choice: Choice)
        requires
            old(self).wf(),
            old(self).navigation_revision < u64::MAX - 1,
        ensures
            final(self).wf(),
            chosen(*old(self), *final(self), choice),
    {
        self.ui.dialog = None;
        match choice {
            Choice::Close => {},
            Choice::Language(language) => {
                self.ui.language = language;
            },
            Choice::Edit(action, buffer) => {
                self.edit(action, buffer);
            },
            Choice::Command(command, target) => self.choose_command(command, target),
            Choice::Delete(id) => self.confirm_delete(id),
            Choice::Kind(kind) => self.choose_kind(kind),
            Choice::Source(source) => self.choose_source(source),
            Choice::Order(order) => {
                self.ui.order = order;
                self.refresh(0);
            },
            Choice::PlaylistLibrary(library) => {
                self.ui.playlist_library = library;
                self.go(Screen::Playlists);
            },
            Choice::FullLyrics => {
                self.go(Screen::Lyrics);
            },
            Choice::Setting(setting) => {
                self.apply_setting(setting, 1);
            },
        }
    }

    /// Sends `command` for `target`; deleting a playlist shows the playlists first.
    fn choose_command(&mut self, command: Command, target: Target)
        requires
            old(self).wf(),
            old(self).navigation_revision < u64::MAX - 1,
        ensures
            final(self).wf(),
            if command is CollectionDelete {
                exists|mid: App|
                    went_to(*old(self), mid, Screen::Playlists) && sent_plainly(
                        mid,
                        *final(self),
                        target@,
                        |c: Command| c == command,
                    )
            } else {
                sent_plainly(*old(self), *final(self), target@, |c: Command| c == command)
            },
    {
        let deleting = matches!(command, Command::CollectionDelete(_));
        if deleting {
            self.go(Screen::Playlists);
        }
        let ghost mid = *self;
        self.send_plainly(command, target);
    }

    /// Asks to confirm deleting the playlist `id`: going back, or deleting it.
    fn confirm_delete(&mut self, id: String)
        requires
            old(self).wf(),
        ensures
            final(self).wf(),
            menu_opened(
                *old(self),
                *final(self),
                translated(old(self).ui.language, "플레이리스트 삭제"@),
                |rows: Seq<MenuRow>|
                    {
                        &&& rows.len() == 2
                        &&& labelled(rows[0], translated(old(self).ui.language, "돌아가기"@))
                        &&& rows[0].choice == Choice::Close
                        &&& labelled(rows[1], translated(old(self).ui.language, "삭제"@))
                        &&& rows[1].choice matches Choice::Command(Command::CollectionDelete(p), Target::Mutation)
                            && p.id == id
                    },
            ),
    {
        let language = self.ui.language;
        let ghost wanted = id;
        let remove = row(
            language.text("삭제"),
            Choice::Command(Command::CollectionDelete(CollectionDelete { id }), Target::Mutation),
        );
        let rows = vec![row(language.text("돌아가기"), Choice::Close), remove];
        self.menu(language.text("플레이리스트 삭제"), rows);
    }

    /// Searches for `kind`; stations are only found in the catalog.
    fn choose_kind(&mut self, kind: Kind)
        requires
            old(self).wf(),
            old(self).navigation_revision < u64::MAX,
        ensures
            final(self).wf(),
            went_to(
                App {
                    ui: Ui {
                        search_kind: kind,
                        search_source: if kind == Kind::Station { Source::Catalog } else { old(self).ui.search_source },
                        ..old(self).ui
                    },
                    ..*old(self)
                },
                *final(self),
                Screen::Search,
            ),
    {
        self.ui.search_kind = kind;
        if kind == Kind::Station {
            self.ui.search_source = Source::Catalog;
        }
        self.go(Screen::Search);
    }

    /// Searches in `source`; the library has no stations, so a station search looks for
    /// songs there.
    fn choose_source(&mut self, source: Source)
        requires
            old(self).wf(),
            old(self).navigation_revision < u64::MAX,
        ensures
            final(self).wf(),
            went_to(
                App {
                    ui: Ui {
                        search_source: source,
                        search_kind: if source == Source::Library && old(self).ui.search_kind == Kind::Station {
                            Kind::Song
                        } else {
                            old(self).ui.search_kind
                        },
                        ..old(self).ui
                    },
                    ..*old(self)
                },
                *final(self),
                Screen::Search,
            ),
    {
        let station = self.ui.search_kind == Kind::Station;
        self.ui.search_source = source;
        if source == Source::Library && station {
            self.ui.search_kind = Kind::Song;
        }
        self.go(Screen::Search);
    }

    /// Chooses the highlighted row of the open dialog: a menu row does what it offers,
    /// a lyrics match is asked for, and a setting steps forward while the settings stay
    /// open. Without a dialog or a highlighted row nothing happens.
    pub fn choose_dialog(&mut self)
        requires
            old(self).wf(),
            old(self).navigation_revision < u64::MAX - 1,
        ensures
            final(self).wf(),
            dialog_chosen(*old(self), *final(self)),
    {
        let lyric_cursor = match &self.ui.dialog {
            None => return,
            Some(Dialog::Settings { .. }) => {
                self.adjust_setting(1);
                return;
            },
            Some(Dialog::Lyrics { cursor }) => Some(*cursor),
            Some(Dialog::Menu { .. }) => None,
        };
        if let Some(cursor) = lyric_cursor {
            let choice = match &self.data.matches {
                Some(result) => if cursor < result.matches.len() {
                    Choice::Command(
                        Command::LyricsChoose(
                            crate::protocol::LyricsChooseParams {
                                item: result.item.duplicate(),
                                match_id: result.matches[cursor].id,
                            },
                        ),
                        Target::Lyrics,
                    )
                } else {
                    return;
                },
                None => return,
            };
            self.apply_choice(choice);
            return;
        }
        let ghost before = *self;
        let dialog = self.ui.dialog.take();
        match dialog {
            Some(Dialog::Menu { title, mut rows, cursor }) => {
                if cursor < rows.len() {
                    let chosen_row = rows.remove(cursor);
                    let ghost closed = *self;
                    self.apply_choice(chosen_row.choice);
                    assert(closed == App { ui: Ui { dialog: None, ..before.ui }, ..before });
                } else {
                    self.ui.dialog = Some(Dialog::Menu { title, rows, cursor });
                }
            },
            _ => {
                self.ui.dialog = dialog;
            },
        }
    }

    /// Offers to add the selected song to a new playlist or to one of the saved ones.
    pub fn playlist_picker(&mut self)
        requires
            old(self).wf(),
        ensures
            match old(self).selected_spec() {
                Some(item) if item.item_ref.kind == Kind::Song => menu_opened(
                    *old(self),
                    *final(self),
                    translated(old(self).ui.language, "플레이리스트에 추가"@),
                    |rows: Seq<MenuRow>|
                        picker_rows(rows, old(self).ui.language, item.item_ref, collections_of(*old(self))),
                ),
                _ => *final(self) == *old(self),
            },
    {
        let item = match self.selected() {
            Some(i) => if i.item_ref.kind == Kind::Song {
                i.item_ref.duplicate()
            } else {
                return;
            },
            None => return,
        };
        let language = self.ui.language;
        let rows = picker_rows_for(language, &item, &self.data.store);
        self.menu(language.text("플레이리스트에 추가"), rows);
    }

    /// Offers the interface languages, the current one checked.
    pub fn language_menu(&mut self)
        ensures
            menu_opened(
                *old(self),
                *final(self),
                "Language / 언어"@,
                |rows: Seq<MenuRow>| language_rows(rows, old(self).ui.language),
            ),
    {
        let mut english = row("English", Choice::Language(Language::English));
        english.checked = self.ui.language == Language::English;
        let mut korean = row("한국어", Choice::Language(Language::Korean));
        korean.checked = self.ui.language == Language::Korean;
        self.menu("Language / 언어", vec![english, korean]);
    }

    /// Offers what can be done with the playing track's lyrics: search for them, show
    /// them full screen, and adjust the timing of synchronized lyrics.
    pub fn lyrics_menu(&mut self)
        ensures
            match crate::controls::current_item(old(self).data@) {
                Some(item) => menu_opened(
                    *old(self),
                    *final(self),
                    translated(old(self).ui.language, "가사"@),
                    |rows: Seq<MenuRow>| lyrics_rows(rows, old(self).ui.language, item, old(self).data@.lyrics),
                ),
                None => *final(self) == *old(self),
            },
    {
        let language = self.ui.language;
        let rows = match self.data.current() {
            Some(item) => lyric_rows_for(language, item, &self.data.lyrics),
            None => return,
        };
        self.menu(language.text("가사"), rows);
    }

    /// Offers the view options of the current view (see `filter_choices`); nothing
    /// opens when the view has none.
    pub fn filter_menu(&mut self)
        ensures
            filter_choices(*old(self)).len() == 0 ==> *final(self) == *old(self),
            filter_choices(*old(self)).len() > 0 ==> menu_opened(
                *old(self),
                *final(self),
                translated(old(self).ui.language, "보기 옵션"@),
                |rows: Seq<MenuRow>| rows_show(rows, filter_choices(*old(self))),
            ),
    {
        let mut rows = if self.ui.view == Screen::Search {
            search_rows(&self.ui)
        } else if self.detail_ref.is_none() && !(self.ui.view == Screen::Home || self.ui.view == Screen::Lyrics
            || self.ui.view == Screen::Recent) {
            order_rows(&self.ui)
        } else {
            let none: Vec<MenuRow> = Vec::new();
            assert(rows_show(none@, Seq::empty()));
            none
        };
        let ghost first = rows@;
        let more = if self.ui.view == Screen::Playlists {
            library_rows(&self.ui)
        } else {
            let none: Vec<MenuRow> = Vec::new();
            assert(rows_show(none@, Seq::empty()));
            none
        };
        let ghost second = more@;
        let mut more = more;
        rows.append(&mut more);
        proof {
            let x = if self.ui.view == Screen::Search {
                search_choices(self.ui)
            } else if orderable(*self) {
                order_choices(self.ui)
            } else {
                Seq::empty()
            };
            let y = if self.ui.view == Screen::Playlists { library_choices(self.ui) } else { Seq::empty() };
            lemma_rows_concat(first, second, x, y);
            assert(rows@ == first + second);
        }
        if rows.len() > 0 {
            let language = self.ui.language;
            self.menu(language.text("보기 옵션"), rows);
        }
    }

    /// Offers what can be done with playlists: make a new one; rename, describe or
    /// delete the saved playlist at hand; copy the album or playlist at hand.
    pub fn collection_menu(&mut self)
        requires
            old(self).wf(),
        ensures
            menu_opened(
                *old(self),
                *final(self),
                translated(old(self).ui.language, "플레이리스트"@),
                |rows: Seq<MenuRow>| collection_rows(rows, *old(self)),
            ),
    {
        let rows = self.collection_rows_for();
        let language = self.ui.language;
        self.menu(language.text("플레이리스트"), rows);
    }

    /// The rows of the playlist menu (see `collection_rows`).
    fn collection_rows_for(&self) -> (rows: Vec<MenuRow>)
        requires
            self.wf(),
        ensures
            collection_rows(rows@, *self),
    {
        let language = self.ui.language;
        let mut rows: Vec<MenuRow> = Vec::new();
        rows.push(row(language.text("새 플레이리스트"), Choice::Edit(EditAction::Create(None), String::new())));
        let item: Option<ItemRef> = match self.focused_detail() {
            Some(d) => Some(d.duplicate()),
            None => match self.selected() {
                Some(i) => Some(i.item_ref.duplicate()),
                None => None,
            },
        };
        let item = match item {
            Some(i) => i,
            None => return rows,
        };
        let mut edits = self.collection_edit_rows(&item);
        rows.append(&mut edits);
        if item.kind == Kind::Album || item.kind == Kind::Playlist {
            let copy = self.copy_row(item);
            rows.push(copy);
        }
        rows
    }

    /// The rows renaming, describing and deleting the saved playlist `item` names, when
    /// the store lists it.
    fn collection_edit_rows(&self, item: &ItemRef) -> (rows: Vec<MenuRow>)
        requires
            Some(*item) == menu_item(*self),
        ensures
            match edited_collection(*self) {
                Some(c) => {
                    &&& rows@.len() == 3
                    &&& labelled(rows@[0], translated(self.ui.language, "이름 변경"@))
                    &&& rows@[0].choice == Choice::Edit(EditAction::Rename(c.id), c.name)
                    &&& labelled(rows@[1], translated(self.ui.language, "설명"@))
                    &&& rows@[1].choice == Choice::Edit(EditAction::Describe(c.id), c.description)
                    &&& labelled(rows@[2], translated(self.ui.language, "삭제"@))
                    &&& rows@[2].choice == Choice::Delete(c.id)
                },
                None => rows@.len() == 0,
            },
    {
        let language = self.ui.language;
        let mut rows: Vec<MenuRow> = Vec::new();
        if item.source != Source::Collection {
            return rows;
        }
        let store = match &self.data.store {
            Some(store) => store,
            None => return rows,
        };
        let k = match find_collection(&store.collections, &item.id) {
            Some(k) => k,
            None => return rows,
        };
        let c = &store.collections[k];
        rows.push(row(language.text("이름 변경"), Choice::Edit(EditAction::Rename(c.id.clone()), c.name.clone())));
        rows.push(row(language.text("설명"), Choice::Edit(EditAction::Describe(c.id.clone()), c.description.clone())));
        rows.push(row(language.text("삭제"), Choice::Delete(c.id.clone())));
        rows
    }

    /// The row copying the album or playlist `item`, under the name of what is at hand
    /// followed by the word for copy.
    fn copy_row(&self, item: ItemRef) -> (copy: MenuRow)
        requires
            self.wf(),
        ensures
            labelled(copy, translated(self.ui.language, "복사"@)),
            copy.choice matches Choice::Edit(EditAction::Copy(r), b) && r == item && b@ == copy_source_name(*self)
                + " "@ + translated(self.ui.language, "복사본"@),
    {
        let language = self.ui.language;
        let name: Vec<char> = match &self.data.detail {
            Some(d) => chars_of(d.title.as_str()),
            None => match self.selected() {
                Some(i) => chars_of(i.title.as_str()),
                None => chars_of(language.text("플레이리스트")),
            },
        };
        let spaced = join_chars(&name, &chars_of(" "));
        let buffer = join_chars(&spaced, &chars_of(language.text("복사본")));
        proof {
            reveal_strlit(" ");
        }
        row(language.text("복사"), Choice::Edit(EditAction::Copy(item), string_of(buffer.as_slice())))
    }

    /// Opens the settings modal at its first row; help closes.
    pub fn settings_menu(&mut self)
        ensures
            *final(self) == (App {
                ui: Ui { help: false, dialog: Some(Dialog::Settings { cursor: 0 }), ..old(self).ui },
                ..*old(self)
            }),
    {
        self.ui.help = false;
        self.ui.dialog = Some(Dialog::Settings { cursor: 0 });
    }

    /// Steps `setting` by `direction` (see `setting_adjusted`).
    fn apply_setting(&mut self, setting: Setting, direction: i32)
        requires
            old(self).wf(),
            old(self).navigation_revision < u64::MAX - 1,
            i32::MIN <= old(self).ui.theme + direction <= i32::MAX,
        ensures
            final(self).wf(),
            setting_adjusted(*old(self), *final(self), setting, direction),
    {
        assert(step_fits(setting, self.ui, direction));
        let effect = setting.apply(&mut self.ui, direction);
        if effect.reset_lyric_scroll {
            self.ui.lyric_manual = None;
        }
        let ghost changed = *self;
        if effect.leave_full_lyrics {
            self.leave_full_lyrics();
        }
        let ghost mid = *self;
        self.related();
        assert(related_sent(mid, *self));
    }

    /// Steps the highlighted setting of the settings modal by `direction`, when the
    /// settings modal is open.
    pub fn adjust_setting(&mut self, direction: i32)
        requires
            old(self).wf(),
            old(self).navigation_revision < u64::MAX - 1,
            i32::MIN <= old(self).ui.theme + direction <= i32::MAX,
        ensures
            final(self).wf(),
            setting_stepped(*old(self), *final(self), direction),
    {
        let cursor = match &self.ui.dialog {
            Some(Dialog::Settings { cursor }) => *cursor,
            _ => return,
        };
        if let Some(setting) = Setting::nth(cursor) {
            self.apply_setting(setting, direction);
        }
    }
}

} // verus!
