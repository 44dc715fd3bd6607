//! Interface state owned by the frontend: views, focus, panels, editing, menus.
use crate::i18n::Language;
use crate::protocol::{Command, ItemRef, ItemRefView, Kind, Order, Source};
use crate::text::{chars_of, join_chars, string_of};
use crate::settings::Setting;
use crate::target::Target;
use vstd::prelude::*;

verus! {

#[derive(Clone, Copy, Debug, PartialEq, Eq, Structural)]
pub enum Screen {
    Search,
    Home,
    Recent,
    Artists,
    Albums,
    Songs,
    Playlists,
    Favorites,
    History,
    Detail,
    Lyrics,
}

/// The number of views listed in the navigation panel.
pub const NAV_LEN: usize = 9;

/// The position of a view in the navigation panel; detail and lyrics are not listed.
pub open spec fn nav_index_spec(view: Screen) -> Option<usize> {
    match view {
        Screen::Search => Some(0),
        Screen::Home => Some(1),
        Screen::Recent => Some(2),
        Screen::Artists => Some(3),
        Screen::Albums => Some(4),
        Screen::Songs => Some(5),
        Screen::Playlists => Some(6),
        Screen::Favorites => Some(7),
        Screen::History => Some(8),
        _ => None,
    }
}

/// The position of a view in the navigation panel.
pub fn nav_index(view: Screen) -> (index: Option<usize>)
    ensures
        index == nav_index_spec(view),
{
    match view {
        Screen::Search => Some(0),
        Screen::Home => Some(1),
        Screen::Recent => Some(2),
        Screen::Artists => Some(3),
        Screen::Albums => Some(4),
        Screen::Songs => Some(5),
        Screen::Playlists => Some(6),
        Screen::Favorites => Some(7),
        Screen::History => Some(8),
        _ => None,
    }
}

/// The view listed at `index` in the navigation panel.
pub open spec fn nav_at(index: int) -> Screen {
    if index == 0 {
        Screen::Search
    } else if index == 1 {
        Screen::Home
    } else if index == 2 {
        Screen::Recent
    } else if index == 3 {
        Screen::Artists
    } else if index == 4 {
        Screen::Albums
    } else if index == 5 {
        Screen::Songs
    } else if index == 6 {
        Screen::Playlists
    } else if index == 7 {
        Screen::Favorites
    } else {
        Screen::History
    }
}

/// The view listed at `index` in the navigation panel.
pub fn nav_view(index: usize) -> (view: Screen)
    requires
        index < NAV_LEN,
    ensures
        view == nav_at(index as int),
        nav_index_spec(view) == Some(index),
{
    match index {
        0 => Screen::Search,
        1 => Screen::Home,
        2 => Screen::Recent,
        3 => Screen::Artists,
        4 => Screen::Albums,
        5 => Screen::Songs,
        6 => Screen::Playlists,
        7 => Screen::Favorites,
        _ => Screen::History,
    }
}

impl Screen {
    pub fn label(self) -> (label: &'static str)
        ensures
            label@ == (match self {
                Screen::Search => "검색"@,
                Screen::Home => "홈"@,
                Screen::Recent => "최근 추가"@,
                Screen::Artists => "아티스트"@,
                Screen::Albums => "앨범"@,
                Screen::Songs => "노래"@,
                Screen::Playlists => "플레이리스트"@,
                Screen::Favorites => "즐겨찾기"@,
                Screen::History => "재생 이력"@,
                Screen::Detail => "상세"@,
                Screen::Lyrics => "가사"@,
            }),
    {
        match self {
            Screen::Search => "검색",
            Screen::Home => "홈",
            Screen::Recent => "최근 추가",
            Screen::Artists => "아티스트",
            Screen::Albums => "앨범",
            Screen::Songs => "노래",
            Screen::Playlists => "플레이리스트",
            Screen::Favorites => "즐겨찾기",
            Screen::History => "재생 이력",
            Screen::Detail => "상세",
            Screen::Lyrics => "가사",
        }
    }

    /// Views shown as artwork cards rather than rows.
    pub fn cards(self) -> (cards: bool)
        ensures
            cards == (self == Screen::Home || self == Screen::Recent || self == Screen::Artists || self
                == Screen::Albums),
    {
        matches!(self, Screen::Home | Screen::Recent | Screen::Artists | Screen::Albums)
    }
}

#[derive(Clone, Copy, Debug, PartialEq, Eq, Structural)]
pub enum Focus {
    Nav,
    Main,
    Right,
}

#[derive(Clone, Copy, Debug, PartialEq, Eq, Structural)]
pub enum Panel {
    Lyrics,
    Queue,
}

/// What a text field edits.
#[derive(Clone, Debug)]
pub enum EditAction {
    Search,
    Create(Option<ItemRef>),
    Rename(String),
    Describe(String),
    Copy(ItemRef),
    Lyrics(ItemRef),
    Offset(ItemRef),
}

/// The longest text each field accepts, in characters.
pub open spec fn limit_spec(action: EditAction) -> nat {
    match action {
        EditAction::Describe(_) => 2000,
        EditAction::Search | EditAction::Lyrics(_) => 200,
        EditAction::Offset(_) => 12,
        _ => 100,
    }
}

impl EditAction {
    pub fn label(&self) -> (label: &'static str)
        ensures
            label@ == (match self {
                EditAction::Search => "검색"@,
                EditAction::Create(_) => "플레이리스트 만들기"@,
                EditAction::Rename(_) => "이름 변경"@,
                EditAction::Describe(_) => "설명"@,
                EditAction::Copy(_) => "플레이리스트 복사"@,
                EditAction::Lyrics(_) => "가사 찾기"@,
                EditAction::Offset(_) => "가사 시간 (초)"@,
            }),
    {
        match self {
            EditAction::Search => "검색",
            EditAction::Create(_) => "플레이리스트 만들기",
            EditAction::Rename(_) => "이름 변경",
            EditAction::Describe(_) => "설명",
            EditAction::Copy(_) => "플레이리스트 복사",
            EditAction::Lyrics(_) => "가사 찾기",
            EditAction::Offset(_) => "가사 시간 (초)",
        }
    }

    /// The longest text this field accepts, in characters.
    pub fn limit(&self) -> (limit: usize)
        ensures
            limit == limit_spec(*self),
    {
        match self {
            EditAction::Describe(_) => 2000,
            EditAction::Search | EditAction::Lyrics(_) => 200,
            EditAction::Offset(_) => 12,
            _ => 100,
        }
    }
}

/// A single-line text field; the cursor is a character index at a grapheme boundary.
#[derive(Clone, Debug)]
pub struct Editor {
    pub action: EditAction,
    pub buffer: String,
    pub cursor: usize,
}

/// What choosing a menu row does.
#[derive(Clone, Debug)]
pub enum Choice {
    Close,
    Language(Language),
    Edit(EditAction, String),
    Command(Command, Target),
    Delete(String),
    Kind(Kind),
    Source(Source),
    Order(Order),
    PlaylistLibrary(bool),
    FullLyrics,
    Setting(Setting),
}

impl EditAction {
    /// A copy of this action.
    pub fn duplicate(&self) -> (copy: EditAction)
        ensures
            copy == *self,
    {
        match self {
            EditAction::Search => EditAction::Search,
            EditAction::Create(r) => EditAction::Create(
                match r {
                    Some(r) => Some(r.duplicate()),
                    None => None,
                },
            ),
            EditAction::Rename(t) => EditAction::Rename(t.clone()),
            EditAction::Describe(t) => EditAction::Describe(t.clone()),
            EditAction::Copy(r) => EditAction::Copy(r.duplicate()),
            EditAction::Lyrics(r) => EditAction::Lyrics(r.duplicate()),
            EditAction::Offset(r) => EditAction::Offset(r.duplicate()),
        }
    }
}

impl Choice {
    /// Whether two choices do the same: equal, except that commands are compared by
    /// `Command::agrees`.
    pub open spec fn agrees(self, other: Choice) -> bool {
        match (self, other) {
            (Choice::Command(a, s), Choice::Command(b, t)) => a.agrees(b) && s == t,
            _ => self == other,
        }
    }

    /// A copy of this choice (see `agrees`).
    pub fn duplicate(&self) -> (copy: Choice)
        ensures
            copy.agrees(*self),
    {
        match self {
            Choice::Close => Choice::Close,
            Choice::Language(l) => Choice::Language(*l),
            Choice::Edit(a, t) => Choice::Edit(a.duplicate(), t.clone()),
            Choice::Command(c, t) => Choice::Command(c.duplicate(), t.duplicate()),
            Choice::Delete(t) => Choice::Delete(t.clone()),
            Choice::Kind(k) => Choice::Kind(*k),
            Choice::Source(s) => Choice::Source(*s),
            Choice::Order(o) => Choice::Order(*o),
            Choice::PlaylistLibrary(b) => Choice::PlaylistLibrary(*b),
            Choice::FullLyrics => Choice::FullLyrics,
            Choice::Setting(s) => Choice::Setting(*s),
        }
    }
}

#[derive(Clone, Debug)]
pub struct MenuRow {
    pub label: String,
    pub detail: String,
    pub checked: bool,
    pub choice: Choice,
}

#[derive(Clone, Debug)]
pub enum Dialog {
    Menu { title: String, rows: Vec<MenuRow>, cursor: usize },
    Lyrics { cursor: usize },
    Settings { cursor: usize },
}

/// Presentation state. Interpolated timings and animation values live with the renderer.
#[derive(Clone, Debug)]
pub struct Ui {
    pub language: Language,
    pub view: Screen,
    pub back: Screen,
    pub focus: Focus,
    pub panel: Panel,
    pub cursors: [usize; 2],
    pub nav_cursor: usize,
    pub left_open: bool,
    pub right_open: bool,
    pub preferred: Focus,
    pub theme: usize,
    pub transparent: bool,
    pub plain_icons: bool,
    pub reduced_motion: bool,
    pub tour_step: u64,
    pub query: String,
    pub search_kind: Kind,
    pub search_source: Source,
    pub order: Order,
    pub editor: Option<Editor>,
    pub dialog: Option<Dialog>,
    pub playlist_library: bool,
    pub help: bool,
    pub feedback: Option<String>,
    pub hover: Option<(i32, i32)>,
    /// The lyrics scroll position the user chose, in thousandths of a line; `None`
    /// follows the playing line.
    pub lyric_manual: Option<u64>,
    /// The last key pressed and when, in milliseconds.
    pub pulse: Option<(String, u64)>,
    /// The item last toggled as a favorite and when, in milliseconds.
    pub favorite_pulse: Option<(ItemRef, u64)>,
    /// When the guided tour started, in milliseconds, while it runs.
    pub tour: Option<u64>,
    /// A short message and when it appeared, in milliseconds.
    pub toast: Option<(String, u64)>,
    /// When the pointer came to rest where it hovers, in milliseconds.
    pub hover_since: u64,
}

impl Default for Ui {
    fn default() -> (ui: Ui)
        ensures
            ui.language == Language::Korean,
            ui.view == Screen::Songs,
            ui.back == Screen::Albums,
            ui.focus == Focus::Main,
            ui.panel == Panel::Lyrics,
            ui.cursors@ == seq![0usize, 0usize],
            ui.nav_cursor == 5,
            ui.left_open && ui.right_open,
            ui.preferred == Focus::Nav,
            ui.theme == 0,
            !ui.transparent && !ui.plain_icons && !ui.reduced_motion,
            ui.tour_step == 0,
            ui.query@.len() == 0,
            ui.search_kind == Kind::Song,
            ui.search_source == Source::Catalog,
            ui.order == Order::Recent,
            ui.editor is None && ui.dialog is None,
            !ui.playlist_library && !ui.help,
            ui.feedback is None && ui.hover is None && ui.lyric_manual is None,
            ui.pulse is None && ui.favorite_pulse is None && ui.tour is None && ui.toast is None,
            ui.hover_since == 0,
    {
        Ui {
            language: Language::Korean,
            view: Screen::Songs,
            back: Screen::Albums,
            focus: Focus::Main,
            panel: Panel::Lyrics,
            cursors: [0, 0],
            nav_cursor: 5,
            left_open: true,
            right_open: true,
            preferred: Focus::Nav,
            theme: 0,
            transparent: false,
            plain_icons: false,
            reduced_motion: false,
            tour_step: 0,
            query: String::new(),
            search_kind: Kind::Song,
            search_source: Source::Catalog,
            order: Order::Recent,
            editor: None,
            dialog: None,
            playlist_library: false,
            help: false,
            feedback: None,
            hover: None,
            lyric_manual: None,
            pulse: None,
            favorite_pulse: None,
            tour: None,
            toast: None,
            hover_since: 0,
        }
    }
}

impl Ui {
    /// Whether the queue panel has focus.
    pub fn queue_focus(&self) -> (focused: bool)
        ensures
            focused == (self.focus == Focus::Right && self.panel == Panel::Queue),
    {
        self.focus == Focus::Right && self.panel == Panel::Queue
    }

    /// Whether lyrics have focus, in the side panel or as the main view.
    pub fn lyrics_focus(&self) -> (focused: bool)
        ensures
            focused == ((self.focus == Focus::Right && self.panel == Panel::Lyrics) || (self.focus
                == Focus::Main && self.view == Screen::Lyrics)),
    {
        (self.focus == Focus::Right && self.panel == Panel::Lyrics) || (self.focus == Focus::Main
            && self.view == Screen::Lyrics)
    }

    /// The selection of the focused list: the queue cursor when the queue has focus,
    /// the main cursor otherwise.
    pub fn cursor(&self) -> (cursor: usize)
        ensures
            cursor == if self.focus == Focus::Right && self.panel == Panel::Queue {
                self.cursors[1]
            } else {
                self.cursors[0]
            },
    {
        if self.queue_focus() {
            self.cursors[1]
        } else {
            self.cursors[0]
        }
    }

    /// Shows `view` with the main list focused and its selection reset; full lyrics
    /// close the side panel, and the navigation cursor follows the view (or the view
    /// returned to, or the albums entry).
    pub fn go(&mut self, view: Screen)
        ensures
            shows(*old(self), *final(self), view),
            final(self).view == view,
            final(self).focus == Focus::Main,
            final(self).cursors[0] == 0,
            final(self).cursors[1] == old(self).cursors[1],
    {
        self.view = view;
        if view == Screen::Lyrics {
            self.right_open = false;
        }
        self.focus = Focus::Main;
        self.cursors.set(0, 0);
        self.nav_cursor = match nav_index(view) {
            Some(i) => i,
            None => match nav_index(self.back) {
                Some(i) => i,
                None => 4,
            },
        };
        assert(self.cursors@ =~= seq![0usize, old(self).cursors@[1]]);
    }
}


/// Whether `after` is `before` showing `view` (see `Ui::go`): the main list focused with
/// its selection reset, the side panel closed for full lyrics, and the navigation cursor
/// on the view, else on the view returned to, else on the albums entry.
pub open spec fn shows(before: Ui, after: Ui, view: Screen) -> bool {
    &&& after == Ui {
        view,
        focus: Focus::Main,
        cursors: after.cursors,
        right_open: before.right_open && view != Screen::Lyrics,
        nav_cursor: match nav_index_spec(view) {
            Some(i) => i,
            None => match nav_index_spec(before.back) {
                Some(i) => i,
                None => 4,
            },
        },
        ..before
    }
    &&& after.cursors@ == seq![0usize, before.cursors@[1]]
}

/// The name of a source as its key spells it.
pub open spec fn source_name(source: Source) -> Seq<char> {
    match source {
        Source::Catalog => "Catalog"@,
        Source::Library => "Library"@,
        Source::Collection => "Collection"@,
    }
}

/// The name of a kind as its key spells it.
pub open spec fn kind_name(kind: Kind) -> Seq<char> {
    match kind {
        Kind::Song => "Song"@,
        Kind::Album => "Album"@,
        Kind::Artist => "Artist"@,
        Kind::Playlist => "Playlist"@,
        Kind::Station => "Station"@,
    }
}

/// The key of an item: `Source:Kind:id`.
pub open spec fn item_key_spec(reference: ItemRefView) -> Seq<char> {
    source_name(reference.source) + ":"@ + kind_name(reference.kind) + ":"@ + reference.id
}

/// Whether `s` holds no colon.
pub open spec fn colon_free(s: Seq<char>) -> bool {
    forall|i: int| 0 <= i < s.len() ==> s[i] != ':'
}

/// The names in a key hold no colon, and different sources or kinds have different names.
proof fn lemma_key_names(source: Source, other_source: Source, kind: Kind, other_kind: Kind)
    ensures
        colon_free(source_name(source)),
        colon_free(kind_name(kind)),
        source_name(source) == source_name(other_source) ==> source == other_source,
        kind_name(kind) == kind_name(other_kind) ==> kind == other_kind,
{
    reveal_strlit("Catalog");
    reveal_strlit("Library");
    reveal_strlit("Collection");
    reveal_strlit("Song");
    reveal_strlit("Album");
    reveal_strlit("Artist");
    reveal_strlit("Playlist");
    reveal_strlit("Station");
    if source_name(source) == source_name(other_source) && source != other_source {
        assert(source_name(source)[1] == source_name(other_source)[1]);
    }
    if kind_name(kind) == kind_name(other_kind) && kind != other_kind {
        assert(kind_name(kind)[1] == kind_name(other_kind)[1]);
    }
}

/// Text joined at a colon after a colon-free part splits back at that colon.
proof fn lemma_split_at_colon(a: Seq<char>, x: Seq<char>, b: Seq<char>, y: Seq<char>)
    requires
        colon_free(a),
        colon_free(b),
        a + ":"@ + x == b + ":"@ + y,
    ensures
        a == b,
        x == y,
{
    reveal_strlit(":");
    let whole = a + ":"@ + x;
    let other = b + ":"@ + y;
    if a.len() < b.len() {
        assert(whole[a.len() as int] == ':');
        assert(other[a.len() as int] == b[a.len() as int]);
    } else if b.len() < a.len() {
        assert(other[b.len() as int] == ':');
        assert(whole[b.len() as int] == a[b.len() as int]);
    }
    assert(a =~= whole.take(a.len() as int));
    assert(b =~= other.take(b.len() as int));
    assert(x =~= whole.skip(a.len() as int + 1));
    assert(y =~= other.skip(b.len() as int + 1));
}

/// Two references have the same key exactly when they name the same item: source, kind
/// and id (which may itself hold colons).
pub proof fn law_item_keys_identify_items(a: ItemRefView, b: ItemRefView)
    ensures
        item_key_spec(a) == item_key_spec(b) <==> a == b,
{
    if item_key_spec(a) == item_key_spec(b) {
        lemma_key_names(a.source, b.source, a.kind, b.kind);
        lemma_key_names(b.source, a.source, b.kind, a.kind);
        let rest_a = kind_name(a.kind) + ":"@ + a.id;
        let rest_b = kind_name(b.kind) + ":"@ + b.id;
        assert(item_key_spec(a) =~= source_name(a.source) + ":"@ + rest_a);
        assert(item_key_spec(b) =~= source_name(b.source) + ":"@ + rest_b);
        lemma_split_at_colon(source_name(a.source), rest_a, source_name(b.source), rest_b);
        lemma_split_at_colon(kind_name(a.kind), a.id, kind_name(b.kind), b.id);
    }
}

/// The key of an item: `Source:Kind:id`.
pub fn item_key(reference: &ItemRef) -> (key: String)
    ensures
        key@ == item_key_spec(reference@),
{
    let source = match reference.source {
        Source::Catalog => "Catalog",
        Source::Library => "Library",
        Source::Collection => "Collection",
    };
    let kind = match reference.kind {
        Kind::Song => "Song",
        Kind::Album => "Album",
        Kind::Artist => "Artist",
        Kind::Playlist => "Playlist",
        Kind::Station => "Station",
    };
    let colon = chars_of(":");
    let key = join_chars(&chars_of(source), &colon);
    let key = join_chars(&key, &chars_of(kind));
    let key = join_chars(&key, &colon);
    let key = join_chars(&key, &chars_of(reference.id.as_str()));
    string_of(key.as_slice())
}

} // verus!
