//! The backend contract as the interface holds it: requests, commands, events and the
//! records they carry. Times are whole milliseconds and volume levels thousandths, so the
//! confirmed state is exact; the transport converts them at the wire.
use vstd::prelude::*;

verus! {

/// The protocol version both sides speak.
pub const API_VERSION: u64 = 1;

/// The largest message either side accepts, in bytes (1 MiB).
pub const MAX_MESSAGE_BYTES: usize = 1048576;

#[derive(Clone, Copy, Debug, PartialEq, Eq, Structural)]
pub enum Source {
    Catalog,
    Library,
    Collection,
}

#[derive(Clone, Copy, Debug, PartialEq, Eq, Structural)]
pub enum Kind {
    Song,
    Album,
    Artist,
    Playlist,
    Station,
}

#[derive(Clone, Copy, Debug, PartialEq, Eq, Structural)]
pub enum Scope {
    Home,
    Recent,
    Library,
    Collections,
    Favorites,
    History,
}

#[derive(Clone, Copy, Debug, PartialEq, Eq, Structural)]
pub enum Order {
    Recent,
    Name,
    Artist,
}

#[derive(Clone, Copy, Debug, PartialEq, Eq, Structural)]
pub enum RepeatMode {
    Off,
    One,
    All,
}

#[derive(Clone, Copy, Debug, PartialEq, Eq, Structural)]
pub enum Placement {
    Replace,
    Last,
}

#[derive(Clone, Copy, Debug, PartialEq, Eq, Structural)]
pub enum Control {
    Toggle,
    Next,
    Previous,
}

#[derive(Clone, Copy, Debug, PartialEq, Eq, Structural)]
pub enum Authorization {
    NotDetermined,
    Denied,
    Restricted,
    Authorized,
}

#[derive(Clone, Copy, Debug, PartialEq, Eq, Structural)]
pub enum LyricsStatus {
    Plain,
    Synced,
    Instrumental,
    Missing,
}

#[derive(Clone, Copy, Debug, PartialEq, Eq, Structural)]
pub enum ErrorCode {
    Invalid,
    NotFound,
    Network,
    Storage,
    Busy,
    Cancelled,
    Conflict,
    Unavailable,
    NotAuthorized,
    SignInRequired,
}

/// The identity of an item: `(source, kind, id)`.
#[derive(Clone, Debug, PartialEq)]
pub struct ItemRef {
    pub id: String,
    pub source: Source,
    pub kind: Kind,
}

/// The identity of an item as mathematical values.
pub struct ItemRefView {
    pub id: Seq<char>,
    pub source: Source,
    pub kind: Kind,
}

impl View for ItemRef {
    type V = ItemRefView;

    open spec fn view(&self) -> ItemRefView {
        ItemRefView { id: self.id@, source: self.source, kind: self.kind }
    }
}

impl ItemRef {
    /// Whether both references name the same item.
    pub fn same(&self, other: &ItemRef) -> (same: bool)
        ensures
            same == (self@ == other@),
    {
        self.id == other.id && self.source == other.source && self.kind == other.kind
    }

    /// A copy of this reference.
    pub fn duplicate(&self) -> (copy: ItemRef)
        ensures
            copy == *self,
            copy@ == self@,
    {
        ItemRef { id: self.id.clone(), source: self.source, kind: self.kind }
    }
}

/// Display metadata of an item.
#[derive(Clone, Debug, PartialEq)]
pub struct Item {
    pub item_ref: ItemRef,
    pub title: String,
    pub artist: String,
    pub album: String,
    pub duration_ms: Option<u64>,
    pub artwork_url: Option<String>,
    pub album_ref: Option<ItemRef>,
}

impl Item {
    /// A copy of this item.
    pub fn duplicate(&self) -> (copy: Item)
        ensures
            copy == *self,
    {
        Item {
            item_ref: self.item_ref.duplicate(),
            title: self.title.clone(),
            artist: self.artist.clone(),
            album: self.album.clone(),
            duration_ms: self.duration_ms,
            artwork_url: match &self.artwork_url {
                Some(url) => Some(url.clone()),
                None => None,
            },
            album_ref: match &self.album_ref {
                Some(album) => Some(album.duplicate()),
                None => None,
            },
        }
    }
}

#[derive(Clone, Debug, PartialEq)]
pub struct Collection {
    pub id: String,
    pub name: String,
    pub description: String,
    pub count: u64,
}

#[derive(Clone, Debug, PartialEq)]
pub struct SessionState {
    pub authorization: Authorization,
    pub can_play_catalog: Option<bool>,
}

#[derive(Clone, Debug, PartialEq)]
pub struct StoreState {
    pub collections: Vec<Collection>,
    pub favorites: Vec<ItemRef>,
    pub history_count: u64,
}

#[derive(Clone, Debug, PartialEq)]
pub struct PlayerState {
    pub current: Option<Item>,
    pub current_entry_id: Option<String>,
    pub playing: bool,
    pub position_ms: u64,
    pub queue_count: u64,
    pub queue_revision: u64,
    pub updated_at_ms: u64,
    pub repeat_mode: RepeatMode,
    pub shuffle: bool,
    pub can_seek: bool,
}

/// Output volume; `level` is in thousandths of full scale.
#[derive(Clone, Debug, PartialEq)]
pub struct VolumeState {
    pub device: String,
    pub level: Option<u32>,
    pub muted: Option<bool>,
    pub can_set_volume: bool,
    pub can_mute: bool,
}

#[derive(Clone, Debug, PartialEq)]
pub struct Snapshot {
    pub session: SessionState,
    pub player: PlayerState,
    pub store: StoreState,
    pub volume: VolumeState,
}

#[derive(Clone, Debug, PartialEq)]
pub struct Page {
    pub items: Vec<Item>,
    pub next_offset: Option<u64>,
}

#[derive(Clone, Debug, PartialEq)]
pub struct DetailPage {
    pub item: Item,
    pub children: Vec<Item>,
    pub next_offset: Option<u64>,
}

#[derive(Clone, Debug, PartialEq)]
pub struct QueueEntry {
    pub id: String,
    pub item: Option<Item>,
}

#[derive(Clone, Debug, PartialEq)]
pub struct QueuePage {
    pub entries: Vec<QueueEntry>,
    pub next_offset: Option<u64>,
    pub revision: u64,
    pub total: u64,
}

/// One lyric line; `time_ms` is present for synchronized lyrics.
#[derive(Clone, Debug, PartialEq)]
pub struct LyricLine {
    pub time_ms: Option<i64>,
    pub text: String,
}

/// Lyrics of an item; a positive `offset_ms` delays every line by that much.
#[derive(Clone, Debug, PartialEq)]
pub struct Lyrics {
    pub item: ItemRef,
    pub match_id: Option<u64>,
    pub status: LyricsStatus,
    pub lines: Vec<LyricLine>,
    pub offset_ms: i64,
}

#[derive(Clone, Debug, PartialEq)]
pub struct LyricMatch {
    pub id: u64,
    pub title: String,
    pub artist: String,
    pub album: String,
    pub duration_ms: Option<u64>,
}

#[derive(Clone, Debug, PartialEq)]
pub struct LyricsMatches {
    pub item: ItemRef,
    pub matches: Vec<LyricMatch>,
}

/// A backend-decoded RGB image, row-major, three bytes per pixel.
#[derive(Clone, Debug, PartialEq)]
pub struct Artwork {
    pub item: ItemRef,
    pub width: u64,
    pub height: u64,
    pub rgb: Vec<u8>,
}

#[derive(Clone, Debug, PartialEq)]
pub struct CreatedCollection {
    pub collection: Collection,
    pub store: StoreState,
}

#[derive(Clone, Debug, PartialEq)]
pub struct Failure {
    pub code: ErrorCode,
    pub message: String,
    pub retryable: bool,
}

#[derive(Clone, Debug, PartialEq)]
pub struct Ack {
    pub message: String,
}

/// The payload of an event.
#[derive(Clone, Debug, PartialEq)]
pub enum Notice {
    Ack(Ack),
    Snapshot(Snapshot),
    Session(SessionState),
    Store(StoreState),
    CollectionCreated(CreatedCollection),
    Volume(VolumeState),
    Player(PlayerState),
    Page(Page),
    Detail(DetailPage),
    Queue(QueuePage),
    Lyrics(Lyrics),
    LyricsMatches(LyricsMatches),
    Artwork(Artwork),
    Failure(Failure),
}

/// A reply (`id` present) or an unsolicited state change (`id` absent).
#[derive(Clone, Debug, PartialEq)]
pub struct Event {
    pub version: u64,
    pub id: Option<u64>,
    pub sequence: u64,
    pub event: Notice,
}

#[derive(Clone, Debug, PartialEq)]
pub struct SearchParams {
    pub query: String,
    pub source: Source,
    pub kind: Kind,
    pub offset: u64,
}

#[derive(Clone, Debug, PartialEq)]
pub struct BrowseParams {
    pub scope: Scope,
    pub kind: Kind,
    pub collection_id: Option<String>,
    pub order: Order,
    pub offset: u64,
}

#[derive(Clone, Debug, PartialEq)]
pub struct DetailParams {
    pub item: ItemRef,
    pub offset: u64,
}

#[derive(Clone, Debug, PartialEq)]
pub struct QueueParams {
    pub offset: u64,
    pub revision: Option<u64>,
}

#[derive(Clone, Debug, PartialEq)]
pub struct LyricsParams {
    pub item: ItemRef,
}

#[derive(Clone, Debug, PartialEq)]
pub struct LyricsSearchParams {
    pub item: ItemRef,
    pub query: String,
}

#[derive(Clone, Debug, PartialEq)]
pub struct LyricsChooseParams {
    pub item: ItemRef,
    pub match_id: u64,
}

#[derive(Clone, Debug, PartialEq)]
pub struct LyricsOffsetParams {
    pub item: ItemRef,
    pub offset_ms: i64,
}

#[derive(Clone, Debug, PartialEq)]
pub struct ArtworkParams {
    pub item: ItemRef,
}

#[derive(Clone, Debug, PartialEq)]
pub struct CancelParams {
    pub request_id: u64,
}

#[derive(Clone, Debug, PartialEq)]
pub struct PlayParams {
    pub items: Vec<ItemRef>,
    pub start_index: u64,
    pub placement: Placement,
    pub shuffle: Option<bool>,
}

#[derive(Clone, Debug, PartialEq)]
pub struct ControlParams {
    pub action: Control,
}

#[derive(Clone, Debug, PartialEq)]
pub struct ModeParams {
    pub shuffle: bool,
    pub repeat_mode: RepeatMode,
}

#[derive(Clone, Debug, PartialEq)]
pub struct SeekParams {
    pub entry_id: String,
    pub position_ms: u64,
}

/// Requested volume; `level` is in thousandths of full scale.
#[derive(Clone, Debug, PartialEq)]
pub struct VolumeParams {
    pub level: Option<u32>,
    pub muted: Option<bool>,
}

#[derive(Clone, Debug, PartialEq)]
pub struct QueueJump {
    pub entry_id: String,
}

#[derive(Clone, Debug, PartialEq)]
pub struct QueueRemove {
    pub entry_id: String,
}

#[derive(Clone, Debug, PartialEq)]
pub struct QueueMove {
    pub entry_id: String,
    pub before_entry_id: Option<String>,
}

#[derive(Clone, Debug, PartialEq)]
pub struct FavoriteParams {
    pub item: ItemRef,
    pub enabled: bool,
}

#[derive(Clone, Debug, PartialEq)]
pub struct CollectionCreate {
    pub name: String,
    pub description: String,
    pub items: Option<Vec<ItemRef>>,
}

#[derive(Clone, Debug, PartialEq)]
pub struct CollectionCopy {
    pub item: ItemRef,
    pub name: String,
}

#[derive(Clone, Debug, PartialEq)]
pub struct CollectionUpdate {
    pub id: String,
    pub name: Option<String>,
    pub description: Option<String>,
}

#[derive(Clone, Debug, PartialEq)]
pub struct CollectionDelete {
    pub id: String,
}

#[derive(Clone, Debug, PartialEq)]
pub struct CollectionAdd {
    pub id: String,
    pub items: Vec<ItemRef>,
}

#[derive(Clone, Debug, PartialEq)]
pub struct CollectionRemove {
    pub id: String,
    pub index: u64,
}

#[derive(Clone, Debug, PartialEq)]
pub struct CollectionMove {
    pub id: String,
    pub from: u64,
    pub to: u64,
}

/// A command the interface sends to the backend.
#[derive(Clone, Debug, PartialEq)]
pub enum Command {
    Snapshot,
    Authorize,
    Search(SearchParams),
    Browse(BrowseParams),
    Detail(DetailParams),
    Queue(QueueParams),
    Lyrics(LyricsParams),
    LyricsSearch(LyricsSearchParams),
    LyricsChoose(LyricsChooseParams),
    LyricsOffset(LyricsOffsetParams),
    Artwork(ArtworkParams),
    Cancel(CancelParams),
    Play(PlayParams),
    Control(ControlParams),
    Mode(ModeParams),
    Seek(SeekParams),
    Volume(VolumeParams),
    QueueJump(QueueJump),
    QueueRemove(QueueRemove),
    QueueMove(QueueMove),
    Favorite(FavoriteParams),
    CollectionCreate(CollectionCreate),
    CollectionCopy(CollectionCopy),
    CollectionUpdate(CollectionUpdate),
    CollectionDelete(CollectionDelete),
    CollectionAdd(CollectionAdd),
    CollectionRemove(CollectionRemove),
    CollectionMove(CollectionMove),
}

impl Command {
    /// The backend's read-only commands, the only ones that accept cancellation.
    pub open spec fn is_read_spec(&self) -> bool {
        match self {
            Command::Snapshot | Command::Search(_) | Command::Browse(_) | Command::Detail(_)
            | Command::Queue(_) | Command::Lyrics(_) | Command::LyricsSearch(_)
            | Command::Artwork(_) => true,
            _ => false,
        }
    }

    /// Whether this command only reads backend state.
    pub fn is_read(&self) -> (read: bool)
        ensures
            read == self.is_read_spec(),
    {
        match self {
            Command::Snapshot | Command::Search(_) | Command::Browse(_) | Command::Detail(_)
            | Command::Queue(_) | Command::Lyrics(_) | Command::LyricsSearch(_)
            | Command::Artwork(_) => true,
            _ => false,
        }
    }
}

/// A request: protocol version, correlation ID and command.
#[derive(Clone, Debug, PartialEq)]
pub struct Request {
    pub version: u64,
    pub id: u64,
    pub command: Command,
}

/// A copy of a list of references.
pub fn copy_refs(items: &Vec<ItemRef>) -> (copy: Vec<ItemRef>)
    ensures
        copy@ == items@,
{
    let mut copy: Vec<ItemRef> = Vec::new();
    for i in 0..items.len()
        invariant
            copy@ == items@.take(i as int),
    {
        copy.push(items[i].duplicate());
        assert(copy@ =~= items@.take(i + 1));
    }
    assert(items@.take(items@.len() as int) =~= items@);
    copy
}

/// A copy of an optional text.
pub fn copy_text(text: &Option<String>) -> (copy: Option<String>)
    ensures
        copy == *text,
{
    match text {
        Some(t) => Some(t.clone()),
        None => None,
    }
}

impl Command {
    /// Whether two commands ask for the same thing: equal, except that lists of
    /// references are compared by the references they hold.
    pub open spec fn agrees(self, other: Command) -> bool {
        match (self, other) {
            (Command::Play(a), Command::Play(b)) => a.items@ == b.items@ && a.start_index == b.start_index
                && a.placement == b.placement && a.shuffle == b.shuffle,
            (Command::CollectionCreate(a), Command::CollectionCreate(b)) => a.name == b.name && a.description
                == b.description && match (a.items, b.items) {
                (Some(x), Some(y)) => x@ == y@,
                (None, None) => true,
                _ => false,
            },
            (Command::CollectionAdd(a), Command::CollectionAdd(b)) => a.id == b.id && a.items@ == b.items@,
            _ => self == other,
        }
    }

    /// A copy of this command (see `agrees`).
    pub fn duplicate(&self) -> (copy: Command)
        ensures
            copy.agrees(*self),
    {
        match self {
            Command::Snapshot => Command::Snapshot,
            Command::Authorize => Command::Authorize,
            Command::Search(p) => Command::Search(
                SearchParams { query: p.query.clone(), source: p.source, kind: p.kind, offset: p.offset },
            ),
            Command::Browse(p) => Command::Browse(
                BrowseParams {
                    scope: p.scope,
                    kind: p.kind,
                    collection_id: copy_text(&p.collection_id),
                    order: p.order,
                    offset: p.offset,
                },
            ),
            Command::Detail(p) => Command::Detail(DetailParams { item: p.item.duplicate(), offset: p.offset }),
            Command::Queue(p) => Command::Queue(QueueParams { offset: p.offset, revision: p.revision }),
            Command::Lyrics(p) => Command::Lyrics(LyricsParams { item: p.item.duplicate() }),
            Command::LyricsSearch(p) => Command::LyricsSearch(
                LyricsSearchParams { item: p.item.duplicate(), query: p.query.clone() },
            ),
            Command::LyricsChoose(p) => Command::LyricsChoose(
                LyricsChooseParams { item: p.item.duplicate(), match_id: p.match_id },
            ),
            Command::LyricsOffset(p) => Command::LyricsOffset(
                LyricsOffsetParams { item: p.item.duplicate(), offset_ms: p.offset_ms },
            ),
            Command::Artwork(p) => Command::Artwork(ArtworkParams { item: p.item.duplicate() }),
            Command::Cancel(p) => Command::Cancel(CancelParams { request_id: p.request_id }),
            Command::Play(p) => Command::Play(
                PlayParams {
                    items: copy_refs(&p.items),
                    start_index: p.start_index,
                    placement: p.placement,
                    shuffle: p.shuffle,
                },
            ),
            Command::Control(p) => Command::Control(ControlParams { action: p.action }),
            Command::Mode(p) => Command::Mode(ModeParams { shuffle: p.shuffle, repeat_mode: p.repeat_mode }),
            Command::Seek(p) => Command::Seek(SeekParams { entry_id: p.entry_id.clone(), position_ms: p.position_ms }),
            Command::Volume(p) => Command::Volume(VolumeParams { level: p.level, muted: p.muted }),
            Command::QueueJump(p) => Command::QueueJump(QueueJump { entry_id: p.entry_id.clone() }),
            Command::QueueRemove(p) => Command::QueueRemove(QueueRemove { entry_id: p.entry_id.clone() }),
            Command::QueueMove(p) => Command::QueueMove(
                QueueMove { entry_id: p.entry_id.clone(), before_entry_id: copy_text(&p.before_entry_id) },
            ),
            Command::Favorite(p) => Command::Favorite(FavoriteParams { item: p.item.duplicate(), enabled: p.enabled }),
            Command::CollectionCreate(p) => Command::CollectionCreate(
                CollectionCreate {
                    name: p.name.clone(),
                    description: p.description.clone(),
                    items: match &p.items {
                        Some(items) => Some(copy_refs(items)),
                        None => None,
                    },
                },
            ),
            Command::CollectionCopy(p) => Command::CollectionCopy(
                CollectionCopy { item: p.item.duplicate(), name: p.name.clone() },
            ),
            Command::CollectionUpdate(p) => Command::CollectionUpdate(
                CollectionUpdate {
                    id: p.id.clone(),
                    name: copy_text(&p.name),
                    description: copy_text(&p.description),
                },
            ),
            Command::CollectionDelete(p) => Command::CollectionDelete(CollectionDelete { id: p.id.clone() }),
            Command::CollectionAdd(p) => Command::CollectionAdd(
                CollectionAdd { id: p.id.clone(), items: copy_refs(&p.items) },
            ),
            Command::CollectionRemove(p) => Command::CollectionRemove(
                CollectionRemove { id: p.id.clone(), index: p.index },
            ),
            Command::CollectionMove(p) => Command::CollectionMove(
                CollectionMove { id: p.id.clone(), from: p.from, to: p.to },
            ),
        }
    }
}

} // verus!
