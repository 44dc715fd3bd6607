//! Confirmed backend state as the interface holds it: every stream merges in sequence
//! order, pages append only to the view that asked for them, and failures are kept
//! per view in order of recency.
use crate::protocol::{Artwork, Page, Failure, Item, ItemRef, ItemRefView, LyricLine, Lyrics, LyricsMatches,
    LyricsStatus, Notice, PlayerState, QueueEntry, QueuePage, SessionState, StoreState, VolumeState};
use crate::requests::{Response, target_view};
use crate::state::{item_key, item_key_spec};
use crate::target::{Target, TargetMap, TargetView, ascending, inserted, key_index, lemma_inserted,
    lemma_insertion_point, lemma_key_index, lemma_removed, lookup, removed};
use vstd::prelude::*;

verus! {

/// The most artwork images kept.
pub const ARTWORK_CAPACITY: usize = 64;

/// A queue page as mathematical values.
#[verifier::ext_equal]
pub struct QueuePageView {
    pub entries: Seq<QueueEntry>,
    pub next_offset: Option<u64>,
    pub revision: u64,
    pub total: u64,
}

impl View for QueuePage {
    type V = QueuePageView;

    open spec fn view(&self) -> QueuePageView {
        QueuePageView {
            entries: self.entries@,
            next_offset: self.next_offset,
            revision: self.revision,
            total: self.total,
        }
    }
}

/// An optional queue page as mathematical values.
pub open spec fn queue_view(queue: Option<QueuePage>) -> Option<QueuePageView> {
    match queue {
        Some(q) => Some(q@),
        None => None,
    }
}

/// The last sequence number merged from each independent stream.
#[derive(Clone, Copy, Debug)]
pub struct Streams {
    pub session: u64,
    pub store: u64,
    pub volume: u64,
    pub player: u64,
    pub lyrics: u64,
}

/// The reference of the item a player state plays.
pub open spec fn playing_ref(player: Option<PlayerState>) -> Option<ItemRefView> {
    match player {
        Some(p) => match p.current {
            Some(item) => Some(item.item_ref@),
            None => None,
        },
        None => None,
    }
}

/// Confirmed state as mathematical values.
#[verifier::ext_equal]
pub struct DataView {
    pub session: Option<SessionState>,
    pub player: Option<PlayerState>,
    pub store: Option<StoreState>,
    pub volume: Option<VolumeState>,
    pub items: Seq<Item>,
    pub detail: Option<Item>,
    pub next_offset: Option<u64>,
    pub queue: Option<QueuePageView>,
    pub lyrics: Option<Lyrics>,
    pub matches: Option<LyricsMatches>,
    /// Artwork by `Target::Artwork(item key)`.
    pub artwork: Seq<(TargetView, Artwork)>,
    pub loading: Seq<(TargetView, ())>,
    pub errors: Seq<(TargetView, Failure)>,
    pub error_order: Seq<TargetView>,
    pub offsets: Seq<(TargetView, u64)>,
    pub streams: Streams,
}

/// `order` without `target` and without views whose failure was cleared.
pub open spec fn live_order(order: Seq<TargetView>, target: TargetView, errors: Seq<(TargetView, Failure)>) -> Seq<TargetView>
    decreases order.len(),
{
    if order.len() == 0 {
        Seq::empty()
    } else {
        let rest = live_order(order.drop_last(), target, errors);
        let key = order.last();
        if key != target && key_index(errors, key) >= 0 {
            rest.push(key)
        } else {
            rest
        }
    }
}

impl DataView {
    /// Keys of the per-view maps ascending, at most 64 images.
    pub open spec fn wf(self) -> bool {
        &&& ascending(self.artwork)
        &&& ascending(self.loading)
        &&& ascending(self.errors)
        &&& ascending(self.offsets)
        &&& self.artwork.len() <= ARTWORK_CAPACITY
    }

    /// The state after `target` starts loading from `offset`: its failure is cleared,
    /// and a first page of the main view also clears what the main view showed.
    pub open spec fn after_begin(self, target: TargetView, offset: u64) -> DataView {
        let fresh = target == TargetView::Main && offset == 0;
        DataView {
            errors: removed(self.errors, target),
            items: if fresh { Seq::empty() } else { self.items },
            detail: if fresh { None } else { self.detail },
            next_offset: if fresh { None } else { self.next_offset },
            offsets: inserted(self.offsets, target, offset),
            loading: inserted(self.loading, target, ()),
            ..self
        }
    }

    /// The state after `target` is abandoned: not loading, no failure, no offset.
    pub open spec fn after_cancel(self, target: TargetView) -> DataView {
        DataView {
            loading: removed(self.loading, target),
            errors: removed(self.errors, target),
            offsets: removed(self.offsets, target),
            ..self
        }
    }

    /// The playback position at `now_ms`: the last confirmed position, advanced by the
    /// time since it was confirmed while playing, bounded by the track duration.
    pub open spec fn position_at(self, now_ms: u64) -> u64 {
        match self.player {
            None => 0,
            Some(p) => {
                let elapsed: int = if p.playing && now_ms > p.updated_at_ms {
                    now_ms - p.updated_at_ms
                } else {
                    0
                };
                let limit: int = match p.current {
                    Some(i) => match i.duration_ms {
                        Some(d) => d as int,
                        None => u64::MAX as int,
                    },
                    None => u64::MAX as int,
                };
                if p.position_ms + elapsed < limit {
                    (p.position_ms + elapsed) as u64
                } else {
                    limit as u64
                }
            },
        }
    }

    /// The reference of the item currently playing.
    pub open spec fn current_ref(self) -> Option<ItemRefView> {
        playing_ref(self.player)
    }

    /// Merges one confirmed state notice, unless its stream already merged a notice
    /// with an equal or later sequence number. A different current track drops its
    /// lyrics and matches; a different queue revision drops the loaded queue.
    pub open spec fn merge(self, sequence: u64, notice: Notice) -> DataView {
        match notice {
            Notice::Session(value) => if sequence > self.streams.session {
                DataView {
                    session: Some(value),
                    streams: Streams { session: sequence, ..self.streams },
                    ..self
                }
            } else {
                self
            },
            Notice::Store(value) => if sequence > self.streams.store {
                DataView { store: Some(value), streams: Streams { store: sequence, ..self.streams }, ..self }
            } else {
                self
            },
            Notice::Volume(value) => if sequence > self.streams.volume {
                DataView { volume: Some(value), streams: Streams { volume: sequence, ..self.streams }, ..self }
            } else {
                self
            },
            Notice::Player(value) => if sequence > self.streams.player {
                let track_changed = self.current_ref() != playing_ref(Some(value));
                let queue_changed = match self.queue {
                    Some(q) => q.revision != value.queue_revision,
                    None => false,
                };
                DataView {
                    player: Some(value),
                    lyrics: if track_changed { None } else { self.lyrics },
                    matches: if track_changed { None } else { self.matches },
                    queue: if queue_changed { None } else { self.queue },
                    streams: Streams { player: sequence, ..self.streams },
                    ..self
                }
            } else {
                self
            },
            _ => self,
        }
    }

    /// The state after a routed response arrives. The view it settles stops loading
    /// and forgets the offset it asked for; pages, details and queue pages change only
    /// the view that asked for them; a later page appends, the first page replaces; a
    /// queue page of another revision than the player's, or a later page of another
    /// revision than the loaded one, is ignored; lyrics and matches apply only to the
    /// current track; failures are recorded per view as the most recent one.
    pub open spec fn after_apply(self, target: Option<TargetView>, sequence: u64, notice: Notice) -> DataView {
        let offset = match target {
            Some(t) => match lookup(self.offsets, t) {
                Some(o) => o,
                None => 0,
            },
            None => 0,
        };
        let base = match target {
            Some(t) => DataView {
                offsets: removed(self.offsets, t),
                loading: removed(self.loading, t),
                ..self
            },
            None => self,
        };
        match notice {
            Notice::Snapshot(value) => base.merge(sequence, Notice::Session(value.session)).merge(
                sequence,
                Notice::Player(value.player),
            ).merge(sequence, Notice::Store(value.store)).merge(sequence, Notice::Volume(value.volume)),
            Notice::CollectionCreated(value) => base.merge(sequence, Notice::Store(value.store)),
            Notice::Session(_) | Notice::Store(_) | Notice::Volume(_) | Notice::Player(_) => base.merge(
                sequence,
                notice,
            ),
            Notice::Page(value) => if target == Some(TargetView::Main) {
                DataView {
                    items: (if offset == 0 { Seq::empty() } else { base.items }) + value.items@,
                    next_offset: value.next_offset,
                    ..base
                }
            } else {
                base
            },
            Notice::Detail(value) => if target == Some(TargetView::Main) {
                DataView {
                    items: (if offset == 0 { Seq::empty() } else { base.items }) + value.children@,
                    detail: Some(value.item),
                    next_offset: value.next_offset,
                    ..base
                }
            } else {
                base
            },
            Notice::Queue(value) => if target != Some(TargetView::Queue) {
                base
            } else if base.player matches Some(p) && p.queue_revision != value.revision {
                base
            } else if offset > 0 {
                match base.queue {
                    Some(q) => if q.revision == value.revision {
                        DataView {
                            queue: Some(QueuePageView { entries: q.entries + value.entries@, ..value@ }),
                            ..base
                        }
                    } else {
                        base
                    },
                    None => base,
                }
            } else {
                DataView { queue: Some(value@), ..base }
            },
            Notice::Lyrics(value) => if base.current_ref() == Some(value.item@) && sequence
                > base.streams.lyrics {
                DataView {
                    lyrics: Some(value),
                    streams: Streams { lyrics: sequence, ..base.streams },
                    ..base
                }
            } else {
                base
            },
            Notice::LyricsMatches(value) => if base.current_ref() == Some(value.item@) {
                DataView { matches: Some(value), ..base }
            } else {
                base
            },
            Notice::Artwork(value) => {
                let kept = if base.artwork.len() >= ARTWORK_CAPACITY {
                    base.artwork.drop_first()
                } else {
                    base.artwork
                };
                DataView {
                    artwork: inserted(kept, TargetView::Artwork(item_key_spec(value.item@)), value),
                    ..base
                }
            },
            Notice::Failure(value) => {
                let t = match target {
                    Some(t) => t,
                    None => TargetView::Mutation,
                };
                DataView {
                    error_order: live_order(base.error_order, t, base.errors).push(t),
                    errors: inserted(base.errors, t, value),
                    ..base
                }
            },
            _ => base,
        }
    }

    /// Whether the saved favorites hold `reference`.
    pub open spec fn is_favorite(self, reference: ItemRefView) -> bool {
        match self.store {
            Some(s) => exists|i: int| 0 <= i < s.favorites@.len() && #[trigger] s.favorites@[i]@ == reference,
            None => false,
        }
    }

    /// Whether a failure for `target` is shown as a notification.
    pub open spec fn notifies(self, target: TargetView) -> bool {
        target.is_control() || (target == TargetView::Lyrics && self.lyrics is Some)
    }

    /// The most recent notifying failure among `order` (searched from its end).
    pub open spec fn recent_failure(self, order: Seq<TargetView>) -> Option<TargetView>
        decreases order.len(),
    {
        if order.len() == 0 {
            None
        } else if key_index(self.errors, order.last()) >= 0 && self.notifies(order.last()) {
            Some(order.last())
        } else {
            self.recent_failure(order.drop_last())
        }
    }

    /// The first notifying failure among `errors` in key order.
    pub open spec fn first_failure(self, errors: Seq<(TargetView, Failure)>) -> Option<TargetView>
        decreases errors.len(),
    {
        if errors.len() == 0 {
            None
        } else if self.notifies(errors[0].0) {
            Some(errors[0].0)
        } else {
            self.first_failure(errors.drop_first())
        }
    }

    /// The failure shown as a notification: the most recently recorded one that is a
    /// control failure or a lyrics failure while lyrics are shown; failures recorded
    /// otherwise follow in view order.
    pub open spec fn notification(self) -> Option<TargetView> {
        match self.recent_failure(self.error_order) {
            Some(t) => Some(t),
            None => self.first_failure(self.errors),
        }
    }
}

/// The failures of `errors` that `data` does not show as notifications, in order.
pub open spec fn quiet_errors(errors: Seq<(TargetView, Failure)>, data: DataView) -> Seq<(TargetView, Failure)>
    decreases errors.len(),
{
    if errors.len() == 0 {
        errors
    } else {
        let rest = quiet_errors(errors.drop_last(), data);
        if data.notifies(errors.last().0) {
            rest
        } else {
            rest.push(errors.last())
        }
    }
}

/// The number of leading lines whose time is at or before `limit`.
pub open spec fn reached_lines(lines: Seq<LyricLine>, limit: int) -> nat
    decreases lines.len(),
{
    if lines.len() == 0 {
        0
    } else {
        match lines[0].time_ms {
            Some(t) => if t <= limit {
                1 + reached_lines(lines.drop_first(), limit)
            } else {
                0
            },
            None => 0,
        }
    }
}

/// The index of the synchronized lyric line active at `position_ms`, with the lyrics'
/// offset applied; plain lyrics have no active line.
pub open spec fn active_line(lyrics: Option<Lyrics>, position_ms: u64) -> Option<usize> {
    match lyrics {
        Some(l) => if l.status == LyricsStatus::Synced {
            let n = reached_lines(l.lines@, position_ms - l.offset_ms);
            if n == 0 {
                None
            } else {
                Some((n - 1) as usize)
            }
        } else {
            None
        },
        None => None,
    }
}


/// Dropping the first entry keeps the keys ascending.
pub proof fn lemma_drop_first_ascending<V>(entries: Seq<(TargetView, V)>)
    requires
        ascending(entries),
        entries.len() > 0,
    ensures
        ascending(entries.drop_first()),
{
    let rest = entries.drop_first();
    assert forall|a: int, b: int| 0 <= a < b < rest.len() implies #[trigger] rest[a].0.lt(#[trigger] rest[b].0) by {
        assert(entries[a + 1].0.lt(entries[b + 1].0));
    }
}

/// Merging confirmed state touches no per-view map.
pub proof fn lemma_merge_keeps_maps(d: DataView, sequence: u64, notice: Notice)
    ensures
        d.merge(sequence, notice).artwork == d.artwork,
        d.merge(sequence, notice).loading == d.loading,
        d.merge(sequence, notice).errors == d.errors,
        d.merge(sequence, notice).offsets == d.offsets,
        d.merge(sequence, notice).streams.session >= d.streams.session,
        d.merge(sequence, notice).streams.store >= d.streams.store,
        d.merge(sequence, notice).streams.volume >= d.streams.volume,
        d.merge(sequence, notice).streams.player >= d.streams.player,
        d.merge(sequence, notice).streams.lyrics == d.streams.lyrics,
{
}

/// Every response keeps the state well formed: views ordered and at most 64 images.
pub proof fn law_apply_keeps_data_well_formed(
    d: DataView,
    target: Option<TargetView>,
    sequence: u64,
    notice: Notice,
)
    requires
        d.wf(),
    ensures
        d.after_apply(target, sequence, notice).wf(),
{
    let base = match target {
        Some(t) => {
            lemma_removed(d.offsets, t);
            lemma_removed(d.loading, t);
            DataView { offsets: removed(d.offsets, t), loading: removed(d.loading, t), ..d }
        },
        None => d,
    };
    assert(base.wf());
    match notice {
        Notice::Snapshot(value) => {
            let s1 = base.merge(sequence, Notice::Session(value.session));
            let s2 = s1.merge(sequence, Notice::Player(value.player));
            let s3 = s2.merge(sequence, Notice::Store(value.store));
            lemma_merge_keeps_maps(base, sequence, Notice::Session(value.session));
            lemma_merge_keeps_maps(s1, sequence, Notice::Player(value.player));
            lemma_merge_keeps_maps(s2, sequence, Notice::Store(value.store));
            lemma_merge_keeps_maps(s3, sequence, Notice::Volume(value.volume));
        },
        Notice::CollectionCreated(value) => {
            lemma_merge_keeps_maps(base, sequence, Notice::Store(value.store));
        },
        Notice::Artwork(value) => {
            let kept = if base.artwork.len() >= ARTWORK_CAPACITY {
                lemma_drop_first_ascending(base.artwork);
                base.artwork.drop_first()
            } else {
                base.artwork
            };
            let key = TargetView::Artwork(item_key_spec(value.item@));
            lemma_inserted(kept, key, value);
            lemma_key_index(kept, key);
            if key_index(kept, key) < 0 {
                lemma_insertion_point(kept, key);
            }
        },
        Notice::Failure(value) => {
            let t = match target {
                Some(t) => t,
                None => TargetView::Mutation,
            };
            lemma_inserted(base.errors, t, value);
        },
        _ => {
            lemma_merge_keeps_maps(base, sequence, notice);
        },
    }
}

/// Confirmed state never goes back: a session, store, volume or player notice whose
/// sequence number is not newer than the last one merged from its stream changes no
/// confirmed state, and no stream's last sequence number ever decreases.
pub proof fn law_stale_state_is_never_merged(d: DataView, sequence: u64, notice: Notice, target: Option<TargetView>)
    ensures
        ({
            let stale = match notice {
                Notice::Session(_) => sequence <= d.streams.session,
                Notice::Store(_) => sequence <= d.streams.store,
                Notice::Volume(_) => sequence <= d.streams.volume,
                Notice::Player(_) => sequence <= d.streams.player,
                _ => false,
            };
            stale ==> d.merge(sequence, notice) == d
        }),
        ({
            let after = d.after_apply(target, sequence, notice);
            &&& after.streams.session >= d.streams.session
            &&& after.streams.store >= d.streams.store
            &&& after.streams.volume >= d.streams.volume
            &&& after.streams.player >= d.streams.player
            &&& after.streams.lyrics >= d.streams.lyrics
        }),
{
    let base = match target {
        Some(t) => DataView { offsets: removed(d.offsets, t), loading: removed(d.loading, t), ..d },
        None => d,
    };
    match notice {
        Notice::Snapshot(value) => {
            let s1 = base.merge(sequence, Notice::Session(value.session));
            let s2 = s1.merge(sequence, Notice::Player(value.player));
            let s3 = s2.merge(sequence, Notice::Store(value.store));
            lemma_merge_keeps_maps(base, sequence, Notice::Session(value.session));
            lemma_merge_keeps_maps(s1, sequence, Notice::Player(value.player));
            lemma_merge_keeps_maps(s2, sequence, Notice::Store(value.store));
            lemma_merge_keeps_maps(s3, sequence, Notice::Volume(value.volume));
        },
        _ => {
            lemma_merge_keeps_maps(base, sequence, notice);
            match notice {
                Notice::CollectionCreated(value) => lemma_merge_keeps_maps(base, sequence, Notice::Store(value.store)),
                _ => {},
            }
        },
    }
}

/// A failed read is never an empty success: it records the failure for its view,
/// ends the view's loading and leaves every shown list, page and queue unchanged.
pub proof fn law_failures_are_not_empty_successes(d: DataView, target: TargetView, sequence: u64, failure: Failure)
    requires
        d.wf(),
    ensures
        ({
            let after = d.after_apply(Some(target), sequence, Notice::Failure(failure));
            &&& lookup(after.errors, target) == Some(failure)
            &&& lookup(after.loading, target) is None
            &&& after.items == d.items
            &&& after.detail == d.detail
            &&& after.next_offset == d.next_offset
            &&& after.queue == d.queue
            &&& after.lyrics == d.lyrics
            &&& after.player == d.player
            &&& after.store == d.store
        }),
{
    lemma_removed(d.loading, target);
    lemma_inserted(d.errors, target, failure);
}

/// The most recent failure is the one notified, when it is a control failure or a
/// lyrics failure while lyrics are shown.
pub proof fn law_latest_failure_is_notified(d: DataView, target: Option<TargetView>, sequence: u64, failure: Failure)
    requires
        d.wf(),
        d.notifies(match target {
            Some(t) => t,
            None => TargetView::Mutation,
        }),
    ensures
        d.after_apply(target, sequence, Notice::Failure(failure)).notification() == Some(
            match target {
                Some(t) => t,
                None => TargetView::Mutation,
            },
        ),
{
    let t = match target {
        Some(t) => t,
        None => TargetView::Mutation,
    };
    let base = match target {
        Some(t) => DataView { offsets: removed(d.offsets, t), loading: removed(d.loading, t), ..d },
        None => d,
    };
    let after = d.after_apply(target, sequence, Notice::Failure(failure));
    lemma_inserted(base.errors, t, failure);
    lemma_key_index(after.errors, t);
    let order = after.error_order;
    assert(order.last() == t);
    assert(after.recent_failure(order) == Some(t));
}

/// A queue page of another revision than the player's never replaces or extends the
/// confirmed queue.
pub proof fn law_stale_queue_pages_preserve_the_queue(d: DataView, sequence: u64, page: QueuePage)
    requires
        d.player matches Some(p) && p.queue_revision != page.revision,
    ensures
        d.after_apply(Some(TargetView::Queue), sequence, Notice::Queue(page)).queue == d.queue,
{
}

/// A later page of the main view extends what it shows; a first page replaces it.
pub proof fn law_main_pages_append_or_replace(d: DataView, sequence: u64, page: Page)
    ensures
        ({
            let after = d.after_apply(Some(TargetView::Main), sequence, Notice::Page(page));
            match lookup(d.offsets, TargetView::Main) {
                Some(offset) => after.items == if offset > 0 {
                    d.items + page.items@
                } else {
                    page.items@
                },
                None => after.items == page.items@,
            }
        }),
{
}

/// Confirmed backend state, pending views and failures.
pub struct Data {
    pub session: Option<SessionState>,
    pub player: Option<PlayerState>,
    pub store: Option<StoreState>,
    pub volume: Option<VolumeState>,
    pub items: Vec<Item>,
    pub detail: Option<Item>,
    pub next_offset: Option<u64>,
    pub queue: Option<QueuePage>,
    pub lyrics: Option<Lyrics>,
    pub matches: Option<LyricsMatches>,
    /// Received cover images, by `Target::Artwork` of the item key.
    pub artwork: TargetMap<Artwork>,
    pub loading: TargetMap<()>,
    pub errors: TargetMap<Failure>,
    /// The views whose failures are recorded, oldest failure first.
    pub error_order: Vec<Target>,
    /// The offset each loading view asked for.
    pub offsets: TargetMap<u64>,
    /// The sequence number last merged per state stream.
    pub sequences: Streams,
}

impl View for Data {
    type V = DataView;

    open spec fn view(&self) -> DataView {
        DataView {
            session: self.session,
            player: self.player,
            store: self.store,
            volume: self.volume,
            items: self.items@,
            detail: self.detail,
            next_offset: self.next_offset,
            queue: queue_view(self.queue),
            lyrics: self.lyrics,
            matches: self.matches,
            artwork: self.artwork@,
            loading: self.loading@,
            errors: self.errors@,
            error_order: self.error_order@.map_values(|t: Target| t@),
            offsets: self.offsets@,
            streams: self.sequences,
        }
    }
}


/// The item a player state plays.
fn playing(player: &Option<PlayerState>) -> (reference: Option<&ItemRef>)
    ensures
        match reference {
            Some(r) => playing_ref(*player) == Some(r@),
            None => playing_ref(*player) is None,
        },
{
    match player {
        Some(p) => match &p.current {
            Some(item) => Some(&item.item_ref),
            None => None,
        },
        None => None,
    }
}

/// Whether two optional references name the same item.
fn same_playing(a: Option<&ItemRef>, b: Option<&ItemRef>) -> (same: bool)
    ensures
        same == (match (a, b) {
            (Some(x), Some(y)) => x@ == y@,
            (None, None) => true,
            _ => false,
        }),
{
    match (a, b) {
        (Some(x), Some(y)) => x.same(y),
        (None, None) => true,
        _ => false,
    }
}

impl Default for Data {
    fn default() -> (data: Data)
        ensures
            data@.wf(),
            data@.session is None && data@.player is None && data@.store is None && data@.volume is None,
            data@.items.len() == 0 && data@.detail is None && data@.next_offset is None,
            data@.queue is None && data@.lyrics is None && data@.matches is None,
            data@.artwork.len() == 0 && data@.loading.len() == 0 && data@.errors.len() == 0,
            data@.error_order.len() == 0 && data@.offsets.len() == 0,
            data@.streams == (Streams { session: 0, store: 0, volume: 0, player: 0, lyrics: 0 }),
    {
        Data::new()
    }
}

impl Data {
    /// Nothing loaded, nothing pending, no failures.
    pub fn new() -> (data: Data)
        ensures
            data@.wf(),
            data@.session is None && data@.player is None && data@.store is None && data@.volume is None,
            data@.items.len() == 0 && data@.detail is None && data@.next_offset is None,
            data@.queue is None && data@.lyrics is None && data@.matches is None,
            data@.artwork.len() == 0 && data@.loading.len() == 0 && data@.errors.len() == 0,
            data@.error_order.len() == 0 && data@.offsets.len() == 0,
            data@.streams == (Streams { session: 0, store: 0, volume: 0, player: 0, lyrics: 0 }),
    {
        let data = Data {
            session: None,
            player: None,
            store: None,
            volume: None,
            items: Vec::new(),
            detail: None,
            next_offset: None,
            queue: None,
            lyrics: None,
            matches: None,
            artwork: TargetMap::new(),
            loading: TargetMap::new(),
            errors: TargetMap::new(),
            error_order: Vec::new(),
            offsets: TargetMap::new(),
            sequences: Streams { session: 0, store: 0, volume: 0, player: 0, lyrics: 0 },
        };
        assert(data@.error_order.len() == 0);
        data
    }

    /// Merges one confirmed state notice in sequence order (see `DataView::merge`).
    fn merge(&mut self, sequence: u64, notice: Notice)
        requires
            old(self)@.wf(),
        ensures
            final(self)@ == old(self)@.merge(sequence, notice),
    {
        let ghost before = self@;
        match notice {
            Notice::Session(value) => {
                if sequence > self.sequences.session {
                    self.session = Some(value);
                    self.sequences.session = sequence;
                }
            },
            Notice::Store(value) => {
                if sequence > self.sequences.store {
                    self.store = Some(value);
                    self.sequences.store = sequence;
                }
            },
            Notice::Volume(value) => {
                if sequence > self.sequences.volume {
                    self.volume = Some(value);
                    self.sequences.volume = sequence;
                }
            },
            Notice::Player(value) => {
                if sequence > self.sequences.player {
                    let incoming = match &value.current {
                        Some(item) => Some(&item.item_ref),
                        None => None,
                    };
                    if !same_playing(playing(&self.player), incoming) {
                        self.lyrics = None;
                        self.matches = None;
                    }
                    let queue_changed = match &self.queue {
                        Some(q) => q.revision != value.queue_revision,
                        None => false,
                    };
                    if queue_changed {
                        self.queue = None;
                    }
                    self.player = Some(value);
                    self.sequences.player = sequence;
                }
            },
            _ => {},
        }
        assert(self@ =~= before.merge(sequence, notice));
    }


    /// Whether a failure for `target` is shown as a notification.
    fn notifies(&self, target: &Target) -> (shown: bool)
        ensures
            shown == self@.notifies(target@),
    {
        target.is_control() || (matches!(target, Target::Lyrics) && self.lyrics.is_some())
    }

    /// Whether `target` is loading.
    pub fn is_loading(&self, target: &Target) -> (loading: bool)
        requires
            self@.wf(),
        ensures
            loading == (lookup(self@.loading, target@) is Some),
    {
        self.loading.contains(target)
    }

    /// Whether a failure of `target` is recorded.
    pub fn has_failed(&self, target: &Target) -> (failed: bool)
        requires
            self@.wf(),
        ensures
            failed == (lookup(self@.errors, target@) is Some),
    {
        self.errors.contains(target)
    }

    /// The views whose failures are recorded, oldest failure first.
    pub fn failure_order(&self) -> (order: &Vec<Target>)
        ensures
            order@.map_values(|t: Target| t@) == self@.error_order,
    {
        &self.error_order
    }

    /// The failure shown as a notification (see `DataView::notification`).
    pub fn notification_error(&self) -> (shown: Option<(&Target, &Failure)>)
        requires
            self@.wf(),
        ensures
            match shown {
                Some((t, f)) => self@.notification() == Some(t@) && lookup(self@.errors, t@) == Some(*f),
                None => self@.notification() is None,
            },
    {
        let ghost order = self@.error_order;
        let mut i = self.error_order.len();
        assert(order.take(order.len() as int) =~= order);
        while i > 0
            invariant
                self@.wf(),
                order == self@.error_order,
                i <= order.len(),
                order.len() == self.error_order@.len(),
                self@.recent_failure(order) == self@.recent_failure(order.take(i as int)),
            decreases i,
        {
            let key = &self.error_order[i - 1];
            assert(order[i - 1] == key@);
            assert(order.take(i as int).drop_last() =~= order.take(i - 1));
            assert(order.take(i as int).last() == order[i - 1]);
            if self.notifies(key) {
                match self.errors.find(key) {
                    Some(j) => {
                        proof {
                            lemma_key_index(self@.errors, key@);
                        }
                        return Some((self.errors.key_at(j), self.errors.value_at(j)));
                    },
                    None => {},
                }
            }
            i = i - 1;
        }
        assert(order.take(0).len() == 0);
        let ghost errors = self@.errors;
        assert(errors.skip(0) =~= errors);
        let n = self.errors.len();
        for j in 0..n
            invariant
                n == errors.len(),
                order == self@.error_order,
                self@.wf(),
                errors == self@.errors,
                errors.len() == self.errors@.len(),
                self@.recent_failure(order) is None,
                self@.first_failure(errors) == self@.first_failure(errors.skip(j as int)),
        {
            let key = self.errors.key_at(j);
            assert(errors.skip(j as int)[0] == errors[j as int]);
            assert(errors.skip(j as int).drop_first() =~= errors.skip(j + 1));
            if self.notifies(key) {
                proof {
                    crate::target::lemma_key_unique(errors, key@, j as int);
                }
                return Some((key, self.errors.value_at(j)));
            }
        }
        assert(errors.skip(errors.len() as int).len() == 0);
        None
    }

    /// Forgets that `target` is loading, its failure and the offset it asked for.
    pub fn cancel(&mut self, target: &Target)
        requires
            old(self)@.wf(),
        ensures
            final(self)@.wf(),
            final(self)@ == old(self)@.after_cancel(target@),
    {
        let ghost before = self@;
        self.loading.remove(target);
        self.errors.remove(target);
        self.offsets.remove(target);
        assert(self@ =~= DataView {
            loading: removed(before.loading, target@),
            errors: removed(before.errors, target@),
            offsets: removed(before.offsets, target@),
            ..before
        });
    }

    /// Marks `target` as loading from `offset`, clearing its failure; a first page of
    /// the main view also clears what the main view showed.
    pub fn begin(&mut self, target: Target, offset: u64)
        requires
            old(self)@.wf(),
        ensures
            final(self)@.wf(),
            final(self)@ == old(self)@.after_begin(target@, offset),
    {
        let ghost before = self@;
        let ghost tv = target@;
        self.errors.remove(&target);
        if matches!(target, Target::Main) && offset == 0 {
            self.items.clear();
            self.detail = None;
            self.next_offset = None;
        }
        self.offsets.insert(target.duplicate(), offset);
        self.loading.insert(target, ());
        let ghost fresh = tv == TargetView::Main && offset == 0;
        assert(self@ =~= DataView {
            errors: removed(before.errors, tv),
            items: if fresh { Seq::empty() } else { before.items },
            detail: if fresh { None } else { before.detail },
            next_offset: if fresh { None } else { before.next_offset },
            offsets: inserted(before.offsets, tv, offset),
            loading: inserted(before.loading, tv, ()),
            ..before
        });
    }

    /// The identity of row `index`: a queue entry ID, or the key of a list item.
    pub fn row_key(&self, index: usize, queue: bool) -> (key: Option<String>)
        ensures
            queue ==> key == (match self@.queue {
                Some(q) => if index < q.entries.len() { Some(q.entries[index as int].id) } else { None },
                None => None::<String>,
            }),
            !queue ==> match key {
                Some(k) => index < self@.items.len() && k@ == item_key_spec(self@.items[index as int].item_ref@),
                None => index >= self@.items.len(),
            },
    {
        if queue {
            match &self.queue {
                Some(q) => if index < q.entries.len() {
                    Some(q.entries[index].id.clone())
                } else {
                    None
                },
                None => None,
            }
        } else if index < self.items.len() {
            Some(item_key(&self.items[index].item_ref))
        } else {
            None
        }
    }

    /// Dismisses every failure shown as a notification.
    pub fn clear_notifications(&mut self)
        requires
            old(self)@.wf(),
        ensures
            final(self)@.wf(),
            final(self)@ == (DataView { errors: quiet_errors(old(self)@.errors, old(self)@), ..old(self)@ }),
    {
        let ghost original = self@.errors;
        let ghost start = self@;
        let ghost mut done: int = 0;
        let mut i: usize = 0;
        assert(original.take(0) =~= Seq::<(TargetView, Failure)>::empty());
        assert(original.skip(0) =~= original);
        while i < self.errors.len()
            invariant
                self@.wf(),
                0 <= done <= original.len(),
                i <= self@.errors.len(),
                self@.errors.take(i as int) == quiet_errors(original.take(done), start),
                self@.errors.skip(i as int) == original.skip(done),
                self@.errors.len() - i == original.len() - done,
                self@ == (DataView { errors: self@.errors, ..start }),
            decreases self@.errors.len() - i,
        {
            let ghost before = self@.errors;
            assert(original.take(done + 1).drop_last() =~= original.take(done));
            assert(original.skip(done)[0] == before[i as int]);
            assert(original.take(done + 1).last() == original[done]);
            assert(original.skip(done + 1) =~= original.skip(done).drop_first());
            let key = self.errors.key_at(i).duplicate();
            if self.notifies(&key) {
                proof {
                    crate::target::lemma_key_unique(before, key@, i as int);
                }
                let _gone = self.errors.remove(&key);
                assert(self@.errors =~= before.remove(i as int));
                assert(self@.errors.take(i as int) =~= before.take(i as int));
                assert(self@.errors.skip(i as int) =~= before.skip(i as int).drop_first());
            } else {
                assert(self@.errors.take(i + 1) =~= before.take(i as int).push(before[i as int]));
                assert(self@.errors.skip(i + 1) =~= before.skip(i as int).drop_first());
                i = i + 1;
            }
            proof {
                done = done + 1;
            }
        }
        assert(original.take(done) =~= original);
        assert(self@.errors.take(i as int) =~= self@.errors);
    }

    /// The item currently playing.
    pub fn current(&self) -> (item: Option<&Item>)
        ensures
            item == (match self@.player {
                Some(p) => match p.current {
                    Some(i) => Some(&i),
                    None => None,
                },
                None => None,
            }),
    {
        match &self.player {
            Some(p) => match &p.current {
                Some(i) => Some(i),
                None => None,
            },
            None => None,
        }
    }

    /// Whether `item` is among the saved favorites.
    pub fn favorite(&self, item: &Item) -> (saved: bool)
        ensures
            saved == self@.is_favorite(item.item_ref@),
    {
        self.saved(&item.item_ref)
    }

    /// Whether the item `reference` names is among the saved favorites.
    pub fn saved(&self, reference: &ItemRef) -> (saved: bool)
        ensures
            saved == self@.is_favorite(reference@),
    {
        match &self.store {
            Some(s) => {
                for i in 0..s.favorites.len()
                    invariant
                        self@.store == Some(*s),
                        forall|j: int| 0 <= j < i ==> #[trigger] s.favorites@[j]@ != reference@,
                {
                    if s.favorites[i].same(reference) {
                        proof {
                            let st = self@.store->0;
                            assert(st.favorites@[i as int]@ == reference@);
                        }
                        return true;
                    }
                }
                false
            },
            None => false,
        }
    }

    /// The playback position at `now_ms`, interpolated from the last confirmed state
    /// while playing and bounded by the track duration.
    pub fn position(&self, now_ms: u64) -> (position: u64)
        ensures
            position == self@.position_at(now_ms),
    {
        let player = match &self.player {
            Some(p) => p,
            None => return 0,
        };
        let elapsed: u64 = if player.playing && now_ms > player.updated_at_ms {
            now_ms - player.updated_at_ms
        } else {
            0
        };
        let limit: u64 = match &player.current {
            Some(i) => match i.duration_ms {
                Some(d) => d,
                None => u64::MAX,
            },
            None => u64::MAX,
        };
        if elapsed < limit && player.position_ms < limit - elapsed {
            player.position_ms + elapsed
        } else {
            limit
        }
    }

    /// The synchronized lyric line active at `position_ms`.
    pub fn active_lyric(&self, position_ms: u64) -> (line: Option<usize>)
        ensures
            line == active_line(self@.lyrics, position_ms),
    {
        let lyrics = match &self.lyrics {
            Some(l) => l,
            None => return None,
        };
        if lyrics.status != LyricsStatus::Synced {
            return None;
        }
        let limit: i128 = position_ms as i128 - lyrics.offset_ms as i128;
        let ghost lines = lyrics.lines@;
        let mut count: usize = 0;
        assert(lines.skip(0) =~= lines);
        while count < lyrics.lines.len()
            invariant_except_break
                lines == lyrics.lines@,
                count <= lines.len(),
                reached_lines(lines, limit as int) == count + reached_lines(lines.skip(count as int), limit as int),
            ensures
                reached_lines(lines, limit as int) == count,
            decreases lines.len() - count,
        {
            assert(lines.skip(count as int)[0] == lines[count as int]);
            assert(lines.skip(count as int).drop_first() =~= lines.skip(count + 1));
            let reached = match lyrics.lines[count].time_ms {
                Some(t) => t as i128 <= limit,
                None => false,
            };
            if !reached {
                break;
            }
            count = count + 1;
        }
        if count == 0 {
            None
        } else {
            Some(count - 1)
        }
    }

    /// Looks up the artwork received for an item.
    pub fn artwork_for(&self, item: &ItemRef) -> (image: Option<&Artwork>)
        requires
            self@.wf(),
        ensures
            match image {
                Some(a) => lookup(self@.artwork, TargetView::Artwork(item_key_spec(item@))) == Some(*a),
                None => lookup(self@.artwork, TargetView::Artwork(item_key_spec(item@))) is None,
            },
    {
        self.artwork.get(&Target::Artwork(item_key(item)))
    }

    /// The lyrics search results.
    pub fn lyric_matches(&self) -> (matches: &Option<LyricsMatches>)
        ensures
            *matches == self@.matches,
    {
        &self.matches
    }

    /// The lyrics shown.
    pub fn shown_lyrics(&self) -> (lyrics: &Option<Lyrics>)
        ensures
            *lyrics == self@.lyrics,
    {
        &self.lyrics
    }

    /// The number of artwork images kept.
    pub fn artwork_count(&self) -> (n: usize)
        ensures
            n == self@.artwork.len(),
    {
        self.artwork.len()
    }

    /// Applies a routed response (see `DataView::after_apply`).
    pub fn apply(&mut self, response: Response)
        requires
            old(self)@.wf(),
        ensures
            final(self)@.wf(),
            final(self)@ == old(self)@.after_apply(
                target_view(response.target),
                response.sequence,
                response.notice,
            ),
    {
        let ghost before = self@;
        let ghost expected = before.after_apply(target_view(response.target), response.sequence, response.notice);
        let Response { target, sequence, notice } = response;
        let mut offset: u64 = 0;
        if let Some(t) = &target {
            if let Some(o) = self.offsets.remove(t) {
                offset = o;
            }
            self.loading.remove(t);
            proof {
                lemma_removed(before.offsets, t@);
                lemma_removed(before.loading, t@);
            }
        }
        let ghost base = self@;
        let main = matches!(target, Some(Target::Main));
        assert(main == (target_view(target) == Some(TargetView::Main)));
        match notice {
            Notice::Snapshot(value) => {
                self.merge(sequence, Notice::Session(value.session));
                self.merge(sequence, Notice::Player(value.player));
                self.merge(sequence, Notice::Store(value.store));
                self.merge(sequence, Notice::Volume(value.volume));
            },
            Notice::CollectionCreated(value) => {
                self.merge(sequence, Notice::Store(value.store));
            },
            Notice::Session(value) => {
                self.merge(sequence, Notice::Session(value));
            },
            Notice::Store(value) => {
                self.merge(sequence, Notice::Store(value));
            },
            Notice::Volume(value) => {
                self.merge(sequence, Notice::Volume(value));
            },
            Notice::Player(value) => {
                self.merge(sequence, Notice::Player(value));
            },
            Notice::Page(value) => {
                if main {
                    if offset == 0 {
                        self.items.clear();
                    }
                    let mut more = value.items;
                    self.items.append(&mut more);
                    self.next_offset = value.next_offset;
                }
            },
            Notice::Detail(value) => {
                if main {
                    if offset == 0 {
                        self.items.clear();
                    }
                    self.detail = Some(value.item);
                    let mut more = value.children;
                    self.items.append(&mut more);
                    self.next_offset = value.next_offset;
                }
            },
            Notice::Queue(value) => {
                let for_queue = matches!(target, Some(Target::Queue));
                let stale = match &self.player {
                    Some(p) => p.queue_revision != value.revision,
                    None => false,
                };
                if for_queue && !stale {
                    if offset > 0 {
                        let matching = match &self.queue {
                            Some(q) => q.revision == value.revision,
                            None => false,
                        };
                        if matching {
                            let previous = self.queue.take();
                            if let Some(previous) = previous {
                                let mut value = value;
                                let mut entries = previous.entries;
                                entries.append(&mut value.entries);
                                value.entries = entries;
                                self.queue = Some(value);
                            }
                        }
                    } else {
                        self.queue = Some(value);
                    }
                }
            },
            Notice::Lyrics(value) => {
                let current = same_playing(playing(&self.player), Some(&value.item));
                if current && sequence > self.sequences.lyrics {
                    self.lyrics = Some(value);
                    self.sequences.lyrics = sequence;
                }
            },
            Notice::LyricsMatches(value) => {
                if same_playing(playing(&self.player), Some(&value.item)) {
                    self.matches = Some(value);
                }
            },
            Notice::Artwork(value) => {
                if self.artwork.len() >= ARTWORK_CAPACITY {
                    self.artwork.pop_first();
                }
                let ghost kept = self@.artwork;
                let key = item_key(&value.item);
                let ghost key_view = TargetView::Artwork(key@);
                self.artwork.insert(Target::Artwork(key), value);
                proof {
                    lemma_inserted(kept, key_view, value);
                    lemma_key_index(kept, key_view);
                    assert(kept.len() < ARTWORK_CAPACITY);
                    if key_index(kept, key_view) >= 0 {
                        assert(inserted(kept, key_view, value).len() == kept.len());
                    } else {
                        lemma_insertion_point(kept, key_view);
                        assert(inserted(kept, key_view, value).len() == kept.len() + 1);
                    }
                }
            },
            Notice::Failure(value) => {
                let t = match target {
                    Some(t) => t,
                    None => Target::Mutation,
                };
                let ghost order = base.error_order;
                let mut kept: Vec<Target> = Vec::new();
                for i in 0..self.error_order.len()
                    invariant
                        self@ == base,
                        self.errors.wf(),
                        order.len() == self.error_order@.len(),
                        forall|j: int| 0 <= j < order.len() ==> #[trigger] order[j] == self.error_order@[j]@,
                        kept@.map_values(|k: Target| k@) == live_order(order.take(i as int), t@, base.errors),
                {
                    let key = &self.error_order[i];
                    assert(order.take(i + 1).drop_last() =~= order.take(i as int));
                    assert(order.take(i + 1).last() == order[i as int]);
                    proof {
                        lemma_key_index(base.errors, key@);
                    }
                    if !key.same(&t) && self.errors.contains(key) {
                        kept.push(key.duplicate());
                    }
                    assert(kept@.map_values(|k: Target| k@) =~= live_order(order.take(i + 1), t@, base.errors));
                }
                assert(order.take(order.len() as int) =~= order);
                kept.push(t.duplicate());
                self.error_order = kept;
                let ghost errors = self@.errors;
                let ghost tv = t@;
                self.errors.insert(t, value);
                proof {
                    lemma_inserted(errors, tv, value);
                }
            },
            _ => {},
        }
        assert(self@ =~= expected);
        assert(ascending(self@.artwork));
        assert(ascending(self@.loading));
        assert(ascending(self@.errors));
        assert(ascending(self@.offsets));
        assert(self@.artwork.len() <= ARTWORK_CAPACITY);
    }
}

/// Whether lyric line `line` has started by `limit` (its time is at or before it).
pub open spec fn line_reached(line: LyricLine, limit: int) -> bool {
    line.time_ms matches Some(t) && t <= limit
}

/// The leading reached lines are exactly the first `reached_lines` ones.
proof fn lemma_reached_lines(lines: Seq<LyricLine>, limit: int)
    ensures
        reached_lines(lines, limit) <= lines.len(),
        forall|j: int| 0 <= j < reached_lines(lines, limit) ==> line_reached(#[trigger] lines[j], limit),
        reached_lines(lines, limit) < lines.len() ==> !line_reached(lines[reached_lines(lines, limit) as int], limit),
    decreases lines.len(),
{
    if lines.len() > 0 {
        let rest = lines.drop_first();
        lemma_reached_lines(rest, limit);
        if line_reached(lines[0], limit) {
            assert forall|j: int| 0 <= j < reached_lines(lines, limit) implies line_reached(#[trigger] lines[j], limit) by {
                if j > 0 {
                    assert(lines[j] == rest[j - 1]);
                }
            }
            if reached_lines(lines, limit) < lines.len() {
                assert(lines[reached_lines(lines, limit) as int] == rest[reached_lines(rest, limit) as int]);
            }
        }
    }
}

/// The active synchronized line is the last line reached at the position, with the
/// offset applied: it and every line before it have started, and the next line (if any)
/// has not; there is none when the first line has not started, and none for lyrics that
/// are not synchronized.
pub proof fn law_active_line_is_the_last_started(lyrics: Lyrics, position_ms: u64)
    ensures
        ({
            let limit = position_ms - lyrics.offset_ms;
            let lines = lyrics.lines@;
            match active_line(Some(lyrics), position_ms) {
                Some(i) => {
                    &&& lyrics.status == LyricsStatus::Synced
                    &&& i < lines.len()
                    &&& forall|j: int| 0 <= j <= i ==> line_reached(#[trigger] lines[j], limit)
                    &&& i + 1 < lines.len() ==> !line_reached(lines[i + 1], limit)
                },
                None => lyrics.status != LyricsStatus::Synced || lines.len() == 0 || !line_reached(lines[0], limit),
            }
        }),
{
    let limit = position_ms - lyrics.offset_ms;
    let lines = lyrics.lines@;
    lemma_reached_lines(lines, limit);
    assert(lines.len() == lyrics.lines.len());
    let n = reached_lines(lines, limit);
    if lyrics.status == LyricsStatus::Synced && n > 0 {
        let i = (n - 1) as usize;
        assert(i == n - 1);
        assert forall|j: int| 0 <= j <= i implies line_reached(#[trigger] lines[j], limit) by {
            assert(j < n);
        }
    }
}

/// The confirmed position of a player state, bounded by the track's duration when known.
pub open spec fn confirmed_position(p: PlayerState) -> int {
    match p.current {
        Some(i) => match i.duration_ms {
            Some(d) => if p.position_ms < d { p.position_ms as int } else { d as int },
            None => p.position_ms as int,
        },
        None => p.position_ms as int,
    }
}

/// The playback position never runs past the track's duration; up to the confirmation
/// time, and at any time while paused, it is the confirmed position; while playing it
/// never goes back and advances by at most the time that passed.
pub proof fn law_position_follows_playback(d: DataView, t1: u64, t2: u64)
    ensures
        d.player is None ==> d.position_at(t1) == 0,
        d.player matches Some(p) ==> {
            &&& p.current matches Some(i) ==> (i.duration_ms matches Some(dur) ==> d.position_at(t1) <= dur)
            &&& (!p.playing || t1 <= p.updated_at_ms) ==> d.position_at(t1) == confirmed_position(p)
            &&& t1 <= t2 ==> d.position_at(t1) <= d.position_at(t2)
            &&& t1 <= t2 ==> d.position_at(t2) - d.position_at(t1) <= t2 - t1
        },
{
}

} // verus!
