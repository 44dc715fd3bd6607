//! Playback, mode, volume and queue controls, and what the selection is.
use crate::controller::{App, OUTBOX_CAPACITY, edit_target, kept, lemma_without_shrinks, opened, queue_read, sent_to, text_view};
use crate::data::DataView;
use crate::protocol::{Command, Control, ControlParams, Item, ItemRef, ItemRefView, Kind, ModeParams, Placement,
    PlayParams, QueueEntry, QueueJump, QueueMove, QueueRemove, RepeatMode, SeekParams, VolumeParams};
use crate::state::{Focus, Panel, Screen, Ui};
use crate::target::{Target, TargetView, lookup};
use vstd::prelude::*;

verus! {

broadcast use vstd::std_specs::vec::group_vec_axioms;

/// Full scale of the volume, in thousandths.
pub const FULL_VOLUME: u32 = 1000;

/// Whether the queue in the side panel has focus.
pub open spec fn queue_focused(ui: Ui) -> bool {
    ui.focus == Focus::Right && ui.panel == Panel::Queue
}

/// Whether lyrics have focus, in the side panel or as the main view.
pub open spec fn lyrics_focused(ui: Ui) -> bool {
    (ui.focus == Focus::Right && ui.panel == Panel::Lyrics) || (ui.focus == Focus::Main && ui.view
        == Screen::Lyrics)
}

/// The loaded queue entry at `index`.
pub open spec fn entry_at(data: DataView, index: int) -> Option<QueueEntry> {
    match data.queue {
        Some(q) => if 0 <= index < q.entries.len() {
            Some(q.entries[index])
        } else {
            None
        },
        None => None,
    }
}

/// The item currently playing.
pub open spec fn current_item(data: DataView) -> Option<Item> {
    match data.player {
        Some(p) => p.current,
        None => None,
    }
}

/// `value` bounded to `low..=high`.
pub open spec fn bounded(value: int, low: int, high: int) -> int {
    if value < low {
        low
    } else if value > high {
        high
    } else {
        value
    }
}

/// The next repeat mode: off, one, all, and off again.
pub open spec fn next_repeat(mode: RepeatMode) -> RepeatMode {
    match mode {
        RepeatMode::Off => RepeatMode::One,
        RepeatMode::One => RepeatMode::All,
        RepeatMode::All => RepeatMode::Off,
    }
}

/// Whether `new` is `old` after `send` queued `command`'s kind for `target` with
/// nothing else changed (see `App::send`).
pub open spec fn sent_plainly(
    old: App,
    new: App,
    target: TargetView,
    wanted: spec_fn(Command) -> bool,
) -> bool {
    sent_to(old, new, target, 0, wanted) && new.same_navigation(&old)
}

/// Whether `command` plays exactly `item` from its start with `placement` and `shuffle`.
pub open spec fn plays(command: Command, item: ItemRefView, placement: Placement, shuffle: Option<bool>) -> bool {
    command matches Command::Play(p) && p.items@.len() == 1 && p.items@[0]@ == item && p.start_index == 0
        && p.placement == placement && p.shuffle == shuffle
}

/// Whether `new` is `old` after a request that remembers `wish` as the wanted value
/// when it was queued, and forgets any wanted value when the outbox was full.
pub open spec fn wished<T>(old: App, new: App, target: TargetView, command: Command, wish: T, wanted: Option<T>) -> bool {
    let queued = kept(old.queue(), target).len() < OUTBOX_CAPACITY;
    &&& sent_to(old, new, target, 0, |c: Command| c == command)
    &&& wanted == if queued { Some(wish) } else { None }
}

/// Whether `new` is `old` after playing the selection as `placement` says (see `App::play_selected`).
pub open spec fn played_selected(old: App, new: App, placement: Placement) -> bool {
    match old.selected_spec() {
        Some(item) => sent_plainly(
            old,
            new,
            TargetView::Mutation,
            |c: Command| plays(c, item.item_ref@, placement, None),
        ),
        None => new == old,
    }
}

/// Whether `new` is `old` after playing the open container (see `App::play_detail`).
pub open spec fn played_detail(old: App, new: App, shuffle: bool) -> bool {
    match old.focused_detail_spec() {
        Some(d) => sent_plainly(
            old,
            new,
            TargetView::Mutation,
            |c: Command| plays(c, d@, Placement::Replace, Some(shuffle)),
        ),
        None => new == old,
    }
}

/// Whether `new` is `old` after acting on the selection (see `App::activate`).
pub open spec fn activated(old: App, new: App) -> bool {
    if queued_focus(old.ui) {
        if lookup(old.data@.errors, TargetView::Queue) is Some {
            sent_plainly(
                old,
                new,
                TargetView::Queue,
                |c: Command| queue_read(c, old.data@, 0),
            )
        } else if !old.ready_spec(TargetView::Queue) {
            new == old
        } else {
            match entry_at(old.data@, old.ui.cursors[1] as int) {
                Some(e) => sent_plainly(
                    old,
                    new,
                    TargetView::Mutation,
                    |c: Command| c matches Command::QueueJump(p) && p.entry_id@ == e.id@,
                ),
                None => new == old,
            }
        }
    } else if lyrics_focused(old.ui) {
        new == App { ui: Ui { lyric_manual: None, ..old.ui }, ..old }
    } else {
        match old.selected_spec() {
            Some(item) => if item.item_ref.kind == Kind::Song || item.item_ref.kind == Kind::Station {
                sent_plainly(
                    old,
                    new,
                    TargetView::Mutation,
                    |c: Command| plays(c, item.item_ref@, Placement::Replace, None),
                )
            } else {
                opened(old, new, item.item_ref)
            },
            None => new == old,
        }
    }
}

impl App {
    /// Whether rows of the list `target` may be acted on (see `App::selection_ready`).
    pub open spec fn ready_spec(&self, target: TargetView) -> bool {
        &&& lookup(self.data@.loading, target) is None
        &&& lookup(self.data@.errors, target) is None
        &&& !self.pending_spec(edit_target(target))
    }

    /// Whether positional edits of the list `target` may be made (see `App::list_ready`).
    pub open spec fn list_ready_spec(&self, target: TargetView) -> bool {
        &&& self.ready_spec(target)
        &&& !self.pending_spec(TargetView::Mutation)
        &&& !self.pending_spec(TargetView::Mode)
        &&& !self.pending_spec(TargetView::Create)
        &&& !self.pending_spec(TargetView::MainEdit)
        &&& !self.pending_spec(TargetView::QueueEdit)
    }

    /// The open container, when the main list shows it and has focus.
    pub open spec fn focused_detail_spec(&self) -> Option<ItemRef> {
        if self.ui.focus == Focus::Main && (self.ui.view == Screen::Detail || self.ui.view == Screen::Playlists) {
            self.detail_ref
        } else {
            None
        }
    }

    /// The item the focused list selects: the queue entry's item, the playing item for
    /// lyrics, or the main row; nothing while the list is not ready or the navigation
    /// panel has focus.
    pub open spec fn selected_spec(&self) -> Option<Item> {
        if self.ui.focus == Focus::Nav {
            None
        } else if queued_focus(self.ui) {
            if !self.ready_spec(TargetView::Queue) {
                None
            } else {
                match entry_at(self.data@, self.ui.cursors[1] as int) {
                    Some(e) => e.item,
                    None => None,
                }
            }
        } else if lyrics_focused(self.ui) {
            current_item(self.data@)
        } else if self.ready_spec(TargetView::Main) && self.ui.cursors[0] < self.data@.items.len() {
            Some(self.data@.items[self.ui.cursors[0] as int])
        } else {
            None
        }
    }

    /// The mode to change from: the one last asked for, or the player's while it has a
    /// track.
    pub open spec fn mode_intent_spec(&self) -> Option<ModeParams> {
        match self.wanted_mode {
            Some(m) => Some(m),
            None => match self.data@.player {
                Some(p) => if p.current is Some {
                    Some(ModeParams { shuffle: p.shuffle, repeat_mode: p.repeat_mode })
                } else {
                    None
                },
                None => None,
            },
        }
    }

    /// The open container, when the main list shows it and has focus.
    pub fn focused_detail(&self) -> (detail: Option<&ItemRef>)
        ensures
            detail == match self.focused_detail_spec() {
                Some(d) => Some(&d),
                None => None,
            },
    {
        if self.ui.focus == Focus::Main && (self.ui.view == Screen::Detail || self.ui.view == Screen::Playlists) {
            match &self.detail_ref {
                Some(d) => Some(d),
                None => None,
            }
        } else {
            None
        }
    }

    /// The item the focused list selects (see `selected_spec`).
    pub fn selected(&self) -> (item: Option<&Item>)
        requires
            self.wf(),
        ensures
            item == match self.selected_spec() {
                Some(i) => Some(&i),
                None => None,
            },
    {
        if self.ui.focus == Focus::Nav {
            None
        } else if self.ui.queue_focus() {
            if !self.selection_ready(&Target::Queue) {
                return None;
            }
            match &self.data.queue {
                Some(q) => if self.ui.cursors[1] < q.entries.len() {
                    match &q.entries[self.ui.cursors[1]].item {
                        Some(i) => Some(i),
                        None => None,
                    }
                } else {
                    None
                },
                None => None,
            }
        } else if self.ui.lyrics_focus() {
            self.data.current()
        } else if self.selection_ready(&Target::Main) && self.ui.cursors[0] < self.data.items.len() {
            Some(&self.data.items[self.ui.cursors[0]])
        } else {
            None
        }
    }

    /// Asks the host to play `item` from its start, placed as `placement`.
    fn play_item(&mut self, item: ItemRef, placement: Placement, shuffle: Option<bool>)
        requires
            old(self).wf(),
        ensures
            final(self).wf(),
            sent_plainly(*old(self), *final(self), TargetView::Mutation, |c: Command| plays(c, item@, placement, shuffle)),
    {
        let ghost before = *self;
        let ghost wanted = item@;
        let command = Command::Play(PlayParams { items: vec![item], start_index: 0, placement, shuffle });
        assert(plays(command, wanted, placement, shuffle));
        self.send_plainly(command, Target::Mutation);
    }

    /// Queues `command` for `target` loading from the start (see `App::send`).
    pub(crate) fn send_plainly(&mut self, command: Command, target: Target) -> (queued: bool)
        requires
            old(self).wf(),
        ensures
            final(self).wf(),
            queued == accepts(*old(self), target@),
            sent_plainly(*old(self), *final(self), target@, |c: Command| c == command),
    {
        let ghost before = *self;
        let ghost sent = command;
        let queued = self.send(command, target, 0);
        proof {
            lemma_without_shrinks(before.queue(), target@);
            let rest = kept(before.queue(), target@);
            if queued {
                assert(self.queue().take(rest.len() as int) =~= rest);
                assert(self.queue().last().command == sent);
            }
        }
        queued
    }

    /// Plays the selected item in place of the queue, or adds it as `placement` says.
    pub fn play_selected(&mut self, placement: Placement)
        requires
            old(self).wf(),
        ensures
            final(self).wf(),
            played_selected(*old(self), *final(self), placement),

    {
        let item = match self.selected() {
            Some(i) => i.item_ref.duplicate(),
            None => return,
        };
        self.play_item(item, placement, None);
    }

    /// Plays the whole open container in place of the queue, shuffled as asked.
    pub fn play_detail(&mut self, shuffle: bool)
        requires
            old(self).wf(),
        ensures
            final(self).wf(),
            played_detail(*old(self), *final(self), shuffle),

    {
        let item = match self.focused_detail() {
            Some(d) => d.duplicate(),
            None => return,
        };
        self.play_item(item, Placement::Replace, Some(shuffle));
    }

    /// Asks the host for a transport action: toggle, next or previous.
    pub fn control(&mut self, action: Control)
        requires
            old(self).wf(),
        ensures
            final(self).wf(),
            sent_plainly(
                *old(self),
                *final(self),
                TargetView::Mutation,
                |c: Command| c == Command::Control(ControlParams { action }),
            ),
    {
        self.send_plainly(Command::Control(ControlParams { action }), Target::Mutation);
    }

    /// Acts on the selection: jumps to the queue entry (reloading a failed queue), follows
    /// the playing line again in lyrics, plays a song or station, or opens anything else.
    pub fn activate(&mut self)
        requires
            old(self).wf(),
            old(self).navigation_revision < u64::MAX,
        ensures
            final(self).wf(),
            activated(*old(self), *final(self)),

    {
        if self.ui.queue_focus() {
            if self.data.has_failed(&Target::Queue) {
                self.queue_page(0);
                return;
            }
            if !self.selection_ready(&Target::Queue) {
                return;
            }
            let entry = match &self.data.queue {
                Some(q) => if self.ui.cursors[1] < q.entries.len() {
                    q.entries[self.ui.cursors[1]].id.clone()
                } else {
                    return;
                },
                None => return,
            };
            let ghost id = entry@;
            let command = Command::QueueJump(QueueJump { entry_id: entry });
            assert(command matches Command::QueueJump(p) && p.entry_id@ == id);
            self.send_plainly(command, Target::Mutation);
        } else if self.ui.lyrics_focus() {
            self.ui.lyric_manual = None;
        } else {
            let (item, playable) = match self.selected() {
                Some(i) => (i.item_ref.duplicate(), i.item_ref.kind == Kind::Song || i.item_ref.kind == Kind::Station),
                None => return,
            };
            if playable {
                self.play_item(item, Placement::Replace, None);
            } else {
                self.open(item);
            }
        }
    }
}

/// Whether `send` queues an intent for `target` in `app` rather than recording a busy
/// failure (see `App::send`).
pub open spec fn accepts(app: App, target: TargetView) -> bool {
    kept(app.queue(), target).len() < OUTBOX_CAPACITY
}

/// Whether `new` is `old` after asking for `mode`, remembered as the wanted mode when
/// the request was queued.
pub open spec fn mode_set(old: App, new: App, mode: ModeParams) -> bool {
    &&& sent_to(old, new, TargetView::Mode, 0, |c: Command| c == Command::Mode(mode))
    &&& new.wanted_mode == if accepts(old, TargetView::Mode) { Some(mode) } else { None }
    &&& new.same_navigation(&App { wanted_mode: new.wanted_mode, ..old })
}

/// Whether `new` is `old` after asking for `volume`, remembered as the wanted volume
/// when the request was queued.
pub open spec fn volume_set(old: App, new: App, volume: VolumeParams) -> bool {
    &&& sent_to(old, new, TargetView::Volume, 0, |c: Command| c == Command::Volume(volume))
    &&& new.wanted_volume == if accepts(old, TargetView::Volume) { Some(volume) } else { None }
    &&& new.same_navigation(&App { wanted_volume: new.wanted_volume, ..old })
}

/// What a seek needs: the duration of the playing track and its queue entry, while the
/// player can seek.
pub open spec fn seekable(data: DataView) -> Option<(u64, Seq<char>)> {
    match data.player {
        Some(p) => if p.can_seek {
            match (p.current, p.current_entry_id) {
                (Some(i), Some(e)) => match i.duration_ms {
                    Some(d) => Some((d, e@)),
                    None => None,
                },
                _ => None,
            }
        } else {
            None
        },
        None => None,
    }
}

/// Whether `new` is `old` after seeking to `position` milliseconds: the position is
/// bounded by the track, asked for its queue entry, and remembered as the wanted
/// position when the request was queued; without a seekable track nothing changes.
pub open spec fn seeked(old: App, new: App, position: int) -> bool {
    match seekable(old.data@) {
        Some((duration, entry)) => {
            let at = bounded(position, 0, duration as int) as u64;
            &&& sent_to(
                old,
                new,
                TargetView::Seek,
                0,
                |c: Command| c matches Command::Seek(p) && p.entry_id@ == entry && p.position_ms == at,
            )
            &&& new.wanted_position_ms == if accepts(old, TargetView::Seek) { Some(at) } else { None }
            &&& new.same_navigation(&App { wanted_position_ms: new.wanted_position_ms, ..old })
        },
        None => new == old,
    }
}

/// Whether `new` is `old` after setting the volume to `level` thousandths: bounded to
/// full scale and unmuting where muting is possible; nothing changes where the volume
/// cannot be set.
pub open spec fn volume_moved(old: App, new: App, level: int) -> bool {
    match old.data@.volume {
        Some(v) => if v.can_set_volume {
            volume_set(
                old,
                new,
                VolumeParams {
                    level: Some(bounded(level, 0, FULL_VOLUME as int) as u32),
                    muted: if v.can_mute { Some(false) } else { None },
                },
            )
        } else {
            new == old
        },
        None => new == old,
    }
}

/// The volume a relative change starts from: the level last asked for, or the
/// confirmed one.
pub open spec fn volume_base(app: App) -> Option<u32> {
    match app.wanted_volume {
        Some(w) if w.level is Some => w.level,
        _ => match app.data@.volume {
            Some(v) => v.level,
            None => None,
        },
    }
}

/// `value` bounded to the range of `i64`.
pub open spec fn saturated(value: int) -> int {
    bounded(value, i64::MIN as int, i64::MAX as int)
}

/// Whether `new` is `old` after switching shuffle (see `App::toggle_shuffle`).
pub open spec fn shuffle_toggled(old: App, new: App) -> bool {
    match old.mode_intent_spec() {
        Some(m) => mode_set(old, new, ModeParams { shuffle: !m.shuffle, ..m }),
        None => new == old,
    }
}

/// Whether `new` is `old` after moving repeat on (see `App::cycle_repeat`).
pub open spec fn repeat_cycled(old: App, new: App) -> bool {
    match old.mode_intent_spec() {
        Some(m) => mode_set(
            old,
            new,
            ModeParams { repeat_mode: next_repeat(m.repeat_mode), ..m },
        ),
        None => new == old,
    }
}

/// Whether `new` is `old` after changing the volume by `amount` thousandths (see `App::volume_by`).
pub open spec fn volume_stepped(old: App, new: App, amount: i32) -> bool {
    match volume_base(old) {
        Some(level) => volume_moved(old, new, level + amount),
        None => new == old,
    }
}

/// Whether `new` is `old` after switching muting (see `App::toggle_mute`).
pub open spec fn mute_toggled(old: App, new: App) -> bool {
    match old.data@.volume {
        Some(v) if v.can_mute => {
            let wanted = match old.wanted_volume {
                Some(w) => w,
                None => VolumeParams { level: None, muted: v.muted },
            };
            volume_set(
                old,
                new,
                VolumeParams {
                    level: wanted.level,
                    muted: Some(!(wanted.muted == Some(true))),
                },
            )
        },
        _ => new == old,
    }
}

/// Whether `new` is `old` after removing the selected queue entry (see `App::remove_queue`).
pub open spec fn queue_entry_removed(old: App, new: App) -> bool {
    if !old.list_ready_spec(TargetView::Queue) {
        new == old
    } else {
        match entry_at(old.data@, old.ui.cursors[1] as int) {
            Some(e) => sent_plainly(
                old,
                new,
                TargetView::QueueEdit,
                |c: Command| c matches Command::QueueRemove(p) && p.entry_id@ == e.id@,
            ),
            None => new == old,
        }
    }
}

/// Whether `new` is `old` after moving the selected queue entry (see `App::move_queue`).
pub open spec fn queue_entry_moved(old: App, new: App, down: bool) -> bool {
    ({
        let index = old.ui.cursors[1] as int;
        match old.data@.queue {
            Some(q) if old.list_ready_spec(TargetView::Queue) && index < q.entries.len()
                && (down || index > 0) => if down && index + 2 >= q.entries.len() && q.next_offset is Some {
                sent_to(
                    old,
                    new,
                    TargetView::Queue,
                    q.next_offset->0,
                    |c: Command| queue_read(c, old.data@, q.next_offset->0),
                ) && new.same_navigation(&old)
            } else if down && index + 1 >= q.entries.len() {
                new == old
            } else {
                queue_moved(old, new, q.entries, index, down)
            },
            _ => new == old,
        }
    })
}

impl App {
    /// The mode to change from (see `mode_intent_spec`).
    fn mode_intent(&self) -> (mode: Option<ModeParams>)
        ensures
            mode == self.mode_intent_spec(),
    {
        match &self.wanted_mode {
            Some(m) => Some(ModeParams { shuffle: m.shuffle, repeat_mode: m.repeat_mode }),
            None => match &self.data.player {
                Some(p) => if p.current.is_some() {
                    Some(ModeParams { shuffle: p.shuffle, repeat_mode: p.repeat_mode })
                } else {
                    None
                },
                None => None,
            },
        }
    }

    /// Switches shuffle, starting from the mode last asked for or the player's.
    pub fn toggle_shuffle(&mut self)
        requires
            old(self).wf(),
        ensures
            final(self).wf(),
            shuffle_toggled(*old(self), *final(self)),

    {
        if let Some(mode) = self.mode_intent() {
            self.set_mode(ModeParams { shuffle: !mode.shuffle, repeat_mode: mode.repeat_mode });
        }
    }

    /// Moves repeat to the next mode: off, one, all, and off again.
    pub fn cycle_repeat(&mut self)
        requires
            old(self).wf(),
        ensures
            final(self).wf(),
            repeat_cycled(*old(self), *final(self)),

    {
        if let Some(mode) = self.mode_intent() {
            let repeat_mode = match mode.repeat_mode {
                RepeatMode::Off => RepeatMode::One,
                RepeatMode::One => RepeatMode::All,
                RepeatMode::All => RepeatMode::Off,
            };
            self.set_mode(ModeParams { shuffle: mode.shuffle, repeat_mode });
        }
    }

    /// Seeks the playing track to `position_ms`, bounded by the track (see `seeked`).
    pub fn seek(&mut self, position_ms: i64)
        requires
            old(self).wf(),
        ensures
            final(self).wf(),
            seeked(*old(self), *final(self), position_ms as int),
    {
        let (duration, entry) = match &self.data.player {
            Some(p) => {
                if !p.can_seek {
                    return;
                }
                match (&p.current, &p.current_entry_id) {
                    (Some(i), Some(e)) => match i.duration_ms {
                        Some(d) => (d, e.clone()),
                        None => return,
                    },
                    _ => return,
                }
            },
            None => return,
        };
        let at: u64 = if position_ms < 0 {
            0
        } else if position_ms as u64 > duration {
            duration
        } else {
            position_ms as u64
        };
        let ghost id = entry@;
        let command = Command::Seek(SeekParams { entry_id: entry, position_ms: at });
        assert(command matches Command::Seek(p) && p.entry_id@ == id && p.position_ms == at);
        let queued = self.send_plainly(command, Target::Seek);
        self.wanted_position_ms = if queued { Some(at) } else { None };
    }

    /// Seeks by `delta_ms` from the position last asked for, or from the position the
    /// player reaches at `now_ms`.
    pub fn seek_by(&mut self, delta_ms: i64, now_ms: u64)
        requires
            old(self).wf(),
        ensures
            final(self).wf(),
            seeked(
                *old(self),
                *final(self),
                saturated(
                    match old(self).wanted_position_ms {
                        Some(p) => p as int,
                        None => old(self).data@.position_at(now_ms) as int,
                    } + delta_ms,
                ),
            ),
    {
        let base: u64 = match self.wanted_position_ms {
            Some(p) => p,
            None => self.data.position(now_ms),
        };
        let wanted: i128 = base as i128 + delta_ms as i128;
        let at: i64 = if wanted > i64::MAX as i128 {
            i64::MAX
        } else if wanted < i64::MIN as i128 {
            i64::MIN
        } else {
            wanted as i64
        };
        self.seek(at);
    }

    /// Asks for `volume`, remembering it while the request is queued.
    fn set_volume(&mut self, volume: VolumeParams)
        requires
            old(self).wf(),
        ensures
            final(self).wf(),
            volume_set(*old(self), *final(self), volume),
    {
        let copy = VolumeParams { level: volume.level, muted: volume.muted };
        let queued = self.send_plainly(Command::Volume(copy), Target::Volume);
        self.wanted_volume = if queued { Some(volume) } else { None };
    }

    /// Sets the volume to `level` thousandths (see `volume_moved`).
    pub fn volume_to(&mut self, level: i64)
        requires
            old(self).wf(),
        ensures
            final(self).wf(),
            volume_moved(*old(self), *final(self), level as int),
    {
        let can_mute = match &self.data.volume {
            Some(v) => {
                if !v.can_set_volume {
                    return;
                }
                v.can_mute
            },
            None => return,
        };
        let bounded_level: u32 = if level < 0 {
            0
        } else if level > FULL_VOLUME as i64 {
            FULL_VOLUME
        } else {
            level as u32
        };
        self.set_volume(VolumeParams { level: Some(bounded_level), muted: if can_mute { Some(false) } else { None } });
    }

    /// Changes the volume by `amount` thousandths from the level last asked for, or the
    /// confirmed one; nothing changes while no level is known.
    pub fn volume_by(&mut self, amount: i32)
        requires
            old(self).wf(),
        ensures
            final(self).wf(),
            volume_stepped(*old(self), *final(self), amount),

    {
        let wanted = match &self.wanted_volume {
            Some(w) => w.level,
            None => None,
        };
        let level = match wanted {
            Some(l) => Some(l),
            None => match &self.data.volume {
                Some(v) => v.level,
                None => None,
            },
        };
        if let Some(level) = level {
            self.volume_to(level as i64 + amount as i64);
        }
    }

    /// Switches muting, starting from the muting last asked for or the confirmed one,
    /// where the output can be muted.
    pub fn toggle_mute(&mut self)
        requires
            old(self).wf(),
        ensures
            final(self).wf(),
            mute_toggled(*old(self), *final(self)),

    {
        let confirmed = match &self.data.volume {
            Some(v) => {
                if !v.can_mute {
                    return;
                }
                v.muted
            },
            None => return,
        };
        let (level, muted) = match &self.wanted_volume {
            Some(w) => (w.level, w.muted),
            None => (None, confirmed),
        };
        let was_muted = match muted {
            Some(m) => m,
            None => false,
        };
        self.set_volume(VolumeParams { level, muted: Some(!was_muted) });
    }

    /// Removes the selected queue entry, once the queue may be edited.
    pub fn remove_queue(&mut self)
        requires
            old(self).wf(),
        ensures
            final(self).wf(),
            queue_entry_removed(*old(self), *final(self)),

    {
        if !self.list_ready(&Target::Queue) {
            return;
        }
        let entry = match &self.data.queue {
            Some(q) => if self.ui.cursors[1] < q.entries.len() {
                q.entries[self.ui.cursors[1]].id.clone()
            } else {
                return;
            },
            None => return,
        };
        let ghost id = entry@;
        let command = Command::QueueRemove(QueueRemove { entry_id: entry });
        assert(command matches Command::QueueRemove(p) && p.entry_id@ == id);
        self.send_plainly(command, Target::QueueEdit);
    }

    /// Moves the selected queue entry one place down or up, once the queue may be edited;
    /// moving past the loaded entries loads the next page instead, when there is one.
    #[verifier::spinoff_prover]
    #[verifier::rlimit(40)]
    pub fn move_queue(&mut self, down: bool)
        requires
            old(self).wf(),
        ensures
            final(self).wf(),
            queue_entry_moved(*old(self), *final(self), down),

    {
        if !self.list_ready(&Target::Queue) {
            return;
        }
        let index = self.ui.cursors[1];
        let (entry, before, next_offset, len) = match &self.data.queue {
            Some(q) => {
                if index >= q.entries.len() {
                    return;
                }
                if !down && index == 0 {
                    return;
                }
                let len = q.entries.len();
                let at_end = down && (len < 2 || index >= len - 2);
                let before: Option<String> = if at_end {
                    None
                } else if down {
                    Some(q.entries[index + 2].id.clone())
                } else {
                    Some(q.entries[index - 1].id.clone())
                };
                (q.entries[index].id.clone(), before, q.next_offset, len)
            },
            None => return,
        };
        if down && (len < 2 || index >= len - 2) {
            if let Some(offset) = next_offset {
                self.queue_page(offset);
                return;
            }
            if index + 1 >= len {
                return;
            }
        }
        let ghost entries = self.data@.queue->0.entries;
        self.send_queue_move(Ghost(entries), index, down, entry, before);
    }

    /// Asks to move queue entry `index` of `entries` one place, relative to the entry
    /// `before` it will precede, and moves the selection with it when queued.
    fn send_queue_move(
        &mut self,
        entries: Ghost<Seq<QueueEntry>>,
        index: usize,
        down: bool,
        entry: String,
        before: Option<String>,
    )
        requires
            old(self).wf(),
            index < entries@.len(),
            index < usize::MAX,
            down ==> index + 1 < entries@.len(),
            !down ==> index > 0,
            entry@ == entries@[index as int].id@,
            text_view(before) == ({
                let b = if down { index + 2 } else { index - 1 };
                if 0 <= b < entries@.len() {
                    Some(entries@[b].id@)
                } else {
                    None
                }
            }),
        ensures
            final(self).wf(),
            queue_moved(*old(self), *final(self), entries@, index as int, down),
    {
        let command = Command::QueueMove(QueueMove { entry_id: entry, before_entry_id: before });
        let queued = self.send_plainly(command, Target::QueueEdit);
        if queued {
            let to = if down { index + 1 } else { index - 1 };
            self.ui.cursors.set(1, to);
        }
    }

    /// Asks for `mode`, remembering it while the request is queued.
    fn set_mode(&mut self, mode: ModeParams)
        requires
            old(self).wf(),
        ensures
            final(self).wf(),
            mode_set(*old(self), *final(self), mode),
    {
        let ghost before = *self;
        let copy = ModeParams { shuffle: mode.shuffle, repeat_mode: mode.repeat_mode };
        let queued = self.send_plainly(Command::Mode(copy), Target::Mode);
        self.wanted_mode = if queued { Some(mode) } else { None };
    }
}

/// Whether `new` is `old` after moving queue entry `index` one place (down or up), with
/// the queue `entries`: the move is asked for relative to the entry it will precede (none
/// at the end) and the selection follows the entry when the request was queued.
pub open spec fn queue_moved(old: App, new: App, entries: Seq<QueueEntry>, index: int, down: bool) -> bool {
    let before = if down { index + 2 } else { index - 1 };
    let to = if down { index + 1 } else { index - 1 };
    let cursor = if accepts(old, TargetView::QueueEdit) { to as usize } else { old.ui.cursors[1] };
    &&& sent_to(
        old,
        new,
        TargetView::QueueEdit,
        0,
        |c: Command| c matches Command::QueueMove(p) && p.entry_id@ == entries[index].id@
            && text_view(p.before_entry_id) == if 0 <= before < entries.len() {
                Some(entries[before].id@)
            } else {
                None
            },
    )
    &&& new.ui.cursors[0] == old.ui.cursors[0]
    &&& new.ui.cursors[1] == cursor
    &&& new.same_navigation(&App { ui: Ui { cursors: new.ui.cursors, ..old.ui }, ..old })
}

/// Whether the queue in the side panel has focus.
pub open spec fn queued_focus(ui: Ui) -> bool {
    queue_focused(ui)
}

} // verus!
