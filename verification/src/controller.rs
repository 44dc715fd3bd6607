//! The interface controller: the outbox of intended requests, their dispatch to the
//! host, replies, navigation and what each view loads.
use crate::data::{Data, DataView};
use crate::protocol::{CancelParams, Command, ErrorCode, Failure, ModeParams, Notice, Request, VolumeParams};
use crate::requests::{Requests, RequestsView, Response, first_obsolete, ids_for, is_state_notice, lemma_with_flag, target_view};
use crate::state::{Dialog, Focus, Panel, Ui, item_key, item_key_spec, nav_index, nav_index_spec, shows};
use crate::target::{Target, TargetView, lookup};
use crate::text::{chars_of, same_text, string_of};
use crate::transport::Admission;
use crate::protocol::{ArtworkParams, Collection, Event, Source, StoreState, BrowseParams, DetailParams, Item, ItemRef, ItemRefView, Kind, Page, QueueParams,
    LyricsParams, Scope, SearchParams};
use crate::text::{trim_end_chars, trim_end_spec, trim_start_chars, trim_start_spec};
use crate::state::{NAV_LEN, Screen};
use crate::theme::THEME_COUNT;
use vstd::prelude::*;

verus! {

broadcast use vstd::std_specs::vec::group_vec_axioms;

/// The most intents waiting to be sent.
pub const OUTBOX_CAPACITY: usize = 64;

/// In-flight requests beyond which only control intents are sent, so that playback and
/// edits always find room.
pub const READ_BUDGET: usize = 12;

/// The most requests in flight.
pub const IN_FLIGHT_LIMIT: usize = 16;

/// A request the interface wants to send.
#[derive(Debug)]
pub struct Intent {
    pub command: Command,
    pub target: Target,
}

/// A place to return to.
#[derive(Debug)]
pub struct Location {
    pub view: Screen,
    pub detail: Option<ItemRef>,
    pub library: bool,
}

/// `queue` without the intents for `target`, in order.
pub open spec fn without(queue: Seq<Intent>, target: TargetView) -> Seq<Intent>
    decreases queue.len(),
{
    if queue.len() == 0 {
        queue
    } else {
        let rest = without(queue.drop_last(), target);
        if queue.last().target@ == target {
            rest
        } else {
            rest.push(queue.last())
        }
    }
}

/// What a new intent for `target` leaves of the waiting ones: the older intents for the
/// same view are replaced, except for mutations, which each count.
pub open spec fn kept(queue: Seq<Intent>, target: TargetView) -> Seq<Intent> {
    if target == TargetView::Mutation {
        queue
    } else {
        without(queue, target)
    }
}

/// Whether an intent for `target` waits in `queue`.
pub open spec fn waits(queue: Seq<Intent>, target: TargetView) -> bool {
    exists|i: int| 0 <= i < queue.len() && #[trigger] queue[i].target@ == target
}

/// The dispatch priority of an intent's target: control first, then the bootstrap and
/// main views, then other views, then artwork.
pub open spec fn priority(target: TargetView) -> int {
    if target.is_control() {
        0
    } else {
        match target {
            TargetView::Bootstrap | TargetView::Main => 1,
            TargetView::Artwork(_) => 3,
            _ => 2,
        }
    }
}

/// Whether the intent at `i` may be sent with `in_flight` requests outstanding.
pub open spec fn eligible(queue: Seq<Intent>, i: int, in_flight: int) -> bool {
    queue[i].target@.is_control() || in_flight < READ_BUDGET
}

/// The intent to send next among those from `i` on, given the best one before `i`: an
/// eligible intent replaces the best one only with a strictly higher priority.
pub open spec fn scan(queue: Seq<Intent>, in_flight: int, i: int, best: Option<int>) -> Option<int>
    decreases queue.len() - i,
{
    if i < 0 || i >= queue.len() {
        best
    } else if eligible(queue, i, in_flight) && match best {
        Some(b) => priority(queue[i].target@) < priority(queue[b].target@),
        None => true,
    } {
        scan(queue, in_flight, i + 1, Some(i))
    } else {
        scan(queue, in_flight, i + 1, best)
    }
}

/// The intent to send next: the first eligible one of the highest priority.
pub open spec fn chosen(queue: Seq<Intent>, in_flight: int) -> Option<int> {
    scan(queue, in_flight, 0, None)
}

/// The message recorded when the outbox is full.
pub open spec fn busy_message() -> Seq<char> {
    "처리 중입니다. 잠시 후 다시 시도해주세요"@
}

/// The message when the host closed the connection.
pub open spec fn closed_message() -> Seq<char> {
    "음악 서비스 연결이 종료되었습니다"@
}

/// The message when every request number has been used.
pub open spec fn exhausted_message() -> Seq<char> {
    "요청 번호를 모두 사용했습니다"@
}


/// Whether `new` and `next` are what taking the next request to offer from `old` gives
/// (see `App::dispatch`).
pub open spec fn dispatched(old: App, new: App, next: Result<Option<Dispatch>, String>) -> bool {
    let count = old.requests@.pending.len();
    &&& new.wf()
    &&& new.same_navigation(&old)
    &&& new.data == old.data
    &&& next matches Err(e) ==> e@ == exhausted_message()
    &&& next matches Ok(Some(d)) ==> new.requests@.pending.len() == count + 1 && (d.slot matches Some(k) ==> k
        <= new.queue().len() < OUTBOX_CAPACITY)
    &&& if count >= IN_FLIGHT_LIMIT {
        next == Ok::<Option<Dispatch>, String>(None) && new.requests == old.requests && new.queue() == old.queue()
    } else if let Some(id) = first_obsolete(old.requests@.pending, old.requests@.latest) {
        new.queue() == old.queue() && if old.requests@.admits() {
            next matches Ok(Some(d)) && d.slot is None && d.target@ == TargetView::Cancel(id) && d.request.command
                == Command::Cancel(CancelParams { request_id: id }) && d.request.id == new.requests@.next_id
                && new.requests@ == old.requests@.after_prepare(d.request.command, TargetView::Cancel(id))
        } else {
            next is Err && new.requests@ == old.requests@
        }
    } else {
        match chosen(old.queue(), count as int) {
            None => next == Ok::<Option<Dispatch>, String>(None) && new.requests == old.requests && new.queue()
                == old.queue(),
            Some(k) => new.queue() == old.queue().remove(k) && if old.requests@.admits() {
                next matches Ok(Some(d)) && d.slot == Some(k as usize) && d.target@ == old.queue()[k].target@
                    && d.request.command == old.queue()[k].command && d.request.id == new.requests@.next_id
                    && new.requests@ == old.requests@.after_prepare(old.queue()[k].command, old.queue()[k].target@)
            } else {
                next is Err && new.requests@ == old.requests@
            },
        }
    }
}

/// Whether `new` and `next` are what recording the host's `admission` of `dispatch` in
/// `old` gives (see `App::settle`).
pub open spec fn settled(old: App, new: App, dispatch: Dispatch, admission: Admission, next: Result<bool, String>) -> bool {
    &&& new.wf()
    &&& new.same_navigation(&old)
    &&& new.data == old.data
    &&& match admission {
        Admission::Accepted => next == Ok::<bool, String>(true) && new.requests == old.requests && new.queue()
            == old.queue(),
        Admission::Busy => next == Ok::<bool, String>(false) && new.requests@ == old.requests@.after_rejected(
            dispatch.request.id,
        ) && new.queue() == match dispatch.slot {
            Some(k) => old.queue().insert(k as int, Intent { command: dispatch.request.command, target: dispatch.target }),
            None => old.queue(),
        },
        Admission::Closed => (next matches Err(e) && e@ == closed_message()) && new.requests == old.requests
            && new.queue() == old.queue(),
    }
}


/// Whether `states` run from one to the next by offering each of `accepted` (reaching
/// `mids`) and having the host accept it.
pub open spec fn accepted_each(states: Seq<App>, mids: Seq<App>, accepted: Seq<Dispatch>) -> bool {
    &&& states.len() == accepted.len() + 1
    &&& mids.len() == accepted.len()
    &&& forall|i: int|
        0 <= i < accepted.len() ==> #[trigger] dispatched(states[i], mids[i], Ok(Some(accepted[i]))) && settled(
            mids[i],
            states[i + 1],
            accepted[i],
            Admission::Accepted,
            Ok(true),
        )
}

/// Whether a round of offering ends in `new` with `sent` after the last offer `next` left
/// `mid`, with `accepted` requests accepted before: nothing more to offer or a busy host
/// ends it with the count; a failed offer, a submission error reported by the host
/// interface, or a closed host ends it with that error.
pub open spec fn flush_ended<F: FnMut(&Request) -> Result<Admission, String>>(
    mid: App,
    new: App,
    next: Result<Option<Dispatch>, String>,
    accepted: nat,
    sent: Result<usize, String>,
) -> bool {
    match next {
        Err(e) => new == mid && sent == Err::<usize, String>(e),
        Ok(None) => new == mid && sent == Ok::<usize, String>(accepted as usize),
        Ok(Some(d)) => {
            ||| settled(mid, new, d, Admission::Busy, Ok(false)) && sent == Ok::<usize, String>(accepted as usize)
            ||| (sent matches Err(e) && settled(mid, new, d, Admission::Closed, Err::<bool, String>(e)))
            ||| new == mid && (sent matches Err(e) && exists|f: F| #[trigger]
                call_ensures(f, (&d.request,), Err::<Admission, String>(e)))
        },
    }
}

/// Whether nothing can be offered to the host: 16 requests are in flight, or no
/// abandoned read awaits cancellation and no intent may go.
pub open spec fn nothing_to_offer(app: App) -> bool {
    let count = app.requests@.pending.len();
    ||| count >= IN_FLIGHT_LIMIT
    ||| (first_obsolete(app.requests@.pending, app.requests@.latest) is None && chosen(app.queue(), count as int) is None)
}

/// Whether `data` is `before` with a local failure of `target` recorded: code busy,
/// retryable, with the given message.
pub open spec fn failed_locally(before: DataView, data: DataView, target: TargetView, message: Seq<char>) -> bool {
    exists|f: Failure|
        f.code == ErrorCode::Busy && f.retryable && f.message@ == message && data == before.after_apply(
            Some(target),
            0,
            Notice::Failure(f),
        )
}

/// A request prepared for the host, with where its intent came from.
#[derive(Debug)]
pub struct Dispatch {
    pub request: Request,
    /// The outbox position of the intent, or `None` for a cancellation.
    pub slot: Option<usize>,
    pub target: Target,
}

/// The interface controller: interface state, confirmed data, requests in flight, the
/// intents waiting to be sent and the places to go back to.
pub struct App {
    pub ui: Ui,
    pub data: Data,
    pub requests: Requests,
    pub detail_ref: Option<ItemRef>,
    pub wanted_mode: Option<ModeParams>,
    pub wanted_volume: Option<VolumeParams>,
    pub wanted_position_ms: Option<u64>,
    pub wanted_favorites: Vec<(String, bool)>,
    pub search_due_ms: Option<u64>,
    pub navigation_revision: u64,
    pub create_revision: Option<u64>,
    /// How many rows the main view is reloading up to.
    pub refresh_extent: usize,
    /// The places to go back to, oldest first.
    pub history: Vec<Location>,
    /// The intents waiting to be sent, oldest first.
    pub outbox: Vec<Intent>,
}

impl Default for App {
    fn default() -> (app: App)
        ensures
            app.wf(),
            app.ui.view == Screen::Songs,
            app.requests@.pending.len() == 0,
            app.queue().len() == 0,
            app.locations().len() == 0,
            app.detail_ref is None,
            app.navigation_revision == 0,
    {
        App::new()
    }
}

impl App {
    /// The intents waiting to be sent, oldest first.
    pub open spec fn queue(&self) -> Seq<Intent> {
        self.outbox@
    }

    /// The places to go back to, oldest first.
    pub open spec fn locations(&self) -> Seq<Location> {
        self.history@
    }

    /// How many rows the main view is reloading up to.
    pub open spec fn extent(&self) -> usize {
        self.refresh_extent
    }

    /// The parts agree with their views, the outbox holds at most 64 intents, the theme
    /// is one of the themes, the navigation cursor is on a listed view and an open text
    /// field has its cursor within its text.
    pub open spec fn wf(&self) -> bool {
        &&& self.data@.wf()
        &&& self.requests.inv()
        &&& self.queue().len() <= OUTBOX_CAPACITY
        &&& self.ui.theme < THEME_COUNT
        &&& self.ui.nav_cursor < NAV_LEN
        &&& self.ui.editor matches Some(e) ==> e.wf()
    }

    /// Whether `other` has the same interface and navigation state as `self`.
    pub open spec fn same_navigation(&self, other: &App) -> bool {
        &&& self.ui == other.ui
        &&& self.detail_ref == other.detail_ref
        &&& self.wanted_mode == other.wanted_mode
        &&& self.wanted_volume == other.wanted_volume
        &&& self.wanted_position_ms == other.wanted_position_ms
        &&& self.wanted_favorites@ == other.wanted_favorites@
        &&& self.search_due_ms == other.search_due_ms
        &&& self.navigation_revision == other.navigation_revision
        &&& self.create_revision == other.create_revision
        &&& self.extent() == other.extent()
        &&& self.locations() == other.locations()
    }

    /// A controller with a fresh interface, no data and nothing pending.
    pub fn new() -> (app: App)
        ensures
            app.wf(),
            app.ui.view == Screen::Songs,
            app.requests@.pending.len() == 0,
            app.queue().len() == 0,
            app.locations().len() == 0,
            app.detail_ref is None,
            app.navigation_revision == 0,
    {
        App {
            ui: Ui::default(),
            data: Data::new(),
            requests: Requests::new(),
            detail_ref: None,
            wanted_mode: None,
            wanted_volume: None,
            wanted_position_ms: None,
            wanted_favorites: Vec::new(),
            search_due_ms: None,
            navigation_revision: 0,
            create_revision: None,
            refresh_extent: 0,
            history: Vec::new(),
            outbox: Vec::new(),
        }
    }

    /// Drops the waiting intents for `target`, keeping the order of the others.
    fn drop_intents(&mut self, target: &Target)
        ensures
            final(self).queue() == without(old(self).queue(), target@),
            final(self).same_navigation(old(self)),
            final(self).data == old(self).data,
            final(self).requests == old(self).requests,
    {
        let ghost original = self.outbox@;
        let ghost mut done: int = 0;
        let mut i: usize = 0;
        assert(original.take(0) =~= Seq::<Intent>::empty());
        assert(original.skip(0) =~= original);
        while i < self.outbox.len()
            invariant
                0 <= done <= original.len(),
                i <= self.outbox@.len(),
                self.outbox@.take(i as int) == without(original.take(done), target@),
                self.outbox@.skip(i as int) == original.skip(done),
                self.outbox@.len() - i == original.len() - done,
                self.same_navigation(old(self)),
                self.data == old(self).data,
                self.requests == old(self).requests,
            decreases self.outbox@.len() - i,
        {
            let ghost before = self.outbox@;
            assert(original.take(done + 1).drop_last() =~= original.take(done));
            assert(original.skip(done)[0] == before[i as int]);
            assert(original.skip(done + 1) =~= original.skip(done).drop_first());
            if self.outbox[i].target == *target {
                let _gone = self.outbox.remove(i);
                assert(self.outbox@.take(i as int) =~= before.take(i as int));
                assert(self.outbox@.skip(i as int) =~= before.skip(i as int).drop_first());
            } else {
                assert(self.outbox@.take(i + 1) =~= before.take(i as int).push(before[i as int]));
                assert(self.outbox@.skip(i + 1) =~= before.skip(i as int).drop_first());
                i = i + 1;
            }
            proof {
                done = done + 1;
            }
        }
        assert(self.outbox@.skip(i as int).len() == 0);
        assert(original.skip(done).len() == 0);
        assert(original.take(done) =~= original);
        assert(self.outbox@.take(i as int) =~= self.outbox@);
    }

    /// Records a local failure of `target` with `message`, as if the host had replied.
    pub fn local_failure(&mut self, target: Target, message: &str)
        requires
            old(self).wf(),
        ensures
            final(self).wf(),
            failed_locally(old(self).data@, final(self).data@, target@, message@),
            final(self).requests == old(self).requests,
            final(self).queue() == old(self).queue(),
            final(self).same_navigation(old(self)),
    {
        let failure = Failure {
            code: ErrorCode::Busy,
            message: string_of(chars_of(message).as_slice()),
            retryable: true,
        };
        let ghost f = failure;
        self.data.apply(Response { target: Some(target), sequence: 0, notice: Notice::Failure(failure) });
        assert(failed_locally(old(self).data@, self.data@, target@, message@)) by {
            assert(f.code == ErrorCode::Busy && f.retryable && f.message@ == message@);
        }
    }

    /// Queues `command` for `target`, replacing the waiting intent for the same view
    /// (mutations are never replaced); a view's pending reply no longer updates it and
    /// the view starts loading from `offset`. When 64 intents already wait, the view
    /// records a busy failure instead. Says whether the intent was queued.
    pub fn send(&mut self, command: Command, target: Target, offset: u64) -> (queued: bool)
        requires
            old(self).wf(),
        ensures
            final(self).wf(),
            queued == (kept(old(self).queue(), target@).len() < OUTBOX_CAPACITY),
            final(self).queue() == if queued {
                kept(old(self).queue(), target@).push(Intent { command, target })
            } else {
                kept(old(self).queue(), target@)
            },
            final(self).requests@ == if target@ == TargetView::Mutation {
                old(self).requests@
            } else {
                old(self).requests@.after_invalidate(target@)
            },
            queued ==> final(self).data@ == old(self).data@.after_begin(target@, offset),
            !queued ==> failed_locally(
                old(self).data@.after_begin(target@, offset),
                final(self).data@,
                target@,
                busy_message(),
            ),
            final(self).same_navigation(old(self)),
    {
        let mutation = matches!(target, Target::Mutation);
        if !mutation {
            self.drop_intents(&target);
            self.requests.invalidate(&target);
        }
        proof {
            lemma_without_shrinks(old(self).queue(), target@);
        }
        self.data.begin(target.duplicate(), offset);
        if self.outbox.len() >= OUTBOX_CAPACITY {
            self.local_failure(target, "처리 중입니다. 잠시 후 다시 시도해주세요");
            return false;
        }
        self.outbox.push(Intent { command, target });
        true
    }

    /// Whether a request for `target` is in flight or waits to be sent.
    pub fn pending(&self, target: &Target) -> (busy: bool)
        requires
            self.wf(),
        ensures
            busy == (ids_for(self.requests@.pending, target@).len() > 0 || waits(self.queue(), target@)),
    {
        if self.requests.pending_for(target).len() > 0 {
            return true;
        }
        let mut i: usize = 0;
        while i < self.outbox.len()
            invariant
                i <= self.outbox@.len(),
                forall|j: int| 0 <= j < i ==> #[trigger] self.outbox@[j].target@ != target@,
            decreases self.outbox@.len() - i,
        {
            if self.outbox[i].target == *target {
                return true;
            }
            i = i + 1;
        }
        false
    }

    /// Whether rows of the list `target` may be acted on: it is neither loading nor
    /// failed, and no positional edit of it is pending.
    pub fn selection_ready(&self, target: &Target) -> (ready: bool)
        requires
            self.wf(),
        ensures
            ready == (lookup(self.data@.loading, target@) is None && lookup(self.data@.errors, target@) is None
                && !self.pending_spec(edit_target(target@))),
    {
        let edit = if matches!(target, Target::Queue) {
            Target::QueueEdit
        } else {
            Target::MainEdit
        };
        !self.data.is_loading(target) && !self.data.has_failed(target) && !self.pending(&edit)
    }

    /// Whether a request for `target` is in flight or waits to be sent.
    pub open spec fn pending_spec(&self, target: TargetView) -> bool {
        ids_for(self.requests@.pending, target).len() > 0 || waits(self.queue(), target)
    }

    /// Whether positional edits of the list `target` may be made: its rows are ready and
    /// no mutation, mode change, creation or list edit is pending.
    pub fn list_ready(&self, target: &Target) -> (ready: bool)
        requires
            self.wf(),
        ensures
            ready == (lookup(self.data@.loading, target@) is None && lookup(self.data@.errors, target@) is None
                && !self.pending_spec(edit_target(target@)) && !self.pending_spec(TargetView::Mutation)
                && !self.pending_spec(TargetView::Mode) && !self.pending_spec(TargetView::Create)
                && !self.pending_spec(TargetView::MainEdit) && !self.pending_spec(TargetView::QueueEdit)),
    {
        self.selection_ready(target) && !self.pending(&Target::Mutation) && !self.pending(&Target::Mode)
            && !self.pending(&Target::Create) && !self.pending(&Target::MainEdit) && !self.pending(
            &Target::QueueEdit,
        )
    }

    /// Abandons `target`: its waiting intents are dropped, a reply no longer updates it,
    /// and it is neither loading nor failed.
    pub fn invalidate_target(&mut self, target: Target)
        requires
            old(self).wf(),
        ensures
            final(self).wf(),
            final(self).queue() == without(old(self).queue(), target@),
            final(self).requests@ == old(self).requests@.after_invalidate(target@),
            final(self).data@ == old(self).data@.after_cancel(target@),
            final(self).same_navigation(old(self)),
    {
        self.drop_intents(&target);
        proof {
            lemma_without_shrinks(old(self).queue(), target@);
        }
        self.requests.invalidate(&target);
        self.data.cancel(&target);
    }
}

impl App {
    /// The priority of an intent's target (see `priority`).
    fn priority_of(target: &Target) -> (p: u8)
        ensures
            p == priority(target@),
    {
        if target.is_control() {
            0
        } else {
            match target {
                Target::Bootstrap | Target::Main => 1,
                Target::Artwork(_) => 3,
                _ => 2,
            }
        }
    }

    /// The position of the intent to send next with `in_flight` requests outstanding.
    pub fn next_intent(&self, in_flight: usize) -> (next: Option<usize>)
        ensures
            match next {
                Some(k) => chosen(self.queue(), in_flight as int) == Some(k as int),
                None => chosen(self.queue(), in_flight as int) is None,
            },
    {
        let ghost queue = self.outbox@;
        let mut best: Option<usize> = None;
        let mut best_priority: u8 = 4;
        let mut i: usize = 0;
        while i < self.outbox.len()
            invariant
                queue == self.outbox@,
                i <= queue.len(),
                chosen(queue, in_flight as int) == scan(
                    queue,
                    in_flight as int,
                    i as int,
                    match best {
                        Some(b) => Some(b as int),
                        None => None,
                    },
                ),
                best matches Some(b) ==> b < i && best_priority == priority(queue[b as int].target@),
            decreases queue.len() - i,
        {
            let target = &self.outbox[i].target;
            if target.is_control() || in_flight < READ_BUDGET {
                let p = App::priority_of(target);
                if best.is_none() || p < best_priority {
                    best = Some(i);
                    best_priority = p;
                }
            }
            i = i + 1;
        }
        best
    }

    /// Takes the next request to offer the host, unless 16 are in flight or nothing can
    /// go: first the cancellation of an abandoned read, otherwise the chosen intent.
    pub fn dispatch(&mut self) -> (next: Result<Option<Dispatch>, String>)
        requires
            old(self).wf(),
        ensures
            dispatched(*old(self), *final(self), next),
    {
        let count = self.requests.count();
        if count >= IN_FLIGHT_LIMIT {
            return Ok(None);
        }
        if let Some(request_id) = self.requests.next_cancel() {
            let command = Command::Cancel(CancelParams { request_id });
            proof {
                lemma_with_flag(self.requests@.pending, request_id, false);
            }
            return match self.requests.prepare(command, Target::Cancel(request_id)) {
                Ok(request) => Ok(Some(Dispatch { request, slot: None, target: Target::Cancel(request_id) })),
                Err(message) => Err(string_of(chars_of(message).as_slice())),
            };
        }
        let k = match self.next_intent(count) {
            Some(k) => k,
            None => return Ok(None),
        };
        proof {
            law_next_intent_is_the_oldest_most_urgent(self.outbox@, count as int);
        }
        let intent = self.outbox.remove(k);
        let target = intent.target.duplicate();
        proof {
            match intent.command {
                Command::Cancel(ref p) => lemma_with_flag(self.requests@.pending, p.request_id, false),
                _ => {},
            }
        }
        match self.requests.prepare(intent.command, intent.target) {
            Ok(request) => Ok(Some(Dispatch { request, slot: Some(k), target })),
            Err(message) => Err(string_of(chars_of(message).as_slice())),
        }
    }

    /// Records the host's `admission` of a dispatched request: accepted requests stay in
    /// flight; a busy host gets the request back and its intent returns to its place;
    /// a closed host ends the session. Says whether dispatching may go on.
    pub fn settle(&mut self, dispatch: Dispatch, admission: Admission) -> (next: Result<bool, String>)
        requires
            old(self).wf(),
            dispatch.slot matches Some(k) ==> k <= old(self).queue().len() && old(self).queue().len()
                < OUTBOX_CAPACITY,
        ensures
            settled(*old(self), *final(self), dispatch, admission, next),
    {
        match admission {
            Admission::Accepted => Ok(true),
            Admission::Busy => {
                let Dispatch { request, slot, target } = dispatch;
                self.requests.rejected(request.id);
                if let Some(k) = slot {
                    self.outbox.insert(k, Intent { command: request.command, target });
                }
                Ok(false)
            },
            Admission::Closed => Err(string_of(chars_of("음악 서비스 연결이 종료되었습니다").as_slice())),
        }
    }

    /// Offers the host requests until 16 are in flight, nothing can go, or the host is
    /// busy; `submit` hands a request to the host and reports its admission. Says how many
    /// were accepted. An error from `prepare`, `submit` or a closed host ends the round.
    pub fn flush<F: FnMut(&Request) -> Result<Admission, String>>(&mut self, submit: F) -> (sent: Result<usize, String>)
        requires
            old(self).wf(),
            forall|f: F, r: &Request| call_requires(f, (r,)),
        ensures
            final(self).wf(),
            final(self).same_navigation(old(self)),
            final(self).data == old(self).data,
            sent matches Ok(n) ==> n <= IN_FLIGHT_LIMIT,
            nothing_to_offer(*old(self)) ==> sent == Ok::<usize, String>(0) && final(self).requests == old(
                self,
            ).requests && final(self).queue() == old(self).queue(),
            exists|states: Seq<App>, mids: Seq<App>, accepted: Seq<Dispatch>, mid: App, next: Result<Option<Dispatch>, String>|
                #![trigger accepted_each(states, mids, accepted), dispatched(states.last(), mid, next)]
                {
                    &&& accepted_each(states, mids, accepted)
                    &&& states[0] == *old(self)
                    &&& dispatched(states.last(), mid, next)
                    &&& flush_ended::<F>(mid, *final(self), next, accepted.len(), sent)
                },
    {
        let ghost idle = nothing_to_offer(*old(self));
        let mut submit = submit;
        let mut sent: usize = 0;
        let ghost mut states: Seq<App> = seq![*self];
        let ghost mut mids: Seq<App> = Seq::empty();
        let ghost mut accepted: Seq<Dispatch> = Seq::empty();
        proof {
            self.requests.lemma_inv();
        }
        loop
            invariant
                self.wf(),
                self.same_navigation(old(self)),
                self.data == old(self).data,
                sent <= self.requests@.pending.len(),
                sent <= IN_FLIGHT_LIMIT,
                self.requests@.pending.len() <= IN_FLIGHT_LIMIT,
                forall|f: F, r: &Request| call_requires(f, (r,)),
                idle == nothing_to_offer(*old(self)),
                idle ==> sent == 0 && self.requests == old(self).requests && self.queue() == old(self).queue(),
                accepted_each(states, mids, accepted),
                states[0] == *old(self),
                states.last() == *self,
                accepted.len() == sent,
            decreases IN_FLIGHT_LIMIT - self.requests@.pending.len(),
        {
            let ghost last = *self;
            let next = self.dispatch();
            let ghost taken = next;
            let ghost mid = *self;
            proof {
                self.requests.lemma_inv();
            }
            let dispatch = match next {
                Ok(Some(d)) => d,
                Ok(None) => {
                    proof {
                        assert(flush_ended::<F>(mid, *self, taken, accepted.len(), Ok::<usize, String>(sent)));
                        assert(dispatched(states.last(), mid, taken));
                    }
                    return Ok(sent);
                },
                Err(e) => {
                    proof {
                        assert(flush_ended::<F>(mid, *self, taken, accepted.len(), Err::<usize, String>(e)));
                        assert(dispatched(states.last(), mid, taken));
                    }
                    return Err(e);
                },
            };
            let ghost offered = dispatch;
            let admission = match submit(&dispatch.request) {
                Ok(a) => a,
                Err(e) => {
                    proof {
                        assert(call_ensures(submit, (&offered.request,), Err::<Admission, String>(e)));
                        assert(flush_ended::<F>(mid, *self, taken, accepted.len(), Err::<usize, String>(e)));
                        assert(dispatched(states.last(), mid, taken));
                    }
                    return Err(e);
                },
            };
            let settled_now = self.settle(dispatch, admission);
            proof {
                self.requests.lemma_inv();
            }
            match settled_now {
                Ok(true) => {
                    proof {
                        let next_states = states.push(*self);
                        let next_mids = mids.push(mid);
                        let next_accepted = accepted.push(offered);
                        assert forall|i: int| 0 <= i < next_accepted.len() implies #[trigger] dispatched(
                            next_states[i],
                            next_mids[i],
                            Ok(Some(next_accepted[i])),
                        ) && settled(next_mids[i], next_states[i + 1], next_accepted[i], Admission::Accepted, Ok(true)) by {
                            if i < accepted.len() {
                                assert(dispatched(states[i], mids[i], Ok(Some(accepted[i]))));
                            }
                        }
                        states = next_states;
                        mids = next_mids;
                        accepted = next_accepted;
                    }
                    sent = sent + 1;
                },
                Ok(false) => {
                    proof {
                        assert(flush_ended::<F>(mid, *self, taken, accepted.len(), Ok::<usize, String>(sent)));
                        assert(dispatched(states.last(), mid, taken));
                    }
                    return Ok(sent);
                },
                Err(e) => {
                    proof {
                        assert(flush_ended::<F>(mid, *self, taken, accepted.len(), Err::<usize, String>(e)));
                        assert(dispatched(states.last(), mid, taken));
                    }
                    return Err(e);
                },
            }
        }
    }
}

/// What the scan finds is eligible, of the highest priority among the eligible intents
/// it looked at and the best one before, and the first of that priority.
proof fn lemma_scan(queue: Seq<Intent>, in_flight: int, i: int, best: Option<int>)
    requires
        0 <= i <= queue.len(),
        best matches Some(b) ==> 0 <= b < i && eligible(queue, b, in_flight) && (forall|j: int|
            0 <= j < i && eligible(queue, j, in_flight) ==> priority(queue[b].target@) <= priority(
                #[trigger] queue[j].target@,
            )) && (forall|j: int|
            0 <= j < b && eligible(queue, j, in_flight) ==> priority(queue[b].target@) < priority(
                #[trigger] queue[j].target@,
            )),
        best is None ==> forall|j: int| 0 <= j < i ==> !#[trigger] eligible(queue, j, in_flight),
    ensures
        match scan(queue, in_flight, i, best) {
            Some(k) => 0 <= k < queue.len() && eligible(queue, k, in_flight) && (forall|j: int|
                0 <= j < queue.len() && eligible(queue, j, in_flight) ==> priority(queue[k].target@)
                    <= priority(#[trigger] queue[j].target@)) && (forall|j: int|
                0 <= j < k && eligible(queue, j, in_flight) ==> priority(queue[k].target@) < priority(
                    #[trigger] queue[j].target@,
                )),
            None => forall|j: int| 0 <= j < queue.len() ==> !#[trigger] eligible(queue, j, in_flight),
        },
    decreases queue.len() - i,
{
    if i < queue.len() {
        let take = eligible(queue, i, in_flight) && match best {
            Some(b) => priority(queue[i].target@) < priority(queue[b].target@),
            None => true,
        };
        if take {
            lemma_scan(queue, in_flight, i + 1, Some(i));
        } else {
            lemma_scan(queue, in_flight, i + 1, best);
        }
    }
}

/// The intent sent next is eligible, of the highest priority among the eligible ones,
/// and the oldest of that priority; nothing is sent only when nothing is eligible.
pub proof fn law_next_intent_is_the_oldest_most_urgent(queue: Seq<Intent>, in_flight: int)
    ensures
        match chosen(queue, in_flight) {
            Some(k) => 0 <= k < queue.len() && eligible(queue, k, in_flight) && (forall|j: int|
                0 <= j < queue.len() && eligible(queue, j, in_flight) ==> priority(queue[k].target@)
                    <= priority(#[trigger] queue[j].target@)) && (forall|j: int|
                0 <= j < k && eligible(queue, j, in_flight) ==> priority(queue[k].target@) < priority(
                    #[trigger] queue[j].target@,
                )),
            None => forall|j: int| 0 <= j < queue.len() ==> !#[trigger] eligible(queue, j, in_flight),
        },
{
    lemma_scan(queue, in_flight, 0, None);
}

/// With twelve or more requests in flight only control intents are sent: reads always
/// leave room for playback and edits.
pub proof fn law_reads_leave_room_for_control(queue: Seq<Intent>, in_flight: int)
    requires
        in_flight >= READ_BUDGET,
    ensures
        chosen(queue, in_flight) matches Some(k) ==> queue[k].target@.is_control(),
{
    law_next_intent_is_the_oldest_most_urgent(queue, in_flight);
}

/// Control intents go before any waiting read: when one waits, a control intent is sent.
pub proof fn law_control_goes_first(queue: Seq<Intent>, in_flight: int, j: int)
    requires
        0 <= j < queue.len(),
        queue[j].target@.is_control(),
    ensures
        chosen(queue, in_flight) matches Some(k) && queue[k].target@.is_control(),
{
    law_next_intent_is_the_oldest_most_urgent(queue, in_flight);
    assert(eligible(queue, j, in_flight));
}

/// Whether `new` is `old` after `send` queued an intent for `target` loading from
/// `offset` (see `App::send`), with the command `wanted` describes.
pub open spec fn sent_to(
    old: App,
    new: App,
    target: TargetView,
    offset: u64,
    wanted: spec_fn(Command) -> bool,
) -> bool {
    let rest = kept(old.queue(), target);
    &&& new.requests@ == if target == TargetView::Mutation {
        old.requests@
    } else {
        old.requests@.after_invalidate(target)
    }
    &&& if rest.len() < OUTBOX_CAPACITY {
        &&& new.queue().len() == rest.len() + 1
        &&& new.queue().take(rest.len() as int) == rest
        &&& new.queue().last().target@ == target
        &&& wanted(new.queue().last().command)
        &&& new.data@ == old.data@.after_begin(target, offset)
    } else {
        &&& new.queue() == rest
        &&& failed_locally(old.data@.after_begin(target, offset), new.data@, target, busy_message())
    }
}

/// What the main view browses in `view`: its scope and the kind of its rows.
pub open spec fn browsed(view: Screen, library: bool) -> (Scope, Kind) {
    match view {
        Screen::Home => (Scope::Home, Kind::Album),
        Screen::Recent => (Scope::Recent, Kind::Album),
        Screen::Artists => (Scope::Library, Kind::Artist),
        Screen::Albums => (Scope::Library, Kind::Album),
        Screen::Playlists => (if library { Scope::Library } else { Scope::Collections }, Kind::Playlist),
        Screen::Favorites => (Scope::Favorites, Kind::Song),
        Screen::History => (Scope::History, Kind::Song),
        _ => (Scope::Library, Kind::Song),
    }
}

/// A search query without its surrounding white space.
pub open spec fn trimmed(query: Seq<char>) -> Seq<char> {
    trim_end_spec(trim_start_spec(query))
}

/// Whether `command` is the main view's read from `offset`: the details of the opened
/// item, the search for the typed query, or the view's browse.
pub open spec fn main_read(command: Command, ui: Ui, detail: Option<ItemRefView>, offset: u64) -> bool {
    match detail {
        Some(d) => command matches Command::Detail(p) && p.item@ == d && p.offset == offset,
        None => if ui.view == Screen::Search {
            command matches Command::Search(p) && p.query@ == trimmed(ui.query@) && p.source
                == ui.search_source && p.kind == ui.search_kind && p.offset == offset
        } else {
            command == Command::Browse(
                BrowseParams {
                    scope: browsed(ui.view, ui.playlist_library).0,
                    kind: browsed(ui.view, ui.playlist_library).1,
                    collection_id: None,
                    order: ui.order,
                    offset,
                },
            )
        },
    }
}

/// An optional string as a mathematical value.
pub open spec fn text_view(text: Option<String>) -> Option<Seq<char>> {
    match text {
        Some(t) => Some(t@),
        None => None,
    }
}

/// An optional reference as a mathematical value.
pub open spec fn ref_view(reference: Option<ItemRef>) -> Option<ItemRefView> {
    match reference {
        Some(r) => Some(r@),
        None => None,
    }
}

/// Whether `new` has the same parts as `old` apart from the outbox, requests and data.
pub open spec fn same_apart_from_loading(old: App, new: App) -> bool {
    new.same_navigation(&old)
}

/// Whether the current track's lyrics should be loaded: a track plays, and its lyrics are
/// neither shown, loading nor failed.
pub open spec fn wants_lyrics(app: App) -> bool {
    &&& app.data@.current_ref() is Some
    &&& app.data@.lyrics is None
    &&& lookup(app.data@.loading, TargetView::Lyrics) is None
    &&& lookup(app.data@.errors, TargetView::Lyrics) is None
}

/// Whether the queue should be loaded: the side panel shows it, and it is neither loaded,
/// loading nor failed.
pub open spec fn wants_queue(app: App) -> bool {
    &&& app.ui.right_open
    &&& app.ui.panel == Panel::Queue
    &&& app.data@.queue is None
    &&& lookup(app.data@.loading, TargetView::Queue) is None
    &&& lookup(app.data@.errors, TargetView::Queue) is None
}

/// Whether `command` reads the queue from `offset` for the revision the player reports.
pub open spec fn queue_read(command: Command, data: DataView, offset: u64) -> bool {
    command == Command::Queue(
        QueueParams {
            offset,
            revision: match data.player {
                Some(p) => Some(p.queue_revision),
                None => None,
            },
        },
    )
}

/// Whether `new` is `old` after the related reads were requested: the current track's
/// lyrics when wanted, then the queue when wanted.
pub open spec fn related_sent(old: App, new: App) -> bool {
    exists|mid: App|
        {
            &&& mid.same_navigation(&old)
            &&& if wants_lyrics(old) {
                sent_to(
                    old,
                    mid,
                    TargetView::Lyrics,
                    0,
                    |c: Command| c matches Command::Lyrics(p) && Some(p.item@) == old.data@.current_ref(),
                )
            } else {
                mid.queue() == old.queue() && mid.requests == old.requests && mid.data == old.data
            }
            &&& new.same_navigation(&mid)
            &&& if wants_queue(mid) {
                sent_to(mid, new, TargetView::Queue, 0, |c: Command| queue_read(c, mid.data@, 0))
            } else {
                new.queue() == mid.queue() && new.requests == mid.requests && new.data == mid.data
            }
        }
}

/// Whether `new` is `old` after the main view was reloaded from `offset` (see
/// `App::refresh`); the reload extent is left to the caller.
pub open spec fn refreshed(old: App, new: App, offset: u64) -> bool {
    let detail = ref_view(old.detail_ref);
    if old.ui.view == Screen::Lyrics {
        related_sent(old, new)
    } else if detail is None && old.ui.view == Screen::Search && trimmed(old.ui.query@).len() == 0 {
        &&& new.queue() == without(old.queue(), TargetView::Main)
        &&& new.requests@ == old.requests@.after_invalidate(TargetView::Main)
        &&& exists|page: Page|
            page.items@.len() == 0 && page.next_offset is None && new.data@ == old.data@.after_begin(
                TargetView::Main,
                0,
            ).after_apply(Some(TargetView::Main), 0, Notice::Page(page))
    } else {
        sent_to(old, new, TargetView::Main, offset, |c: Command| main_read(c, old.ui, detail, offset))
    }
}

/// Whether `new` is `old` after loading the next page of the main view (see
/// `App::more`): nothing changes while it loads or when it is complete.
pub open spec fn loaded_more(old: App, new: App) -> bool {
    match (lookup(old.data@.loading, TargetView::Main), old.data@.next_offset) {
        (None, Some(offset)) => {
            let base = App { refresh_extent: if offset == 0 { 0 } else { old.refresh_extent }, ..old };
            refreshed(base, new, offset) && new.same_navigation(&base)
        },
        _ => new == old,
    }
}

/// The most places remembered for going back.
pub const HISTORY_LIMIT: usize = 32;

/// Whether `new` remembers the place `old` shows as the newest place to go back to; the
/// oldest is forgotten when 32 are remembered.
pub open spec fn remembered(old: App, new: App) -> bool {
    let base = if old.locations().len() == HISTORY_LIMIT {
        old.locations().drop_first()
    } else {
        old.locations()
    };
    &&& new.locations().len() == base.len() + 1
    &&& new.locations().take(base.len() as int) == base
    &&& new.locations().last().view == old.ui.view
    &&& ref_view(new.locations().last().detail) == ref_view(old.detail_ref)
    &&& new.locations().last().library == old.ui.playlist_library
}

/// Whether `new` has the same loading parts as `old`: outbox, requests and data.
pub open spec fn same_loading(old: App, new: App) -> bool {
    &&& new.queue() == old.queue()
    &&& new.requests == old.requests
    &&& new.data == old.data
}

/// Whether `new` is `old` showing full-screen lyrics: the main list is abandoned, no
/// item is open, and what goes with the current track is requested.
pub open spec fn lyrics_shown(old: App, new: App) -> bool {
    exists|mid: App|
        {
            &&& shows(old.ui, mid.ui, Screen::Lyrics)
            &&& mid.detail_ref is None
            &&& mid.refresh_extent == 0
            &&& mid.queue() == without(old.queue(), TargetView::Main)
            &&& mid.requests@ == old.requests@.after_invalidate(TargetView::Main)
            &&& mid.data@ == old.data@.after_begin(TargetView::Main, 0).after_cancel(TargetView::Main)
            &&& mid.wanted_mode == old.wanted_mode && mid.wanted_volume == old.wanted_volume
            &&& mid.wanted_position_ms == old.wanted_position_ms
            &&& mid.wanted_favorites@ == old.wanted_favorites@
            &&& mid.search_due_ms == old.search_due_ms
            &&& mid.navigation_revision == old.navigation_revision
            &&& mid.create_revision == old.create_revision
            &&& mid.locations() == old.locations()
            &&& related_sent(mid, new)
        }
}

/// The view remembered to return to from full lyrics or a detail: the current one when it
/// is listed in the navigation panel.
pub open spec fn back_view(ui: Ui) -> Screen {
    if nav_index_spec(ui.view) is Some {
        ui.view
    } else {
        ui.back
    }
}

/// Whether `new` keeps the requested playback, volume, favorites and creation of `old`.
pub open spec fn same_wishes(old: App, new: App) -> bool {
    &&& new.wanted_mode == old.wanted_mode
    &&& new.wanted_volume == old.wanted_volume
    &&& new.wanted_position_ms == old.wanted_position_ms
    &&& new.wanted_favorites@ == old.wanted_favorites@
    &&& new.create_revision == old.create_revision
}

/// Whether `new` is `old` after a navigation step began: a new navigation revision and no
/// pending search.
pub open spec fn navigation_began(old: App, new: App) -> bool {
    &&& new.navigation_revision == old.navigation_revision + 1
    &&& new.search_due_ms is None
    &&& same_wishes(old, new)
}

/// Whether `new` is `mid` with the main view reloaded from the first page.
pub open spec fn reloaded(mid: App, new: App) -> bool {
    &&& refreshed(App { refresh_extent: 0, ..mid }, new, 0)
    &&& new.same_navigation(&App { refresh_extent: 0, ..mid })
}

/// Whether `new` is `old` after going to `view` (see `App::go`).
pub open spec fn went_to(old: App, new: App, view: Screen) -> bool {
    if view == Screen::Lyrics && old.ui.view == Screen::Lyrics {
        new == old
    } else if view == Screen::Lyrics {
        exists|mid: App|
            {
                &&& navigation_began(old, mid)
                &&& remembered(old, mid)
                &&& mid.ui == Ui { back: back_view(old.ui), ..old.ui }
                &&& mid.detail_ref == old.detail_ref
                &&& mid.refresh_extent == old.refresh_extent
                &&& same_loading(old, mid)
                &&& lyrics_shown(mid, new)
            }
    } else {
        exists|mid: App|
            {
                &&& navigation_began(old, mid)
                &&& mid.locations().len() == 0
                &&& shows(old.ui, mid.ui, view)
                &&& mid.detail_ref is None
                &&& mid.refresh_extent == old.refresh_extent
                &&& same_loading(old, mid)
                &&& reloaded(mid, new)
            }
    }
}

/// Whether `new` is `old` after leaving full-screen lyrics for the place before them;
/// other views stay.
pub open spec fn lyrics_left(old: App, new: App) -> bool {
    if old.ui.view == Screen::Lyrics {
        went_back(old, new)
    } else {
        new == old
    }
}

/// Whether `new` is `old` after going back (see `App::back`).
pub open spec fn went_back(old: App, new: App) -> bool {
    exists|mid: App|
        {
            &&& navigation_began(old, mid)
            &&& mid.refresh_extent == old.refresh_extent
            &&& same_loading(old, mid)
            &&& if old.locations().len() > 0 {
                let place = old.locations().last();
                &&& mid.locations() == old.locations().drop_last()
                &&& if place.view == Screen::Lyrics {
                    &&& mid.ui == Ui { playlist_library: place.library, ..old.ui }
                    &&& mid.detail_ref == old.detail_ref
                    &&& lyrics_shown(mid, new)
                } else {
                    &&& shows(Ui { playlist_library: place.library, ..old.ui }, mid.ui, place.view)
                    &&& mid.detail_ref == place.detail
                    &&& reloaded(mid, new)
                }
            } else {
                &&& mid.locations() == old.locations()
                &&& mid.ui == old.ui
                &&& mid.detail_ref == old.detail_ref
                &&& if old.detail_ref is Some || old.ui.view == Screen::Lyrics {
                    went_to(mid, new, old.ui.back)
                } else {
                    new == mid
                }
            }
        }
}

/// Whether `new` is `old` after opening `item` (see `App::open`).
pub open spec fn opened(old: App, new: App, item: ItemRef) -> bool {
    let focused = App { ui: Ui { focus: Focus::Main, ..old.ui }, ..old };
    if ref_view(old.detail_ref) == Some(item@) {
        new == focused
    } else {
        opened_anew(focused, new, item)
    }
}

/// Whether `new` is `old` after opening `item`, which is not open: the place is
/// remembered, a collection playlist shows among the playlists and other items as a
/// detail view, and the main list reloads.
pub open spec fn opened_anew(old: App, new: App, item: ItemRef) -> bool {
    let collection = item.source == Source::Collection;
    exists|mid: App|
        {
            &&& navigation_began(old, mid)
            &&& remembered(old, mid)
            &&& shows(
                Ui {
                    playlist_library: if collection { false } else { old.ui.playlist_library },
                    back: back_view(old.ui),
                    ..old.ui
                },
                mid.ui,
                if collection { Screen::Playlists } else { Screen::Detail },
            )
            &&& mid.detail_ref == Some(item)
            &&& mid.refresh_extent == old.refresh_extent
            &&& same_loading(old, mid)
            &&& reloaded(mid, new)
        }
}

/// Whether `item`'s cover should be loaded: it has one, and it is neither received,
/// loading nor failed.
pub open spec fn wants_image(app: App, item: Item) -> bool {
    let target = TargetView::Artwork(item_key_spec(item.item_ref@));
    &&& item.artwork_url is Some
    &&& lookup(app.data@.artwork, target) is None
    &&& lookup(app.data@.loading, target) is None
    &&& lookup(app.data@.errors, target) is None
}

/// Whether `new` is `old` after `item`'s cover was requested if it is wanted (see
/// `wants_image`).
pub open spec fn imaged(old: App, new: App, item: Item) -> bool {
    if wants_image(old, item) {
        &&& sent_to(
            old,
            new,
            TargetView::Artwork(item_key_spec(item.item_ref@)),
            0,
            |c: Command| c matches Command::Artwork(p) && p.item@ == item.item_ref@,
        )
        &&& new.same_navigation(&old)
    } else {
        new == old
    }
}

/// The favorite keys a store reply lists.
pub open spec fn lists_favorite(store: StoreState, key: Seq<char>) -> bool {
    exists|i: int| 0 <= i < store.favorites@.len() && item_key_spec(#[trigger] store.favorites@[i]@) == key
}

/// The feedback after a favorite toggle settles with `store`.
pub open spec fn favorite_feedback(store: StoreState, key: Seq<char>) -> Seq<char> {
    if lists_favorite(store, key) {
        "즐겨찾기에 추가"@
    } else {
        "즐겨찾기에서 제거"@
    }
}

/// `favorites` without the wish for `key`.
pub open spec fn without_wish(favorites: Seq<(String, bool)>, key: Seq<char>) -> Seq<(String, bool)>
    decreases favorites.len(),
{
    if favorites.len() == 0 {
        favorites
    } else {
        let rest = without_wish(favorites.drop_last(), key);
        if favorites.last().0@ == key {
            rest
        } else {
            rest.push(favorites.last())
        }
    }
}

/// Whether `new` is `old` after noting what a reply for `target` carrying `notice`
/// settles: the feedback of a favorite toggle, the end of a creation, and the playback,
/// volume, seek or favorite wish it confirms.
pub open spec fn noted(old: App, new: App, target: Option<TargetView>, notice: Notice) -> bool {
    &&& match (target, notice) {
        (Some(TargetView::Favorite(key)), Notice::Store(store)) => new.ui == (Ui {
            feedback: new.ui.feedback,
            ..old.ui
        }) && (new.ui.feedback matches Some(f) && f@ == favorite_feedback(store, key)),
        _ => new.ui == old.ui,
    }
    &&& new.create_revision == if target == Some(TargetView::Create) { None } else { old.create_revision }
    &&& new.wanted_mode == if target == Some(TargetView::Mode) { None } else { old.wanted_mode }
    &&& new.wanted_volume == if target == Some(TargetView::Volume) { None } else { old.wanted_volume }
    &&& new.wanted_position_ms == if target == Some(TargetView::Seek) { None } else { old.wanted_position_ms }
    &&& new.wanted_favorites@ == match target {
        Some(TargetView::Favorite(key)) => without_wish(old.wanted_favorites@, key),
        _ => old.wanted_favorites@,
    }
    &&& new.detail_ref == old.detail_ref
    &&& new.search_due_ms == old.search_due_ms
    &&& new.navigation_revision == old.navigation_revision
    &&& new.refresh_extent == old.refresh_extent
    &&& new.locations() == old.locations()
    &&& same_loading(old, new)
}

/// The last row of a list of `n` rows.
pub open spec fn last_row(n: int) -> int {
    if n > 0 {
        n - 1
    } else {
        0
    }
}

/// `cursor` kept within a list of `n` rows.
pub open spec fn clamped(cursor: usize, n: int) -> usize {
    if cursor <= last_row(n) {
        cursor
    } else {
        last_row(n) as usize
    }
}

/// Whether `new` is `old` after a main-view reply was merged: the opened item follows the
/// details received; while fewer rows are shown than before a reload and more exist, the
/// next page loads; otherwise the reload is done and the selection stays on a row.
pub open spec fn main_settled(old: App, new: App) -> bool {
    exists|mid: App| #[trigger] main_settled_via(old, mid, new)
}

/// `main_settled` through `mid`, the state once the opened item followed the details.
pub open spec fn main_settled_via(old: App, mid: App, new: App) -> bool {
    let d = old.data@;
    &&& mid == (App { detail_ref: mid.detail_ref, ..old })
    &&& ref_view(mid.detail_ref) == match d.detail {
        Some(item) => Some(item.item_ref@),
        None => ref_view(old.detail_ref),
    }
    &&& if lookup(d.errors, TargetView::Main) is None && d.items.len() < old.refresh_extent
        && d.next_offset is Some {
        let offset = d.next_offset->0;
        let base = App { refresh_extent: if offset == 0 { 0 } else { mid.refresh_extent }, ..mid };
        refreshed(base, new, offset) && new.same_navigation(&base)
    } else {
        &&& new == (App { refresh_extent: 0, ui: Ui { cursors: new.ui.cursors, ..mid.ui }, ..mid })
        &&& new.ui.cursors@ == seq![clamped(mid.ui.cursors@[0], d.items.len() as int), mid.ui.cursors@[1]]
    }
}

/// Whether `new` is `old` with the queue selection kept on a loaded entry.
pub open spec fn queue_clamped(old: App, new: App) -> bool {
    match old.data@.queue {
        Some(q) => new == (App { ui: Ui { cursors: new.ui.cursors, ..old.ui }, ..old })
            && new.ui.cursors@ == seq![old.ui.cursors@[0], clamped(old.ui.cursors@[1], q.entries.len() as int)],
        None => new == old,
    }
}

/// Whether `new` is `old` with `target` abandoned (see `App::invalidate_target`).
pub open spec fn abandoned(old: App, new: App, target: TargetView) -> bool {
    &&& new.queue() == without(old.queue(), target)
    &&& new.requests@ == old.requests@.after_invalidate(target)
    &&& new.data@ == old.data@.after_cancel(target)
    &&& new.same_navigation(&old)
}

/// Whether `new` is `old` after the current track changed from `previous`: the lyrics
/// and their search are abandoned, the manual lyrics scroll and a wished seek are
/// dropped, and a lyrics dialog closes.
pub open spec fn track_followed(old: App, new: App, previous: Option<ItemRefView>) -> bool {
    if old.data@.current_ref() != previous {
        exists|a: App, b: App|
            {
                &&& abandoned(old, a, TargetView::Lyrics)
                &&& abandoned(a, b, TargetView::LyricMatches)
                &&& new == (App {
                    ui: Ui {
                        lyric_manual: None,
                        dialog: if b.ui.dialog matches Some(Dialog::Lyrics { .. }) { None } else { b.ui.dialog },
                        ..b.ui
                    },
                    wanted_position_ms: None,
                    ..b
                })
            }
    } else {
        new == old
    }
}

/// Whether `new` is `old` after the queue revision changed from `revision`: the queue is
/// abandoned.
pub open spec fn queue_followed(old: App, new: App, revision: Option<u64>) -> bool {
    let now = match old.data@.player {
        Some(p) => Some(p.queue_revision),
        None => None,
    };
    if now != revision {
        abandoned(old, new, TargetView::Queue)
    } else {
        new == old
    }
}

/// The queue entry playing, as text.
pub open spec fn entry_playing(data: DataView) -> Option<Seq<char>> {
    match data.player {
        Some(p) => match p.current_entry_id {
            Some(e) => Some(e@),
            None => None,
        },
        None => None,
    }
}

/// Whether `new` is `old` after the playing entry changed from `entry`: the seek is
/// abandoned with its wish.
pub open spec fn entry_followed(old: App, new: App, entry: Option<Seq<char>>) -> bool {
    if entry_playing(old.data@) != entry {
        exists|a: App|
            abandoned(old, a, TargetView::Seek) && new == (App { wanted_position_ms: None, ..a })
    } else {
        new == old
    }
}

/// Whether `new` is `old` with the main view reloaded from the first page as far as it
/// was shown (see `App::reload_main`).
pub open spec fn main_reloaded(old: App, new: App) -> bool {
    exists|mid: App|
        reloaded(old, mid) && new == (App {
            refresh_extent: if old.refresh_extent >= old.data@.items.len() {
                old.refresh_extent
            } else {
                old.data@.items.len() as usize
            },
            ..mid
        })
}

/// Whether a notice changes the user's collections.
pub open spec fn changes_store(notice: Notice) -> bool {
    notice matches Notice::Store(_) || notice matches Notice::CollectionCreated(_)
}

/// Whether `view` lists the user's collections, favorites or history.
pub open spec fn lists_store(view: Screen) -> bool {
    view == Screen::Playlists || view == Screen::Favorites || view == Screen::History
}

/// The playlist a creation reply opens: the one created, when no navigation happened
/// since the creation was asked for.
pub open spec fn created_playlist(old: App, target: Option<TargetView>, notice: Notice) -> Option<Collection> {
    match (target, notice) {
        (Some(TargetView::Create), Notice::CollectionCreated(value)) => if old.create_revision == Some(
            old.navigation_revision,
        ) {
            Some(value.collection)
        } else {
            None
        },
        _ => None,
    }
}

/// Whether `new` is `old` after a reply for `target` carrying `notice` with sequence
/// number `sequence` was handled (see `App::receive`): absorbed, then followed up.
pub open spec fn handled(old: App, new: App, target: Option<TargetView>, sequence: u64, notice: Notice) -> bool {
    exists|mid: App| #[trigger] absorbed(old, mid, target, sequence, notice) && followed_up(old, mid, new, target, notice)
}

/// Whether `new` is `old` after a reply was absorbed: noted, merged into the data, the main
/// view settled when it was the main view's, and the queue selection kept on an entry.
pub open spec fn absorbed(old: App, new: App, target: Option<TargetView>, sequence: u64, notice: Notice) -> bool {
    exists|s: Seq<App>| #[trigger] absorbed_steps(old, new, target, sequence, notice, s)
}

/// `absorbed` through the states `s` after each step.
pub open spec fn absorbed_steps(
    old: App,
    new: App,
    target: Option<TargetView>,
    sequence: u64,
    notice: Notice,
    s: Seq<App>,
) -> bool {
    &&& s.len() == 3
    &&& noted(old, s[0], target, notice)
    &&& s[1] == (App { data: s[1].data, ..s[0] })
    &&& s[1].data@ == s[0].data@.after_apply(target, sequence, notice)
    &&& if target == Some(TargetView::Main) { main_settled(s[1], s[2]) } else { s[2] == s[1] }
    &&& queue_clamped(s[2], new)
}

/// Whether `new` is `mid` after the follow-ups of a reply to `old`: a changed track,
/// queue revision or playing entry abandons what depended on it; a changed store reloads
/// a list of it; a confirmed creation opens the new playlist; a granted session reloads
/// the main view; then the related reads are requested.
pub open spec fn followed_up(old: App, mid: App, new: App, target: Option<TargetView>, notice: Notice) -> bool {
    exists|s: Seq<App>| #[trigger] followed_steps(old, mid, new, target, notice, s)
}

/// `followed_up` through the states `s` after each step.
pub open spec fn followed_steps(
    old: App,
    mid: App,
    new: App,
    target: Option<TargetView>,
    notice: Notice,
    s: Seq<App>,
) -> bool {
    follow_steps(
        mid,
        new,
        old.data@.current_ref(),
        match old.data@.player {
            Some(p) => Some(p.queue_revision),
            None => None,
        },
        entry_playing(old.data@),
        changes_store(notice),
        match created_playlist(old, target, notice) {
            Some(c) => Some(c.id@),
            None => None,
        },
        notice matches Notice::Session(_) && target is Some,
        s,
    )
}

/// The follow-up steps from `mid` to `new` through the states `s`, given the track,
/// queue revision and entry before the reply, whether it changed the store, the playlist
/// it created and whether it granted a session.
pub open spec fn follow_steps(
    mid: App,
    new: App,
    previous: Option<ItemRefView>,
    revision: Option<u64>,
    entry: Option<Seq<char>>,
    store_changed: bool,
    created: Option<Seq<char>>,
    authorized: bool,
    s: Seq<App>,
) -> bool {
    &&& s.len() == 6
    &&& track_followed(mid, s[0], previous)
    &&& queue_followed(s[0], s[1], revision)
    &&& entry_followed(s[1], s[2], entry)
    &&& if store_changed && lists_store(s[2].ui.view) {
        main_reloaded(s[2], s[3])
    } else {
        s[3] == s[2]
    }
    &&& match created {
        Some(id) => exists|item: ItemRef|
            item@ == (ItemRefView { id, source: Source::Collection, kind: Kind::Playlist })
                && #[trigger] opened(s[3], s[4], item),
        None => s[4] == s[3],
    }
    &&& if authorized {
        let base = App { refresh_extent: 0, ..s[4] };
        refreshed(base, s[5], 0) && s[5].same_navigation(&base)
    } else {
        s[5] == s[4]
    }
    &&& related_sent(s[5], new)
}

/// The list edits that reorder the rows of `target`.
pub open spec fn edit_target(target: TargetView) -> TargetView {
    if target == TargetView::Queue {
        TargetView::QueueEdit
    } else {
        TargetView::MainEdit
    }
}

/// Dropping intents never adds any.
pub proof fn lemma_without_shrinks(queue: Seq<Intent>, target: TargetView)
    ensures
        without(queue, target).len() <= queue.len(),
        forall|i: int| 0 <= i < without(queue, target).len() ==> #[trigger] without(queue, target)[i].target@ != target,
    decreases queue.len(),
{
    if queue.len() > 0 {
        lemma_without_shrinks(queue.drop_last(), target);
    }
}

impl App {
    /// Requests page `offset` of the queue, for the revision the player reports.
    pub fn queue_page(&mut self, offset: u64)
        requires
            old(self).wf(),
        ensures
            final(self).wf(),
            sent_to(*old(self), *final(self), TargetView::Queue, offset, |c: Command| queue_read(c, old(self).data@, offset)),
            final(self).same_navigation(old(self)),
    {
        let revision = match &self.data.player {
            Some(p) => Some(p.queue_revision),
            None => None,
        };
        let ghost before = *self;
        let command = Command::Queue(QueueParams { offset, revision });
        assert(queue_read(command, before.data@, offset));
        let queued = self.send(command, Target::Queue, offset);
        proof {
            lemma_without_shrinks(before.queue(), TargetView::Queue);
            let rest = kept(before.queue(), TargetView::Queue);
            if queued {
                assert(self.queue().take(rest.len() as int) =~= rest);
                assert(self.queue().last() == Intent { command, target: Target::Queue });
                assert(queue_read(self.queue().last().command, before.data@, offset));
            }
            assert(sent_to(before, *self, TargetView::Queue, offset, |c: Command| queue_read(c, before.data@, offset)));
        }
    }

    /// Requests what goes with the current state: the current track's lyrics when they
    /// are wanted, then the queue when the side panel shows it and it is not loaded.
    pub fn related(&mut self)
        requires
            old(self).wf(),
        ensures
            final(self).wf(),
            related_sent(*old(self), *final(self)),
            final(self).same_navigation(old(self)),
    {
        let ghost start = *self;
        let lyrics_wanted = match self.data.current() {
            Some(_) => self.data.shown_lyrics().is_none() && !self.data.is_loading(&Target::Lyrics)
                && !self.data.has_failed(&Target::Lyrics),
            None => false,
        };
        if lyrics_wanted {
            let item = match self.data.current() {
                Some(i) => i.item_ref.duplicate(),
                None => return,
            };
            let queued = self.send(Command::Lyrics(LyricsParams { item }), Target::Lyrics, 0);
            proof {
                lemma_without_shrinks(start.queue(), TargetView::Lyrics);
                if queued {
                    assert(self.queue().take(kept(start.queue(), TargetView::Lyrics).len() as int) =~= kept(start.queue(), TargetView::Lyrics));
                }
            }
        }
        let ghost mid = *self;
        let queue_wanted = self.ui.right_open && self.ui.panel == Panel::Queue && self.data.queue.is_none()
            && !self.data.is_loading(&Target::Queue) && !self.data.has_failed(&Target::Queue);
        if queue_wanted {
            self.queue_page(0);
        }
        assert(related_sent(start, *self)) by {
            assert(mid.same_navigation(&start));
        }
    }
}

impl App {
    /// Reloads the main view from `offset`: the opened item's details, the search for
    /// the typed query (an empty query shows no results without asking), or the view's
    /// browse; the full-screen lyrics view loads what goes with the current track.
    pub fn refresh(&mut self, offset: u64)
        requires
            old(self).wf(),
        ensures
            final(self).wf(),
            final(self).refresh_extent == if offset == 0 { 0 } else { old(self).refresh_extent },
            refreshed(App { refresh_extent: final(self).refresh_extent, ..*old(self) }, *final(self), offset),
            final(self).same_navigation(&App { refresh_extent: final(self).refresh_extent, ..*old(self) }),
    {
        if offset == 0 {
            self.refresh_extent = 0;
        }
        let ghost start = *self;
        if self.ui.view == Screen::Lyrics {
            self.related();
            return;
        }
        let command = match &self.detail_ref {
            Some(item) => Command::Detail(DetailParams { item: item.duplicate(), offset }),
            None => {
                if self.ui.view == Screen::Search {
                    let query = trim_end_chars(&trim_start_chars(&chars_of(self.ui.query.as_str())));
                    if query.len() == 0 {
                        self.drop_intents(&Target::Main);
                        self.requests.invalidate(&Target::Main);
                        self.data.begin(Target::Main, 0);
                        let page = Page { items: Vec::new(), next_offset: None };
                        let ghost p = page;
                        self.data.apply(Response { target: Some(Target::Main), sequence: 0, notice: Notice::Page(page) });
                        proof {
                            lemma_without_shrinks(start.queue(), TargetView::Main);
                            assert(p.items@.len() == 0);
                        }
                        return;
                    }
                    Command::Search(
                        SearchParams {
                            query: string_of(query.as_slice()),
                            source: self.ui.search_source,
                            kind: self.ui.search_kind,
                            offset,
                        },
                    )
                } else {
                    let (scope, kind) = App::browse_of(self.ui.view, self.ui.playlist_library);
                    Command::Browse(BrowseParams { scope, kind, collection_id: None, order: self.ui.order, offset })
                }
            },
        };
        let ghost wanted = |c: Command| main_read(c, start.ui, ref_view(start.detail_ref), offset);
        assert(wanted(command));
        let queued = self.send(command, Target::Main, offset);
        proof {
            lemma_without_shrinks(start.queue(), TargetView::Main);
            let rest = kept(start.queue(), TargetView::Main);
            if queued {
                assert(self.queue().take(rest.len() as int) =~= rest);
                assert(self.queue().last() == Intent { command, target: Target::Main });
            }
        }
    }

    /// What the main view browses in `view`.
    fn browse_of(view: Screen, library: bool) -> (browse: (Scope, Kind))
        ensures
            browse == browsed(view, library),
    {
        match view {
            Screen::Home => (Scope::Home, Kind::Album),
            Screen::Recent => (Scope::Recent, Kind::Album),
            Screen::Artists => (Scope::Library, Kind::Artist),
            Screen::Albums => (Scope::Library, Kind::Album),
            Screen::Playlists => (if library { Scope::Library } else { Scope::Collections }, Kind::Playlist),
            Screen::Favorites => (Scope::Favorites, Kind::Song),
            Screen::History => (Scope::History, Kind::Song),
            _ => (Scope::Library, Kind::Song),
        }
    }
}

impl App {
    /// Remembers the place shown as the newest place to go back to.
    fn save_location(&mut self)
        requires
            old(self).wf(),
        ensures
            final(self).wf(),
            remembered(*old(self), *final(self)),
            same_loading(*old(self), *final(self)),
            final(self).ui == old(self).ui && final(self).detail_ref == old(self).detail_ref,
            final(self).wanted_mode == old(self).wanted_mode && final(self).wanted_volume == old(self).wanted_volume,
            final(self).wanted_position_ms == old(self).wanted_position_ms,
            final(self).wanted_favorites@ == old(self).wanted_favorites@,
            final(self).search_due_ms == old(self).search_due_ms,
            final(self).navigation_revision == old(self).navigation_revision,
            final(self).create_revision == old(self).create_revision,
            final(self).refresh_extent == old(self).refresh_extent,
    {
        let ghost before = self.history@;
        if self.history.len() == HISTORY_LIMIT {
            self.history.remove(0);
            assert(self.history@ =~= before.drop_first());
        }
        let detail = match &self.detail_ref {
            Some(r) => Some(r.duplicate()),
            None => None,
        };
        let ghost base = self.history@;
        self.history.push(Location { view: self.ui.view, detail, library: self.ui.playlist_library });
        assert(self.history@.take(base.len() as int) =~= base);
    }

    /// Shows full-screen lyrics: the main list is abandoned and what goes with the
    /// current track is requested.
    fn show_lyrics(&mut self)
        requires
            old(self).wf(),
        ensures
            final(self).wf(),
            lyrics_shown(*old(self), *final(self)),
            final(self).wanted_mode == old(self).wanted_mode && final(self).wanted_volume == old(self).wanted_volume,
            final(self).wanted_position_ms == old(self).wanted_position_ms,
            final(self).wanted_favorites@ == old(self).wanted_favorites@,
            final(self).search_due_ms == old(self).search_due_ms,
            final(self).navigation_revision == old(self).navigation_revision,
            final(self).create_revision == old(self).create_revision,
            final(self).locations() == old(self).locations(),
            final(self).detail_ref is None,
            final(self).refresh_extent == 0,
            shows(old(self).ui, final(self).ui, Screen::Lyrics),
    {
        let ghost start = *self;
        self.ui.go(Screen::Lyrics);
        self.detail_ref = None;
        self.refresh_extent = 0;
        self.data.begin(Target::Main, 0);
        self.invalidate_target(Target::Main);
        let ghost mid = *self;
        self.related();
        assert(lyrics_shown(start, *self)) by {
            assert(mid.same_navigation(&mid));
        }
    }

    /// Leaves full-screen lyrics for the place before them.
    pub fn leave_full_lyrics(&mut self)
        requires
            old(self).wf(),
            old(self).navigation_revision < u64::MAX - 1,
        ensures
            final(self).wf(),
            lyrics_left(*old(self), *final(self)),
    {
        if self.ui.view == Screen::Lyrics {
            self.back();
        }
    }
}

impl App {
    /// Goes to `view`: full lyrics remember the place to come back to; other views
    /// start a new history, close any opened item and reload the main list.
    pub fn go(&mut self, view: Screen)
        requires
            old(self).wf(),
            old(self).navigation_revision < u64::MAX,
        ensures
            final(self).wf(),
            went_to(*old(self), *final(self), view),
    {
        if view == Screen::Lyrics && self.ui.view == view {
            return;
        }
        self.navigation_revision = self.navigation_revision + 1;
        self.search_due_ms = None;
        if view == Screen::Lyrics {
            self.save_location();
            if nav_index(self.ui.view).is_some() {
                self.ui.back = self.ui.view;
            }
            let ghost mid = *self;
            self.show_lyrics();
            assert(went_to(*old(self), *self, view)) by {
                assert(mid.ui == Ui { back: back_view(old(self).ui), ..old(self).ui });
            }
            return;
        }
        self.history.clear();
        self.ui.go(view);
        self.detail_ref = None;
        let ghost mid = *self;
        self.refresh(0);
        assert(went_to(*old(self), *self, view)) by {
            assert(navigation_began(*old(self), mid));
            assert(mid.locations().len() == 0);
            assert(shows(old(self).ui, mid.ui, view));
            assert(same_loading(*old(self), mid));
            assert(reloaded(mid, *self));
        }
    }

    /// Goes back to the place remembered last; without one, an opened item or full
    /// lyrics return to the view they were reached from.
    pub fn back(&mut self)
        requires
            old(self).wf(),
            old(self).navigation_revision < u64::MAX - 1,
        ensures
            final(self).wf(),
            went_back(*old(self), *final(self)),
    {
        self.navigation_revision = self.navigation_revision + 1;
        self.search_due_ms = None;
        let ghost entry = self.history@;
        if let Some(place) = self.history.pop() {
            assert(self.history@ =~= entry.drop_last());
            self.ui.playlist_library = place.library;
            if place.view == Screen::Lyrics {
                let ghost mid = *self;
                self.show_lyrics();
                assert(went_back(*old(self), *self)) by {
                    assert(mid.locations() == old(self).locations().drop_last());
                }
                return;
            }
            self.ui.go(place.view);
            self.detail_ref = place.detail;
            let ghost mid = *self;
            self.refresh(0);
            assert(went_back(*old(self), *self)) by {
                assert(mid.locations() == old(self).locations().drop_last());
            }
        } else if self.detail_ref.is_some() || self.ui.view == Screen::Lyrics {
            let ghost mid = *self;
            let back = self.ui.back;
            self.go(back);
            assert(went_back(*old(self), *self)) by {
                assert(mid.locations() == old(self).locations());
                assert(navigation_began(*old(self), mid));
            }
        } else {
            assert(went_back(*old(self), *self)) by {
                assert(self.history@ == entry);
                assert(old(self).locations().len() == 0);
                assert(navigation_began(*old(self), *self));
                assert(same_loading(*old(self), *self));
                assert(self.locations() == old(self).locations());
                assert(self.ui == old(self).ui);
            }
        }
    }
}

impl App {
    /// Opens `item` in the main list: a collection playlist among the playlists, other
    /// items as a detail view. Opening the item already open only focuses the list.
    pub fn open(&mut self, item: ItemRef)
        requires
            old(self).wf(),
            old(self).navigation_revision < u64::MAX,
        ensures
            final(self).wf(),
            opened(*old(self), *final(self), item),
    {
        self.ui.focus = Focus::Main;
        let already = match &self.detail_ref {
            Some(d) => d.same(&item),
            None => false,
        };
        if already {
            return;
        }
        self.open_anew(item);
    }

    /// Opens `item`, which is not the item open, after the list was focused.
    fn open_anew(&mut self, item: ItemRef)
        requires
            old(self).wf(),
            old(self).navigation_revision < u64::MAX,
            old(self).ui.focus == Focus::Main,
            ref_view(old(self).detail_ref) != Some(item@),
        ensures
            final(self).wf(),
            opened_anew(*old(self), *final(self), item),
    {
        let ghost focused = *self;
        self.navigation_revision = self.navigation_revision + 1;
        self.search_due_ms = None;
        self.save_location();
        let collection = item.source == Source::Collection;
        if collection {
            self.ui.playlist_library = false;
        }
        if nav_index(self.ui.view).is_some() {
            self.ui.back = self.ui.view;
        }
        let ghost chosen_ui = self.ui;
        self.ui.go(if collection { Screen::Playlists } else { Screen::Detail });
        self.detail_ref = Some(item);
        let ghost mid = *self;
        self.refresh(0);
        assert(opened_anew(focused, *self, item)) by {
            assert(chosen_ui == Ui {
                playlist_library: if collection { false } else { focused.ui.playlist_library },
                back: back_view(focused.ui),
                ..focused.ui
            });
            assert(navigation_began(focused, mid));
            assert(remembered(focused, mid));
            assert(same_loading(focused, mid));
            assert(reloaded(mid, *self));
        }
    }

    /// Runs the debounced search once its deadline `now_ms` has come.
    pub fn dispatch_due(&mut self, now_ms: u64)
        requires
            old(self).wf(),
        ensures
            final(self).wf(),
            match old(self).search_due_ms {
                Some(deadline) if now_ms >= deadline => reloaded((App { search_due_ms: None, ..*old(self) }), *final(self)),
                _ => *final(self) == *old(self),
            },
    {
        let due = match self.search_due_ms {
            Some(deadline) => now_ms >= deadline,
            None => false,
        };
        if due {
            self.search_due_ms = None;
            self.refresh(0);
        }
    }

    /// Starts a session: the snapshot of the backend state, then the main view.
    pub fn start(&mut self)
        requires
            old(self).wf(),
        ensures
            final(self).wf(),
            exists|mid: App|
                sent_to(*old(self), mid, TargetView::Bootstrap, 0, |c: Command| c == Command::Snapshot)
                    && mid.same_navigation(old(self)) && reloaded(mid, *final(self)),
    {
        let ghost start = *self;
        let queued = self.send(Command::Snapshot, Target::Bootstrap, 0);
        proof {
            lemma_without_shrinks(start.queue(), TargetView::Bootstrap);
            let rest = kept(start.queue(), TargetView::Bootstrap);
            if queued {
                assert(self.queue().take(rest.len() as int) =~= rest);
                assert(self.queue().last() == Intent { command: Command::Snapshot, target: Target::Bootstrap });
            }
        }
        let ghost mid = *self;
        self.refresh(0);
        assert(sent_to(start, mid, TargetView::Bootstrap, 0, |c: Command| c == Command::Snapshot));
    }

    /// Loads the next page of the main view, unless it is loading or complete.
    pub fn more(&mut self)
        requires
            old(self).wf(),
        ensures
            final(self).wf(),
            loaded_more(*old(self), *final(self)),
    {
        if !self.data.is_loading(&Target::Main) {
            if let Some(offset) = self.data.next_offset {
                self.refresh(offset);
            }
        }
    }

    /// Reloads the main view from the first page, remembering to reload as many rows as
    /// were shown.
    pub fn reload_main(&mut self)
        requires
            old(self).wf(),
        ensures
            final(self).wf(),
            exists|mid: App|
                reloaded(*old(self), mid) && *final(self) == (App {
                    refresh_extent: if old(self).refresh_extent >= old(self).data@.items.len() {
                        old(self).refresh_extent
                    } else {
                        old(self).data@.items.len() as usize
                    },
                    ..mid
                }),
    {
        let shown = self.data.items.len();
        let extent = if self.refresh_extent >= shown { self.refresh_extent } else { shown };
        self.refresh(0);
        let ghost mid = *self;
        self.refresh_extent = extent;
        assert(reloaded(*old(self), mid));
    }

    /// Requests `item`'s cover when it has one that is neither received, loading nor
    /// failed.
    pub fn image(&mut self, item: &Item)
        requires
            old(self).wf(),
        ensures
            final(self).wf(),
            imaged(*old(self), *final(self), *item),
    {
        if item.artwork_url.is_none() {
            return;
        }
        let target = Target::Artwork(item_key(&item.item_ref));
        if self.data.artwork_for(&item.item_ref).is_none() && !self.data.is_loading(&target)
            && !self.data.has_failed(&target) {
            let ghost start = *self;
            let command = Command::Artwork(ArtworkParams { item: item.item_ref.duplicate() });
            let ghost c = command;
            let ghost t = target@;
            let queued = self.send(command, target, 0);
            proof {
                lemma_without_shrinks(start.queue(), t);
                let rest = kept(start.queue(), t);
                if queued {
                    assert(self.queue().take(rest.len() as int) =~= rest);
                    assert(self.queue().last().command == c);
                }
            }
        }
    }
}

impl App {
    /// Forgets the favorite wish for `key`.
    pub(crate) fn forget_wish(&mut self, key: &String)
        ensures
            final(self).wanted_favorites@ == without_wish(old(self).wanted_favorites@, key@),
            *final(self) == (App { wanted_favorites: final(self).wanted_favorites, ..*old(self) }),
    {
        let ghost original = self.wanted_favorites@;
        let ghost mut done: int = 0;
        let mut i: usize = 0;
        assert(original.take(0) =~= Seq::<(String, bool)>::empty());
        assert(original.skip(0) =~= original);
        while i < self.wanted_favorites.len()
            invariant
                0 <= done <= original.len(),
                i <= self.wanted_favorites@.len(),
                self.wanted_favorites@.take(i as int) == without_wish(original.take(done), key@),
                self.wanted_favorites@.skip(i as int) == original.skip(done),
                self.wanted_favorites@.len() - i == original.len() - done,
                *self == (App { wanted_favorites: self.wanted_favorites, ..*old(self) }),
            decreases self.wanted_favorites@.len() - i,
        {
            let ghost before = self.wanted_favorites@;
            assert(original.take(done + 1).drop_last() =~= original.take(done));
            assert(original.skip(done)[0] == before[i as int]);
            assert(original.skip(done + 1) =~= original.skip(done).drop_first());
            if same_text(self.wanted_favorites[i].0.as_str(), key.as_str()) {
                let _gone = self.wanted_favorites.remove(i);
                assert(self.wanted_favorites@.take(i as int) =~= before.take(i as int));
                assert(self.wanted_favorites@.skip(i as int) =~= before.skip(i as int).drop_first());
            } else {
                assert(self.wanted_favorites@.take(i + 1) =~= before.take(i as int).push(before[i as int]));
                assert(self.wanted_favorites@.skip(i + 1) =~= before.skip(i as int).drop_first());
                i = i + 1;
            }
            proof {
                done = done + 1;
            }
        }
        assert(original.take(done) =~= original);
        assert(self.wanted_favorites@.take(i as int) =~= self.wanted_favorites@);
    }

    /// Notes what a reply for `target` carrying `notice` settles (see `noted`).
    fn note_reply(&mut self, target: &Option<Target>, notice: &Notice)
        requires
            old(self).wf(),
        ensures
            final(self).wf(),
            noted(
                *old(self),
                *final(self),
                match target {
                    Some(t) => Some(t@),
                    None => None,
                },
                *notice,
            ),
    {
        let ghost start = *self;
        if let (Some(Target::Favorite(key)), Notice::Store(store)) = (target, notice) {
            let mut listed = false;
            let mut i: usize = 0;
            while i < store.favorites.len()
                invariant
                    i <= store.favorites@.len(),
                    listed == exists|j: int| 0 <= j < i && item_key_spec(#[trigger] store.favorites@[j]@) == key@,
                decreases store.favorites@.len() - i,
            {
                let k = item_key(&store.favorites[i]);
                if same_text(k.as_str(), key.as_str()) {
                    listed = true;
                }
                i = i + 1;
            }
            let text = if listed { "즐겨찾기에 추가" } else { "즐겨찾기에서 제거" };
            self.ui.feedback = Some(string_of(chars_of(text).as_slice()));
        }
        if matches!(target, Some(Target::Create)) {
            self.create_revision = None;
        }
        match target {
            Some(Target::Mode) => {
                self.wanted_mode = None;
            },
            Some(Target::Volume) => {
                self.wanted_volume = None;
            },
            Some(Target::Seek) => {
                self.wanted_position_ms = None;
            },
            Some(Target::Favorite(key)) => {
                self.forget_wish(key);
            },
            _ => {},
        }
    }
}

impl App {
    /// After a main-view reply: follows the details received, and either loads the next
    /// page of a reload or ends it with the selection kept on a row.
    fn settle_main(&mut self)
        requires
            old(self).wf(),
        ensures
            final(self).wf(),
            main_settled(*old(self), *final(self)),
    {
        if let Some(item) = &self.data.detail {
            self.detail_ref = Some(item.item_ref.duplicate());
        }
        let ghost mid = *self;
        let shown = self.data.items.len();
        let more = !self.data.has_failed(&Target::Main) && shown < self.refresh_extent;
        match self.data.next_offset {
            Some(offset) if more => {
                self.refresh(offset);
            },
            _ => {
                self.refresh_extent = 0;
                let last = if shown > 0 { shown - 1 } else { 0 };
                if self.ui.cursors[0] > last {
                    self.ui.cursors.set(0, last);
                }
                assert(self.ui.cursors@ =~= seq![clamped(mid.ui.cursors@[0], shown as int), mid.ui.cursors@[1]]);
            },
        }
        assert(main_settled_via(*old(self), mid, *self));
    }

    /// Keeps the queue selection on a loaded entry.
    fn clamp_queue(&mut self)
        requires
            old(self).wf(),
        ensures
            final(self).wf(),
            queue_clamped(*old(self), *final(self)),
    {
        if let Some(queue) = &self.data.queue {
            let n = queue.entries.len();
            let last = if n > 0 { n - 1 } else { 0 };
            if self.ui.cursors[1] > last {
                self.ui.cursors.set(1, last);
            }
            assert(self.ui.cursors@ =~= seq![old(self).ui.cursors@[0], clamped(old(self).ui.cursors@[1], n as int)]);
        }
    }

    /// Follows a change of the current track away from `previous`.
    fn follow_track(&mut self, previous: &Option<ItemRef>)
        requires
            old(self).wf(),
        ensures
            final(self).wf(),
            track_followed(*old(self), *final(self), ref_view(*previous)),
    {
        let changed = match (self.data.current(), previous) {
            (Some(now), Some(before)) => !now.item_ref.same(before),
            (None, None) => false,
            _ => true,
        };
        if changed {
            self.invalidate_target(Target::Lyrics);
            let ghost a = *self;
            self.invalidate_target(Target::LyricMatches);
            let ghost b = *self;
            self.ui.lyric_manual = None;
            self.wanted_position_ms = None;
            if matches!(self.ui.dialog, Some(Dialog::Lyrics { .. })) {
                self.ui.dialog = None;
            }
            assert(track_followed(*old(self), *self, ref_view(*previous))) by {
                assert(abandoned(*old(self), a, TargetView::Lyrics));
                assert(abandoned(a, b, TargetView::LyricMatches));
            }
        }
    }

    /// Follows a change of the queue revision away from `revision`.
    fn follow_queue(&mut self, revision: Option<u64>)
        requires
            old(self).wf(),
        ensures
            final(self).wf(),
            queue_followed(*old(self), *final(self), revision),
    {
        let now = match &self.data.player {
            Some(p) => Some(p.queue_revision),
            None => None,
        };
        let changed = match (now, revision) {
            (Some(a), Some(b)) => a != b,
            (None, None) => false,
            _ => true,
        };
        if changed {
            self.invalidate_target(Target::Queue);
        }
    }

    /// Follows a change of the playing entry away from `entry`.
    fn follow_entry(&mut self, entry: &Option<String>)
        requires
            old(self).wf(),
        ensures
            final(self).wf(),
            entry_followed(
                *old(self),
                *final(self),
                match entry {
                    Some(e) => Some(e@),
                    None => None,
                },
            ),
    {
        let changed = match &self.data.player {
            Some(p) => match (&p.current_entry_id, entry) {
                (Some(now), Some(before)) => !same_text(now.as_str(), before.as_str()),
                (None, None) => false,
                _ => true,
            },
            None => entry.is_some(),
        };
        if changed {
            self.invalidate_target(Target::Seek);
            let ghost a = *self;
            self.wanted_position_ms = None;
            assert(abandoned(*old(self), a, TargetView::Seek));
        }
    }

    /// Absorbs a reply: notes it, merges it, settles the main view when it is the main
    /// view's, and keeps the queue selection on an entry.
    fn absorb(&mut self, response: Response)
        requires
            old(self).wf(),
        ensures
            final(self).wf(),
            absorbed(*old(self), *final(self), target_view(response.target), response.sequence, response.notice),
    {
        let ghost target = target_view(response.target);
        let ghost sequence = response.sequence;
        let ghost notice = response.notice;
        self.note_reply(&response.target, &response.notice);
        let ghost s0 = *self;
        let main = matches!(response.target, Some(Target::Main));
        self.data.apply(response);
        let ghost s1 = *self;
        if main {
            self.settle_main();
        }
        let ghost s2 = *self;
        self.clamp_queue();
        proof {
            let steps = seq![s0, s1, s2];
            assert(absorbed_steps(*old(self), *self, target, sequence, notice, steps));
        }
    }

    /// Follows up a reply once absorbed: `previous`, `revision` and `entry` are the track,
    /// queue revision and entry before it; `store_changed`, `created` and `authorized`
    /// say whether it changed the store, created a playlist to open, or granted a session.
    fn follow_up(
        &mut self,
        previous: &Option<ItemRef>,
        revision: Option<u64>,
        entry: &Option<String>,
        store_changed: bool,
        created: Option<String>,
        authorized: bool,
    )
        requires
            old(self).wf(),
            old(self).navigation_revision < u64::MAX,
        ensures
            final(self).wf(),
            exists|s: Seq<App>|
                #[trigger] follow_steps(
                    *old(self),
                    *final(self),
                    ref_view(*previous),
                    revision,
                    text_view(*entry),
                    store_changed,
                    text_view(created),
                    authorized,
                    s,
                ),
    {
        self.follow_track(previous);
        let ghost s0 = *self;
        self.follow_queue(revision);
        let ghost s1 = *self;
        self.follow_entry(entry);
        let ghost s2 = *self;
        if store_changed && (self.ui.view == Screen::Playlists || self.ui.view == Screen::Favorites
            || self.ui.view == Screen::History) {
            self.reload_main();
        }
        let ghost s3 = *self;
        let ghost made = created;
        if let Some(id) = created {
            let item = ItemRef { id, source: Source::Collection, kind: Kind::Playlist };
            let ghost opened_item = item;
            self.open(item);
            assert(opened(s3, *self, opened_item));
        }
        let ghost s4 = *self;
        if authorized {
            self.refresh(0);
        }
        let ghost s5 = *self;
        self.related();
        proof {
            let steps = seq![s0, s1, s2, s3, s4, s5];
            assert(steps[0] == s0 && steps[1] == s1 && steps[2] == s2);
            assert(steps[3] == s3 && steps[4] == s4 && steps[5] == s5);
            assert(follow_steps(
                *old(self),
                *self,
                ref_view(*previous),
                revision,
                text_view(*entry),
                store_changed,
                text_view(made),
                authorized,
                steps,
            ));
        }
    }

    /// Handles one event from the host. A reply is dropped when it is unknown or belongs
    /// to a view that moved on; otherwise, and for the confirmed state a reply to a
    /// superseded control request carries, the event is noted, merged and followed up
    /// (see `handled`). Says whether the event was news from the host or settled a
    /// current request.
    pub fn receive(&mut self, event: Event) -> (received: bool)
        requires
            old(self).wf(),
            old(self).navigation_revision < u64::MAX,
        ensures
            final(self).wf(),
            received == match old(self).requests@.completion(event.id, is_state_notice(event.event)) {
                Some(target) => event.id is None || target is Some,
                None => false,
            },
            old(self).requests@.completion(event.id, is_state_notice(event.event)) is None ==> *final(self) == (
            App { requests: final(self).requests, ..*old(self) }) && final(self).requests@
                == old(self).requests@.after_complete(event.id),
            old(self).requests@.completion(event.id, is_state_notice(event.event)) is Some ==> exists|settled: App|
                settled == (App { requests: settled.requests, ..*old(self) }) && settled.requests@
                    == old(self).requests@.after_complete(event.id) && handled(
                    settled,
                    *final(self),
                    old(self).requests@.completion(event.id, is_state_notice(event.event))->0,
                    event.sequence,
                    event.event,
                ),
    {
        let ghost id = event.id;
        let ghost sequence = event.sequence;
        let replied = event.id.is_some();
        let response = match self.requests.complete(event) {
            Some(r) => r,
            None => return false,
        };
        let news = !replied || response.target.is_some();
        let ghost settled = *self;
        let ghost target = target_view(response.target);
        let ghost notice = response.notice;
        let previous = match self.data.current() {
            Some(i) => Some(i.item_ref.duplicate()),
            None => None,
        };
        let creating = match self.create_revision {
            Some(r) => r == self.navigation_revision,
            None => false,
        };
        let created: Option<String> = match (&response.target, &response.notice) {
            (Some(Target::Create), Notice::CollectionCreated(value)) => if creating {
                Some(string_of(chars_of(value.collection.id.as_str()).as_slice()))
            } else {
                None
            },
            _ => None,
        };
        let authorized = matches!(response.notice, Notice::Session(_)) && response.target.is_some();
        let store_changed = matches!(response.notice, Notice::Store(_) | Notice::CollectionCreated(_));
        let entry = match &self.data.player {
            Some(p) => match &p.current_entry_id {
                Some(e) => Some(string_of(chars_of(e.as_str()).as_slice())),
                None => None,
            },
            None => None,
        };
        let revision = match &self.data.player {
            Some(p) => Some(p.queue_revision),
            None => None,
        };
        let ghost created_view = text_view(created);
        self.absorb(response);
        let ghost mid = *self;
        self.follow_up(&previous, revision, &entry, store_changed, created, authorized);
        proof {
            assert(ref_view(previous) == settled.data@.current_ref());
            assert(absorbed(settled, mid, target, sequence, notice));
            let steps = choose|s: Seq<App>|
                #[trigger] follow_steps(
                    mid,
                    *self,
                    ref_view(previous),
                    revision,
                    text_view(entry),
                    store_changed,
                    created_view,
                    authorized,
                    s,
                );
            assert(followed_steps(settled, mid, *self, target, notice, steps));
            assert(handled(settled, *self, target, sequence, notice));
            assert(settled == (App { requests: settled.requests, ..*old(self) }));
            assert(old(self).requests@.completion(id, is_state_notice(notice))->0 == target);
        }
        news
    }
}

} // verus!
