//! Tracking of accepted requests: correlation IDs, superseded reads, cancellation of
//! obsolete reads, and the admission limit.
use crate::protocol::{API_VERSION, Command, Event, Notice, Request};
use crate::target::{Target, TargetMap, TargetView, ascending, inserted, key_index, lemma_inserted,
    lemma_key_index, lemma_removed,
    lookup, removed};
use vstd::prelude::*;

verus! {

/// The most requests that may be outstanding at once.
pub const MAX_PENDING: usize = 16;

/// A reply or state change routed to the interface.
#[derive(Debug)]
pub struct Response {
    /// The view the reply settles, if it may still change what is shown.
    pub target: Option<Target>,
    pub sequence: u64,
    pub notice: Notice,
}

/// Notices that carry confirmed backend state, merged even when a newer intention exists.
pub open spec fn is_state_notice(notice: Notice) -> bool {
    match notice {
        Notice::Store(_) | Notice::CollectionCreated(_) | Notice::Player(_) | Notice::Volume(_) => true,
        _ => false,
    }
}

/// An optional target as a mathematical value.
pub open spec fn target_view(target: Option<Target>) -> Option<TargetView> {
    match target {
        Some(t) => Some(t@),
        None => None,
    }
}

struct Pending {
    target: Target,
    /// A read command whose cancellation has not already been sent.
    cancellable: bool,
}

/// An accepted request as a mathematical value.
pub struct PendingView {
    pub id: u64,
    pub target: TargetView,
    pub cancellable: bool,
}

/// The request tracker as mathematical values: the last ID handed out, the accepted
/// requests in ascending ID order, and the newest request ID of each view.
pub struct RequestsView {
    pub next_id: u64,
    pub pending: Seq<PendingView>,
    pub latest: Seq<(TargetView, u64)>,
}

/// The index of the request with ID `id`, or -1.
pub open spec fn id_index(pending: Seq<PendingView>, id: u64) -> int
    decreases pending.len(),
{
    if pending.len() == 0 {
        -1
    } else if pending.last().id == id {
        pending.len() - 1
    } else {
        id_index(pending.drop_last(), id)
    }
}

/// The IDs of the requests for `target`, ascending.
pub open spec fn ids_for(pending: Seq<PendingView>, target: TargetView) -> Seq<u64>
    decreases pending.len(),
{
    if pending.len() == 0 {
        Seq::empty()
    } else if pending.last().target == target {
        ids_for(pending.drop_last(), target).push(pending.last().id)
    } else {
        ids_for(pending.drop_last(), target)
    }
}

/// Whether an accepted request is an obsolete read whose cancellation should be sent:
/// a read not yet cancelled, for a view whose newest request is another one.
pub open spec fn obsolete(p: PendingView, latest: Seq<(TargetView, u64)>) -> bool {
    p.cancellable && p.target != TargetView::Mutation && lookup(latest, p.target) != Some(p.id)
}

/// The ID of the first (oldest) obsolete read.
pub open spec fn first_obsolete(pending: Seq<PendingView>, latest: Seq<(TargetView, u64)>) -> Option<u64>
    decreases pending.len(),
{
    if pending.len() == 0 {
        None
    } else if obsolete(pending[0], latest) {
        Some(pending[0].id)
    } else {
        first_obsolete(pending.drop_first(), latest)
    }
}

/// `pending` with the cancellable flag of request `id` (if present) set to `flag`.
pub open spec fn with_flag(pending: Seq<PendingView>, id: u64, flag: bool) -> Seq<PendingView> {
    let i = id_index(pending, id);
    if i >= 0 {
        pending.update(i, PendingView { cancellable: flag, ..pending[i] })
    } else {
        pending
    }
}

impl RequestsView {
    /// IDs ascending and handed out, at most sixteen outstanding, views ordered.
    pub open spec fn wf(self) -> bool {
        &&& self.pending.len() <= MAX_PENDING
        &&& forall|i: int, j: int|
            0 <= i < j < self.pending.len() ==> #[trigger] self.pending[i].id < #[trigger] self.pending[j].id
        &&& forall|i: int| 0 <= i < self.pending.len() ==> 0 < #[trigger] self.pending[i].id <= self.next_id
        &&& ascending(self.latest)
    }

    /// Whether a new request is admitted.
    pub open spec fn admits(self) -> bool {
        self.pending.len() < MAX_PENDING && self.next_id < u64::MAX
    }

    /// The state after admitting `command` for `target` under the next ID.
    pub open spec fn after_prepare(self, command: Command, target: TargetView) -> RequestsView {
        let id = (self.next_id + 1) as u64;
        let latest = match target {
            TargetView::Mutation | TargetView::Cancel(_) => self.latest,
            _ => inserted(self.latest, target, id),
        };
        let pending = match command {
            Command::Cancel(params) => with_flag(self.pending, params.request_id, false),
            _ => self.pending,
        };
        RequestsView {
            next_id: id,
            pending: pending.push(PendingView { id, target, cancellable: command.is_read_spec() }),
            latest,
        }
    }

    /// The state after a view stops waiting for its newest request.
    pub open spec fn after_invalidate(self, target: TargetView) -> RequestsView {
        RequestsView { latest: removed(self.latest, target), ..self }
    }

    /// The state after the transport rejected request `id` before admission.
    pub open spec fn after_rejected(self, id: u64) -> RequestsView {
        let i = id_index(self.pending, id);
        if i < 0 {
            self
        } else {
            let target = self.pending[i].target;
            let rest = self.pending.remove(i);
            let pending = match target {
                TargetView::Cancel(request_id) => with_flag(rest, request_id, true),
                _ => rest,
            };
            let latest = if lookup(self.latest, target) == Some(id) {
                removed(self.latest, target)
            } else {
                self.latest
            };
            RequestsView { pending, latest, ..self }
        }
    }

    /// The state after an event with correlation `id` arrives.
    pub open spec fn after_complete(self, id: Option<u64>) -> RequestsView {
        match id {
            None => self,
            Some(id) => {
                let i = id_index(self.pending, id);
                if i < 0 {
                    self
                } else {
                    let target = self.pending[i].target;
                    let settles = target == TargetView::Mutation || lookup(self.latest, target)
                        == Some(id);
                    RequestsView {
                        pending: self.pending.remove(i),
                        latest: if settles { removed(self.latest, target) } else { self.latest },
                        ..self
                    }
                }
            },
        }
    }

    /// Whether an event with correlation `id` reaches the interface (`Some`) and which
    /// view it settles: a correlated reply settles its view only while it is the newest
    /// request of that view (or a mutation); a superseded control reply still delivers
    /// confirmed state without settling anything; other superseded replies, replies to
    /// unknown IDs and duplicates are dropped; unsolicited events are always delivered.
    pub open spec fn completion(self, id: Option<u64>, state_notice: bool) -> Option<Option<TargetView>> {
        match id {
            None => Some(None),
            Some(id) => {
                let i = id_index(self.pending, id);
                if i < 0 {
                    None
                } else {
                    let target = self.pending[i].target;
                    if target == TargetView::Mutation || lookup(self.latest, target) == Some(id) {
                        Some(Some(target))
                    } else if target.is_control() && state_notice {
                        Some(None)
                    } else {
                        None
                    }
                }
            },
        }
    }
}

/// Facts about the index of an ID among ascending requests.
pub proof fn lemma_id_index(pending: Seq<PendingView>, id: u64)
    ensures
        -1 <= id_index(pending, id) < pending.len(),
        id_index(pending, id) >= 0 ==> pending[id_index(pending, id)].id == id,
        id_index(pending, id) == -1 <==> forall|i: int| 0 <= i < pending.len() ==> pending[i].id != id,
    decreases pending.len(),
{
    if pending.len() > 0 {
        lemma_id_index(pending.drop_last(), id);
        if pending.last().id != id {
            assert forall|i: int| 0 <= i < pending.len() - 1 implies pending[i] == pending.drop_last()[i] by {}
        }
    }
}

/// Among ascending IDs an ID appears once.
pub proof fn lemma_id_unique(pending: Seq<PendingView>, j: int)
    requires
        forall|a: int, b: int| 0 <= a < b < pending.len() ==> #[trigger] pending[a].id < #[trigger] pending[b].id,
        0 <= j < pending.len(),
    ensures
        id_index(pending, pending[j].id) == j,
{
    lemma_id_index(pending, pending[j].id);
    let k = id_index(pending, pending[j].id);
    if k < j {
        assert(pending[k].id < pending[j].id);
    } else if k > j {
        assert(pending[j].id < pending[k].id);
    }
}


/// Setting a flag keeps every ID and view in place.
pub proof fn lemma_with_flag(pending: Seq<PendingView>, id: u64, flag: bool)
    ensures
        with_flag(pending, id, flag).len() == pending.len(),
        forall|i: int| 0 <= i < pending.len() ==> #[trigger] with_flag(pending, id, flag)[i].id == pending[i].id
            && with_flag(pending, id, flag)[i].target == pending[i].target,
        forall|i: int| 0 <= i < pending.len() && pending[i].id != id ==> #[trigger] with_flag(pending, id, flag)[i]
            == pending[i],
{
    lemma_id_index(pending, id);
}

/// Ascending IDs stay ascending when one request leaves.
pub proof fn lemma_remove_keeps_wf(s: RequestsView, i: int, latest: Seq<(TargetView, u64)>)
    requires
        s.wf(),
        0 <= i < s.pending.len(),
        ascending(latest),
    ensures
        (RequestsView { pending: s.pending.remove(i), latest, ..s }).wf(),
{
    let rest = s.pending.remove(i);
    assert forall|a: int, b: int| 0 <= a < b < rest.len() implies #[trigger] rest[a].id < #[trigger] rest[b].id by {
        if a < i && b >= i {
            assert(s.pending[a].id < s.pending[b + 1].id);
        } else if a >= i {
            assert(s.pending[a + 1].id < s.pending[b + 1].id);
        } else {
            assert(s.pending[a].id < s.pending[b].id);
        }
    }
    assert forall|a: int| 0 <= a < rest.len() implies 0 < #[trigger] rest[a].id <= s.next_id by {
        if a < i {
            assert(0 < s.pending[a].id);
        } else {
            assert(0 < s.pending[a + 1].id);
        }
    }
}

/// Every operation of the tracker keeps it well formed: IDs ascending and handed out,
/// at most sixteen requests outstanding, views ordered.
pub proof fn law_operations_keep_tracker_well_formed(
    s: RequestsView,
    command: Command,
    target: TargetView,
    id: u64,
    reply: Option<u64>,
)
    requires
        s.wf(),
    ensures
        s.admits() ==> s.after_prepare(command, target).wf(),
        s.after_invalidate(target).wf(),
        s.after_rejected(id).wf(),
        s.after_complete(reply).wf(),
{
    lemma_removed(s.latest, target);
    if s.admits() {
        let next = s.after_prepare(command, target);
        let new_id = (s.next_id + 1) as u64;
        match target {
            TargetView::Mutation | TargetView::Cancel(_) => {},
            _ => lemma_inserted(s.latest, target, new_id),
        }
        let flagged = match command {
            Command::Cancel(p) => with_flag(s.pending, p.request_id, false),
            _ => s.pending,
        };
        match command {
            Command::Cancel(p) => lemma_with_flag(s.pending, p.request_id, false),
            _ => {},
        }
        assert(next.pending == flagged.push(
            PendingView { id: new_id, target, cancellable: command.is_read_spec() },
        ));
        assert forall|a: int, b: int| 0 <= a < b < next.pending.len() implies #[trigger] next.pending[a].id
            < #[trigger] next.pending[b].id by {
            if b < flagged.len() {
                assert(s.pending[a].id < s.pending[b].id);
            } else {
                assert(s.pending[a].id <= s.next_id);
            }
        }
        assert forall|a: int| 0 <= a < next.pending.len() implies 0 < #[trigger] next.pending[a].id
            <= next.next_id by {
            if a < flagged.len() {
                assert(0 < s.pending[a].id <= s.next_id);
            }
        }
    }
    lemma_id_index(s.pending, id);
    let i = id_index(s.pending, id);
    if i >= 0 {
        let target = s.pending[i].target;
        lemma_removed(s.latest, target);
        let latest = if lookup(s.latest, target) == Some(id) {
            removed(s.latest, target)
        } else {
            s.latest
        };
        lemma_remove_keeps_wf(s, i, latest);
        let rest = s.pending.remove(i);
        match target {
            TargetView::Cancel(request_id) => {
                lemma_with_flag(rest, request_id, true);
                let after = s.after_rejected(id);
                let plain = RequestsView { pending: rest, latest, ..s };
                assert forall|a: int, b: int| 0 <= a < b < after.pending.len() implies #[trigger] after.pending[a].id
                    < #[trigger] after.pending[b].id by {
                    assert(plain.pending[a].id < plain.pending[b].id);
                }
                assert forall|a: int| 0 <= a < after.pending.len() implies 0 < #[trigger] after.pending[a].id
                    <= after.next_id by {
                    assert(0 < plain.pending[a].id <= plain.next_id);
                }
            },
            _ => {},
        }
    }
    match reply {
        Some(r) => {
            lemma_id_index(s.pending, r);
            let k = id_index(s.pending, r);
            if k >= 0 {
                let target = s.pending[k].target;
                lemma_removed(s.latest, target);
                let settles = target == TargetView::Mutation || lookup(s.latest, target) == Some(r);
                let latest = if settles { removed(s.latest, target) } else { s.latest };
                lemma_remove_keeps_wf(s, k, latest);
            }
        },
        None => {},
    }
}

/// A read replaced by a newer read for the same view never updates that view: once a
/// second request for a view is admitted, the first one's reply reaches the interface
/// only as confirmed state of a control view, and the newer reply settles the view.
pub proof fn law_superseded_reads_do_not_settle_views(
    s: RequestsView,
    first: Command,
    second: Command,
    target: TargetView,
    state_notice: bool,
)
    requires
        s.wf(),
        s.pending.len() + 2 <= MAX_PENDING,
        s.next_id + 2 <= u64::MAX,
        target != TargetView::Mutation,
        !(target is Cancel),
    ensures
        ({
            let s1 = s.after_prepare(first, target);
            let s2 = s1.after_prepare(second, target);
            &&& s2.completion(Some(s1.next_id), state_notice) == (if target.is_control()
                && state_notice {
                Some(None::<TargetView>)
            } else {
                None
            })
            &&& s2.completion(Some(s2.next_id), state_notice) == Some(Some(target))
        }),
{
    let s1 = s.after_prepare(first, target);
    let s2 = s1.after_prepare(second, target);
    law_operations_keep_tracker_well_formed(s, first, target, 0, None);
    law_operations_keep_tracker_well_formed(s1, second, target, 0, None);
    lemma_inserted(s1.latest, target, s2.next_id);
    let a = s1.pending.len() - 1;
    let b = s2.pending.len() - 1;
    assert(s1.pending[a].id == s1.next_id);
    match second {
        Command::Cancel(p) => lemma_with_flag(s1.pending, p.request_id, false),
        _ => {},
    }
    assert(s2.pending[a].id == s1.next_id);
    assert(s2.pending[a].target == target);
    lemma_id_unique(s2.pending, a);
    lemma_id_unique(s2.pending, b);
}

/// Invalidating a view never drops or cancels an accepted request: it stays counted
/// until its own reply.
pub proof fn law_invalidation_keeps_requests_counted(s: RequestsView, target: TargetView)
    ensures
        s.after_invalidate(target).pending == s.pending,
        s.after_invalidate(target).next_id == s.next_id,
{
}

/// The cancellation candidate is an outstanding obsolete read.
pub proof fn lemma_first_obsolete(pending: Seq<PendingView>, latest: Seq<(TargetView, u64)>)
    ensures
        first_obsolete(pending, latest) matches Some(id) ==> exists|i: int|
            0 <= i < pending.len() && #[trigger] pending[i].id == id && obsolete(pending[i], latest),
    decreases pending.len(),
{
    if pending.len() > 0 && !obsolete(pending[0], latest) {
        let rest = pending.drop_first();
        lemma_first_obsolete(rest, latest);
        if let Some(id) = first_obsolete(rest, latest) {
            let i = choose|i: int| 0 <= i < rest.len() && #[trigger] rest[i].id == id && obsolete(rest[i], latest);
            assert(pending[i + 1] == rest[i]);
        }
    } else if pending.len() > 0 {
        assert(pending[0].id == pending[0].id);
    }
}

/// Saved edits and playback commands are never cancelled by navigation: after a
/// command that is not a read is admitted, no invalidation makes it the candidate
/// for cancellation.
pub proof fn law_navigation_never_cancels_edits(
    s: RequestsView,
    command: Command,
    target: TargetView,
    invalidated: TargetView,
)
    requires
        s.wf(),
        s.admits(),
        !command.is_read_spec(),
    ensures
        ({
            let s1 = s.after_prepare(command, target).after_invalidate(invalidated);
            first_obsolete(s1.pending, s1.latest) != Some(s1.next_id)
        }),
{
    let s0 = s.after_prepare(command, target);
    let s1 = s0.after_invalidate(invalidated);
    law_operations_keep_tracker_well_formed(s, command, target, 0, None);
    lemma_first_obsolete(s1.pending, s1.latest);
    let last = s1.pending.len() - 1;
    assert(s1.pending[last].id == s1.next_id);
    assert(!s1.pending[last].cancellable);
    if first_obsolete(s1.pending, s1.latest) == Some(s1.next_id) {
        let i = choose|i: int| 0 <= i < s1.pending.len() && #[trigger] s1.pending[i].id == s1.next_id
            && obsolete(s1.pending[i], s1.latest);
        lemma_id_unique(s1.pending, i);
        lemma_id_unique(s1.pending, last);
    }
}

/// Each reply is delivered at most once: after an outstanding request's reply is
/// processed, the request is gone and a duplicate of the reply is dropped.
pub proof fn law_replies_are_delivered_once(s: RequestsView, id: u64, state_notice: bool)
    requires
        s.wf(),
    ensures
        s.after_complete(Some(id)).completion(Some(id), state_notice) is None,
        id_index(s.after_complete(Some(id)).pending, id) == -1,
{
    lemma_id_index(s.pending, id);
    let i = id_index(s.pending, id);
    let rest = s.after_complete(Some(id)).pending;
    if i >= 0 {
        assert forall|j: int| 0 <= j < rest.len() implies rest[j].id != id by {
            if j < i {
                assert(s.pending[j].id < s.pending[i].id);
            } else {
                assert(s.pending[i].id < s.pending[j + 1].id);
            }
        }
    }
    lemma_id_index(rest, id);
}

/// Unsolicited events are always delivered and change nothing that is tracked.
pub proof fn law_unsolicited_events_are_delivered(s: RequestsView, state_notice: bool)
    ensures
        s.completion(None, state_notice) == Some(None::<TargetView>),
        s.after_complete(None) == s,
{
}

/// Accepted requests, their views and the newest request of each view.
pub struct Requests {
    next_id: u64,
    pending: Vec<(u64, Pending)>,
    latest: TargetMap<u64>,
}

impl View for Requests {
    type V = RequestsView;

    closed spec fn view(&self) -> RequestsView {
        RequestsView {
            next_id: self.next_id,
            pending: self.pending@.map_values(
                |p: (u64, Pending)| PendingView { id: p.0, target: p.1.target@, cancellable: p.1.cancellable },
            ),
            latest: self.latest@,
        }
    }
}

impl Default for Requests {
    fn default() -> (requests: Requests)
        ensures
            requests.inv(),
            requests@.next_id == 0,
            requests@.pending.len() == 0,
            requests@.latest.len() == 0,
    {
        Requests::new()
    }
}

impl Requests {
    /// The internal representation agrees with the view.
    pub closed spec fn inv(&self) -> bool {
        &&& self@.wf()
        &&& self.latest.wf()
    }

    /// A well-formed tracker has a well-formed view: at most 16 requests outstanding.
    pub proof fn lemma_inv(&self)
        requires
            self.inv(),
        ensures
            self@.wf(),
    {
    }

    /// A tracker with nothing outstanding.
    pub fn new() -> (requests: Requests)
        ensures
            requests.inv(),
            requests@.next_id == 0,
            requests@.pending.len() == 0,
            requests@.latest.len() == 0,
    {
        let requests = Requests { next_id: 0, pending: Vec::new(), latest: TargetMap::new() };
        assert(requests@.pending.len() == 0);
        requests
    }

    fn find(&self, id: u64) -> (found: Option<usize>)
        requires
            self.inv(),
        ensures
            found is None <==> id_index(self@.pending, id) == -1,
            found matches Some(i) ==> i as int == id_index(self@.pending, id) && i < self@.pending.len(),
    {
        proof {
            lemma_id_index(self@.pending, id);
        }
        for i in 0..self.pending.len()
            invariant
                self.inv(),
                self@.pending.len() == self.pending@.len(),
                forall|j: int| 0 <= j < i ==> self@.pending[j].id != id,
        {
            assert(self@.pending[i as int].id == self.pending@[i as int].0);
            if self.pending[i].0 == id {
                proof {
                    lemma_id_unique(self@.pending, i as int);
                }
                return Some(i);
            }
        }
        None
    }

    /// Sets the cancellable flag of request `id`, if it is outstanding.
    fn flag(&mut self, id: u64, flag: bool)
        requires
            old(self).inv(),
        ensures
            final(self).inv(),
            final(self)@ == (RequestsView { pending: with_flag(old(self)@.pending, id, flag), ..old(self)@ }),
    {
        let ghost before = self@;
        proof {
            lemma_id_index(before.pending, id);
        }
        if let Some(i) = self.find(id) {
            let target = self.pending[i].1.target.duplicate();
            self.pending.set(i, (id, Pending { target, cancellable: flag }));
            proof {
                let i = i as int;
                assert(self@.pending =~= before.pending.update(i, PendingView { cancellable: flag, ..before.pending[i] }));
            }
        }
    }

    /// Admits `command` for `target` under a fresh ID, unless sixteen requests are
    /// outstanding or the IDs are exhausted.
    pub fn prepare(&mut self, command: Command, target: Target) -> (result: Result<Request, &'static str>)
        requires
            old(self).inv(),
        ensures
            final(self).inv(),
            old(self)@.pending.len() >= MAX_PENDING ==> final(self)@ == old(self)@ && result
                == Err::<Request, &'static str>("처리 중입니다. 잠시 후 다시 시도해주세요"),
            old(self)@.pending.len() < MAX_PENDING && old(self)@.next_id == u64::MAX ==> final(self)@
                == old(self)@ && result == Err::<Request, &'static str>("요청 번호를 모두 사용했습니다"),
            old(self)@.admits() ==> final(self)@ == old(self)@.after_prepare(command, target@)
                && result == Ok::<Request, &'static str>(
                Request { version: API_VERSION, id: final(self)@.next_id, command },
            ),
    {
        if self.pending.len() >= MAX_PENDING {
            return Err("처리 중입니다. 잠시 후 다시 시도해주세요");
        }
        if self.next_id == u64::MAX {
            return Err("요청 번호를 모두 사용했습니다");
        }
        let ghost before = self@;
        let id = self.next_id + 1;
        self.next_id = id;
        let tracked_view = match target {
            Target::Mutation | Target::Cancel(_) => false,
            _ => true,
        };
        if tracked_view {
            self.latest.insert(target.duplicate(), id);
        }
        if let Command::Cancel(params) = &command {
            self.flag(params.request_id, false);
        }
        let ghost flagged = self@.pending;
        let read = command.is_read();
        self.pending.push((id, Pending { target, cancellable: read }));
        proof {
            let expected = before.after_prepare(command, target@);
            match command {
                Command::Cancel(ref p) => {
                    lemma_id_index(before.pending, p.request_id);
                },
                _ => {},
            }
            assert(flagged.len() == before.pending.len());
            assert(self@.pending =~= flagged.push(PendingView { id, target: target@, cancellable: read }));
            assert forall|i: int| 0 <= i < flagged.len() implies flagged[i].id == before.pending[i].id by {
                lemma_id_index(before.pending, match command { Command::Cancel(p) => p.request_id, _ => 0 });
            }
            assert(self@.pending == expected.pending);
            assert(self@ == expected);
            assert forall|a: int, b: int| 0 <= a < b < self@.pending.len() implies #[trigger] self@.pending[a].id < #[trigger] self@.pending[b].id by {
                if b < flagged.len() {
                    assert(before.pending[a].id < before.pending[b].id);
                } else {
                    assert(before.pending[a].id <= before.next_id);
                }
            }
            assert forall|a: int| 0 <= a < self@.pending.len() implies 0 < #[trigger] self@.pending[a].id <= self@.next_id by {
                if a < flagged.len() {
                    assert(0 < before.pending[a].id <= before.next_id);
                }
            }
        }
        Ok(Request { version: API_VERSION, id, command })
    }

    /// Keeps accepted requests counted until their reply, even when no longer visible.
    pub fn invalidate(&mut self, target: &Target)
        requires
            old(self).inv(),
        ensures
            final(self).inv(),
            final(self)@ == old(self)@.after_invalidate(target@),
    {
        self.latest.remove(target);
    }

    /// The oldest accepted read that no view is waiting for and whose cancellation has
    /// not been sent.
    pub fn next_cancel(&self) -> (id: Option<u64>)
        requires
            self.inv(),
        ensures
            id == first_obsolete(self@.pending, self@.latest),
    {
        let ghost all = self@.pending;
        assert(all.skip(0) =~= all);
        for i in 0..self.pending.len()
            invariant
                self.inv(),
                all == self@.pending,
                all.len() == self.pending@.len(),
                first_obsolete(all, self@.latest) == first_obsolete(all.skip(i as int), self@.latest),
        {
            let entry = &self.pending[i];
            assert(all[i as int].id == entry.0 && all[i as int].target == entry.1.target@
                && all[i as int].cancellable == entry.1.cancellable);
            assert(all.skip(i as int)[0] == all[i as int]);
            assert(all.skip(i as int).drop_first() =~= all.skip(i + 1));
            if entry.1.cancellable && !matches!(entry.1.target, Target::Mutation) {
                let newest = self.latest.get(&entry.1.target);
                let current = match newest {
                    Some(latest_id) => *latest_id == entry.0,
                    None => false,
                };
                if !current {
                    return Some(entry.0);
                }
            }
        }
        assert(all.skip(all.len() as int).len() == 0);
        None
    }

    /// The IDs of accepted requests for `target`, ascending.
    pub fn pending_for(&self, target: &Target) -> (ids: Vec<u64>)
        requires
            self.inv(),
        ensures
            ids@ == ids_for(self@.pending, target@),
    {
        let ghost all = self@.pending;
        let mut ids: Vec<u64> = Vec::new();
        for i in 0..self.pending.len()
            invariant
                all == self@.pending,
                all.len() == self.pending@.len(),
                ids@ == ids_for(all.take(i as int), target@),
        {
            let entry = &self.pending[i];
            assert(all[i as int].id == entry.0 && all[i as int].target == entry.1.target@);
            assert(all.take(i + 1).drop_last() =~= all.take(i as int));
            if entry.1.target.same(target) {
                ids.push(entry.0);
            }
        }
        assert(all.take(all.len() as int) =~= all);
        ids
    }

    /// Forgets a request the transport explicitly rejected before admission: a rejected
    /// cancellation makes its read cancellable again, and a view waiting for it stops.
    pub fn rejected(&mut self, id: u64)
        requires
            old(self).inv(),
        ensures
            final(self).inv(),
            final(self)@ == old(self)@.after_rejected(id),
    {
        let ghost before = self@;
        proof {
            lemma_id_index(before.pending, id);
        }
        let Some(i) = self.find(id) else {
            return;
        };
        let (_, pending) = self.pending.remove(i);
        let target = pending.target;
        proof {
            assert(self@.pending =~= before.pending.remove(i as int));
        }
        if let Target::Cancel(request_id) = target {
            self.flag(request_id, true);
        }
        let waiting = match self.latest.get(&target) {
            Some(latest_id) => *latest_id == id,
            None => false,
        };
        if waiting {
            self.latest.remove(&target);
        }
    }

    /// Routes an event: see `RequestsView::completion` for what reaches the interface.
    pub fn complete(&mut self, event: Event) -> (response: Option<Response>)
        requires
            old(self).inv(),
        ensures
            final(self).inv(),
            final(self)@ == old(self)@.after_complete(event.id),
            match response {
                Some(r) => old(self)@.completion(event.id, is_state_notice(event.event)) == Some(
                    target_view(r.target),
                ) && r.sequence == event.sequence && r.notice == event.event,
                None => old(self)@.completion(event.id, is_state_notice(event.event)) is None,
            },
    {
        let ghost before = self@;
        let target = if let Some(id) = event.id {
            proof {
                lemma_id_index(before.pending, id);
            }
            let i = match self.find(id) {
                Some(i) => i,
                None => return None,
            };
            let (_, pending) = self.pending.remove(i);
            proof {
                assert(self@.pending =~= before.pending.remove(i as int));
            }
            let target = pending.target;
            let settles = matches!(target, Target::Mutation) || match self.latest.get(&target) {
                Some(latest_id) => *latest_id == id,
                None => false,
            };
            if settles {
                self.latest.remove(&target);
                Some(target)
            } else if target.is_control() && matches!(
                event.event,
                Notice::Store(_) | Notice::CollectionCreated(_) | Notice::Player(_) | Notice::Volume(_)
            ) {
                // Merge confirmed state without settling a newer UI intention.
                None
            } else {
                return None;
            }
        } else {
            None
        };
        Some(Response { target, sequence: event.sequence, notice: event.event })
    }

    /// Whether nothing is outstanding.
    pub fn is_idle(&self) -> (idle: bool)
        ensures
            idle == (self@.pending.len() == 0),
    {
        self.pending.len() == 0
    }

    /// The number of outstanding requests.
    pub fn count(&self) -> (n: usize)
        ensures
            n == self@.pending.len(),
    {
        self.pending.len()
    }
}

} // verus!
