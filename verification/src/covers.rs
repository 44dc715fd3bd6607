//! Cover prefetching: which covers a set of visible items needs, and how the
//! controller abandons the covers it no longer needs.
use crate::controller::{App, Intent, imaged, lemma_without_shrinks, without};
use crate::data::{ARTWORK_CAPACITY, DataView, playing_ref};
use crate::protocol::{Item, ItemRef, ItemRefView};
use crate::requests::RequestsView;
use crate::state::{item_key, item_key_spec};
use crate::target::{Target, TargetMap, TargetView, ascending, inserted, insertion_point, key_index, kept_keys, lemma_inserted, lemma_insertion_point, lemma_kept_keys,
    lemma_key_index, lookup};
use vstd::prelude::*;

verus! {

broadcast use vstd::std_specs::vec::group_vec_axioms;

/// The target under which `item`'s cover is loaded and kept.
pub open spec fn cover_target(item: Item) -> TargetView {
    TargetView::Artwork(item_key_spec(item.item_ref@))
}

/// The items of `items`, in order, that are (`playing`) or are not the track `current`.
pub open spec fn those(items: Seq<Item>, current: Option<ItemRefView>, playing: bool) -> Seq<Item>
    decreases items.len(),
{
    if items.len() == 0 {
        Seq::empty()
    } else {
        let rest = those(items.drop_last(), current, playing);
        if (current == Some(items.last().item_ref@)) == playing {
            rest.push(items.last())
        } else {
            rest
        }
    }
}

/// `needed` after `item` is considered: an item with a cover whose key is new joins
/// while fewer than 64 covers are needed.
pub open spec fn cover_step(needed: Seq<(TargetView, Item)>, item: Item) -> Seq<(TargetView, Item)> {
    if needed.len() < ARTWORK_CAPACITY && item.artwork_url is Some && lookup(needed, cover_target(item)) is None {
        inserted(needed, cover_target(item), item)
    } else {
        needed
    }
}

/// `needed` after each of `items` is considered in turn.
pub open spec fn covers_from(needed: Seq<(TargetView, Item)>, items: Seq<Item>) -> Seq<(TargetView, Item)>
    decreases items.len(),
{
    if items.len() == 0 {
        needed
    } else {
        cover_step(covers_from(needed, items.drop_last()), items.last())
    }
}

/// The covers that `items` need, by target: the playing track's first, then the others
/// in order, the first item of each key, at most 64.
pub open spec fn wanted_covers(items: Seq<Item>, current: Option<ItemRefView>) -> Seq<(TargetView, Item)> {
    covers_from(covers_from(Seq::empty(), those(items, current, true)), those(items, current, false))
}

/// The cover targets among the keys of `entries` that `needed` lacks, in order.
pub open spec fn stale_keys<V>(entries: Seq<(TargetView, V)>, needed: Seq<(TargetView, Item)>) -> Seq<TargetView>
    decreases entries.len(),
{
    if entries.len() == 0 {
        Seq::empty()
    } else {
        let rest = stale_keys(entries.drop_last(), needed);
        let key = entries.last().0;
        if key is Artwork && lookup(needed, key) is None {
            rest.push(key)
        } else {
            rest
        }
    }
}

/// The covers loading, then the covers failed, that `needed` lacks.
pub open spec fn stale_covers(data: DataView, needed: Seq<(TargetView, Item)>) -> Seq<TargetView> {
    stale_keys(data.loading, needed) + stale_keys(data.errors, needed)
}

/// `queue` after the intents of each of `targets` are dropped.
pub open spec fn without_all(queue: Seq<Intent>, targets: Seq<TargetView>) -> Seq<Intent>
    decreases targets.len(),
{
    if targets.len() == 0 {
        queue
    } else {
        without(without_all(queue, targets.drop_last()), targets.last())
    }
}

/// Request tracking after each of `targets` stops waiting.
pub open spec fn requests_invalidated(requests: RequestsView, targets: Seq<TargetView>) -> RequestsView
    decreases targets.len(),
{
    if targets.len() == 0 {
        requests
    } else {
        requests_invalidated(requests, targets.drop_last()).after_invalidate(targets.last())
    }
}

/// Confirmed data after each of `targets` is abandoned.
pub open spec fn data_cancelled(data: DataView, targets: Seq<TargetView>) -> DataView
    decreases targets.len(),
{
    if targets.len() == 0 {
        data
    } else {
        data_cancelled(data, targets.drop_last()).after_cancel(targets.last())
    }
}

/// Whether `new` is `old` after each of `targets` is abandoned in turn.
pub open spec fn invalidated_all(old: App, new: App, targets: Seq<TargetView>) -> bool {
    &&& new.queue() == without_all(old.queue(), targets)
    &&& new.requests@ == requests_invalidated(old.requests@, targets)
    &&& new.data@ == data_cancelled(old.data@, targets)
    &&& new.same_navigation(&old)
}

/// Whether `steps` run from one state to the next by asking for each of `items`' covers.
pub open spec fn imaged_each(steps: Seq<App>, items: Seq<Item>) -> bool {
    &&& steps.len() == items.len() + 1
    &&& forall|i: int| 0 <= i < items.len() ==> #[trigger] imaged(steps[i], steps[i + 1], items[i])
}

/// Whether `new` is `old` after each of `items`' covers is asked for in turn.
pub open spec fn imaged_all(old: App, new: App, items: Seq<Item>) -> bool {
    exists|steps: Seq<App>| #[trigger] imaged_each(steps, items) && steps[0] == old && steps.last() == new
}

/// The items of the needed covers, in target order.
pub open spec fn needed_items(needed: Seq<(TargetView, Item)>) -> Seq<Item> {
    needed.map_values(|e: (TargetView, Item)| e.1)
}

/// Whether `new` is `old` after prefetching the covers of `items`: the covers loading or
/// failed that are not needed are abandoned, received covers that are not needed are
/// dropped, and each needed cover is asked for in target order.
pub open spec fn prefetched(old: App, new: App, items: Seq<Item>) -> bool {
    let needed = wanted_covers(items, playing_ref(old.data@.player));
    exists|swept: App, trimmed: App|
        #![trigger invalidated_all(old, swept, stale_covers(old.data@, needed)), imaged_all(trimmed, new, needed_items(needed))]
        {
            &&& invalidated_all(old, swept, stale_covers(old.data@, needed))
            &&& trimmed.data@ == (DataView { artwork: kept_keys(swept.data@.artwork, needed), ..swept.data@ })
            &&& trimmed.queue() == swept.queue()
            &&& trimmed.requests@ == swept.requests@
            &&& trimmed.same_navigation(&swept)
            &&& imaged_all(trimmed, new, needed_items(needed))
        }
}

/// Considers `item` for `needed` (see `cover_step`).
fn consider_cover(needed: &mut TargetMap<Item>, item: &Item)
    requires
        old(needed).wf(),
    ensures
        final(needed).wf(),
        final(needed)@ == cover_step(old(needed)@, *item),
{
    if needed.len() < ARTWORK_CAPACITY && item.artwork_url.is_some() {
        let target = Target::Artwork(item_key(&item.item_ref));
        if !needed.contains(&target) {
            proof {
                lemma_key_index(needed@, target@);
            }
            needed.insert(target, item.duplicate());
        }
    }
}

/// The covers that `items` need (see `wanted_covers`), playing track `current`.
fn needed_covers(items: &Vec<Item>, current: &Option<ItemRef>) -> (needed: TargetMap<Item>)
    ensures
        needed.wf(),
        needed@ == wanted_covers(items@, match current {
            Some(c) => Some(c@),
            None => None,
        }),
{
    let ghost cur = match current {
        Some(c) => Some(c@),
        None => None,
    };
    let mut needed: TargetMap<Item> = TargetMap::new();
    let mut i: usize = 0;
    while i < items.len()
        invariant
            i <= items.len(),
            needed.wf(),
            needed@ == covers_from(Seq::empty(), those(items@.take(i as int), cur, true)),
            cur == match current {
                Some(c) => Some(c@),
                None => None,
            },
        decreases items.len() - i,
    {
        let item = &items[i];
        let playing = match current {
            Some(c) => item.item_ref.same(c),
            None => false,
        };
        if playing {
            consider_cover(&mut needed, item);
        }
        proof {
            let before = items@.take(i as int);
            let after = items@.take(i + 1);
            assert(after.drop_last() =~= before);
            assert(after.last() == *item);
            let chosen = those(before, cur, true);
            if playing == true {
                assert(those(after, cur, true) == chosen.push(*item));
                assert(chosen.push(*item).drop_last() =~= chosen);
            } else {
                assert(those(after, cur, true) == chosen);
            }
        }
        i += 1;
    }
    proof {
        assert(items@.take(i as int) =~= items@);
    }
    let ghost first = needed@;
    let mut i: usize = 0;
    while i < items.len()
        invariant
            i <= items.len(),
            needed.wf(),
            needed@ == covers_from(first, those(items@.take(i as int), cur, false)),
            cur == match current {
                Some(c) => Some(c@),
                None => None,
            },
        decreases items.len() - i,
    {
        let item = &items[i];
        let playing = match current {
            Some(c) => item.item_ref.same(c),
            None => false,
        };
        if !playing {
            consider_cover(&mut needed, item);
        }
        proof {
            let before = items@.take(i as int);
            let after = items@.take(i + 1);
            assert(after.drop_last() =~= before);
            assert(after.last() == *item);
            let chosen = those(before, cur, false);
            if playing == false {
                assert(those(after, cur, false) == chosen.push(*item));
                assert(chosen.push(*item).drop_last() =~= chosen);
            } else {
                assert(those(after, cur, false) == chosen);
            }
        }
        i += 1;
    }
    proof {
        assert(items@.take(i as int) =~= items@);
    }
    needed
}

impl App {
    /// Prefetches the covers of `items` (see `prefetched`): at most 64 distinct covers,
    /// the playing track's first; covers no longer needed are abandoned or dropped.
    pub fn prefetch_artwork(&mut self, items: Vec<Item>)
        requires
            old(self).wf(),
        ensures
            final(self).wf(),
            prefetched(*old(self), *final(self), items@),
    {
        let ghost start = *self;
        let current: Option<ItemRef> = match self.data.current() {
            Some(item) => Some(item.item_ref.duplicate()),
            None => None,
        };
        let needed = needed_covers(&items, &current);
        let ghost want = needed@;
        assert(want == wanted_covers(items@, playing_ref(start.data@.player)));
        let stale = self.stale_targets(&needed);
        let ghost gone = stale@.map_values(|t: Target| t@);
        let mut j: usize = 0;
        assert(gone.take(0) =~= Seq::<TargetView>::empty());
        while j < stale.len()
            invariant
                j <= stale.len(),
                self.wf(),
                gone == stale@.map_values(|t: Target| t@),
                invalidated_all(start, *self, gone.take(j as int)),
            decreases stale.len() - j,
        {
            let ghost before = *self;
            let target = stale[j].duplicate();
            self.invalidate_target(target);
            proof {
                assert(gone.take(j + 1).drop_last() =~= gone.take(j as int));
                assert(gone.take(j + 1).last() == gone[j as int]);
            }
            j += 1;
        }
        proof {
            assert(gone.take(j as int) =~= gone);
        }
        let ghost swept = *self;
        proof {
            lemma_kept_keys(swept.data@.artwork, want);
        }
        self.data.artwork.retain_keys(&needed);
        let ghost trimmed = *self;
        let ghost mut steps: Seq<App> = seq![trimmed];
        let ghost wanted_items = needed_items(want);
        let mut k: usize = 0;
        assert(imaged_each(steps, wanted_items.take(0)));
        while k < needed.len()
            invariant
                k <= needed@.len(),
                needed@ == want,
                needed.wf(),
                self.wf(),
                wanted_items == needed_items(want),
                imaged_each(steps, wanted_items.take(k as int)),
                steps[0] == trimmed,
                steps.last() == *self,
            decreases needed@.len() - k,
        {
            let item = needed.value_at(k);
            self.image(item);
            proof {
                let prefix = wanted_items.take(k + 1);
                assert(prefix[k as int] == *item);
                let next = steps.push(*self);
                assert forall|i: int| 0 <= i < prefix.len() implies #[trigger] imaged(next[i], next[i + 1], prefix[i]) by {
                    if i < k {
                        assert(wanted_items.take(k as int)[i] == prefix[i]);
                        assert(imaged(steps[i], steps[i + 1], wanted_items.take(k as int)[i]));
                    }
                }
                steps = next;
            }
            k += 1;
        }
        proof {
            assert(wanted_items.take(k as int) =~= wanted_items);
            assert(imaged_each(steps, wanted_items));
            assert(imaged_all(trimmed, *self, wanted_items));
            assert(invalidated_all(start, swept, stale_covers(start.data@, want)));
        }
    }

    /// The cover targets loading, then failed, that `needed` lacks.
    fn stale_targets(&self, needed: &TargetMap<Item>) -> (stale: Vec<Target>)
        requires
            self.wf(),
            needed.wf(),
        ensures
            stale@.map_values(|t: Target| t@) == stale_covers(self.data@, needed@),
    {
        let mut stale: Vec<Target> = Vec::new();
        let mut i: usize = 0;
        while i < self.data.loading.len()
            invariant
                i <= self.data@.loading.len(),
                self.wf(),
                needed.wf(),
                stale@.map_values(|t: Target| t@) == stale_keys(self.data@.loading.take(i as int), needed@),
            decreases self.data@.loading.len() - i,
        {
            let key = self.data.loading.key_at(i);
            let ghost before = stale@.map_values(|t: Target| t@);
            let artwork = match key {
                Target::Artwork(_) => true,
                _ => false,
            };
            let stale_one = artwork && !needed.contains(key);
            if stale_one {
                stale.push(key.duplicate());
            }
            proof {
                let prefix = self.data@.loading.take(i + 1);
                assert(prefix.drop_last() =~= self.data@.loading.take(i as int));
                assert(prefix.last().0 == key@);
                if stale_one {
                    assert(stale@.map_values(|t: Target| t@) =~= before.push(key@));
                }
            }
            i += 1;
        }
        proof {
            assert(self.data@.loading.take(i as int) =~= self.data@.loading);
        }
        let ghost first = stale@.map_values(|t: Target| t@);
        let mut i: usize = 0;
        assert(first + stale_keys(self.data@.errors.take(0), needed@) =~= first);
        while i < self.data.errors.len()
            invariant
                i <= self.data@.errors.len(),
                self.wf(),
                needed.wf(),
                first == stale_keys(self.data@.loading, needed@),
                stale@.map_values(|t: Target| t@) == first + stale_keys(self.data@.errors.take(i as int), needed@),
            decreases self.data@.errors.len() - i,
        {
            let key = self.data.errors.key_at(i);
            let ghost before = stale_keys(self.data@.errors.take(i as int), needed@);
            let ghost shown = stale@.map_values(|t: Target| t@);
            let artwork = match key {
                Target::Artwork(_) => true,
                _ => false,
            };
            let stale_one = artwork && !needed.contains(key);
            if stale_one {
                stale.push(key.duplicate());
            }
            proof {
                let prefix = self.data@.errors.take(i + 1);
                assert(prefix.drop_last() =~= self.data@.errors.take(i as int));
                assert(prefix.last().0 == key@);
                if stale_one {
                    assert(stale@.map_values(|t: Target| t@) =~= shown.push(key@));
                    assert(shown.push(key@) =~= first + before.push(key@));
                } else {
                    assert(stale@.map_values(|t: Target| t@) =~= first + before);
                }
            }
            i += 1;
        }
        proof {
            assert(self.data@.errors.take(i as int) =~= self.data@.errors);
        }
        stale
    }
}

/// Considering items only adds covers, and never past 64.
proof fn lemma_covers_from(needed: Seq<(TargetView, Item)>, items: Seq<Item>, key: TargetView)
    requires
        ascending(needed),
        needed.len() <= ARTWORK_CAPACITY,
    ensures
        ascending(covers_from(needed, items)),
        covers_from(needed, items).len() <= ARTWORK_CAPACITY,
        lookup(needed, key) is Some ==> lookup(covers_from(needed, items), key) is Some,
    decreases items.len(),
{
    if items.len() > 0 {
        lemma_covers_from(needed, items.drop_last(), key);
        let before = covers_from(needed, items.drop_last());
        let item = items.last();
        if before.len() < ARTWORK_CAPACITY && item.artwork_url is Some && lookup(before, cover_target(item)) is None {
            lemma_key_index(before, cover_target(item));
            lemma_key_index(before, key);
            lemma_insertion_point(before, cover_target(item));
            lemma_inserted(before, cover_target(item), item);
            if lookup(before, key) is Some {
                lemma_inserted_keeps(before, cover_target(item), item, key);
            }
        }
    }
}

/// Inserting a key leaves the other keys present.
proof fn lemma_inserted_keeps(entries: Seq<(TargetView, Item)>, key: TargetView, value: Item, other: TargetView)
    requires
        ascending(entries),
        lookup(entries, other) is Some,
    ensures
        lookup(inserted(entries, key, value), other) is Some,
{
    lemma_key_index(entries, other);
    lemma_key_index(entries, key);
    let result = inserted(entries, key, value);
    lemma_inserted(entries, key, value);
    lemma_key_index(result, other);
    let i = key_index(entries, other);
    if key_index(entries, key) >= 0 {
        if key != other {
            assert(result[i].0 == other);
        }
    } else {
        let p = insertion_point(entries, key);
        lemma_insertion_point(entries, key);
        if i < p {
            assert(result[i].0 == other);
        } else {
            assert(result[i + 1].0 == other);
        }
    }
}

/// The playing items of `items` that have a cover include one whenever `items` does.
proof fn lemma_those_keep_covers(items: Seq<Item>, current: ItemRefView, j: int)
    requires
        0 <= j < items.len(),
        items[j].item_ref@ == current,
        items[j].artwork_url is Some,
    ensures
        exists|k: int|
            0 <= k < those(items, Some(current), true).len() && #[trigger] those(items, Some(current), true)[k].artwork_url is Some,
    decreases items.len(),
{
    let chosen = those(items, Some(current), true);
    if j == items.len() - 1 {
        assert(chosen.last() == items[j]);
        assert(chosen[chosen.len() - 1].artwork_url is Some);
    } else {
        lemma_those_keep_covers(items.drop_last(), current, j);
        let rest = those(items.drop_last(), Some(current), true);
        let k = choose|k: int| 0 <= k < rest.len() && #[trigger] rest[k].artwork_url is Some;
        assert(chosen[k] == rest[k]);
    }
}

/// Every playing item of `items` has the reference `current`.
proof fn lemma_those_playing(items: Seq<Item>, current: ItemRefView)
    ensures
        forall|k: int|
            0 <= k < those(items, Some(current), true).len() ==> #[trigger] those(items, Some(current), true)[k].item_ref@
                == current,
    decreases items.len(),
{
    if items.len() > 0 {
        lemma_those_playing(items.drop_last(), current);
    }
}

/// Once the first playing item with a cover is considered, its cover is needed.
proof fn lemma_first_cover_kept(playing: Seq<Item>, current: ItemRefView, k: int)
    requires
        0 <= k < playing.len(),
        playing[k].artwork_url is Some,
        forall|i: int| 0 <= i < playing.len() ==> #[trigger] playing[i].item_ref@ == current,
    ensures
        lookup(covers_from(Seq::empty(), playing), TargetView::Artwork(item_key_spec(current))) is Some,
    decreases playing.len(),
{
    let key = TargetView::Artwork(item_key_spec(current));
    let empty = Seq::<(TargetView, Item)>::empty();
    if k < playing.len() - 1 {
        let rest = playing.drop_last();
        assert forall|i: int| 0 <= i < rest.len() implies #[trigger] rest[i].item_ref@ == current by {
            assert(playing[i].item_ref@ == current);
        }
        lemma_first_cover_kept(rest, current, k);
        lemma_covers_from(empty, playing, key);
        assert(playing.drop_last() == rest);
        lemma_covers_from(covers_from(empty, rest), seq![playing.last()], key);
        assert(seq![playing.last()].drop_last() =~= Seq::<Item>::empty());
    } else {
        let before = covers_from(empty, playing.drop_last());
        lemma_covers_from(empty, playing.drop_last(), key);
        assert(cover_target(playing[k]) == key);
        lemma_key_index(before, key);
        if lookup(before, key) is None {
            if before.len() < ARTWORK_CAPACITY {
                lemma_inserted(before, key, playing[k]);
            } else {
                // A full set of needed covers would hold a playing cover already: every key
                // so far is the playing key, so at most one cover is needed.
                lemma_single_key(playing.drop_last(), current);
            }
        }
    }
}

/// Considering items of one reference needs at most one cover.
proof fn lemma_single_key(playing: Seq<Item>, current: ItemRefView)
    requires
        forall|i: int| 0 <= i < playing.len() ==> #[trigger] playing[i].item_ref@ == current,
    ensures
        covers_from(Seq::empty(), playing).len() <= 1,
    decreases playing.len(),
{
    if playing.len() > 0 {
        let rest = playing.drop_last();
        assert forall|i: int| 0 <= i < rest.len() implies #[trigger] rest[i].item_ref@ == current by {
            assert(playing[i].item_ref@ == current);
        }
        lemma_single_key(rest, current);
        let before = covers_from(Seq::empty(), rest);
        let item = playing.last();
        if before.len() == 1 && item.artwork_url is Some {
            lemma_covers_from(Seq::empty(), rest, cover_target(item));
            lemma_single_entry(rest, current);
            lemma_key_index(before, cover_target(item));
        }
    }
}

/// A nonempty set of covers for items of one reference holds that reference's cover.
proof fn lemma_single_entry(playing: Seq<Item>, current: ItemRefView)
    requires
        forall|i: int| 0 <= i < playing.len() ==> #[trigger] playing[i].item_ref@ == current,
    ensures
        forall|i: int|
            0 <= i < covers_from(Seq::empty(), playing).len() ==> #[trigger] covers_from(Seq::empty(), playing)[i].0
                == TargetView::Artwork(item_key_spec(current)),
    decreases playing.len(),
{
    if playing.len() > 0 {
        let rest = playing.drop_last();
        assert forall|i: int| 0 <= i < rest.len() implies #[trigger] rest[i].item_ref@ == current by {
            assert(playing[i].item_ref@ == current);
        }
        lemma_single_entry(rest, current);
        let before = covers_from(Seq::empty(), rest);
        let item = playing.last();
        assert(cover_target(item) == TargetView::Artwork(item_key_spec(current)));
        if before.len() < ARTWORK_CAPACITY && item.artwork_url is Some && lookup(before, cover_target(item)) is None {
            lemma_key_index(before, cover_target(item));
            let result = inserted(before, cover_target(item), item);
            assert forall|i: int| 0 <= i < result.len() implies #[trigger] result[i].0 == cover_target(item) by {
                lemma_insertion_point(before, cover_target(item));
                let p = insertion_point(before, cover_target(item));
                if i < p {
                    assert(result[i] == before[i]);
                } else if i > p {
                    assert(result[i] == before[i - 1]);
                }
            }
        }
    }
}

/// At most 64 covers are needed, and the playing track's cover is needed whenever one of
/// the items is the playing track with a cover.
pub proof fn law_prefetch_keeps_the_playing_cover(items: Seq<Item>, current: Option<ItemRefView>)
    ensures
        wanted_covers(items, current).len() <= ARTWORK_CAPACITY,
        ascending(wanted_covers(items, current)),
        forall|j: int|
            0 <= j < items.len() && current == Some(#[trigger] items[j].item_ref@) && items[j].artwork_url is Some
                ==> lookup(wanted_covers(items, current), cover_target(items[j])) is Some,
{
    let empty = Seq::<(TargetView, Item)>::empty();
    let first = covers_from(empty, those(items, current, true));
    lemma_covers_from(empty, those(items, current, true), TargetView::Main);
    lemma_covers_from(first, those(items, current, false), TargetView::Main);
    assert forall|j: int|
        0 <= j < items.len() && current == Some(#[trigger] items[j].item_ref@) && items[j].artwork_url is Some
            implies lookup(wanted_covers(items, current), cover_target(items[j])) is Some by {
        let c = items[j].item_ref@;
        let playing = those(items, current, true);
        lemma_those_keep_covers(items, c, j);
        lemma_those_playing(items, c);
        let k = choose|k: int| 0 <= k < playing.len() && #[trigger] playing[k].artwork_url is Some;
        lemma_first_cover_kept(playing, c, k);
        lemma_covers_from(first, those(items, current, false), cover_target(items[j]));
    }
}

} // verus!
