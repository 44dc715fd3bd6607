//! UI destinations of requests and an ordered map keyed by them.
use crate::order::{Cmp, compare_chars, lemma_text_lt_irreflexive, lemma_text_lt_total,
    lemma_text_lt_transitive, text_lt};
use crate::text::chars_of;
use vstd::prelude::*;

verus! {

/// UI destinations, not backend endpoints. Replaced reads cannot change a new view.
#[derive(Clone, Debug)]
pub enum Target {
    Bootstrap,
    Main,
    Queue,
    Lyrics,
    LyricMatches,
    Artwork(String),
    Mode,
    Volume,
    Seek,
    Create,
    Favorite(String),
    MainEdit,
    QueueEdit,
    Mutation,
    /// Internal cancellation replies have no UI destination.
    Cancel(u64),
}

/// A target as a mathematical value.
pub enum TargetView {
    Bootstrap,
    Main,
    Queue,
    Lyrics,
    LyricMatches,
    Artwork(Seq<char>),
    Mode,
    Volume,
    Seek,
    Create,
    Favorite(Seq<char>),
    MainEdit,
    QueueEdit,
    Mutation,
    Cancel(u64),
}

impl View for Target {
    type V = TargetView;

    open spec fn view(&self) -> TargetView {
        match self {
            Target::Bootstrap => TargetView::Bootstrap,
            Target::Main => TargetView::Main,
            Target::Queue => TargetView::Queue,
            Target::Lyrics => TargetView::Lyrics,
            Target::LyricMatches => TargetView::LyricMatches,
            Target::Artwork(key) => TargetView::Artwork(key@),
            Target::Mode => TargetView::Mode,
            Target::Volume => TargetView::Volume,
            Target::Seek => TargetView::Seek,
            Target::Create => TargetView::Create,
            Target::Favorite(key) => TargetView::Favorite(key@),
            Target::MainEdit => TargetView::MainEdit,
            Target::QueueEdit => TargetView::QueueEdit,
            Target::Mutation => TargetView::Mutation,
            Target::Cancel(id) => TargetView::Cancel(*id),
        }
    }
}

impl TargetView {
    /// Destinations whose requests change backend state.
    pub open spec fn is_control(self) -> bool {
        match self {
            TargetView::Mutation | TargetView::MainEdit | TargetView::QueueEdit
            | TargetView::Mode | TargetView::Volume | TargetView::Seek | TargetView::Create
            | TargetView::Favorite(_) => true,
            _ => false,
        }
    }

    /// The position of the variant in declaration order.
    pub open spec fn rank(self) -> int {
        match self {
            TargetView::Bootstrap => 0,
            TargetView::Main => 1,
            TargetView::Queue => 2,
            TargetView::Lyrics => 3,
            TargetView::LyricMatches => 4,
            TargetView::Artwork(_) => 5,
            TargetView::Mode => 6,
            TargetView::Volume => 7,
            TargetView::Seek => 8,
            TargetView::Create => 9,
            TargetView::Favorite(_) => 10,
            TargetView::MainEdit => 11,
            TargetView::QueueEdit => 12,
            TargetView::Mutation => 13,
            TargetView::Cancel(_) => 14,
        }
    }

    /// The derived order of targets: by variant, then by payload.
    pub open spec fn lt(self, other: TargetView) -> bool {
        if self.rank() != other.rank() {
            self.rank() < other.rank()
        } else {
            match (self, other) {
                (TargetView::Artwork(a), TargetView::Artwork(b)) => text_lt(a, b),
                (TargetView::Favorite(a), TargetView::Favorite(b)) => text_lt(a, b),
                (TargetView::Cancel(a), TargetView::Cancel(b)) => a < b,
                _ => false,
            }
        }
    }
}

/// The order of targets is a strict total order.
pub proof fn lemma_target_order(a: TargetView, b: TargetView, c: TargetView)
    ensures
        !a.lt(a),
        a != b ==> (a.lt(b) || b.lt(a)),
        !(a.lt(b) && b.lt(a)),
        a.lt(b) && b.lt(c) ==> a.lt(c),
{
    match (a, b) {
        (TargetView::Artwork(x), TargetView::Artwork(y)) => {
            lemma_text_lt_total(x, y);
            lemma_text_lt_irreflexive(x);
        },
        (TargetView::Favorite(x), TargetView::Favorite(y)) => {
            lemma_text_lt_total(x, y);
            lemma_text_lt_irreflexive(x);
        },
        (TargetView::Artwork(x), _) => {
            lemma_text_lt_irreflexive(x);
        },
        (TargetView::Favorite(x), _) => {
            lemma_text_lt_irreflexive(x);
        },
        _ => {},
    }
    if a.lt(b) && b.lt(c) {
        match (a, b, c) {
            (TargetView::Artwork(x), TargetView::Artwork(y), TargetView::Artwork(z)) => {
                lemma_text_lt_transitive(x, y, z);
            },
            (TargetView::Favorite(x), TargetView::Favorite(y), TargetView::Favorite(z)) => {
                lemma_text_lt_transitive(x, y, z);
            },
            _ => {},
        }
    }
}

impl Target {
    /// Whether requests for this destination change backend state.
    pub fn is_control(&self) -> (control: bool)
        ensures
            control == self@.is_control(),
    {
        match self {
            Target::Mutation | Target::MainEdit | Target::QueueEdit | Target::Mode
            | Target::Volume | Target::Seek | Target::Create | Target::Favorite(_) => true,
            _ => false,
        }
    }

    fn rank(&self) -> (rank: u8)
        ensures
            rank == self@.rank(),
    {
        match self {
            Target::Bootstrap => 0,
            Target::Main => 1,
            Target::Queue => 2,
            Target::Lyrics => 3,
            Target::LyricMatches => 4,
            Target::Artwork(_) => 5,
            Target::Mode => 6,
            Target::Volume => 7,
            Target::Seek => 8,
            Target::Create => 9,
            Target::Favorite(_) => 10,
            Target::MainEdit => 11,
            Target::QueueEdit => 12,
            Target::Mutation => 13,
            Target::Cancel(_) => 14,
        }
    }

    /// Compares two targets in their derived order.
    pub fn compare(&self, other: &Target) -> (order: Cmp)
        ensures
            order == Cmp::Less <==> self@.lt(other@),
            order == Cmp::Equal <==> self@ == other@,
            order == Cmp::Greater <==> other@.lt(self@),
    {
        proof {
            lemma_target_order(self@, other@, other@);
        }
        let a = self.rank();
        let b = other.rank();
        if a < b {
            return Cmp::Less;
        }
        if b < a {
            return Cmp::Greater;
        }
        match (self, other) {
            (Target::Artwork(x), Target::Artwork(y)) | (Target::Favorite(x), Target::Favorite(y)) => {
                compare_chars(&chars_of(x.as_str()), &chars_of(y.as_str()))
            },
            (Target::Cancel(x), Target::Cancel(y)) => {
                if *x < *y {
                    Cmp::Less
                } else if *y < *x {
                    Cmp::Greater
                } else {
                    Cmp::Equal
                }
            },
            _ => Cmp::Equal,
        }
    }

    /// Whether both targets are the same destination.
    pub fn same(&self, other: &Target) -> (same: bool)
        ensures
            same == (self@ == other@),
    {
        match self.compare(other) {
            Cmp::Equal => true,
            _ => false,
        }
    }

    /// A copy of this target.
    pub fn duplicate(&self) -> (copy: Target)
        ensures
            copy@ == self@,
            copy == *self,
    {
        match self {
            Target::Bootstrap => Target::Bootstrap,
            Target::Main => Target::Main,
            Target::Queue => Target::Queue,
            Target::Lyrics => Target::Lyrics,
            Target::LyricMatches => Target::LyricMatches,
            Target::Artwork(key) => Target::Artwork(key.clone()),
            Target::Mode => Target::Mode,
            Target::Volume => Target::Volume,
            Target::Seek => Target::Seek,
            Target::Create => Target::Create,
            Target::Favorite(key) => Target::Favorite(key.clone()),
            Target::MainEdit => Target::MainEdit,
            Target::QueueEdit => Target::QueueEdit,
            Target::Mutation => Target::Mutation,
            Target::Cancel(id) => Target::Cancel(*id),
        }
    }
}

impl PartialEq for Target {
    fn eq(&self, other: &Target) -> (same: bool) {
        self.same(other)
    }
}

impl vstd::std_specs::cmp::PartialEqSpecImpl for Target {
    open spec fn obeys_eq_spec() -> bool {
        true
    }

    open spec fn eq_spec(&self, other: &Target) -> bool {
        self@ == other@
    }
}

// ---------------------------------------------------------------------------
// Ordered map keyed by targets
// ---------------------------------------------------------------------------

/// The index of the entry with key `key`, or -1.
pub open spec fn key_index<V>(entries: Seq<(TargetView, V)>, key: TargetView) -> int
    decreases entries.len(),
{
    if entries.len() == 0 {
        -1
    } else if entries.last().0 == key {
        entries.len() - 1
    } else {
        key_index(entries.drop_last(), key)
    }
}

/// The value stored under `key`, if any.
pub open spec fn lookup<V>(entries: Seq<(TargetView, V)>, key: TargetView) -> Option<V> {
    let i = key_index(entries, key);
    if i >= 0 {
        Some(entries[i].1)
    } else {
        None
    }
}

/// The number of leading entries whose key precedes `key`.
pub open spec fn insertion_point<V>(entries: Seq<(TargetView, V)>, key: TargetView) -> int
    decreases entries.len(),
{
    if entries.len() == 0 {
        0
    } else if entries[0].0.lt(key) {
        1 + insertion_point(entries.drop_first(), key)
    } else {
        0
    }
}

/// Keys strictly ascending.
pub open spec fn ascending<V>(entries: Seq<(TargetView, V)>) -> bool {
    forall|i: int, j: int| 0 <= i < j < entries.len() ==> #[trigger] entries[i].0.lt(#[trigger] entries[j].0)
}

/// `entries` with `key` mapped to `value`: replaced in place when present, otherwise
/// inserted where it keeps the keys ascending.
pub open spec fn inserted<V>(entries: Seq<(TargetView, V)>, key: TargetView, value: V) -> Seq<(TargetView, V)> {
    let i = key_index(entries, key);
    if i >= 0 {
        entries.update(i, (key, value))
    } else {
        entries.insert(insertion_point(entries, key), (key, value))
    }
}

/// `entries` without `key`.
pub open spec fn removed<V>(entries: Seq<(TargetView, V)>, key: TargetView) -> Seq<(TargetView, V)> {
    let i = key_index(entries, key);
    if i >= 0 {
        entries.remove(i)
    } else {
        entries
    }
}

/// Facts about the index of a key.
pub proof fn lemma_key_index<V>(entries: Seq<(TargetView, V)>, key: TargetView)
    ensures
        -1 <= key_index(entries, key) < entries.len(),
        key_index(entries, key) >= 0 ==> entries[key_index(entries, key)].0 == key,
        key_index(entries, key) == -1 <==> forall|i: int| 0 <= i < entries.len() ==> entries[i].0 != key,
    decreases entries.len(),
{
    if entries.len() > 0 {
        lemma_key_index(entries.drop_last(), key);
        if entries.last().0 != key {
            assert forall|i: int| 0 <= i < entries.len() - 1 implies entries[i] == entries.drop_last()[i] by {}
        }
    }
}

/// In an ascending map a key appears once, so any entry with that key is at its index.
pub proof fn lemma_key_unique<V>(entries: Seq<(TargetView, V)>, key: TargetView, j: int)
    requires
        ascending(entries),
        0 <= j < entries.len(),
        entries[j].0 == key,
    ensures
        key_index(entries, key) == j,
    decreases entries.len(),
{
    lemma_key_index(entries, key);
    let k = key_index(entries, key);
    if k != j {
        lemma_target_order(key, key, key);
        if k < j {
            assert(entries[k].0.lt(entries[j].0));
        } else {
            assert(entries[j].0.lt(entries[k].0));
        }
    }
}

/// The entries before the insertion point precede `key`; the one at it does not.
pub proof fn lemma_insertion_point<V>(entries: Seq<(TargetView, V)>, key: TargetView)
    ensures
        0 <= insertion_point(entries, key) <= entries.len(),
        forall|j: int| 0 <= j < insertion_point(entries, key) ==> #[trigger] entries[j].0.lt(key),
        insertion_point(entries, key) < entries.len() ==> !entries[insertion_point(entries, key)].0.lt(key),
    decreases entries.len(),
{
    if entries.len() > 0 && entries[0].0.lt(key) {
        let rest = entries.drop_first();
        lemma_insertion_point(rest, key);
        assert forall|j: int| 0 <= j < insertion_point(entries, key) implies #[trigger] entries[j].0.lt(key) by {
            if j > 0 {
                assert(entries[j] == rest[j - 1]);
            }
        }
    }
}

/// Inserting keeps the keys ascending and maps the key to the new value.
pub proof fn lemma_inserted<V>(entries: Seq<(TargetView, V)>, key: TargetView, value: V)
    requires
        ascending(entries),
    ensures
        ascending(inserted(entries, key, value)),
        lookup(inserted(entries, key, value), key) == Some(value),
{
    lemma_key_index(entries, key);
    let i = key_index(entries, key);
    let result = inserted(entries, key, value);
    if i >= 0 {
        assert forall|a: int, b: int| 0 <= a < b < result.len() implies #[trigger] result[a].0.lt(#[trigger] result[b].0) by {
            assert(entries[a].0.lt(entries[b].0));
        }
        lemma_key_unique(result, key, i);
    } else {
        lemma_insertion_point(entries, key);
        let p = insertion_point(entries, key);
        if p < entries.len() {
            lemma_target_order(key, entries[p].0, entries[p].0);
        }
        assert forall|a: int, b: int| 0 <= a < b < result.len() implies #[trigger] result[a].0.lt(#[trigger] result[b].0) by {
            if b < p {
                assert(entries[a].0.lt(entries[b].0));
            } else if b == p {
                assert(entries[a].0.lt(key));
            } else if a < p {
                if b - 1 > p {
                    assert(entries[p].0.lt(entries[b - 1].0));
                }
                lemma_target_order(key, entries[p].0, entries[b - 1].0);
                lemma_target_order(entries[a].0, key, entries[b - 1].0);
            } else if a == p {
                if b - 1 > p {
                    assert(entries[p].0.lt(entries[b - 1].0));
                }
                lemma_target_order(key, entries[p].0, entries[b - 1].0);
            } else {
                assert(entries[a - 1].0.lt(entries[b - 1].0));
            }
        }
        lemma_key_unique(result, key, p);
    }
}

/// Removing keeps the keys ascending and leaves the key absent.
pub proof fn lemma_removed<V>(entries: Seq<(TargetView, V)>, key: TargetView)
    requires
        ascending(entries),
    ensures
        ascending(removed(entries, key)),
        lookup(removed(entries, key), key) is None,
{
    lemma_key_index(entries, key);
    let i = key_index(entries, key);
    let result = removed(entries, key);
    if i >= 0 {
        assert forall|a: int, b: int| 0 <= a < b < result.len() implies #[trigger] result[a].0.lt(#[trigger] result[b].0) by {
            if a < i && b >= i {
                assert(entries[a].0.lt(entries[b + 1].0));
            } else if a >= i {
                assert(entries[a + 1].0.lt(entries[b + 1].0));
            } else {
                assert(entries[a].0.lt(entries[b].0));
            }
        }
        assert forall|j: int| 0 <= j < result.len() implies result[j].0 != key by {
            if j < i {
                lemma_target_order(entries[j].0, key, key);
                assert(entries[j].0.lt(entries[i].0));
            } else {
                lemma_target_order(key, entries[j + 1].0, key);
                assert(entries[i].0.lt(entries[j + 1].0));
            }
        }
    }
    lemma_key_index(result, key);
}

/// The entries of `entries` whose key `keep` also holds, in order.
pub open spec fn kept_keys<V, W>(entries: Seq<(TargetView, V)>, keep: Seq<(TargetView, W)>) -> Seq<(TargetView, V)>
    decreases entries.len(),
{
    if entries.len() == 0 {
        Seq::empty()
    } else {
        let rest = kept_keys(entries.drop_last(), keep);
        if lookup(keep, entries.last().0) is Some {
            rest.push(entries.last())
        } else {
            rest
        }
    }
}

/// Keeping entries keeps them below any bound of all of them.
proof fn lemma_kept_keys_bounded<V, W>(entries: Seq<(TargetView, V)>, keep: Seq<(TargetView, W)>, bound: TargetView)
    requires
        forall|k: int| 0 <= k < entries.len() ==> #[trigger] entries[k].0.lt(bound),
    ensures
        forall|j: int| 0 <= j < kept_keys(entries, keep).len() ==> #[trigger] kept_keys(entries, keep)[j].0.lt(bound),
        kept_keys(entries, keep).len() <= entries.len(),
    decreases entries.len(),
{
    if entries.len() > 0 {
        let rest = entries.drop_last();
        assert forall|k: int| 0 <= k < rest.len() implies #[trigger] rest[k].0.lt(bound) by {
            assert(entries[k].0.lt(bound));
        }
        lemma_kept_keys_bounded(rest, keep, bound);
        assert(entries[entries.len() - 1].0.lt(bound));
    }
}

/// Keeping entries of an ascending sequence leaves it ascending and no longer.
pub proof fn lemma_kept_keys<V, W>(entries: Seq<(TargetView, V)>, keep: Seq<(TargetView, W)>)
    requires
        ascending(entries),
    ensures
        ascending(kept_keys(entries, keep)),
        kept_keys(entries, keep).len() <= entries.len(),
    decreases entries.len(),
{
    if entries.len() > 0 {
        let rest = entries.drop_last();
        let last = entries.last();
        assert forall|a: int, b: int| 0 <= a < b < rest.len() implies #[trigger] rest[a].0.lt(#[trigger] rest[b].0) by {
            assert(entries[a].0.lt(entries[b].0));
        }
        lemma_kept_keys(rest, keep);
        assert forall|k: int| 0 <= k < rest.len() implies #[trigger] rest[k].0.lt(last.0) by {
            assert(entries[k].0.lt(entries[entries.len() - 1].0));
        }
        lemma_kept_keys_bounded(rest, keep, last.0);
        let kept = kept_keys(rest, keep);
        if lookup(keep, last.0) is Some {
            let result = kept.push(last);
            assert forall|a: int, b: int| 0 <= a < b < result.len() implies #[trigger] result[a].0.lt(#[trigger] result[b].0) by {
                if b == kept.len() {
                    assert(kept[a].0.lt(last.0));
                } else {
                    assert(kept[a].0.lt(kept[b].0));
                }
            }
        }
    }
}

/// A well-formed map never holds a key twice.
pub proof fn law_map_keys_are_distinct<V>(entries: Seq<(TargetView, V)>)
    requires
        ascending(entries),
    ensures
        forall|i: int, j: int| 0 <= i < j < entries.len() ==> #[trigger] entries[i].0 != #[trigger] entries[j].0,
{
    assert forall|i: int, j: int| 0 <= i < j < entries.len() implies #[trigger] entries[i].0 != #[trigger] entries[j].0 by {
        assert(entries[i].0.lt(entries[j].0));
        lemma_target_order(entries[i].0, entries[j].0, entries[j].0);
    }
}

/// An ordered association from targets to values.
pub struct TargetMap<V> {
    entries: Vec<(Target, V)>,
}

impl<V> View for TargetMap<V> {
    type V = Seq<(TargetView, V)>;

    closed spec fn view(&self) -> Seq<(TargetView, V)> {
        self.entries@.map_values(|e: (Target, V)| (e.0@, e.1))
    }
}

impl<V> TargetMap<V> {
    /// Keys strictly ascending.
    pub open spec fn wf(&self) -> bool {
        ascending(self@)
    }

    /// An empty map.
    pub fn new() -> (map: Self)
        ensures
            map@ == Seq::<(TargetView, V)>::empty(),
            map.wf(),
    {
        let map = TargetMap { entries: Vec::new() };
        assert(map@ =~= Seq::<(TargetView, V)>::empty());
        map
    }

    /// The number of entries.
    pub fn len(&self) -> (n: usize)
        ensures
            n == self@.len(),
    {
        self.entries.len()
    }

    /// The key of entry `i`.
    pub fn key_at(&self, i: usize) -> (key: &Target)
        requires
            i < self@.len(),
        ensures
            key@ == self@[i as int].0,
    {
        &self.entries[i].0
    }

    /// The value of entry `i`.
    pub fn value_at(&self, i: usize) -> (value: &V)
        requires
            i < self@.len(),
        ensures
            *value == self@[i as int].1,
    {
        &self.entries[i].1
    }

    /// The index of `key`, if present.
    pub fn find(&self, key: &Target) -> (found: Option<usize>)
        requires
            self.wf(),
        ensures
            found is None <==> key_index(self@, key@) == -1,
            found matches Some(i) ==> i as int == key_index(self@, key@) && i < self@.len(),
    {
        proof {
            lemma_key_index(self@, key@);
        }
        for i in 0..self.entries.len()
            invariant
                self.wf(),
                self@.len() == self.entries@.len(),
                forall|j: int| 0 <= j < i ==> self@[j].0 != key@,
        {
            assert(self@[i as int].0 == self.entries@[i as int].0@);
            if self.entries[i].0.same(key) {
                proof {
                    lemma_key_unique(self@, key@, i as int);
                }
                return Some(i);
            }
        }
        None
    }

    /// Whether `key` is present.
    pub fn contains(&self, key: &Target) -> (present: bool)
        requires
            self.wf(),
        ensures
            present == (key_index(self@, key@) >= 0),
    {
        self.find(key).is_some()
    }

    /// The value stored under `key`.
    pub fn get(&self, key: &Target) -> (value: Option<&V>)
        requires
            self.wf(),
        ensures
            match value {
                Some(v) => lookup(self@, key@) == Some(*v),
                None => lookup(self@, key@) is None,
            },
    {
        proof {
            lemma_key_index(self@, key@);
        }
        match self.find(key) {
            Some(i) => {
                assert(key_index(self@, key@) == i as int);
                assert(lookup(self@, key@) == Some(self@[i as int].1));
                assert(self@[i as int].1 == self.entries@[i as int].1);
                Some(&self.entries[i].1)
            },
            None => None,
        }
    }

    /// Maps `key` to `value`, keeping the keys ascending.
    pub fn insert(&mut self, key: Target, value: V)
        requires
            old(self).wf(),
        ensures
            final(self).wf(),
            final(self)@ == inserted(old(self)@, key@, value),
    {
        let ghost old_view = self@;
        let ghost k = key@;
        proof {
            lemma_key_index(old_view, k);
        }
        let mut i: usize = 0;
        let mut scanning = true;
        assert(old_view.skip(0) =~= old_view);
        while scanning && i < self.entries.len()
            invariant
                self@ == old_view,
                k == key@,
                self.wf(),
                self@.len() == self.entries@.len(),
                i <= self@.len(),
                forall|j: int| 0 <= j < i ==> #[trigger] self@[j].0.lt(k),
                insertion_point(old_view, k) == i + insertion_point(old_view.skip(i as int), k),
                !scanning ==> i < self@.len() && !self@[i as int].0.lt(k),
            decreases self@.len() - i, if scanning { 1int } else { 0int },
        {
            assert(self@[i as int].0 == self.entries@[i as int].0@);
            let order = self.entries[i].0.compare(&key);
            match order {
                Cmp::Less => {
                    assert(self.entries@[i as int].0@.lt(key@));
                    assert(self@[i as int].0.lt(k));
                    assert(old_view.skip(i as int).drop_first() =~= old_view.skip(i + 1));
                    assert(old_view.skip(i as int)[0] == old_view[i as int]);
                    i = i + 1;
                },
                _ => {
                    scanning = false;
                },
            }
        }
        assert(i < self@.len() ==> self@[i as int].0 == self.entries@[i as int].0@);
        if i < self.entries.len() && self.entries[i].0.same(&key) {
            proof {
                lemma_key_unique(old_view, k, i as int);
            }
            self.entries.set(i, (key, value));
            assert(self@ =~= old_view.update(i as int, (k, value)));
        } else {
            proof {
                if i < old_view.len() {
                    lemma_target_order(k, old_view[i as int].0, old_view[i as int].0);
                }
                assert(old_view.skip(i as int).len() == 0 || !old_view.skip(i as int)[0].0.lt(k));
                assert forall|j: int| 0 <= j < old_view.len() implies old_view[j].0 != k by {
                    if j < i {
                        assert(old_view[j].0.lt(k));
                        lemma_target_order(k, k, k);
                    } else {
                        lemma_target_order(old_view[i as int].0, old_view[j].0, k);
                        lemma_target_order(k, old_view[i as int].0, old_view[j].0);
                        if j > i {
                            assert(old_view[i as int].0.lt(old_view[j].0));
                        }
                    }
                }
            }
            self.entries.insert(i, (key, value));
            assert(self@ =~= old_view.insert(i as int, (k, value)));
        }
        proof {
            lemma_inserted(old_view, k, value);
        }
    }

    /// Removes `key`, returning its value.
    pub fn remove(&mut self, key: &Target) -> (value: Option<V>)
        requires
            old(self).wf(),
        ensures
            final(self).wf(),
            final(self)@ == removed(old(self)@, key@),
            value == lookup(old(self)@, key@),
    {
        let ghost old_view = self@;
        proof {
            lemma_key_index(self@, key@);
        }
        match self.find(key) {
            Some(i) => {
                let (_, value) = self.entries.remove(i);
                assert(self@ =~= old_view.remove(i as int));
                proof {
                    lemma_removed(old_view, key@);
                }
                Some(value)
            },
            None => None,
        }
    }

    /// Removes the entry with the smallest key.
    pub fn pop_first(&mut self)
        requires
            old(self).wf(),
            old(self)@.len() > 0,
        ensures
            final(self).wf(),
            final(self)@ == old(self)@.drop_first(),
    {
        let ghost before = self@;
        self.entries.remove(0);
        assert(self@ =~= before.drop_first());
        assert forall|a: int, b: int| 0 <= a < b < self@.len() implies #[trigger] self@[a].0.lt(#[trigger] self@[b].0) by {
            assert(before[a + 1].0.lt(before[b + 1].0));
        }
    }

    /// Keeps only the entries whose key `keep` also holds.
    pub fn retain_keys<W>(&mut self, keep: &TargetMap<W>)
        requires
            old(self).wf(),
            keep.wf(),
        ensures
            final(self).wf(),
            final(self)@ == kept_keys(old(self)@, keep@),
    {
        let ghost whole = self@;
        let mut rest: Vec<(Target, V)> = Vec::new();
        std::mem::swap(&mut rest, &mut self.entries);
        let mut kept: TargetMap<V> = TargetMap { entries: Vec::new() };
        let ghost mut done: int = 0;
        assert(kept@ =~= kept_keys(whole.take(0), keep@));
        while rest.len() > 0
            invariant
                0 <= done <= whole.len(),
                keep.wf(),
                rest@.map_values(|e: (Target, V)| (e.0@, e.1)) == whole.skip(done),
                kept@ == kept_keys(whole.take(done), keep@),
            decreases rest.len(),
        {
            let ghost before = rest@;
            let entry = rest.remove(0);
            assert(whole.skip(done).len() == before.len());
            assert(before.map_values(|e: (Target, V)| (e.0@, e.1))[0] == whole.skip(done)[0]);
            let present = keep.contains(&entry.0);
            let ghost step = (entry.0@, entry.1);
            if present {
                kept.entries.push(entry);
            }
            proof {
                assert(whole.take(done + 1).drop_last() =~= whole.take(done));
                assert(whole.take(done + 1).last() == step);
                if present {
                    assert(kept@ =~= kept_keys(whole.take(done), keep@).push(step));
                }
                let seen = before.map_values(|e: (Target, V)| (e.0@, e.1));
                let now = rest@.map_values(|e: (Target, V)| (e.0@, e.1));
                assert forall|k: int| 0 <= k < now.len() implies #[trigger] now[k] == whole.skip(done + 1)[k] by {
                    assert(rest@[k] == before[k + 1]);
                    assert(seen[k + 1] == whole.skip(done)[k + 1]);
                }
                done = done + 1;
                assert(rest@.map_values(|e: (Target, V)| (e.0@, e.1)) =~= whole.skip(done));
            }
        }
        proof {
            assert(whole.take(done) =~= whole);
            lemma_kept_keys(whole, keep@);
        }
        self.entries = kept.entries;
    }

    /// Removes every entry.
    pub fn clear(&mut self)
        ensures
            final(self)@ == Seq::<(TargetView, V)>::empty(),
            final(self).wf(),
    {
        self.entries.clear();
        assert(self@ =~= Seq::<(TargetView, V)>::empty());
    }
}

} // verus!
