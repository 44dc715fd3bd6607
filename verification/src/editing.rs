//! Single-line text fields that edit whole grapheme clusters and keep the cursor visible.
use crate::state::{EditAction, Editor, limit_spec};
use crate::text::{all_plain, cells, lemma_fit_all, lemma_widths_total_nonnegative, widths_total, fit_count, chars_of, clean, clean_spec, is_plain, law_clean_text_has_no_terminal_controls, clusters_of, cut, cut_spec, graphemes_of,
    join_chars, slice_chars, string_of, width_of};
use vstd::prelude::*;

verus! {

/// `text` with carriage returns, line feeds and tabs turned into spaces.
pub open spec fn spaced(text: Seq<char>) -> Seq<char> {
    text.map_values(|c: char| if c == '\r' || c == '\n' || c == '\t' { ' ' } else { c })
}

/// How many leading clusters fit, one after another, into `budget` characters.
pub open spec fn char_fit(parts: Seq<Seq<char>>, budget: int) -> nat
    decreases parts.len(),
{
    if parts.len() == 0 {
        0
    } else if parts[0].len() <= budget {
        1 + char_fit(parts.drop_first(), budget - parts[0].len())
    } else {
        0
    }
}

/// The first cluster boundary at or after `desired`, counting boundaries from `start`;
/// the end of the text when there is none.
pub open spec fn snap(parts: Seq<Seq<char>>, start: int, desired: int) -> int
    decreases parts.len(),
{
    if start >= desired || parts.len() == 0 {
        start
    } else {
        snap(parts.drop_first(), start + parts[0].len(), desired)
    }
}

/// The buffer and cursor after inserting `text` at `cursor`: line breaks and tabs become
/// spaces, the text is sanitized, and only whole clusters that keep the buffer within
/// `limit` characters are taken; the cursor lands on the first cluster boundary after
/// the inserted text.
pub open spec fn insertion(buffer: Seq<char>, cursor: int, limit: int, text: Seq<char>) -> (Seq<char>, int) {
    let room = if limit > buffer.len() { limit - buffer.len() } else { 0 };
    let parts = graphemes_of(clean_spec(spaced(text)));
    let taken = parts.take(char_fit(parts, room) as int).flatten();
    let next = buffer.take(cursor) + taken + buffer.skip(cursor);
    (next, snap(graphemes_of(next), 0, cursor + taken.len()))
}

/// The length of the last cluster before `cursor`, or 0 at the start.
pub open spec fn cluster_before(buffer: Seq<char>, cursor: int) -> int {
    let parts = graphemes_of(buffer.take(cursor));
    if parts.len() == 0 {
        0
    } else {
        parts.last().len() as int
    }
}

/// The length of the first cluster after `cursor`, or 0 at the end.
pub open spec fn cluster_after(buffer: Seq<char>, cursor: int) -> int {
    let parts = graphemes_of(buffer.skip(cursor));
    if parts.len() == 0 {
        0
    } else {
        parts[0].len() as int
    }
}

/// The cell count the interface uses for a text: its sanitized width, as an `i32`.
pub open spec fn cells_spec(text: Seq<char>) -> int {
    (width_of(clean_spec(text)) as i32) as int
}

/// How many trailing clusters fit, from the last one backwards, into `budget` cells.
pub open spec fn left_fit(parts: Seq<Seq<char>>, budget: int) -> nat
    decreases parts.len(),
{
    if parts.len() == 0 {
        0
    } else if cells_spec(parts.last()) <= budget {
        1 + left_fit(parts.drop_last(), budget - cells_spec(parts.last()))
    } else {
        0
    }
}

/// `value` limited to the `i32` range.
pub open spec fn clamp_i32(value: int) -> int {
    if value < i32::MIN {
        i32::MIN as int
    } else if value > i32::MAX {
        i32::MAX as int
    } else {
        value
    }
}

/// What a field `width` cells wide shows: as much text before the cursor as fits
/// (marked with `‹` when clipped), the cursor bar, then the text after it.
pub open spec fn visible_spec(buffer: Seq<char>, cursor: int, width: int) -> Seq<char> {
    if width <= 0 {
        Seq::empty()
    } else {
        let before = buffer.take(cursor);
        let clipped = cells_spec(before) > width - 1;
        let marked = clipped && width > 1;
        let prefix = if marked { "‹"@ } else { Seq::<char>::empty() };
        let prefix_cells = if marked { cells_spec("‹"@) } else { 0 };
        let room = width - 1 - prefix_cells;
        let budget = if room > 0 { room } else { 0 };
        let parts = graphemes_of(before);
        let k = left_fit(parts, budget);
        let left = parts.skip(parts.len() - k).flatten();
        let rest = clamp_i32(width - prefix_cells - cells_spec(left) - 1);
        prefix + left + "▏"@ + cut_spec(buffer.skip(cursor), rest)
    }
}

/// The first and last clusters lie within the text they split.
pub proof fn lemma_cluster_lengths(parts: Seq<Seq<char>>)
    requires
        parts.len() > 0,
    ensures
        parts[0].len() <= parts.flatten().len(),
        parts.last().len() <= parts.flatten().len(),
        parts.flatten() == parts.drop_last().flatten() + parts.last(),
{
    assert(parts.drop_last().push(parts.last()) =~= parts);
    parts.drop_last().lemma_flatten_push(parts.last());
}

/// The snapped cursor stays within the text.
pub proof fn lemma_snap_bound(parts: Seq<Seq<char>>, start: int, desired: int)
    ensures
        snap(parts, start, desired) <= start + parts.flatten().len() || start >= desired,
        snap(parts, start, desired) >= start,
    decreases parts.len(),
{
    if start < desired && parts.len() > 0 {
        lemma_snap_bound(parts.drop_first(), start + parts[0].len(), desired);
    }
}


/// The clusters that fit into `budget` characters hold at most `budget` characters.
pub proof fn lemma_char_fit_len(parts: Seq<Seq<char>>, budget: int)
    requires
        budget >= 0,
    ensures
        char_fit(parts, budget) <= parts.len(),
        parts.take(char_fit(parts, budget) as int).flatten().len() <= budget,
    decreases parts.len(),
{
    let k = char_fit(parts, budget) as int;
    if parts.len() == 0 || parts[0].len() > budget {
        assert(parts.take(k) =~= Seq::<Seq<char>>::empty());
    } else {
        let rest = parts.drop_first();
        lemma_char_fit_len(rest, budget - parts[0].len());
        assert(parts.take(k).drop_first() =~= rest.take(k - 1));
        assert(parts.take(k).first() == parts[0]);
    }
}

/// Text made of the leading clusters of plain text is plain.
proof fn lemma_taken_plain(parts: Seq<Seq<char>>, k: int)
    requires
        0 <= k <= parts.len(),
        all_plain(parts.flatten()),
    ensures
        all_plain(parts.take(k).flatten()),
        parts.take(k).flatten() == parts.flatten().take(parts.take(k).flatten().len() as int),
{
    assert(parts =~= parts.take(k) + parts.skip(k));
    vstd::seq_lib::lemma_flatten_concat(parts.take(k), parts.skip(k));
    let head = parts.take(k).flatten();
    assert(parts.flatten().take(head.len() as int) =~= head);
    assert forall|i: int| 0 <= i < head.len() implies is_plain(#[trigger] head[i]) by {
        assert(head[i] == parts.flatten()[i]);
    }
}


/// The cells that `parts` take as the field counts them, one after another.
pub open spec fn cells_total(parts: Seq<Seq<char>>) -> int
    decreases parts.len(),
{
    if parts.len() == 0 {
        0
    } else {
        cells_total(parts.drop_last()) + cells_spec(parts.last())
    }
}

/// Cells of clusters that each take some cells add up to no less than zero.
proof fn lemma_cells_total_nonnegative(parts: Seq<Seq<char>>)
    requires
        forall|i: int| 0 <= i < parts.len() ==> 0 <= #[trigger] cells_spec(parts[i]),
    ensures
        cells_total(parts) >= 0,
    decreases parts.len(),
{
    if parts.len() > 0 {
        let rest = parts.drop_last();
        assert forall|i: int| 0 <= i < rest.len() implies 0 <= #[trigger] cells_spec(rest[i]) by {
            assert(rest[i] == parts[i]);
        }
        lemma_cells_total_nonnegative(rest);
        assert(0 <= cells_spec(parts[parts.len() - 1]));
    }
}

/// Clusters that each take some cells and together fit into `budget` all fit.
proof fn lemma_left_fit_all(parts: Seq<Seq<char>>, budget: int)
    requires
        forall|i: int| 0 <= i < parts.len() ==> 0 <= #[trigger] cells_spec(parts[i]),
        cells_total(parts) <= budget,
    ensures
        left_fit(parts, budget) == parts.len(),
    decreases parts.len(),
{
    lemma_cells_total_nonnegative(parts);
    if parts.len() > 0 {
        lemma_cells_total_nonnegative(parts.drop_last());
        let rest = parts.drop_last();
        assert forall|i: int| 0 <= i < rest.len() implies 0 <= #[trigger] cells_spec(rest[i]) by {
            assert(rest[i] == parts[i]);
        }
        assert(0 <= cells_spec(parts[parts.len() - 1]));
        lemma_left_fit_all(rest, budget - cells_spec(parts.last()));
    }
}

/// Whether a field `width` cells wide has room for all of `buffer` with the cursor at
/// `cursor`: the text before the cursor, as a whole and cluster by cluster, and the
/// cleaned clusters after it, together with the cursor bar.
pub open spec fn fits_whole(buffer: Seq<char>, cursor: int, width: int) -> bool {
    let before = buffer.take(cursor);
    let parts = graphemes_of(before);
    let after = graphemes_of(clean_spec(buffer.skip(cursor)));
    &&& 0 < width <= i32::MAX
    &&& cells_spec(before) <= width - 1
    &&& (forall|i: int| 0 <= i < parts.len() ==> 0 <= #[trigger] cells_spec(parts[i]))
    &&& cells_total(parts) <= width - 1
    &&& 0 <= cells_spec(parts.flatten())
    &&& cells_spec(parts.flatten()) + widths_total(after) + 1 <= width
}

/// A field wide enough for its whole text shows all of it: every cluster before the
/// cursor, the cursor bar, then every cleaned cluster after the cursor, unclipped.
pub proof fn law_wide_field_shows_all_its_text(buffer: Seq<char>, cursor: int, width: int)
    requires
        0 <= cursor <= buffer.len(),
        fits_whole(buffer, cursor, width),
    ensures
        visible_spec(buffer, cursor, width) == graphemes_of(buffer.take(cursor)).flatten() + "▏"@ + graphemes_of(
            clean_spec(buffer.skip(cursor)),
        ).flatten(),
{
    let before = buffer.take(cursor);
    let parts = graphemes_of(before);
    let after = graphemes_of(clean_spec(buffer.skip(cursor)));
    lemma_left_fit_all(parts, width - 1);
    assert(parts.skip(0) =~= parts);
    lemma_widths_total_nonnegative(after);
    lemma_fit_all(after, width - cells_spec(parts.flatten()) - 1);
    assert(after.take(after.len() as int) =~= after);
    assert(Seq::<char>::empty() + parts.flatten() =~= parts.flatten());
}

impl Editor {
    /// The cursor lies within the buffer.
    pub open spec fn wf(&self) -> bool {
        self.cursor <= self.buffer@.len()
    }

    /// The field is valid: the cursor lies within the buffer, which holds at most the
    /// action's limit of characters, none of them a control code or hidden formatting
    /// character.
    pub open spec fn valid(&self) -> bool {
        &&& self.wf()
        &&& self.buffer@.len() <= limit_spec(self.action)
        &&& all_plain(self.buffer@)
    }

    /// A field for `action` holding the sanitized start of `buffer`.
    pub fn new(action: EditAction, buffer: String) -> (editor: Editor)
        ensures
            editor.wf(),
            editor.valid(),
            editor.action == action,
            (editor.buffer@, editor.cursor as int) == insertion(
                Seq::empty(),
                0,
                limit_spec(action) as int,
                buffer@,
            ),
    {
        let mut editor = Editor { action, buffer: String::new(), cursor: 0 };
        editor.insert(buffer.as_str());
        editor
    }

    /// Inserts `text` at the cursor (see `insertion`).
    pub fn insert(&mut self, text: &str)
        requires
            old(self).wf(),
        ensures
            final(self).wf(),
            old(self).valid() ==> final(self).valid(),
            final(self).action == old(self).action,
            (final(self).buffer@, final(self).cursor as int) == insertion(
                old(self).buffer@,
                old(self).cursor as int,
                limit_spec(old(self).action) as int,
                text@,
            ),
    {
        let buffer = chars_of(self.buffer.as_str());
        let limit = self.action.limit();
        let room: usize = if limit > buffer.len() { limit - buffer.len() } else { 0 };
        let raw = chars_of(text);
        let mut flat: Vec<char> = Vec::new();
        for i in 0..raw.len()
            invariant
                flat@ == spaced(raw@.take(i as int)),
        {
            let c = raw[i];
            flat.push(if c == '\r' || c == '\n' || c == '\t' { ' ' } else { c });
            assert(spaced(raw@.take(i + 1)) =~= spaced(raw@.take(i as int)).push(flat@.last()));
        }
        assert(raw@.take(raw@.len() as int) =~= raw@);
        let cleaned = clean(string_of(flat.as_slice()).as_str());
        let parts = clusters_of(&chars_of(cleaned.as_str()));
        let ghost views = parts@.map_values(|p: Vec<char>| p@);
        let mut taken: Vec<char> = Vec::new();
        let mut remaining = room;
        let mut i: usize = 0;
        assert(views.skip(0) =~= views);
        assert(views.take(0) =~= Seq::<Seq<char>>::empty());
        while i < parts.len() && parts[i].len() <= remaining
            invariant
                views == graphemes_of(clean_spec(spaced(text@))),
                views.len() == parts@.len(),
                forall|j: int| 0 <= j < parts@.len() ==> #[trigger] views[j] == parts@[j]@,
                i <= parts@.len(),
                char_fit(views, room as int) == i + char_fit(views.skip(i as int), remaining as int),
                taken@ == views.take(i as int).flatten(),
            decreases parts@.len() - i,
        {
            assert(views.skip(i as int)[0] == views[i as int]);
            assert(views.skip(i as int).drop_first() =~= views.skip(i + 1));
            remaining = remaining - parts[i].len();
            taken = join_chars(&taken, &parts[i]);
            proof {
                assert(views.take(i + 1) =~= views.take(i as int).push(views[i as int]));
                views.take(i as int).lemma_flatten_push(views[i as int]);
            }
            i = i + 1;
        }
        proof {
            if i < parts@.len() {
                assert(views.skip(i as int)[0] == views[i as int]);
            } else {
                assert(views.skip(i as int).len() == 0);
            }
        }
        proof {
            law_clean_text_has_no_terminal_controls(spaced(text@));
            assert(all_plain(views.flatten()));
            lemma_taken_plain(views, i as int);
            lemma_char_fit_len(views, room as int);
        }
        let head = slice_chars(&buffer, 0, self.cursor);
        let tail = slice_chars(&buffer, self.cursor, buffer.len());
        let next = join_chars(&join_chars(&head, &taken), &tail);
        proof {
            if all_plain(buffer@) {
                assert forall|j: int| 0 <= j < next@.len() implies is_plain(#[trigger] next@[j]) by {
                    if j < head@.len() {
                        assert(next@[j] == buffer@[j]);
                    } else if j < head@.len() + taken@.len() {
                        assert(next@[j] == taken@[j - head@.len()]);
                    } else {
                        assert(next@[j] == buffer@[j - taken@.len()]);
                    }
                }
            }
        }
        assert(head@ =~= buffer@.take(self.cursor as int));
        assert(tail@ =~= buffer@.skip(self.cursor as int));
        let total = next.len();
        assert(next@.len() == self.cursor + taken@.len() + tail@.len());
        let desired = self.cursor + taken.len();
        let clusters = clusters_of(&next);
        let ghost cviews = clusters@.map_values(|p: Vec<char>| p@);
        let mut start: usize = 0;
        let mut k: usize = 0;
        assert(cviews.skip(0) =~= cviews);
        proof {
            lemma_snap_bound(cviews, 0, desired as int);
        }
        while start < desired && k < clusters.len()
            invariant
                cviews == graphemes_of(next@),
                cviews.flatten() == next@,
                total == next@.len(),
                cviews.len() == clusters@.len(),
                forall|j: int| 0 <= j < clusters@.len() ==> #[trigger] cviews[j] == clusters@[j]@,
                k <= clusters@.len(),
                start + cviews.skip(k as int).flatten().len() == next@.len(),
                snap(cviews, 0, desired as int) == snap(cviews.skip(k as int), start as int, desired as int),
            decreases clusters@.len() - k,
        {
            let ghost rest = cviews.skip(k as int);
            assert(rest[0] == cviews[k as int]);
            assert(rest.drop_first() =~= cviews.skip(k + 1));
            assert(rest.flatten() == rest[0] + rest.drop_first().flatten());
            start = start + clusters[k].len();
            k = k + 1;
        }
        proof {
            assert(cviews.skip(0) =~= cviews);
            lemma_snap_bound(cviews.skip(k as int), start as int, desired as int);
            if k == clusters@.len() {
                assert(cviews.skip(k as int).len() == 0);
            }
        }
        self.buffer = string_of(next.as_slice());
        self.cursor = start;
    }

    /// Deletes the cluster before the cursor.
    pub fn backspace(&mut self)
        requires
            old(self).wf(),
        ensures
            final(self).wf(),
            old(self).valid() ==> final(self).valid(),
            final(self).action == old(self).action,
            ({
                let b = old(self).buffer@;
                let c = old(self).cursor as int;
                let n = cluster_before(b, c);
                &&& final(self).cursor == c - n
                &&& final(self).buffer@ == b.take(c - n) + b.skip(c)
            }),
    {
        let buffer = chars_of(self.buffer.as_str());
        let before = slice_chars(&buffer, 0, self.cursor);
        assert(before@ =~= buffer@.take(self.cursor as int));
        let parts = clusters_of(&before);
        if parts.len() == 0 {
            assert(buffer@.take(self.cursor as int) + buffer@.skip(self.cursor as int) =~= buffer@);
            return;
        }
        let last = parts.len() - 1;
        let size = parts[last].len();
        proof {
            let views = parts@.map_values(|p: Vec<char>| p@);
            lemma_cluster_lengths(views);
            assert(views.last() == parts@[last as int]@);
        }
        let start = self.cursor - size;
        let head = slice_chars(&buffer, 0, start);
        let tail = slice_chars(&buffer, self.cursor, buffer.len());
        assert(head@ =~= buffer@.take(start as int));
        assert(tail@ =~= buffer@.skip(self.cursor as int));
        self.buffer = string_of(join_chars(&head, &tail).as_slice());
        self.cursor = start;
    }

    /// Deletes the cluster after the cursor.
    pub fn delete(&mut self)
        requires
            old(self).wf(),
        ensures
            final(self).wf(),
            old(self).valid() ==> final(self).valid(),
            final(self).action == old(self).action,
            final(self).cursor == old(self).cursor,
            ({
                let b = old(self).buffer@;
                let c = old(self).cursor as int;
                final(self).buffer@ == b.take(c) + b.skip(c + cluster_after(b, c))
            }),
    {
        let buffer = chars_of(self.buffer.as_str());
        let after = slice_chars(&buffer, self.cursor, buffer.len());
        assert(after@ =~= buffer@.skip(self.cursor as int));
        let parts = clusters_of(&after);
        if parts.len() == 0 {
            assert(buffer@.take(self.cursor as int) + buffer@.skip(self.cursor as int) =~= buffer@);
            return;
        }
        let size = parts[0].len();
        proof {
            let views = parts@.map_values(|p: Vec<char>| p@);
            lemma_cluster_lengths(views);
            assert(views[0] == parts@[0]@);
        }
        let head = slice_chars(&buffer, 0, self.cursor);
        let tail = slice_chars(&buffer, self.cursor + size, buffer.len());
        assert(head@ =~= buffer@.take(self.cursor as int));
        assert(tail@ =~= buffer@.skip(self.cursor + size));
        self.buffer = string_of(join_chars(&head, &tail).as_slice());
    }

    /// Moves the cursor over one cluster to the right or to the left.
    pub fn move_cursor(&mut self, right: bool)
        requires
            old(self).wf(),
        ensures
            final(self).wf(),
            old(self).valid() ==> final(self).valid(),
            final(self).action == old(self).action,
            final(self).buffer == old(self).buffer,
            final(self).cursor == (if right {
                old(self).cursor + cluster_after(old(self).buffer@, old(self).cursor as int)
            } else {
                old(self).cursor - cluster_before(old(self).buffer@, old(self).cursor as int)
            }),
    {
        let buffer = chars_of(self.buffer.as_str());
        if right {
            let after = slice_chars(&buffer, self.cursor, buffer.len());
            assert(after@ =~= buffer@.skip(self.cursor as int));
            let parts = clusters_of(&after);
            if parts.len() > 0 {
                proof {
                    let views = parts@.map_values(|p: Vec<char>| p@);
                    lemma_cluster_lengths(views);
                    assert(views[0] == parts@[0]@);
                }
                self.cursor = self.cursor + parts[0].len();
            }
        } else {
            let before = slice_chars(&buffer, 0, self.cursor);
            assert(before@ =~= buffer@.take(self.cursor as int));
            let parts = clusters_of(&before);
            if parts.len() > 0 {
                let last = parts.len() - 1;
                proof {
                    let views = parts@.map_values(|p: Vec<char>| p@);
                    lemma_cluster_lengths(views);
                    assert(views.last() == parts@[last as int]@);
                }
                self.cursor = self.cursor - parts[last].len();
            }
        }
    }

    /// Moves the cursor to the end or to the start.
    pub fn edge(&mut self, end: bool)
        requires
            old(self).wf(),
        ensures
            final(self).wf(),
            old(self).valid() ==> final(self).valid(),
            final(self).action == old(self).action,
            final(self).buffer == old(self).buffer,
            final(self).cursor == (if end { old(self).buffer@.len() } else { 0 }),
    {
        self.cursor = if end { chars_of(self.buffer.as_str()).len() } else { 0 };
    }

    /// Empties the field.
    pub fn clear(&mut self)
        ensures
            final(self).wf(),
            final(self).valid(),
            final(self).action == old(self).action,
            final(self).buffer@.len() == 0,
            final(self).cursor == 0,
    {
        self.buffer = String::new();
        self.cursor = 0;
    }

    /// The text a field `width` cells wide shows (see `visible_spec`).
    pub fn visible(&self, width: i32) -> (shown: String)
        requires
            self.wf(),
        ensures
            shown@ == visible_spec(self.buffer@, self.cursor as int, width as int),
            fits_whole(self.buffer@, self.cursor as int, width as int) ==> shown@ == self.buffer@.take(
                self.cursor as int,
            ) + "▏"@ + clean_spec(self.buffer@.skip(self.cursor as int)),
    {
        if width <= 0 {
            return String::new();
        }
        let buffer = chars_of(self.buffer.as_str());
        let before = slice_chars(&buffer, 0, self.cursor);
        assert(before@ =~= buffer@.take(self.cursor as int));
        let clipped = (cells(string_of(before.as_slice()).as_str()) as i64) > (width as i64) - 1;
        let marked = clipped && width > 1;
        let prefix: Vec<char> = if marked {
            chars_of("‹")
        } else {
            Vec::new()
        };
        let prefix_cells: i64 = if marked {
            cells(string_of(prefix.as_slice()).as_str()) as i64
        } else {
            0
        };
        let room = width as i64 - 1 - prefix_cells;
        let budget: i128 = if room > 0 { room as i128 } else { 0 };
        let parts = clusters_of(&before);
        let ghost views = parts@.map_values(|p: Vec<char>| p@);
        let n = parts.len();
        let mut remaining: i128 = budget;
        let mut k: usize = 0;
        assert(views.take(n as int) =~= views);
        while k < n
            invariant_except_break
                n == parts@.len(),
                views.len() == n,
                forall|j: int| 0 <= j < n ==> #[trigger] views[j] == parts@[j]@,
                k <= n,
                0 <= remaining <= budget + (k as int) * 2147483648,
                0 <= budget <= 4294967296,
                left_fit(views, budget as int) == k + left_fit(views.take(n - k), remaining as int),
            ensures
                k <= n,
                left_fit(views, budget as int) == k,
            decreases n - k,
        {
            let index = n - 1 - k;
            let c = cells(string_of(parts[index].as_slice()).as_str()) as i128;
            let ghost front = views.take(n - k);
            assert(front.last() == views[index as int]);
            assert(front.drop_last() =~= views.take(n - k - 1));
            if c > remaining {
                break;
            }
            remaining = remaining - c;
            k = k + 1;
        }
        proof {
            if k == n {
                assert(views.take(0).len() == 0);
            }
        }
        let mut left: Vec<char> = Vec::new();
        let mut j = n - k;
        assert(views.skip(n - k).take(0) =~= Seq::<Seq<char>>::empty());
        while j < n
            invariant
                n == parts@.len(),
                views.len() == n,
                forall|i: int| 0 <= i < n ==> #[trigger] views[i] == parts@[i]@,
                k <= n,
                n - k <= j <= n,
                left@ == views.skip(n - k).take(j - (n - k)).flatten(),
            decreases n - j,
        {
            let ghost tail = views.skip(n - k);
            assert(tail.take(j + 1 - (n - k)) =~= tail.take(j - (n - k)).push(views[j as int]));
            proof {
                tail.take(j - (n - k)).lemma_flatten_push(views[j as int]);
            }
            left = join_chars(&left, &parts[j]);
            j = j + 1;
        }
        assert(views.skip(n - k).take(k as int) =~= views.skip(n - k));
        let left_cells = cells(string_of(left.as_slice()).as_str()) as i64;
        let wide = width as i64 - prefix_cells - left_cells - 1;
        let rest: i32 = if wide < i32::MIN as i64 {
            i32::MIN
        } else if wide > i32::MAX as i64 {
            i32::MAX
        } else {
            wide as i32
        };
        let after = slice_chars(&buffer, self.cursor, buffer.len());
        assert(after@ =~= buffer@.skip(self.cursor as int));
        let right = chars_of(cut(string_of(after.as_slice()).as_str(), rest).as_str());
        let mut bar: Vec<char> = Vec::new();
        bar.push('▏');
        proof {
            reveal_strlit("▏");
            reveal_strlit("‹");
            assert(bar@ =~= "▏"@);
        }
        let shown = join_chars(&join_chars(&join_chars(&prefix, &left), &bar), &right);
        proof {
            if fits_whole(self.buffer@, self.cursor as int, width as int) {
                law_wide_field_shows_all_its_text(self.buffer@, self.cursor as int, width as int);
            }
        }
        string_of(shown.as_slice())
    }
}

} // verus!
