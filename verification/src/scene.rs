//! Clickable regions of a drawn frame and the pointer lookup over them.
use crate::geometry::Area;
use crate::protocol::ItemRef;
use crate::state::Screen;
use vstd::prelude::*;

verus! {

/// What a click on a drawn region does.
#[derive(Clone, Debug)]
pub enum Action {
    Key(&'static str),
    Go(Screen),
    Collection(String),
    Open(ItemRef),
    Select { index: usize, queue: bool, key: String },
    Favorite(ItemRef),
    Seek,
    Volume,
    Dialog(usize),
}

/// A clickable region of the frame.
#[derive(Clone, Debug)]
pub struct Hit {
    pub area: Area,
    pub action: Action,
}

/// Whether the far edges of `area` stay within `i32`.
pub open spec fn edges_fit(area: Area) -> bool {
    i32::MIN <= area.x + area.w <= i32::MAX && i32::MIN <= area.y + area.h <= i32::MAX
}

/// The part of `area` on a `width` by `height` canvas, if any of it is there.
pub open spec fn clipped(area: Area, width: i32, height: i32) -> Option<Area> {
    let right = if area.x + area.w < width { area.x + area.w } else { width as int };
    let bottom = if area.y + area.h < height { area.y + area.h } else { height as int };
    let x = if area.x > 0 { area.x as int } else { 0 };
    let y = if area.y > 0 { area.y as int } else { 0 };
    if right > x && bottom > y {
        Some(Area { x: x as i32, y: y as i32, w: (right - x) as i32, h: (bottom - y) as i32 })
    } else {
        None
    }
}

/// The region a hit registered at `area` covers on a `width` by `height` canvas; regions
/// wholly off the canvas register nothing.
pub fn clip(area: Area, width: i32, height: i32) -> (visible: Option<Area>)
    requires
        edges_fit(area),
    ensures
        visible == clipped(area, width, height),
{
    let right = if area.x + area.w < width { area.x + area.w } else { width };
    let bottom = if area.y + area.h < height { area.y + area.h } else { height };
    let x = if area.x > 0 { area.x } else { 0 };
    let y = if area.y > 0 { area.y } else { 0 };
    if right > x && bottom > y {
        Some(Area { x, y, w: right - x, h: bottom - y })
    } else {
        None
    }
}

/// Whether `area` holds `point`.
pub open spec fn holds(area: Area, point: (i32, i32)) -> bool {
    area.x <= point.0 < area.x + area.w && area.y <= point.1 < area.y + area.h
}

/// The index of the last hit of `hits` whose region holds `point`.
pub open spec fn last_holding(hits: Seq<Hit>, point: (i32, i32)) -> Option<int>
    decreases hits.len(),
{
    if hits.len() == 0 {
        None
    } else if holds(hits.last().area, point) {
        Some(hits.len() - 1)
    } else {
        last_holding(hits.drop_last(), point)
    }
}

/// The index of the hit a click at `point` lands on: the last registered one holding it,
/// as later drawing covers earlier drawing.
pub fn topmost(hits: &Vec<Hit>, point: (i32, i32)) -> (found: Option<usize>)
    ensures
        match found {
            Some(i) => last_holding(hits@, point) == Some(i as int),
            None => last_holding(hits@, point) is None,
        },
        match found {
            Some(i) => i < hits@.len() && holds(hits@[i as int].area, point) && forall|j: int|
                i < j < hits@.len() ==> !holds(#[trigger] hits@[j].area, point),
            None => forall|j: int| 0 <= j < hits@.len() ==> !holds(#[trigger] hits@[j].area, point),
        },
{
    let mut i: usize = hits.len();
    assert(hits@.take(i as int) =~= hits@);
    while i > 0
        invariant
            i <= hits@.len(),
            forall|j: int| i <= j < hits@.len() ==> !holds(#[trigger] hits@[j].area, point),
            last_holding(hits@, point) == last_holding(hits@.take(i as int), point),
        decreases i,
    {
        assert(hits@.take(i as int).drop_last() =~= hits@.take(i - 1));
        assert(hits@.take(i as int).last() == hits@[i - 1]);
        i = i - 1;
        if hits[i].area.contains(point) {
            return Some(i);
        }
    }
    None
}

// ---------------------------------------------------------------------------
// Dialog layout
// ---------------------------------------------------------------------------

/// An area with negative sizes made empty, as `Area::new` builds it.
pub open spec fn area_of(x: int, y: int, w: int, h: int) -> Area {
    Area { x: x as i32, y: y as i32, w: (if w > 0 { w } else { 0 }) as i32, h: (if h > 0 { h } else { 0 }) as i32 }
}

/// The lines a dialog row takes: two for lyrics matches and settings, one for menus.
pub open spec fn dialog_step(lyrics: bool, settings: bool) -> int {
    if lyrics || settings {
        2
    } else {
        1
    }
}

/// How many rows a dialog shows at once on a canvas `height` lines tall: what fits below
/// its frame, at least 1 and at most 12.
pub open spec fn dialog_capacity(height: int, step: int) -> int {
    if height - 8 < step {
        1
    } else if (height - 8) / step > 12 {
        12
    } else {
        (height - 8) / step
    }
}

/// The box `(x, y, w, h)` of a dialog showing `rows` rows on a `width` × `height`
/// canvas: at most 64 columns wide and 8 narrower than the canvas, tall enough for the
/// shown rows, a title and a footer (at least 9 lines), centred.
pub open spec fn dialog_box(rows: int, width: int, height: int, lyrics: bool, settings: bool) -> (int, int, int, int) {
    let step = dialog_step(lyrics, settings);
    let capacity = dialog_capacity(height, step);
    let shown = if rows < capacity { rows } else { capacity };
    let w = if width - 8 < 64 { width - 8 } else { 64 };
    let wanted = shown * step + 5 + if settings { 1int } else { 0 };
    let tall = if wanted < 9 { 9 } else { wanted };
    let room = height - if settings { 2int } else { 4 };
    let h = if tall < room { tall } else { room };
    ((width - w) / 2, (height - h) / 2, w, h)
}

/// The first row shown: the window of `capacity` rows ends at the cursor (clamped to the
/// last row) and never runs past the last row.
pub open spec fn dialog_start(rows: int, cursor: int, capacity: int) -> int {
    let last = if rows > 0 { rows - 1 } else { 0 };
    let at = if cursor < last { cursor } else { last };
    let upto = if at + 1 > capacity { at + 1 - capacity } else { 0 };
    let most = if rows > capacity { rows - capacity } else { 0 };
    if upto < most { upto } else { most }
}

/// The click targets of a dialog, replacing all others: the settings dialog's × closes it
/// (as Esc does); an empty lyrics search that is not loading offers a retry (the `M` key);
/// each shown row chooses its row.
pub open spec fn dialog_hit_list(
    rows: int,
    cursor: int,
    width: int,
    height: int,
    lyrics: bool,
    settings: bool,
    retry: bool,
) -> Seq<Hit> {
    let step = dialog_step(lyrics, settings);
    let capacity = dialog_capacity(height, step);
    let (x, y, w, h) = dialog_box(rows, width, height, lyrics, settings);
    let start = dialog_start(rows, cursor, capacity);
    let shown = if rows - start < capacity { rows - start } else { capacity };
    let top = y + 3 + if settings { 1int } else { 0 };
    let close = if settings {
        seq![Hit { area: area_of(x + w - 5, y + 1, 3, 1), action: Action::Key("esc") }]
    } else {
        Seq::empty()
    };
    let again = if rows == 0 && lyrics && retry {
        seq![Hit { area: area_of(x + 3, y + 5, w - 6, 1), action: Action::Key("M") }]
    } else {
        Seq::empty()
    };
    close + again + Seq::new(
        shown as nat,
        |line: int| Hit { area: area_of(x + 1, top + line * step, w - 2, step), action: Action::Dialog((start + line) as usize) },
    )
}

/// The row step and capacity of a dialog (see `dialog_step`, `dialog_capacity`).
fn dialog_rows(height: i32, lyrics: bool, settings: bool) -> (sizes: (i32, i32))
    requires
        0 <= height <= 65535,
    ensures
        sizes.0 == dialog_step(lyrics, settings),
        sizes.1 == dialog_capacity(height as int, sizes.0 as int),
        1 <= sizes.1 <= 12,
{
    let step: i32 = if lyrics || settings { 2 } else { 1 };
    let capacity: i32 = if height - 8 < step {
        1
    } else if (height - 8) / step > 12 {
        12
    } else {
        (height - 8) / step
    };
    (step, capacity)
}

/// The box of a dialog (see `dialog_box`).
fn dialog_frame(rows: usize, width: i32, height: i32, lyrics: bool, settings: bool) -> (frame: (i32, i32, i32, i32))
    requires
        0 <= width <= 65535,
        0 <= height <= 65535,
    ensures
        (frame.0 as int, frame.1 as int, frame.2 as int, frame.3 as int) == dialog_box(
            rows as int,
            width as int,
            height as int,
            lyrics,
            settings,
        ),
        0 <= frame.0 <= 65535,
        -8 <= frame.1 <= 65535,
        -8 <= frame.2 <= 64,
{
    let (step, capacity) = dialog_rows(height, lyrics, settings);
    let shown_rows: i32 = if rows < capacity as usize { rows as i32 } else { capacity };
    let w: i32 = if width - 8 < 64 { width - 8 } else { 64 };
    let wanted: i32 = shown_rows * step + 5 + if settings { 1 } else { 0 };
    let tall: i32 = if wanted < 9 { 9 } else { wanted };
    let room: i32 = height - if settings { 2 } else { 4 };
    let h: i32 = if tall < room { tall } else { room };
    (( width - w) / 2, (height - h) / 2, w, h)
}

/// The first row shown (see `dialog_start`).
fn dialog_first(rows: usize, cursor: usize, capacity: usize) -> (start: usize)
    ensures
        start as int == dialog_start(rows as int, cursor as int, capacity as int),
        start <= rows,
{
    let last: usize = if rows > 0 { rows - 1 } else { 0 };
    let at: usize = if cursor < last { cursor } else { last };
    let upto: usize = if at + 1 > capacity { at + 1 - capacity } else { 0 };
    let most: usize = if rows > capacity { rows - capacity } else { 0 };
    if upto < most { upto } else { most }
}

/// The click targets of a dialog of `rows` rows with the cursor on `cursor`, on a
/// `width` × `height` canvas (see `dialog_hit_list`); `lyrics` and `settings` say which
/// dialog it is, and `retry` whether an empty lyrics search may be run again.
#[verifier::spinoff_prover]
pub fn dialog_hits(rows: usize, cursor: usize, width: i32, height: i32, lyrics: bool, settings: bool, retry: bool)
    -> (hits: Vec<Hit>)
    requires
        0 <= width <= 65535,
        0 <= height <= 65535,
    ensures
        hits@ == dialog_hit_list(rows as int, cursor as int, width as int, height as int, lyrics, settings, retry),
{
    let (step, capacity) = dialog_rows(height, lyrics, settings);
    let (x, y, w, h) = dialog_frame(rows, width, height, lyrics, settings);
    let start = dialog_first(rows, cursor, capacity as usize);
    let shown: usize = if rows - start < capacity as usize { rows - start } else { capacity as usize };
    let ghost target = dialog_hit_list(rows as int, cursor as int, width as int, height as int, lyrics, settings, retry);
    let mut hits: Vec<Hit> = Vec::new();
    if settings {
        hits.push(Hit { area: Area::new(x + w - 5, y + 1, 3, 1), action: Action::Key("esc") });
    }
    if rows == 0 && lyrics && retry {
        hits.push(Hit { area: Area::new(x + 3, y + 5, w - 6, 1), action: Action::Key("M") });
    }
    let ghost head = hits@;
    let top: i32 = y + 3 + if settings { 1 } else { 0 };
    let ghost rows_part = Seq::new(
        shown as nat,
        |line: int| Hit { area: area_of(x + 1, top + line * step, w - 2, step as int), action: Action::Dialog((start + line) as usize) },
    );
    assert(target =~= head + rows_part);
    let mut line: usize = 0;
    while line < shown
        invariant
            line <= shown <= 12,
            start + shown <= rows,
            hits@ == head + rows_part.take(line as int),
            rows_part.len() == shown,
            rows_part == Seq::new(
                shown as nat,
                |line: int| Hit { area: area_of(x + 1, top + line * step, w - 2, step as int), action: Action::Dialog((start + line) as usize) },
            ),
            0 <= x <= 65535,
            -8 <= y <= 65535,
            -8 <= w <= 64,
            1 <= step <= 2,
            top == y + 3 + if settings { 1int } else { 0 },
            -8 <= top <= 65540,
        decreases shown - line,
    {
        let offset: i32 = if step == 2 { (line as i32) * 2 } else { line as i32 };
        assert(offset == line * step) by (nonlinear_arith)
            requires
                1 <= step <= 2,
                step == 2 ==> offset == line * 2,
                step != 2 ==> offset == line,
        ;
        let row_y: i32 = top + offset;
        let hit = Hit { area: Area::new(x + 1, row_y, w - 2, step), action: Action::Dialog(start + line) };
        assert(hit == rows_part[line as int]);
        hits.push(hit);
        assert(rows_part.take(line + 1) =~= rows_part.take(line as int).push(rows_part[line as int]));
        line = line + 1;
    }
    assert(rows_part.take(shown as int) =~= rows_part);
    hits
}

} // verus!
