//! Artwork placeholders and previews: the stable placeholder seed of each album, and the
//! area-averaged sampling of a cover image into terminal cells.
use crate::protocol::{Artwork, Item, Kind, Source};
use crate::state::{item_key, item_key_spec};
use crate::text::same_text;
use crate::theme::Ink;
use std::hash::BuildHasher;
use vstd::prelude::*;

verus! {

/// How many albums keep a remembered placeholder seed.
pub const SEED_CAPACITY: usize = 4096;

/// The number of placeholder designs a hashed seed chooses among.
pub const FALLBACK_SEEDS: u64 = 6;

/// The placeholder seed of a collection playlist.
pub const PLAYLIST_SEED: usize = 2;

/// What std's default hasher gives for a pair of strings, hashed as a tuple.
pub uninterp spec fn fingerprint_of(first: Seq<char>, second: Seq<char>) -> u64;

/// Hashes `key` with std's `DefaultHasher` through `BuildHasher::hash_one`; the contract
/// says only that the result is determined by the two strings.
#[verifier::external_body]
fn fingerprint(key: &(String, String)) -> (hash: u64)
    ensures
        hash == fingerprint_of(key.0@, key.1@),
{
    std::hash::BuildHasherDefault::<std::collections::hash_map::DefaultHasher>::default().hash_one(key)
}

/// Whether `item` is a playlist of the user's own collections.
pub open spec fn is_own_playlist(item: Item) -> bool {
    item.item_ref.source == Source::Collection && item.item_ref.kind == Kind::Playlist
}

/// The album a placeholder describes: artist and album, or the item itself when it has no
/// album. Catalog and library copies of one album share it.
pub open spec fn placeholder_key(item: Item) -> (Seq<char>, Seq<char>) {
    if item.album@.len() == 0 {
        (item_key_spec(item.item_ref@), Seq::empty())
    } else {
        (item.artist@, item.album@)
    }
}

/// The position of `key` among distinct `keys`.
pub open spec fn slot(keys: Seq<(Seq<char>, Seq<char>)>, key: (Seq<char>, Seq<char>)) -> int {
    choose|i: int| 0 <= i < keys.len() && keys[i] == key
}

/// Whether no key is remembered twice and the memory stays within its capacity.
pub open spec fn distinct_keys(keys: Seq<(Seq<char>, Seq<char>)>) -> bool {
    &&& keys.len() <= SEED_CAPACITY
    &&& forall|i: int, j: int| 0 <= i < j < keys.len() ==> keys[i] != keys[j]
}

/// The seed of `item` with `keys` remembered, and the keys remembered afterwards: albums
/// get consecutive seeds in the order they are first seen; once the memory is full, new
/// albums get a hashed seed and are not remembered.
pub open spec fn seeded(keys: Seq<(Seq<char>, Seq<char>)>, item: Item) -> (int, Seq<(Seq<char>, Seq<char>)>) {
    let key = placeholder_key(item);
    if is_own_playlist(item) {
        (PLAYLIST_SEED as int, keys)
    } else if keys.contains(key) {
        (slot(keys, key), keys)
    } else if keys.len() >= SEED_CAPACITY {
        ((fingerprint_of(key.0, key.1) % FALLBACK_SEEDS) as int, keys)
    } else {
        (keys.len() as int, keys.push(key))
    }
}

/// Stored keys as mathematical values.
pub open spec fn keys_of(seeds: Seq<(String, String)>) -> Seq<(Seq<char>, Seq<char>)> {
    seeds.map_values(|e: (String, String)| (e.0@, e.1@))
}

/// The placeholder seeds remembered per album.
pub struct ArtCache {
    seeds: Vec<(String, String)>,
}

impl View for ArtCache {
    type V = Seq<(Seq<char>, Seq<char>)>;

    closed spec fn view(&self) -> Seq<(Seq<char>, Seq<char>)> {
        keys_of(self.seeds@)
    }
}

impl Default for ArtCache {
    fn default() -> (cache: ArtCache)
        ensures
            cache.wf(),
            cache@.len() == 0,
    {
        ArtCache::new()
    }
}

impl ArtCache {
    /// Whether the remembered albums are distinct and within capacity.
    pub open spec fn wf(&self) -> bool {
        distinct_keys(self@)
    }

    /// An empty cache.
    pub fn new() -> (cache: ArtCache)
        ensures
            cache.wf(),
            cache@.len() == 0,
    {
        let cache = ArtCache { seeds: Vec::new() };
        assert(cache@ =~= Seq::<(Seq<char>, Seq<char>)>::empty());
        cache
    }

    /// The placeholder seed of `item`, remembering its album when there is room.
    pub fn seed(&mut self, item: &Item) -> (seed: usize)
        requires
            old(self).wf(),
        ensures
            final(self).wf(),
            (seed as int, final(self)@) == seeded(old(self)@, *item),
    {
        if item.item_ref.source == Source::Collection && item.item_ref.kind == Kind::Playlist {
            return PLAYLIST_SEED;
        }
        let key: (String, String) = if item.album.as_str().is_empty() {
            (item_key(&item.item_ref), String::new())
        } else {
            (item.artist.clone(), item.album.clone())
        };
        proof {
            if item.album@.len() == 0 {
                assert(key.1@ =~= Seq::<char>::empty());
            }
        }
        let ghost wanted = (key.0@, key.1@);
        assert(wanted == placeholder_key(*item));
        let ghost keys = self@;
        let mut i: usize = 0;
        while i < self.seeds.len()
            invariant
                keys == self@,
                keys == keys_of(self.seeds@),
                distinct_keys(keys),
                wanted == (key.0@, key.1@),
                wanted == placeholder_key(*item),
                !is_own_playlist(*item),
                i <= keys.len(),
                forall|j: int| 0 <= j < i ==> keys[j] != wanted,
            decreases keys.len() - i,
        {
            let stored = &self.seeds[i];
            assert(keys[i as int] == (stored.0@, stored.1@));
            if same_text(stored.0.as_str(), key.0.as_str()) && same_text(stored.1.as_str(), key.1.as_str()) {
                assert(keys.contains(wanted));
                assert(slot(keys, wanted) == i as int);
                assert(!is_own_playlist(*item));
                assert(seeded(keys, *item) == (i as int, keys));
                return i;
            }
            i = i + 1;
        }
        assert(!keys.contains(wanted));
        let next = self.seeds.len();
        if next >= SEED_CAPACITY {
            return (fingerprint(&key) % FALLBACK_SEEDS) as usize;
        }
        let ghost before = self.seeds@;
        self.seeds.push(key);
        assert(keys_of(self.seeds@) =~= keys_of(before).push(wanted));
        next
    }
}

/// Seeding an item twice gives the same seed: an album keeps its placeholder.
pub proof fn law_placeholder_seed_is_stable(keys: Seq<(Seq<char>, Seq<char>)>, item: Item)
    requires
        distinct_keys(keys),
    ensures
        seeded(seeded(keys, item).1, item).0 == seeded(keys, item).0,
        distinct_keys(seeded(keys, item).1),
{
    let key = placeholder_key(item);
    if !is_own_playlist(item) && !keys.contains(key) && keys.len() < SEED_CAPACITY {
        let grown = keys.push(key);
        assert(grown[keys.len() as int] == key);
        assert(grown.contains(key));
        let s = slot(grown, key);
        assert(0 <= s < grown.len() && grown[s] == key);
        if s < keys.len() {
            assert(keys[s] == key);
            assert(keys.contains(key));
        }
    }
}

/// Items of one album get one seed, whichever source their references name.
pub proof fn law_albums_share_a_seed(keys: Seq<(Seq<char>, Seq<char>)>, a: Item, b: Item)
    requires
        distinct_keys(keys),
        a.album@.len() > 0,
        a.artist@ == b.artist@,
        a.album@ == b.album@,
        !is_own_playlist(a),
        !is_own_playlist(b),
    ensures
        seeded(keys, a).0 == seeded(keys, b).0,
{
}

/// The first source pixel of cell `p` when `source` pixels shrink or grow to `target` cells.
pub open spec fn span_start(p: int, source: int, target: int) -> int {
    p * source / target
}

/// Where the source pixels of cell `p` end: at least one pixel, never past the image.
pub open spec fn span_end(p: int, source: int, target: int) -> int {
    let end = (p + 1) * source / target;
    let end = if end > span_start(p, source, target) + 1 {
        end
    } else {
        span_start(p, source, target) + 1
    };
    if end < source {
        end
    } else {
        source
    }
}

/// Where the source pixels of cell `p` begin, kept inside the image.
pub open spec fn span_first(p: int, source: int, target: int) -> int {
    if span_start(p, source, target) < source - 1 {
        span_start(p, source, target)
    } else {
        source - 1
    }
}

/// The sum of one channel over the pixels `from..to` of row `row`.
pub open spec fn row_total(rgb: Seq<u8>, stride: int, channel: int, row: int, from: int, to: int) -> int
    decreases to - from,
{
    if to <= from {
        0
    } else {
        row_total(rgb, stride, channel, row, from, to - 1) + rgb[(row * stride + to - 1) * 3 + channel]
    }
}

/// The sum of one channel over rows `top..bottom` and columns `from..to`.
pub open spec fn block_total(
    rgb: Seq<u8>,
    stride: int,
    channel: int,
    top: int,
    bottom: int,
    from: int,
    to: int,
) -> int
    decreases bottom - top,
{
    if bottom <= top {
        0
    } else {
        block_total(rgb, stride, channel, top, bottom - 1, from, to) + row_total(
            rgb,
            stride,
            channel,
            bottom - 1,
            from,
            to,
        )
    }
}

/// Whether a cover image has the shape a preview accepts.
pub open spec fn usable(image: Artwork) -> bool {
    &&& 1 <= image.width <= 96
    &&& 1 <= image.height <= 96
    &&& image.rgb@.len() == image.width * image.height * 3
}

/// Whether a cover image can be previewed: at most 96 pixels each way, with one RGB triple
/// per pixel.
pub fn usable_image(image: &Artwork) -> (ok: bool)
    ensures
        ok == usable(*image),
{
    if image.width == 0 || image.height == 0 || image.width > 96 || image.height > 96 {
        return false;
    }
    assert(image.width * image.height <= 96 * 96) by (nonlinear_arith)
        requires
            image.width <= 96,
            image.height <= 96,
    ;
    image.rgb.len() as u64 == image.width * image.height * 3
}

/// The mean of one channel over the source pixels under cell `(x, y)` of a `width` by
/// `height` grid laid over the image.
pub open spec fn channel_mean(image: Artwork, channel: int, x: int, y: int, width: int, height: int) -> int {
    let (sw, sh) = (image.width as int, image.height as int);
    let (x0, x1) = (span_first(x, sw, width), span_end(x, sw, width));
    let (y0, y1) = (span_first(y, sh, height), span_end(y, sh, height));
    block_total(image.rgb@, sw, channel, y0, y1, x0, x1) / ((x1 - x0) * (y1 - y0))
}

/// The color of cell `(x, y)` of a `width` by `height` grid laid over the image.
pub open spec fn sampled(image: Artwork, x: int, y: int, width: int, height: int) -> Ink {
    Ink::Rgb(
        channel_mean(image, 0, x, y, width, height) as u8,
        channel_mean(image, 1, x, y, width, height) as u8,
        channel_mean(image, 2, x, y, width, height) as u8,
    )
}

proof fn lemma_row_total_bound(rgb: Seq<u8>, stride: int, channel: int, row: int, from: int, to: int)
    requires
        from <= to,
        0 <= row,
        0 <= channel < 3,
        0 <= from,
        to <= stride,
        (row * stride + to) * 3 <= rgb.len(),
    ensures
        0 <= row_total(rgb, stride, channel, row, from, to) <= 255 * (to - from),
    decreases to - from,
{
    if to > from {
        lemma_row_total_bound(rgb, stride, channel, row, from, to - 1);
        assert((row * stride + to - 1) * 3 + channel < (row * stride + to) * 3) by (nonlinear_arith)
            requires
                0 <= channel < 3,
        ;
        assert((row * stride + to - 1) * 3 <= (row * stride + to) * 3) by (nonlinear_arith);
    }
}

proof fn lemma_block_total_bound(
    rgb: Seq<u8>,
    stride: int,
    channel: int,
    top: int,
    bottom: int,
    from: int,
    to: int,
)
    requires
        0 <= top <= bottom,
        0 <= from <= to <= stride,
        0 <= channel < 3,
        (bottom * stride) * 3 <= rgb.len(),
    ensures
        0 <= block_total(rgb, stride, channel, top, bottom, from, to) <= 255 * (to - from) * (bottom - top),
    decreases bottom - top,
{
    if bottom > top {
        assert(((bottom - 1) * stride) * 3 <= (bottom * stride) * 3) by (nonlinear_arith)
            requires
                0 <= stride,
        ;
        lemma_block_total_bound(rgb, stride, channel, top, bottom - 1, from, to);
        assert(((bottom - 1) * stride + to) * 3 <= (bottom * stride) * 3) by (nonlinear_arith)
            requires
                to <= stride,
        ;
        lemma_row_total_bound(rgb, stride, channel, bottom - 1, from, to);
        assert(255 * (to - from) * (bottom - 1 - top) + 255 * (to - from) == 255 * (to - from) * (
        bottom - top)) by (nonlinear_arith);
    }
}

/// Where the source pixels of cell `p` lie: `(first, end)`.
fn span(p: u64, source: u64, target: u64) -> (bounds: (u64, u64))
    requires
        p <= i32::MAX,
        1 <= source <= 96,
        1 <= target <= i32::MAX,
    ensures
        bounds.0 == span_first(p as int, source as int, target as int),
        bounds.1 == span_end(p as int, source as int, target as int),
        bounds.0 < bounds.1 <= source,
{
    assert(p * source <= i32::MAX * 96) by (nonlinear_arith)
        requires
            p <= i32::MAX,
            source <= 96,
    ;
    assert((p + 1) * source <= (i32::MAX + 1) * 96) by (nonlinear_arith)
        requires
            p <= i32::MAX,
            source <= 96,
    ;
    let start = p * source / target;
    let end = (p + 1) * source / target;
    let end = if end > start + 1 {
        end
    } else {
        start + 1
    };
    let end = if end < source {
        end
    } else {
        source
    };
    let first = if start < source - 1 {
        start
    } else {
        source - 1
    };
    (first, end)
}

/// The color of cell `(x, y)` when the image is laid over a `width` by `height` grid:
/// the mean of each channel over the source pixels under the cell.
pub fn sample(image: &Artwork, x: i32, y: i32, width: i32, height: i32) -> (ink: Ink)
    requires
        usable(*image),
        0 <= x,
        0 <= y,
        0 < width,
        0 < height,
    ensures
        ink == sampled(*image, x as int, y as int, width as int, height as int),
{
    let sw = image.width;
    let sh = image.height;
    let (x0, x1) = span(x as u64, sw, width as u64);
    let (y0, y1) = span(y as u64, sh, height as u64);
    let ghost rgb = image.rgb@;
    assert((sh * sw) * 3 == rgb.len()) by (nonlinear_arith)
        requires
            rgb.len() == sw * sh * 3,
    ;
    let mut totals: [u64; 3] = [0, 0, 0];
    let mut c: usize = 0;
    while c < 3
        invariant
            c <= 3,
            x0 < x1 <= sw,
            y0 < y1 <= sh,
            1 <= sw <= 96,
            1 <= sh <= 96,
            rgb == image.rgb@,
            (sh * sw) * 3 == rgb.len(),
            forall|k: int| 0 <= k < c ==> #[trigger] totals@[k] == block_total(
                rgb,
                sw as int,
                k,
                y0 as int,
                y1 as int,
                x0 as int,
                x1 as int,
            ),
        decreases 3 - c,
    {
        let mut total: u64 = 0;
        let mut yy: u64 = y0;
        while yy < y1
            invariant
                c < 3,
                x0 < x1 <= sw,
                y0 <= yy <= y1 <= sh,
                1 <= sw <= 96,
                1 <= sh <= 96,
                rgb == image.rgb@,
                (sh * sw) * 3 == rgb.len(),
                total == block_total(rgb, sw as int, c as int, y0 as int, yy as int, x0 as int, x1 as int),
            decreases y1 - yy,
        {
            proof {
                assert((yy * sw) * 3 <= (sh * sw) * 3) by (nonlinear_arith)
                    requires
                        yy <= sh,
                ;
                lemma_block_total_bound(rgb, sw as int, c as int, y0 as int, yy as int, x0 as int, x1 as int);
                assert(255 * (x1 - x0) * (yy - y0) <= 255 * 96 * 96) by (nonlinear_arith)
                    requires
                        x1 - x0 <= 96,
                        yy - y0 <= 96,
                        x0 < x1,
                        y0 <= yy,
                ;
            }
            let mut row: u64 = 0;
            let mut xx: u64 = x0;
            while xx < x1
                invariant
                    c < 3,
                    x0 <= xx <= x1 <= sw,
                    y0 <= yy < y1 <= sh,
                    1 <= sw <= 96,
                    1 <= sh <= 96,
                    rgb == image.rgb@,
                    (sh * sw) * 3 == rgb.len(),
                    row == row_total(rgb, sw as int, c as int, yy as int, x0 as int, xx as int),
                decreases x1 - xx,
            {
                proof {
                    assert(sh * sw <= 9216) by (nonlinear_arith)
                        requires
                            sh <= 96,
                            sw <= 96,
                    ;
                    assert(yy * sw <= 9216) by (nonlinear_arith)
                        requires
                            yy < sh <= 96,
                            sw <= 96,
                    ;
                    assert(((yy * sw + xx) * 3 + c) < (sh * sw) * 3) by (nonlinear_arith)
                        requires
                            yy < sh,
                            xx < sw,
                            c < 3,
                    ;
                    assert((yy * sw + xx) * 3 <= (sh * sw) * 3) by (nonlinear_arith)
                        requires
                            yy < sh,
                            xx < sw,
                    ;
                    lemma_row_total_bound(rgb, sw as int, c as int, yy as int, x0 as int, xx as int);
                }
                let index = ((yy * sw + xx) * 3) as usize + c;
                row = row + image.rgb[index] as u64;
                xx = xx + 1;
            }
            proof {
                assert((yy * sw + x1) * 3 <= (sh * sw) * 3) by (nonlinear_arith)
                    requires
                        yy < sh,
                        x1 <= sw,
                ;
                lemma_row_total_bound(rgb, sw as int, c as int, yy as int, x0 as int, x1 as int);
            }
            total = total + row;
            yy = yy + 1;
        }
        totals[c] = total;
        c = c + 1;
    }
    assert((x1 - x0) * (y1 - y0) <= 96 * 96) by (nonlinear_arith)
        requires
            x0 < x1 <= 96,
            y0 < y1 <= 96,
    ;
    let count = (x1 - x0) * (y1 - y0);
    let mut means: [u8; 3] = [0, 0, 0];
    let mut k: usize = 0;
    while k < 3
        invariant
            k <= 3,
            x0 < x1 <= sw,
            y0 < y1 <= sh,
            1 <= sw <= 96,
            1 <= sh <= 96,
            rgb == image.rgb@,
            (sh * sw) * 3 == rgb.len(),
            count == (x1 - x0) * (y1 - y0),
            forall|j: int| 0 <= j < 3 ==> #[trigger] totals@[j] == block_total(
                rgb,
                sw as int,
                j,
                y0 as int,
                y1 as int,
                x0 as int,
                x1 as int,
            ),
            forall|j: int| 0 <= j < k ==> #[trigger] means@[j] == (block_total(
                rgb,
                sw as int,
                j,
                y0 as int,
                y1 as int,
                x0 as int,
                x1 as int,
            ) / count as int) as u8,
        decreases 3 - k,
    {
        proof {
            assert((y1 * sw) * 3 <= (sh * sw) * 3) by (nonlinear_arith)
                requires
                    y1 <= sh,
            ;
            lemma_block_total_bound(rgb, sw as int, k as int, y0 as int, y1 as int, x0 as int, x1 as int);
            assert(0 < (x1 - x0) * (y1 - y0)) by (nonlinear_arith)
                requires
                    x0 < x1,
                    y0 < y1,
            ;
            let t = totals@[k as int] as int;
            assert(t / (count as int) <= 255) by (nonlinear_arith)
                requires
                    0 <= t <= 255 * (x1 - x0) * (y1 - y0),
                    count == (x1 - x0) * (y1 - y0),
                    count > 0,
            ;
        }
        means[k] = (totals[k] / count) as u8;
        k = k + 1;
    }
    Ink::Rgb(means[0], means[1], means[2])
}

} // verus!
