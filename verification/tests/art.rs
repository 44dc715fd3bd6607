use muse::art::{ArtCache, sample, usable_image};
use muse::protocol::{Artwork, Item, ItemRef, Kind, Source};
use muse::theme::Ink;

fn item(id: &str, source: Source, kind: Kind, artist: &str, album: &str) -> Item {
    Item {
        item_ref: ItemRef {
            id: id.into(),
            source,
            kind,
        },
        title: id.into(),
        artist: artist.into(),
        album: album.into(),
        duration_ms: None,
        artwork_url: None,
        album_ref: None,
    }
}

#[test]
fn art_preserves_pixel_orientation_and_rejects_invalid_dimensions() {
    let song = item("one", Source::Catalog, Kind::Song, "artist", "album");
    let mut image = Artwork {
        item: ItemRef {
            id: "one".into(),
            source: Source::Catalog,
            kind: Kind::Song,
        },
        width: 2,
        height: 2,
        rgb: vec![255, 0, 0, 255, 0, 0, 0, 0, 255, 0, 0, 255],
    };
    let mut cache = ArtCache::default();
    let mut library_item = song.clone();
    library_item.item_ref.source = Source::Library;
    assert_eq!(cache.seed(&song), cache.seed(&library_item));
    assert!(usable_image(&image));
    assert_eq!(sample(&image, 0, 0, 2, 2), Ink::Rgb(255, 0, 0));
    assert_eq!(sample(&image, 0, 1, 2, 2), Ink::Rgb(0, 0, 255));
    image.rgb.fill(120);
    assert_eq!(sample(&image, 0, 0, 2, 2), Ink::Rgb(120, 120, 120));
    image.width = u64::MAX;
    assert!(!usable_image(&image));
}

#[test]
fn samples_average_the_pixels_under_each_cell() {
    let image = Artwork {
        item: ItemRef {
            id: "cover".into(),
            source: Source::Catalog,
            kind: Kind::Album,
        },
        width: 2,
        height: 1,
        rgb: vec![200, 0, 10, 100, 50, 21],
    };
    assert_eq!(sample(&image, 0, 0, 1, 1), Ink::Rgb(150, 25, 15));
    assert_eq!(sample(&image, 1, 0, 2, 1), Ink::Rgb(100, 50, 21));
    // Cells beyond the image repeat its last pixels.
    assert_eq!(sample(&image, 5, 3, 2, 1), Ink::Rgb(100, 50, 21));
    let short = Artwork {
        rgb: vec![1, 2, 3],
        ..image.clone()
    };
    assert!(!usable_image(&short));
}

#[test]
fn albums_keep_their_seed_and_playlists_share_one() {
    let mut cache = ArtCache::default();
    let a = item("a", Source::Catalog, Kind::Song, "x", "first");
    let b = item("b", Source::Catalog, Kind::Song, "x", "second");
    let single = item("c", Source::Catalog, Kind::Song, "x", "");
    let playlist = item("p", Source::Collection, Kind::Playlist, "", "");
    assert_eq!(cache.seed(&a), 0);
    assert_eq!(cache.seed(&b), 1);
    assert_eq!(cache.seed(&a), 0);
    assert_eq!(cache.seed(&single), 2);
    assert_eq!(cache.seed(&playlist), 2);
    assert_eq!(cache.seed(&b), 1);
}

#[test]
fn a_full_cache_falls_back_to_a_stable_hashed_seed() {
    let mut cache = ArtCache::default();
    for n in 0..4096 {
        let album = format!("album {n}");
        assert_eq!(cache.seed(&item("s", Source::Catalog, Kind::Song, "x", &album)), n);
    }
    let late = item("s", Source::Catalog, Kind::Song, "x", "late album");
    let first = cache.seed(&late);
    assert!(first < 6);
    assert_eq!(cache.seed(&late), first);
    assert_eq!(
        cache.seed(&item("s", Source::Catalog, Kind::Song, "x", "album 7")),
        7
    );
}
