use muse::controller::App;
use muse::protocol::{
    API_VERSION, Ack, Command, ErrorCode, Event, Failure, Item, ItemRef, Kind, Notice, PlayerState,
    RepeatMode, Scope, Source,
};
use muse::state::Screen;
use muse::target::Target;
use muse::transport::Admission;

fn cover(id: &str) -> Item {
    Item {
        item_ref: ItemRef {
            id: id.into(),
            source: Source::Catalog,
            kind: Kind::Song,
        },
        title: "cover".into(),
        artist: "a".into(),
        album: "a".into(),
        duration_ms: None,
        artwork_url: Some("https://example.test/art".into()),
        album_ref: None,
    }
}

fn artwork_reads(app: &mut App) -> Vec<(u64, String)> {
    let mut reads = vec![];
    app.flush(|r| {
        match &r.command {
            Command::Artwork(p) => reads.push((r.id, p.item.id.clone())),
            _ => panic!("expected an artwork read"),
        }
        Ok(Admission::Accepted)
    })
    .unwrap();
    reads
}

#[test]
fn obsolete_artwork_cancels_before_favorites_and_stays_counted_until_replies() {
    let mut app = App::default();
    let items = (0..12).map(|id| cover(&id.to_string())).collect();
    app.prefetch_artwork(items);
    let mut reads = vec![];
    app.flush(|r| {
        reads.push(r.id);
        assert!(matches!(r.command, Command::Artwork(_)));
        Ok(Admission::Accepted)
    })
    .unwrap();
    assert_eq!(reads.len(), 12);
    app.prefetch_artwork(vec![]);
    app.go(Screen::Favorites);
    let mut attempted = None;
    assert_eq!(
        app.flush(|r| {
            let Command::Cancel(p) = &r.command else {
                panic!("expected cancellation")
            };
            attempted = Some(p.request_id);
            Ok(Admission::Busy)
        })
        .unwrap(),
        0
    );
    assert_eq!(attempted, Some(reads[0]));
    assert_eq!(app.requests.count(), 12);

    let mut cancelled = vec![];
    let mut browsed = false;
    let mut sequence = 0;
    while cancelled.len() < reads.len() {
        let before = app.requests.count();
        let mut sent = vec![];
        app.flush(|r| {
            sent.push(r.clone());
            Ok(Admission::Accepted)
        })
        .unwrap();
        assert!(!sent.is_empty());
        assert_eq!(app.requests.count(), before + sent.len());
        assert!(app.requests.count() <= 16);
        for request in sent {
            let Command::Cancel(p) = request.command else {
                panic!("expected cancellation")
            };
            assert!(!cancelled.contains(&p.request_id));
            cancelled.push(p.request_id);
            // Even an early cancel acknowledgement cannot settle the original request.
            sequence += 1;
            assert!(!app.receive(Event {
                version: API_VERSION,
                id: Some(request.id),
                sequence,
                event: Notice::Ack(Ack {
                    message: "cancelled".into()
                }),
            }));
        }
        assert_eq!(app.requests.count(), 12);
    }
    assert_eq!(cancelled, reads);
    assert_eq!(
        app.flush(|_| panic!("duplicate cancellation or early read"))
            .unwrap(),
        0
    );
    for id in reads {
        sequence += 1;
        assert!(!app.receive(Event {
            version: API_VERSION,
            id: Some(id),
            sequence,
            event: Notice::Failure(Failure {
                code: ErrorCode::Cancelled,
                message: "cancelled".into(),
                retryable: true,
            }),
        }));
    }
    assert!(app.requests.is_idle());
    app.flush(|r| {
        assert!(matches!(&r.command, Command::Browse(p) if p.scope == Scope::Favorites));
        browsed = true;
        Ok(Admission::Accepted)
    })
    .unwrap();
    assert!(browsed && app.data.errors.len() == 0);
}

#[test]
fn covers_are_asked_for_once_each_and_in_key_order() {
    let mut app = App::default();
    app.prefetch_artwork(vec![cover("b"), cover("a"), cover("b"), cover("c")]);
    let ids: Vec<String> = artwork_reads(&mut app).into_iter().map(|(_, id)| id).collect();
    assert_eq!(ids, vec!["a", "b", "c"]);
    // Asking again for covers already loading sends nothing.
    app.prefetch_artwork(vec![cover("a"), cover("b"), cover("c")]);
    assert!(artwork_reads(&mut app).is_empty());
}

#[test]
fn items_without_covers_are_not_fetched() {
    let mut app = App::default();
    let mut bare = cover("x");
    bare.artwork_url = None;
    app.prefetch_artwork(vec![bare]);
    assert!(artwork_reads(&mut app).is_empty());
    assert!(!app.data.loading.contains(&Target::Artwork("Catalog:Song:x".into())));
}

#[test]
fn the_playing_track_keeps_its_cover_past_the_limit() {
    let mut app = App::default();
    let mut player_item = cover("zzz");
    player_item.item_ref.source = Source::Library;
    app.data.player = Some(PlayerState {
        current: Some(player_item.clone()),
        current_entry_id: None,
        playing: false,
        position_ms: 0,
        queue_count: 0,
        queue_revision: 1,
        updated_at_ms: 0,
        repeat_mode: RepeatMode::Off,
        shuffle: false,
        can_seek: true,
    });
    let mut items: Vec<Item> = (0..70).map(|id| cover(&format!("{id:03}"))).collect();
    items.push(player_item);
    app.prefetch_artwork(items);
    assert!(app.data.loading.contains(&Target::Artwork("Library:Song:zzz".into())));
    assert!(app.data.loading.contains(&Target::Artwork("Catalog:Song:062".into())));
    assert!(!app.data.loading.contains(&Target::Artwork("Catalog:Song:063".into())));
}
