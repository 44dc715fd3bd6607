use muse::controller::App;
use muse::geometry::{Area, Layout};
use muse::pointer::{Button, Mouse, Pointer, PointerKind};
use muse::protocol::{
    Collection, Event, Item, ItemRef, Kind, Notice, Page, QueueEntry, QueuePage, Source,
    StoreState,
};
use muse::scene::{Action, Hit};
use muse::state::{Focus, Panel, Screen};
use muse::transport::Admission;

fn click(area: Area) -> Pointer {
    Pointer {
        kind: PointerKind::Down(Button::Left),
        column: (area.x + 1) as u16,
        row: area.y as u16,
    }
}

#[test]
fn reopening_current_detail_restores_focus_without_resetting_selection_or_history() {
    for source in [Source::Collection, Source::Library] {
        let mut app = App::default();
        app.ui.view = Screen::Albums;
        let reference = ItemRef {
            id: "shown".into(),
            source,
            kind: if source == Source::Collection {
                Kind::Playlist
            } else {
                Kind::Album
            },
        };
        app.open(reference.clone());
        app.ui.cursors[0] = 4;
        let revision = app.navigation_revision;
        if source == Source::Collection {
            app.data.store = Some(StoreState {
                collections: vec![Collection {
                    id: reference.id.clone(),
                    name: "Shown".into(),
                    description: String::new(),
                    count: 5,
                }],
                favorites: vec![],
                history_count: 0,
            });
            // The sidebar row of the shown playlist, as the frame registers it.
            let area = Area::new(1, 12, 24, 1);
            let hits = vec![Hit {
                area,
                action: Action::Collection(reference.id.clone()),
            }];
            let layout = Layout::new(140, 40, &app.ui);
            Mouse::default().handle(&mut app, click(area), layout, &hits, 1000, 1_000_000);
        } else {
            let item = Item {
                item_ref: ItemRef {
                    id: "song".into(),
                    source: Source::Library,
                    kind: Kind::Song,
                },
                title: "Song".into(),
                artist: "a".into(),
                album: "a".into(),
                duration_ms: None,
                artwork_url: None,
                album_ref: Some(reference.clone()),
            };
            app.data.queue = Some(QueuePage {
                entries: vec![QueueEntry {
                    id: "entry".into(),
                    item: Some(item),
                }],
                next_offset: None,
                revision: 1,
                total: 1,
            });
            app.ui.panel = Panel::Queue;
            app.ui.focus = Focus::Right;
            let layout = Layout::new(140, 40, &app.ui);
            app.key("o", layout, 1000, 1_000_000);
        }
        assert_eq!(app.ui.focus, Focus::Main, "same-detail selection lost focus");
        assert_eq!(app.ui.cursors[0], 4);
        assert_eq!(app.navigation_revision, revision);
        app.back();
        assert_eq!(app.ui.view, Screen::Albums);
        assert!(app.detail_ref.is_none(), "same detail was added to history");
    }
}

#[test]
fn stale_card_hit_does_not_open_an_album_that_was_never_rendered() {
    let mut app = App::default();
    app.ui.view = Screen::Albums;
    let visible = Item {
        item_ref: ItemRef {
            id: "visible-album".into(),
            source: Source::Library,
            kind: Kind::Album,
        },
        title: "Visible album".into(),
        artist: "a".into(),
        album: "a".into(),
        duration_ms: None,
        artwork_url: None,
        album_ref: None,
    };
    app.data.items = vec![visible.clone()];
    let layout = Layout::new(140, 40, &app.ui);
    // The card of the visible album, as the frame registers it.
    let area = Area::new(30, 6, 20, 8);
    let hits = vec![Hit {
        area,
        action: Action::Open(visible.item_ref.clone()),
    }];
    app.refresh(0);
    let mut id = 0;
    app.flush(|r| {
        id = r.id;
        Ok(Admission::Accepted)
    })
    .unwrap();
    let mut replacement = visible.clone();
    replacement.item_ref.id = "not-yet-rendered-album".into();
    app.receive(Event {
        version: 1,
        id: Some(id),
        sequence: 1,
        event: Notice::Page(Page {
            items: vec![replacement],
            next_offset: None,
        }),
    });
    Mouse::default().handle(&mut app, click(area), layout, &hits, 1000, 1_000_000);
    assert_eq!(
        app.detail_ref,
        Some(visible.item_ref),
        "opened an album from an unpainted page"
    );
    Mouse::default().handle(&mut app, click(area), layout, &hits, 1100, 1_000_000);
    app.back();
    assert_eq!(app.ui.view, Screen::Albums, "double click added a duplicate history location");
    assert!(app.detail_ref.is_none());
}
