use muse::controller::App;
use muse::protocol::{
    API_VERSION, Ack, Command, Event, Item, ItemRef, Kind, Lyrics, LyricsStatus, Notice, Page,
    PlayerState, QueueEntry, QueuePage, QueueParams, RepeatMode, Source, StoreState,
};
use muse::state::{Focus, Panel, Screen};
use muse::target::Target;
use muse::transport::Admission;

fn song(id: &str) -> Item {
    Item {
        item_ref: ItemRef {
            id: id.into(),
            source: Source::Catalog,
            kind: Kind::Song,
        },
        title: id.into(),
        artist: "a".into(),
        album: "a".into(),
        duration_ms: None,
        artwork_url: None,
        album_ref: None,
    }
}

fn playlist() -> ItemRef {
    ItemRef {
        id: "p".into(),
        kind: Kind::Playlist,
        source: Source::Collection,
    }
}

fn empty_store() -> Notice {
    Notice::Store(StoreState {
        collections: vec![],
        favorites: vec![],
        history_count: 0,
    })
}

#[test]
fn confirmed_collection_edits_restore_loaded_pages_before_clamping_selection() {
    let mut app = App::default();
    app.ui.view = Screen::Playlists;
    app.detail_ref = Some(playlist());
    app.data.items = (0..150).map(|id: usize| song(&id.to_string())).collect();
    app.ui.cursors[0] = 120;
    let mut stored = app.data.items.clone();
    let mut sequence = 0;
    for action in ["remove", "move", "favorite"] {
        match action {
            "remove" => app.remove_collection_song(),
            "move" => app.move_collection_song(true),
            _ => app.favorite_selected(1000),
        }
        let mut edit = None;
        app.flush(|r| {
            edit = Some(r.clone());
            Ok(Admission::Accepted)
        })
        .unwrap();
        let edit = edit.unwrap();
        match edit.command {
            Command::CollectionRemove(p) => {
                stored.remove(p.index as usize);
            }
            Command::CollectionMove(p) => {
                let item = stored.remove(p.from as usize);
                stored.insert(p.to as usize, item);
            }
            Command::Favorite(_) => {}
            _ => panic!("unexpected edit"),
        }
        let selected = app.ui.cursors[0];
        sequence += 1;
        app.receive(Event {
            version: 1,
            id: Some(edit.id),
            sequence,
            event: empty_store(),
        });
        let mut offsets = vec![];
        while app.data.loading.contains(&Target::Main) {
            assert_eq!(app.ui.cursors[0], selected);
            app.remove_collection_song();
            let mut page = None;
            app.flush(|r| {
                page = Some(r.clone());
                Ok(Admission::Accepted)
            })
            .unwrap();
            let page = page.unwrap();
            let Command::Detail(params) = page.command else {
                panic!("edit against incomplete page")
            };
            offsets.push(params.offset);
            let start = params.offset as usize;
            let end = (start + 50).min(stored.len());
            sequence += 1;
            app.receive(Event {
                version: 1,
                id: Some(page.id),
                sequence,
                event: Notice::Page(Page {
                    items: stored[start..end].to_vec(),
                    next_offset: (end < stored.len()).then_some(end as u64),
                }),
            });
        }
        assert_eq!(offsets, [0, 50, 100]);
        assert_eq!(app.data.items, stored);
        assert_eq!(app.ui.cursors[0], selected);
        assert_eq!(app.selected().unwrap().title, "121");
    }
    app.go(Screen::Songs);
    assert_eq!(app.refresh_extent, 0);
    assert_eq!(app.ui.cursors[0], 0);
}

#[test]
fn structural_edits_wait_for_confirmation_and_the_matching_page() {
    let mut app = App::default();
    app.ui.view = Screen::Playlists;
    app.detail_ref = Some(playlist());
    app.data.items = vec![song("a"), song("b"), song("c")];
    app.remove_collection_song();
    app.ui.cursors[0] = 1;
    app.remove_collection_song();
    let mut commands = vec![];
    app.flush(|r| {
        commands.push(r.clone());
        Ok(Admission::Accepted)
    })
    .unwrap();
    assert_eq!(commands.len(), 1);
    let Command::CollectionRemove(params) = &commands[0].command else {
        panic!()
    };
    let mut stored = app.data.items.clone();
    stored.remove(params.index as usize);
    assert_eq!(
        stored.iter().map(|i| i.title.as_str()).collect::<Vec<_>>(),
        ["b", "c"]
    );
    app.remove_collection_song();
    assert_eq!(app.flush(|_| panic!("edit before reply")).unwrap(), 0);
    app.receive(Event {
        version: 1,
        id: Some(commands[0].id),
        sequence: 1,
        event: empty_store(),
    });
    app.remove_collection_song();
    let mut page = 0;
    app.flush(|r| {
        assert!(matches!(r.command, Command::Detail(_)));
        page = r.id;
        Ok(Admission::Accepted)
    })
    .unwrap();
    app.receive(Event {
        version: 1,
        id: Some(page),
        sequence: 2,
        event: Notice::Page(Page {
            items: stored,
            next_offset: None,
        }),
    });
    assert!(app.list_ready(&Target::Main));
    app.data.queue = Some(QueuePage {
        entries: ["a", "b", "c", "d"]
            .iter()
            .map(|id| QueueEntry {
                id: (*id).into(),
                item: Some(song(id)),
            })
            .collect(),
        next_offset: None,
        revision: 1,
        total: 4,
    });
    app.move_queue(true);
    app.move_queue(true);
    commands.clear();
    app.flush(|r| {
        commands.push(r.clone());
        Ok(Admission::Accepted)
    })
    .unwrap();
    assert_eq!(commands.len(), 1);
    assert!(
        matches!(&commands[0].command, Command::QueueMove(p) if p.entry_id == "a" && p.before_entry_id.as_deref() == Some("c"))
    );
    app.ui.focus = Focus::Right;
    app.ui.panel = Panel::Queue;
    assert!(app.selected().is_none());
    app.data.begin(Target::Queue, 0);
    let request = app
        .requests
        .prepare(
            Command::Queue(QueueParams {
                offset: 0,
                revision: Some(1),
            }),
            Target::Queue,
        )
        .unwrap();
    app.receive(Event {
        version: 1,
        id: Some(commands[0].id),
        sequence: 3,
        event: Notice::Ack(Ack {
            message: String::new(),
        }),
    });
    app.move_queue(true);
    assert_eq!(
        app.flush(|_| panic!("edit before refreshed page")).unwrap(),
        0
    );
    let mut queue = app.data.queue.clone().unwrap();
    queue.entries.swap(0, 1);
    app.receive(Event {
        version: 1,
        id: Some(request.id),
        sequence: 4,
        event: Notice::Queue(queue),
    });
    assert_eq!(app.selected().unwrap().title, "a");
    app.move_queue(true);
    assert_eq!(
        app.flush(|r| {
            assert!(matches!(&r.command, Command::QueueMove(p) if p.entry_id == "a" && p.before_entry_id.as_deref() == Some("d")));
            Ok(Admission::Accepted)
        })
        .unwrap(),
        1
    );
}

#[test]
fn changing_tracks_replaces_inflight_lyrics_without_waiting_for_the_old_track() {
    let mut app = App::default();
    let mut current = song("a");
    current.item_ref.source = Source::Library;
    let mut player = PlayerState {
        current: Some(current),
        current_entry_id: None,
        playing: true,
        position_ms: 0,
        queue_count: 0,
        queue_revision: 1,
        updated_at_ms: 0,
        repeat_mode: RepeatMode::Off,
        shuffle: false,
        can_seek: false,
    };
    app.receive(Event {
        version: 1,
        id: None,
        sequence: 1,
        event: Notice::Player(player.clone()),
    });
    let old_item = player.current.as_ref().unwrap().item_ref.clone();
    let mut old_id = 0;
    app.flush(|r| {
        old_id = r.id;
        Ok(Admission::Accepted)
    })
    .unwrap();
    player.current.as_mut().unwrap().item_ref.id = "b".into();
    app.receive(Event {
        version: 1,
        id: None,
        sequence: 2,
        event: Notice::Player(player),
    });
    assert!(app.data.loading.contains(&Target::Lyrics));
    let mut cancellation = None;
    assert_eq!(
        app.flush(|r| {
            match &r.command {
                Command::Cancel(p) => {
                    assert_eq!(p.request_id, old_id);
                    cancellation = Some(r.id);
                }
                Command::Lyrics(p) => assert_eq!(p.item.id, "b"),
                _ => panic!("unexpected request"),
            }
            Ok(Admission::Accepted)
        })
        .unwrap(),
        2
    );
    assert!(!app.receive(Event {
        version: 1,
        id: Some(old_id),
        sequence: 3,
        event: Notice::Lyrics(Lyrics {
            item: old_item,
            match_id: None,
            status: LyricsStatus::Missing,
            lines: vec![],
            offset_ms: 0,
        })
    }));
    assert!(!app.receive(Event {
        version: API_VERSION,
        id: Some(cancellation.unwrap()),
        sequence: 4,
        event: Notice::Ack(Ack {
            message: "cancelled".into()
        }),
    }));
    assert!(app.data.loading.contains(&Target::Lyrics));
    assert_eq!(app.requests.count(), 1);
}
