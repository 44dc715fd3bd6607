use muse::controller::App;
use muse::geometry::{Area, Layout};
use muse::pointer::{Button, Mouse, Pointer, PointerKind};
use muse::protocol::{
    BrowseParams, Command, Event, Item, ItemRef, Kind, Notice, Order, Page, PlayerState,
    QueueEntry, QueuePage, QueueParams, RepeatMode, Scope, Source, VolumeState,
};
use muse::scene::{Action, Hit, dialog_hits};
use muse::state::{item_key, Choice, Dialog, Focus, MenuRow, Panel, Screen};
use muse::target::Target;
use muse::transport::Admission;

fn at(kind: PointerKind, column: u16, row: u16) -> Pointer {
    Pointer { kind, column, row }
}

fn song(id: &str) -> Item {
    Item {
        item_ref: ItemRef {
            id: id.into(),
            source: Source::Library,
            kind: Kind::Song,
        },
        title: "Visible song".into(),
        artist: "a".into(),
        album: "a".into(),
        duration_ms: None,
        artwork_url: None,
        album_ref: None,
    }
}

#[test]
fn pointer_uses_topmost_hits_modal_rows_and_coalesced_drags() {
    let mut app = App::default();
    let mut mouse = Mouse::default();
    let layout = Layout::new(140, 40, &app.ui);
    let area = Area::new(30, 10, 11, 1);
    let hits = vec![
        Hit {
            area,
            action: Action::Key("q"),
        },
        Hit {
            area,
            action: Action::Volume,
        },
    ];
    app.data.volume = Some(VolumeState {
        device: "test".into(),
        level: Some(500),
        muted: Some(false),
        can_set_volume: true,
        can_mute: true,
    });
    let left = Button::Left;
    assert!(mouse.handle(&mut app, at(PointerKind::Down(left), 30, 10), layout, &hits, 0, 1_000_000));
    mouse.handle(&mut app, at(PointerKind::Drag(left), 90, 10), layout, &hits, 100, 1_000_000);
    mouse.handle(&mut app, at(PointerKind::Up(left), 90, 10), layout, &hits, 200, 1_000_000);
    mouse.handle(&mut app, at(PointerKind::Drag(left), 30, 10), layout, &hits, 300, 1_000_000);
    assert_eq!(
        app.flush(|r| {
            assert!(matches!(&r.command, Command::Volume(v) if v.level == Some(1000)));
            Ok(Admission::Accepted)
        })
        .unwrap(),
        1
    );
    assert_eq!(app.data.volume.as_ref().unwrap().level, Some(500));
    app.ui.dialog = Some(Dialog::Menu {
        title: "test".into(),
        rows: vec![MenuRow {
            label: "close".into(),
            detail: "".into(),
            checked: false,
            choice: Choice::Close,
        }],
        cursor: 0,
    });
    let modal = vec![Hit {
        area,
        action: Action::Dialog(0),
    }];
    mouse.handle(&mut app, at(PointerKind::Down(left), 35, 10), layout, &modal, 400, 1_000_000);
    assert!(app.ui.dialog.is_none());
    app.ui.help = true;
    mouse.handle(&mut app, at(PointerKind::Down(left), 35, 10), layout, &hits, 500, 1_000_000);
    assert!(!app.ui.help);
    assert!(mouse.drag.is_none());
}

#[test]
fn stale_row_hits_cannot_play_replacement_songs_or_queue_entries() {
    for queue in [false, true] {
        let mut app = App::default();
        if queue {
            app.ui.panel = Panel::Queue;
        }
        let item = song("visible-song");
        app.data.items = vec![item.clone()];
        app.data.queue = Some(QueuePage {
            entries: vec![QueueEntry {
                id: "old-entry".into(),
                item: Some(item.clone()),
            }],
            next_offset: None,
            revision: 1,
            total: 1,
        });
        let layout = Layout::new(140, 40, &app.ui);
        let row = |app: &App| {
            let key = if queue {
                app.data.queue.as_ref().unwrap().entries[0].id.clone()
            } else {
                item_key(&app.data.items[0].item_ref)
            };
            vec![Hit {
                area: Area::new(30, 5, 40, 1),
                action: Action::Select {
                    index: 0,
                    queue,
                    key,
                },
            }]
        };
        let old_hits = row(&app);
        let target = if queue { Target::Queue } else { Target::Main };
        let request = if queue {
            Command::Queue(QueueParams {
                offset: 0,
                revision: None,
            })
        } else {
            Command::Browse(BrowseParams {
                scope: Scope::Library,
                kind: Kind::Song,
                collection_id: None,
                order: Order::Recent,
                offset: 0,
            })
        };
        app.send(request, target, 0);
        let mut id = 0;
        app.flush(|r| {
            id = r.id;
            Ok(Admission::Accepted)
        })
        .unwrap();
        let notice = if queue {
            Notice::Queue(QueuePage {
                entries: vec![QueueEntry {
                    id: "new-entry".into(),
                    item: None,
                }],
                next_offset: None,
                revision: 2,
                total: 1,
            })
        } else {
            Notice::Page(Page {
                items: vec![song("new-song")],
                next_offset: None,
            })
        };
        app.receive(Event {
            version: 1,
            id: Some(id),
            sequence: 1,
            event: notice,
        });
        let mut mouse = Mouse::default();
        for (fresh, hits) in [(false, old_hits), (true, row(&app))] {
            for now in [1000, 1100] {
                mouse.handle(
                    &mut app,
                    at(PointerKind::Down(Button::Left), 32, 5),
                    layout,
                    &hits,
                    now,
                    1_000_000,
                );
            }
            let count = app
                .flush(|r| {
                    assert!(fresh, "stale row activated a replacement item");
                    if queue {
                        assert!(matches!(&r.command, Command::QueueJump(p) if p.entry_id == "new-entry"));
                    } else {
                        assert!(matches!(&r.command, Command::Play(p) if p.items[0].id == "new-song"));
                    }
                    Ok(Admission::Accepted)
                })
                .unwrap();
            assert_eq!(count, usize::from(fresh));
        }
    }
}

#[test]
fn slow_second_clicks_only_select_and_scrolling_moves_the_selection() {
    let mut app = App::default();
    app.data.items = vec![song("a"), song("b"), song("c")];
    let layout = Layout::new(140, 40, &app.ui);
    let hits = vec![Hit {
        area: Area::new(30, 6, 40, 1),
        action: Action::Select {
            index: 1,
            queue: false,
            key: item_key(&app.data.items[1].item_ref),
        },
    }];
    let mut mouse = Mouse::default();
    mouse.handle(&mut app, at(PointerKind::Down(Button::Left), 31, 6), layout, &hits, 0, 0);
    assert_eq!(app.ui.cursors[0], 1);
    mouse.handle(&mut app, at(PointerKind::Down(Button::Left), 31, 6), layout, &hits, 500, 0);
    assert!(app.outbox.is_empty());
    assert_eq!(app.ui.hover, Some((31, 6)));
    mouse.handle(&mut app, at(PointerKind::ScrollDown, 31, 6), layout, &hits, 600, 0);
    assert_eq!(app.ui.cursors[0], 2);
    assert!(mouse.last_click.is_none());
    mouse.handle(&mut app, at(PointerKind::ScrollUp, 31, 6), layout, &hits, 700, 0);
    assert_eq!(app.ui.cursors[0], 1);
}

#[test]
fn seek_drags_follow_the_entry_that_was_playing() {
    let mut app = App::default();
    let mut current = song("now");
    current.duration_ms = Some(200_000);
    app.data.player = Some(PlayerState {
        current: Some(current),
        current_entry_id: Some("entry".into()),
        playing: true,
        position_ms: 0,
        queue_count: 1,
        queue_revision: 1,
        updated_at_ms: 0,
        repeat_mode: RepeatMode::Off,
        shuffle: false,
        can_seek: true,
    });
    let layout = Layout::new(140, 40, &app.ui);
    let hits = vec![Hit {
        area: Area::new(10, 30, 101, 1),
        action: Action::Seek,
    }];
    let mut mouse = Mouse::default();
    mouse.handle(&mut app, at(PointerKind::Down(Button::Left), 60, 30), layout, &hits, 0, 0);
    assert_eq!(app.wanted_position_ms, Some(100_000));
    app.data.player.as_mut().unwrap().current_entry_id = Some("other".into());
    mouse.handle(&mut app, at(PointerKind::Drag(Button::Left), 110, 30), layout, &hits, 100, 0);
    assert!(mouse.drag.is_none());
    assert_eq!(app.wanted_position_ms, Some(100_000));
    app.ui.focus = Focus::Nav;
    app.ui.view = Screen::Songs;
    mouse.handle(&mut app, at(PointerKind::Down(Button::Right), 60, 5), layout, &hits, 200, 0);
    assert_eq!(app.ui.focus, Focus::Main);
}

#[test]
fn dialogs_register_a_close_target_and_one_target_per_shown_row() {
    let hits = dialog_hits(8, 0, 140, 40, false, true, false);
    assert_eq!(hits.len(), 9);
    assert!(matches!(hits[0].action, Action::Key("esc")));
    assert_eq!((hits[0].area.x, hits[0].area.y, hits[0].area.w, hits[0].area.h), (97, 10, 3, 1));
    for (line, hit) in hits[1..].iter().enumerate() {
        assert!(matches!(hit.action, Action::Dialog(i) if i == line));
        assert_eq!((hit.area.x, hit.area.y, hit.area.w, hit.area.h), (39, 13 + 2 * line as i32, 62, 2));
    }
    let menu = dialog_hits(20, 15, 80, 24, false, false, false);
    assert_eq!(menu.len(), 12);
    assert!(matches!(menu[0].action, Action::Dialog(4)));
    assert!(matches!(menu[11].action, Action::Dialog(15)));
    let retry = dialog_hits(0, 0, 80, 24, true, false, true);
    assert_eq!(retry.len(), 1);
    assert!(matches!(retry[0].action, Action::Key("M")));
}
