use muse::controller::App;
use muse::geometry::Layout;
use muse::keys::{KeyCode, KeyPress, key_name};
use muse::protocol::{
    Collection, Command, CreatedCollection, DetailPage, ErrorCode, Event, Failure, Item, ItemRef,
    Kind, Lyrics, LyricsStatus, Notice, Placement, PlayParams, PlayerState, QueuePage, RepeatMode,
    Source, StoreState,
};
use muse::requests::Response;
use muse::state::{Choice, EditAction, Focus, Screen};
use muse::target::Target;
use muse::transport::Admission;

fn song(id: &str) -> Item {
    Item {
        item_ref: ItemRef {
            id: id.into(),
            source: Source::Catalog,
            kind: Kind::Song,
        },
        title: id.into(),
        artist: "a".into(),
        album: "a".into(),
        duration_ms: None,
        artwork_url: None,
        album_ref: None,
    }
}

fn idle_player(current: Item) -> PlayerState {
    PlayerState {
        current: Some(current),
        current_entry_id: None,
        playing: false,
        position_ms: 0,
        queue_count: 0,
        queue_revision: 1,
        updated_at_ms: 0,
        repeat_mode: RepeatMode::Off,
        shuffle: false,
        can_seek: false,
    }
}

#[test]
fn korean_search_debounces_and_panel_focus_keeps_independent_cursors() {
    let mut app = App::default();
    let layout = Layout::new(140, 40, &app.ui);
    for key in ["/", "유", "나"] {
        assert!(app.key(key, layout, 1000, 1_000_000));
    }
    app.dispatch_due(1100);
    assert_eq!(app.flush(|_| Ok(Admission::Accepted)).unwrap(), 0);
    app.dispatch_due(1200);
    assert_eq!(
        app.flush(|r| {
            assert!(matches!(&r.command, Command::Search(p) if p.query == "유나"));
            Ok(Admission::Accepted)
        })
        .unwrap(),
        1
    );
    app.key("esc", layout, 2000, 1_000_000);
    app.ui.cursors = [5, 2];
    app.key("Q", layout, 2000, 1_000_000);
    app.key("]", layout, 2000, 1_000_000);
    assert_eq!(app.ui.focus, Focus::Main);
    assert_eq!(app.ui.cursors, [5, 2]);
    assert!(!app.key("q", layout, 2000, 1_000_000));
    app.go(Screen::Artists);
    let artist = ItemRef {
        id: "artist".into(),
        source: Source::Library,
        kind: Kind::Artist,
    };
    app.open(artist.clone());
    app.open(ItemRef {
        id: "album".into(),
        source: Source::Library,
        kind: Kind::Album,
    });
    app.back();
    assert_eq!(app.detail_ref, Some(artist));
    app.back();
    assert_eq!(app.ui.view, Screen::Artists);
}

#[test]
fn completed_creation_does_not_override_later_navigation() {
    let mut app = App::default();
    app.edit(EditAction::Create(None), "Night".into());
    app.commit_edit().unwrap();
    let mut id = 0;
    app.flush(|r| {
        id = r.id;
        Ok(Admission::Accepted)
    })
    .unwrap();
    app.go(Screen::Favorites);
    let collection = Collection {
        id: "new".into(),
        name: "Night".into(),
        description: String::new(),
        count: 0,
    };
    app.receive(Event {
        version: 1,
        id: Some(id),
        sequence: 1,
        event: Notice::CollectionCreated(CreatedCollection {
            collection: collection.clone(),
            store: StoreState {
                collections: vec![collection],
                favorites: vec![],
                history_count: 0,
            },
        }),
    });
    assert_eq!(app.ui.view, Screen::Favorites);
    assert!(app.detail_ref.is_none());
    assert_eq!(app.data.store.unwrap().collections.len(), 1);
}

#[test]
fn tour_changes_views_at_five_seconds_without_playback_commands() {
    let mut app = App::default();
    let layout = Layout::new(140, 40, &app.ui);
    app.key("t", layout, 1000, 1_000_000);
    assert!(!app.tour(5900));
    assert!(app.tour(6000));
    assert_eq!(app.ui.view, Screen::Search);
    assert!(!app.tour(6100));
    assert!(app.tour(11000));
    assert_eq!(app.ui.view, Screen::Albums);
    app.flush(|request| {
        assert!(matches!(request.command, Command::Browse(_)));
        Ok(Admission::Accepted)
    })
    .unwrap();
    app.key("j", layout, 12000, 1_000_000);
    assert!(!app.tour(20000));
}

#[test]
fn actions_follow_visible_content_instead_of_hidden_collection_rows() {
    let mut app = App::default();
    let layout = Layout::new(140, 40, &app.ui);
    let collection = ItemRef {
        id: "saved".into(),
        source: Source::Collection,
        kind: Kind::Playlist,
    };
    app.ui.view = Screen::Playlists;
    app.detail_ref = Some(collection.clone());
    app.data.items = vec![song("a"), song("b")];
    app.data.player = Some(idle_player(song("c")));
    app.data.lyrics = Some(Lyrics {
        item: song("c").item_ref,
        match_id: None,
        status: LyricsStatus::Missing,
        lines: vec![],
        offset_ms: 0,
    });
    for focus in [Focus::Nav, Focus::Right] {
        app.ui.focus = focus;
        for key in ["d", "J", "K", "R"] {
            app.key(key, layout, 1000, 1000);
        }
        assert_eq!(app.flush(|_| panic!("hidden collection edit")).unwrap(), 0);
        assert!(app.ui.editor.is_none());
    }
    app.key("full_lyrics", layout, 1000, 1000);
    app.ui.lyric_manual = Some(5000);
    for key in ["d", "J", "K", "R", "enter"] {
        app.key(key, layout, 1000, 1000);
    }
    assert_eq!(app.ui.lyric_manual, None);
    assert!(app.detail_ref.is_none() && app.data.items.is_empty());
    app.key("f", layout, 1000, 1000);
    app.key("A", layout, 1000, 1000);
    let mut commands = vec![];
    app.flush(|r| {
        commands.push(r.command.clone());
        Ok(Admission::Accepted)
    })
    .unwrap();
    assert_eq!(commands.len(), 2);
    assert!(matches!(&commands[0], Command::Favorite(p) if p.item.id == "c"));
    assert!(matches!(&commands[1], Command::Play(p) if p.items[0].id == "c"));
    app.key("a", layout, 1000, 1000);
    let rows = app.ui.dialog.as_ref().unwrap().rows(&app.ui, &app.data);
    assert!(matches!(&rows[0].choice, Choice::Edit(EditAction::Create(Some(item)), _) if item.id == "c"));
    app.ui.dialog = None;
    app.back();
    assert_eq!(app.detail_ref, Some(collection));
    assert_eq!(app.ui.view, Screen::Playlists);
}

#[test]
fn reopening_sidebars_restores_the_view_and_history_reenters_full_lyrics() {
    for key in ["Q", "l", "]"] {
        let mut app = App::default();
        let mut item = song("collection");
        item.item_ref.source = Source::Collection;
        item.item_ref.kind = Kind::Playlist;
        item.title = "이전 목록".into();
        app.ui.view = Screen::Playlists;
        app.detail_ref = Some(item.item_ref.clone());
        app.data.detail = Some(item.clone());
        app.go(Screen::Lyrics);
        app.go(Screen::Lyrics);
        assert!(!app.ui.right_open);
        let layout = Layout::new(140, 40, &app.ui);
        app.key(key, layout, 1000, 1000);
        assert_eq!(app.ui.view, Screen::Playlists);
        assert_eq!(app.detail_ref.as_ref(), Some(&item.item_ref));
        assert!(app.ui.right_open);
        assert_eq!(app.ui.focus, Focus::Right);
        let mut requests = vec![];
        app.flush(|r| {
            requests.push(r.clone());
            Ok(Admission::Accepted)
        })
        .unwrap();
        for request in requests {
            let notice = match request.command {
                Command::Detail(p) => {
                    assert_eq!(p.item, item.item_ref);
                    Notice::Detail(DetailPage {
                        item: item.clone(),
                        children: vec![],
                        next_offset: None,
                    })
                }
                Command::Queue(_) => Notice::Queue(QueuePage {
                    entries: vec![],
                    next_offset: None,
                    revision: 0,
                    total: 0,
                }),
                _ => panic!("unexpected request"),
            };
            app.receive(Event {
                version: 1,
                id: Some(request.id),
                sequence: request.id,
                event: notice,
            });
        }
        assert_eq!(app.data.detail.as_ref().unwrap().title, "이전 목록");
        app.go(Screen::Lyrics);
        app.open(item.item_ref.clone());
        app.ui.right_open = true;
        app.back();
        assert_eq!(app.ui.view, Screen::Lyrics);
        assert!(!app.ui.right_open);
        assert!(app.detail_ref.is_none() && app.data.detail.is_none());
        app.back();
        assert_eq!(app.ui.view, Screen::Playlists);
        assert_eq!(app.detail_ref, Some(item.item_ref));
    }
}

#[test]
fn missing_login_retries_the_same_search_without_an_authorization_step() {
    let mut app = App::default();
    app.ui.view = Screen::Search;
    app.ui.query = "Mira".into();
    app.data.apply(Response {
        target: Some(Target::Main),
        sequence: 1,
        notice: Notice::Failure(Failure {
            code: ErrorCode::SignInRequired,
            message: "음악 앱에 로그인해주세요".into(),
            retryable: true,
        }),
    });
    let layout = app.ui.fit(80, 24);
    app.key("enter", layout, 1000, 1000);
    let mut retried = false;
    app.flush(|request| {
        assert!(!matches!(request.command, Command::Authorize));
        if let Command::Search(params) = &request.command {
            assert_eq!(params.query, "Mira");
            retried = true;
        }
        Ok(Admission::Accepted)
    })
    .unwrap();
    assert!(retried && app.ui.dialog.is_none());
}

#[test]
fn detail_playback_keys_replace_the_whole_container_in_compact_layout() {
    for (source, kind) in [
        (Source::Catalog, Kind::Album),
        (Source::Library, Kind::Playlist),
        (Source::Collection, Kind::Playlist),
    ] {
        for (character, shuffle) in [('P', false), ('S', true)] {
            let mut app = App::default();
            let detail = ItemRef {
                id: "detail".into(),
                source,
                kind,
            };
            app.ui.view = if source == Source::Collection {
                Screen::Playlists
            } else {
                Screen::Detail
            };
            app.detail_ref = Some(detail.clone());
            let mut selected = song("selected-song");
            selected.title = "Song".into();
            app.data.items = vec![selected];
            app.data.next_offset = Some(1);
            let layout = app.ui.fit(80, 24);
            let key = key_name(KeyPress {
                code: KeyCode::Char(character),
                shift: true,
                control: false,
                alt_or_super: false,
                release: false,
            })
            .unwrap();
            assert!(app.key(&key, layout, 1000, 1000));
            assert_eq!(
                app.flush(|request| {
                    assert_eq!(
                        request.command,
                        Command::Play(PlayParams {
                            items: vec![detail.clone()],
                            start_index: 0,
                            placement: Placement::Replace,
                            shuffle: Some(shuffle),
                        })
                    );
                    Ok(Admission::Accepted)
                })
                .unwrap(),
                1
            );
            for focus in [Focus::Nav, Focus::Right] {
                app.ui.focus = focus;
                app.key(&key, layout, 1000, 1000);
            }
            app.ui.focus = Focus::Main;
            app.edit(EditAction::Create(None), String::new());
            app.key(&key, layout, 1000, 1000);
            assert_eq!(app.ui.editor.as_ref().unwrap().buffer, key);
            assert_eq!(app.flush(|_| panic!("unfocused detail playback")).unwrap(), 0);
        }
    }
}

#[test]
fn typing_edits_the_field_and_dialogs_take_keys_first() {
    let mut app = App::default();
    let layout = Layout::new(140, 40, &app.ui);
    app.key("N", layout, 0, 0);
    for key in ["a", "b", "left", "backspace", "end", "c"] {
        app.key(key, layout, 0, 0);
    }
    assert_eq!(app.ui.editor.as_ref().unwrap().buffer, "bc");
    app.key("clear", layout, 0, 0);
    app.key("enter", layout, 5, 0);
    assert_eq!(app.ui.toast.as_ref().unwrap().0, "내용을 입력해주세요");
    assert_eq!(app.ui.toast.as_ref().unwrap().1, 5);
    assert!(app.key("q", layout, 0, 0));
    assert_eq!(app.ui.editor.as_ref().unwrap().buffer, "q");
    app.key("esc", layout, 0, 0);
    assert!(app.ui.editor.is_none());
    app.key("I", layout, 0, 0);
    app.key("down", layout, 0, 0);
    app.key("down", layout, 0, 0);
    assert_eq!(app.ui.dialog.as_ref().unwrap().cursor(), 1);
    app.key("enter", layout, 0, 0);
    assert_eq!(app.ui.language, muse::i18n::Language::Korean);
    assert!(!app.key("ctrl-c", layout, 0, 0));
    app.key("?", layout, 0, 0);
    assert!(app.ui.help);
    app.key("v", layout, 0, 0);
    assert!(!app.ui.help && !app.ui.transparent);
    app.key("3", layout, 0, 0);
    assert_eq!(app.ui.theme, 2);
    app.key("T", layout, 0, 0);
    assert_eq!(app.ui.theme, 3);
    app.key("z", layout, 7, 0);
    assert!(app.ui.reduced_motion);
    assert_eq!(app.ui.toast.as_ref().unwrap().0, "움직임 줄임");
    assert_eq!(app.ui.pulse.as_ref().unwrap().0, "z");
}
