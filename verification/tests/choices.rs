use muse::controller::App;
use muse::i18n::Language;
use muse::offsets::seconds_text;
use muse::protocol::{
    Collection, Command, Control, Item, ItemRef, Kind, Lyrics, LyricsStatus, ModeParams, Order,
    PlayerState, QueueEntry, QueuePage, RepeatMode, Source, StoreState,
};
use muse::state::{Choice, Dialog, EditAction, Focus, Panel, Screen};
use muse::target::Target;
use muse::transport::Admission;

fn song(id: &str) -> Item {
    Item {
        item_ref: ItemRef {
            id: id.into(),
            source: Source::Catalog,
            kind: Kind::Song,
        },
        title: id.into(),
        artist: "a".into(),
        album: "a".into(),
        duration_ms: None,
        artwork_url: None,
        album_ref: None,
    }
}

fn rows(app: &App) -> Vec<muse::state::MenuRow> {
    app.ui.dialog.as_ref().unwrap().rows(&app.ui, &app.data)
}

#[test]
fn playback_round_trips_do_not_swallow_stable_item_actions() {
    for queue in [false, true] {
        for mode in [false, true] {
            let mut app = App::default();
            let item = song("song");
            app.data.items = vec![item.clone()];
            app.data.queue = Some(QueuePage {
                entries: vec![QueueEntry {
                    id: "entry".into(),
                    item: Some(item.clone()),
                }],
                next_offset: None,
                revision: 1,
                total: 1,
            });
            if queue {
                app.ui.focus = Focus::Right;
                app.ui.panel = Panel::Queue;
            }
            if mode {
                app.send(
                    Command::Mode(ModeParams {
                        shuffle: true,
                        repeat_mode: RepeatMode::Off,
                    }),
                    Target::Mode,
                    0,
                );
            } else {
                app.control(Control::Toggle);
            }
            app.flush(|_| Ok(Admission::Accepted)).unwrap();
            assert!(!app.list_ready(if queue { &Target::Queue } else { &Target::Main }));
            assert_eq!(app.selected().unwrap().item_ref, item.item_ref);
            app.activate();
            app.favorite_selected(0);
            app.playlist_picker();
            assert!(
                matches!(&rows(&app)[0].choice,
                Choice::Edit(EditAction::Create(Some(reference)), _) if *reference == item.item_ref)
            );
            let mut commands = vec![];
            app.flush(|r| {
                commands.push(r.command.clone());
                Ok(Admission::Accepted)
            })
            .unwrap();
            assert_eq!(commands.len(), 2);
            assert!(matches!(&commands[1], Command::Favorite(p) if p.item == item.item_ref));
            if queue {
                assert!(matches!(&commands[0], Command::QueueJump(p) if p.entry_id == "entry"));
            } else {
                assert!(matches!(&commands[0], Command::Play(p) if p.items == [item.item_ref.clone()]));
            }
        }
    }
}

#[test]
fn delete_requires_a_second_choice_and_lyrics_does_not_browse_the_library() {
    let mut app = App::default();
    app.apply_choice(Choice::Delete("id".into()));
    app.choose_dialog();
    assert_eq!(app.flush(|_| Ok(Admission::Accepted)).unwrap(), 0);
    app.go(Screen::Lyrics);
    assert!(!app.ui.right_open);
    assert_eq!(app.flush(|_| Ok(Admission::Accepted)).unwrap(), 0);
    app.apply_choice(Choice::Kind(Kind::Station));
    app.apply_choice(Choice::Source(Source::Library));
    assert_eq!(app.ui.search_kind, Kind::Song);
    assert_eq!(app.ui.search_source, Source::Library);
}

#[test]
fn confirmed_deletion_shows_the_playlists_and_sends_the_deletion() {
    let mut app = App::default();
    app.apply_choice(Choice::Delete("id".into()));
    let shown = rows(&app);
    assert_eq!(shown.len(), 2);
    assert_eq!(shown[0].label, "돌아가기");
    app.ui.dialog.as_mut().unwrap().move_by(1, 2);
    app.choose_dialog();
    assert!(app.ui.dialog.is_none());
    assert_eq!(app.ui.view, Screen::Playlists);
    assert!(app
        .outbox
        .iter()
        .any(|i| matches!(&i.command, Command::CollectionDelete(p) if p.id == "id")));
}

#[test]
fn view_options_follow_the_view() {
    let mut app = App::default();
    app.ui.view = Screen::Search;
    app.ui.search_kind = Kind::Album;
    app.filter_menu();
    let shown = rows(&app);
    assert_eq!(shown.len(), 7);
    assert!(shown[1].checked && !shown[0].checked);
    assert_eq!(shown[5].label, "Apple Music");
    assert!(shown[5].checked);
    app.ui.dialog = None;
    app.ui.view = Screen::Playlists;
    app.ui.order = Order::Name;
    app.filter_menu();
    let shown = rows(&app);
    assert_eq!(shown.len(), 4);
    assert_eq!(shown[0].label, "이름순");
    assert!(shown[0].checked);
    assert_eq!(shown[1].label, "최근순");
    assert_eq!(shown[3].label, "보관함 플레이리스트");
    app.ui.dialog = None;
    app.ui.view = Screen::Home;
    app.filter_menu();
    assert!(app.ui.dialog.is_none());
}

#[test]
fn language_menu_checks_the_current_language_and_switches_it() {
    let mut app = App::default();
    app.language_menu();
    let shown = rows(&app);
    assert_eq!(shown[0].label, "English");
    assert!(!shown[0].checked && shown[1].checked);
    app.choose_dialog();
    assert_eq!(app.ui.language, Language::English);
    assert!(app.ui.dialog.is_none());
}

#[test]
fn lyrics_menu_offers_timing_only_for_synchronized_lyrics() {
    let mut app = App::default();
    app.lyrics_menu();
    assert!(app.ui.dialog.is_none());
    let mut current = song("now");
    current.artist = "Artist".into();
    current.title = "Title".into();
    app.data.player = Some(PlayerState {
        current: Some(current.clone()),
        current_entry_id: None,
        playing: false,
        position_ms: 0,
        queue_count: 0,
        queue_revision: 0,
        updated_at_ms: 0,
        repeat_mode: RepeatMode::Off,
        shuffle: false,
        can_seek: false,
    });
    app.data.lyrics = Some(Lyrics {
        item: current.item_ref.clone(),
        match_id: None,
        status: LyricsStatus::Synced,
        lines: vec![],
        offset_ms: -1250,
    });
    app.lyrics_menu();
    let shown = rows(&app);
    assert_eq!(shown.len(), 3);
    assert!(matches!(&shown[0].choice, Choice::Edit(EditAction::Lyrics(_), b) if b == "Artist Title"));
    assert!(matches!(&shown[2].choice, Choice::Edit(EditAction::Offset(_), b) if b == "-1.25"));
    assert_eq!(seconds_text(0), "0");
    assert_eq!(seconds_text(2000), "2");
    assert_eq!(seconds_text(30), "0.03");
}

#[test]
fn playlist_menu_edits_saved_playlists_and_copies_albums() {
    let mut app = App::default();
    let saved = ItemRef {
        id: "p1".into(),
        source: Source::Collection,
        kind: Kind::Playlist,
    };
    app.data.store = Some(StoreState {
        collections: vec![Collection {
            id: "p1".into(),
            name: "Mine".into(),
            description: "notes".into(),
            count: 0,
        }],
        favorites: vec![],
        history_count: 0,
    });
    app.ui.view = Screen::Playlists;
    app.detail_ref = Some(saved);
    app.collection_menu();
    let shown = rows(&app);
    assert_eq!(shown.len(), 5);
    assert!(matches!(&shown[1].choice, Choice::Edit(EditAction::Rename(id), name) if id == "p1" && name == "Mine"));
    assert!(matches!(&shown[3].choice, Choice::Delete(id) if id == "p1"));
    assert!(matches!(&shown[4].choice, Choice::Edit(EditAction::Copy(_), name) if name == "플레이리스트 복사본"));
}

#[test]
fn enter_in_the_settings_steps_the_setting_and_stays_open() {
    let mut app = App::default();
    app.settings_menu();
    app.choose_dialog();
    assert_eq!(app.ui.theme, 1);
    assert!(matches!(app.ui.dialog, Some(Dialog::Settings { cursor: 0 })));
    app.adjust_setting(-1);
    app.adjust_setting(-1);
    assert_eq!(app.ui.theme, 4);
    assert_eq!(rows(&app).len(), 8);
}
