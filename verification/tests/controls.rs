use muse::controller::App;
use muse::protocol::{
    Command, Event, Item, ItemRef, Kind, Notice, PlayerState, QueueEntry, QueuePage, RepeatMode,
    Source, VolumeState,
};
use muse::state::{Focus, Panel, Screen};
use muse::target::Target;
use muse::transport::Admission;

fn song(id: &str) -> Item {
    Item {
        item_ref: ItemRef {
            id: id.into(),
            source: Source::Catalog,
            kind: Kind::Song,
        },
        title: id.into(),
        artist: "a".into(),
        album: "a".into(),
        duration_ms: None,
        artwork_url: None,
        album_ref: None,
    }
}

fn player(entry: &str) -> PlayerState {
    let mut current = song("song");
    current.item_ref.source = Source::Library;
    current.duration_ms = Some(100_000);
    PlayerState {
        current: Some(current),
        current_entry_id: Some(entry.into()),
        playing: false,
        position_ms: 0,
        queue_count: 0,
        queue_revision: 1,
        updated_at_ms: 1_000_000,
        repeat_mode: RepeatMode::Off,
        shuffle: false,
        can_seek: true,
    }
}

fn commands(app: &mut App) -> Vec<Command> {
    let mut sent = vec![];
    app.flush(|r| {
        sent.push(r.command.clone());
        Ok(Admission::Accepted)
    })
    .unwrap();
    sent
}

#[test]
fn shuffled_detail_is_one_intention_and_old_entry_seeks_are_discarded() {
    let mut app = App::default();
    app.detail_ref = Some(ItemRef {
        id: "album".into(),
        source: Source::Catalog,
        kind: Kind::Album,
    });
    app.ui.view = Screen::Detail;
    app.play_detail(true);
    assert_eq!(
        app.flush(|request| {
            assert!(matches!(&request.command, Command::Play(p) if p.shuffle == Some(true)));
            Ok(Admission::Accepted)
        })
        .unwrap(),
        1
    );
    let mut state = player("entry-a");
    app.receive(Event {
        version: 1,
        id: None,
        sequence: 1,
        event: Notice::Player(state.clone()),
    });
    app.seek(20_000);
    assert_eq!(app.wanted_position_ms, Some(20_000));
    state.current_entry_id = Some("entry-b".into());
    app.receive(Event {
        version: 1,
        id: None,
        sequence: 2,
        event: Notice::Player(state),
    });
    assert_eq!(app.wanted_position_ms, None);
    app.flush(|request| {
        assert!(!matches!(request.command, Command::Seek(_)));
        Ok(Admission::Accepted)
    })
    .unwrap();
}

#[test]
fn relative_volume_keeps_intent_while_display_stays_confirmed() {
    let mut app = App::default();
    app.data.volume = Some(VolumeState {
        device: "test".into(),
        level: Some(500),
        muted: Some(false),
        can_set_volume: true,
        can_mute: true,
    });
    app.volume_by(50);
    let mut first = 0;
    app.flush(|r| {
        first = r.id;
        Ok(Admission::Accepted)
    })
    .unwrap();
    app.volume_by(50);
    let mut second = 0;
    app.flush(|r| {
        assert!(matches!(&r.command, Command::Volume(p) if p.level == Some(600)));
        second = r.id;
        Ok(Admission::Accepted)
    })
    .unwrap();
    assert_eq!(app.data.volume.as_ref().unwrap().level, Some(500));
    let mut volume = app.data.volume.clone().unwrap();
    volume.level = Some(550);
    assert!(!app.receive(Event {
        version: 1,
        id: Some(first),
        sequence: 1,
        event: Notice::Volume(volume.clone())
    }));
    assert!(app.wanted_volume.is_some());
    volume.level = Some(600);
    app.receive(Event {
        version: 1,
        id: Some(second),
        sequence: 2,
        event: Notice::Volume(volume),
    });
    assert!(app.wanted_volume.is_none());
    assert_eq!(app.data.volume.unwrap().level, Some(600));
}

#[test]
fn seeking_is_bounded_by_the_track_and_needs_a_seekable_player() {
    let mut app = App::default();
    app.seek(5_000);
    assert!(app.outbox.is_empty());
    let mut state = player("entry");
    app.data.player = Some(state.clone());
    app.seek(-3);
    assert_eq!(app.wanted_position_ms, Some(0));
    app.seek(250_000);
    assert_eq!(app.wanted_position_ms, Some(100_000));
    let sent = commands(&mut app);
    assert_eq!(sent.len(), 1);
    assert!(matches!(&sent[0], Command::Seek(p) if p.position_ms == 100_000 && p.entry_id == "entry"));
    app.seek_by(-30_000, 0);
    assert_eq!(app.wanted_position_ms, Some(70_000));
    state.can_seek = false;
    app.data.player = Some(state);
    app.wanted_position_ms = None;
    app.seek(1_000);
    assert_eq!(app.wanted_position_ms, None);
}

#[test]
fn seeking_by_starts_from_the_interpolated_position() {
    let mut app = App::default();
    let mut state = player("entry");
    state.playing = true;
    state.position_ms = 10_000;
    app.data.player = Some(state);
    app.seek_by(5_000, 1_004_000);
    assert_eq!(app.wanted_position_ms, Some(19_000));
}

#[test]
fn volume_is_bounded_and_mute_toggles_from_the_wanted_state() {
    let mut app = App::default();
    app.volume_to(700);
    assert!(app.outbox.is_empty());
    app.data.volume = Some(VolumeState {
        device: "test".into(),
        level: Some(990),
        muted: Some(true),
        can_set_volume: true,
        can_mute: true,
    });
    app.volume_by(50);
    assert_eq!(app.wanted_volume.as_ref().unwrap().level, Some(1000));
    assert_eq!(app.wanted_volume.as_ref().unwrap().muted, Some(false));
    app.volume_to(-20);
    assert_eq!(app.wanted_volume.as_ref().unwrap().level, Some(0));
    app.toggle_mute();
    assert_eq!(app.wanted_volume.as_ref().unwrap().muted, Some(true));
    assert_eq!(app.wanted_volume.as_ref().unwrap().level, Some(0));
    app.wanted_volume = None;
    app.toggle_mute();
    assert_eq!(app.wanted_volume.as_ref().unwrap().muted, Some(false));
    assert_eq!(app.wanted_volume.as_ref().unwrap().level, None);
}

#[test]
fn repeat_cycles_and_shuffle_toggles_from_the_player_mode() {
    let mut app = App::default();
    app.toggle_shuffle();
    assert!(app.outbox.is_empty());
    app.data.player = Some(player("entry"));
    app.cycle_repeat();
    assert_eq!(app.wanted_mode.as_ref().unwrap().repeat_mode, RepeatMode::One);
    app.cycle_repeat();
    assert_eq!(app.wanted_mode.as_ref().unwrap().repeat_mode, RepeatMode::All);
    app.cycle_repeat();
    assert_eq!(app.wanted_mode.as_ref().unwrap().repeat_mode, RepeatMode::Off);
    app.toggle_shuffle();
    assert!(app.wanted_mode.as_ref().unwrap().shuffle);
    let sent = commands(&mut app);
    assert_eq!(sent.len(), 1);
    assert!(matches!(&sent[0], Command::Mode(m) if m.shuffle && m.repeat_mode == RepeatMode::Off));
}

fn queued_app(count: usize, next_offset: Option<u64>) -> App {
    let mut app = App::default();
    app.ui.focus = Focus::Right;
    app.ui.panel = Panel::Queue;
    app.data.queue = Some(QueuePage {
        entries: (0..count)
            .map(|i| QueueEntry {
                id: format!("e{i}"),
                item: Some(song(&format!("s{i}"))),
            })
            .collect(),
        next_offset,
        revision: 1,
        total: count as u64,
    });
    app
}

#[test]
fn queue_moves_name_the_following_entry_and_the_selection_follows() {
    let mut app = queued_app(4, None);
    app.ui.cursors[1] = 1;
    app.move_queue(true);
    assert_eq!(app.ui.cursors[1], 2);
    let sent = commands(&mut app);
    assert!(matches!(&sent[0], Command::QueueMove(p)
        if p.entry_id == "e1" && p.before_entry_id.as_deref() == Some("e3")));
    let mut app = queued_app(4, None);
    app.ui.cursors[1] = 2;
    app.move_queue(true);
    let sent = commands(&mut app);
    assert!(matches!(&sent[0], Command::QueueMove(p) if p.entry_id == "e2" && p.before_entry_id.is_none()));
    let mut app = queued_app(4, None);
    app.ui.cursors[1] = 3;
    app.move_queue(true);
    assert!(app.outbox.is_empty());
    app.move_queue(false);
    assert_eq!(app.ui.cursors[1], 2);
    let sent = commands(&mut app);
    assert!(matches!(&sent[0], Command::QueueMove(p)
        if p.entry_id == "e3" && p.before_entry_id.as_deref() == Some("e2")));
    let mut app = queued_app(4, None);
    app.move_queue(false);
    assert!(app.outbox.is_empty());
}

#[test]
fn moving_past_the_loaded_queue_loads_the_next_page() {
    let mut app = queued_app(3, Some(3));
    app.ui.cursors[1] = 2;
    app.move_queue(true);
    assert_eq!(app.ui.cursors[1], 2);
    let sent = commands(&mut app);
    assert!(matches!(&sent[0], Command::Queue(p) if p.offset == 3));
}

#[test]
fn queue_actions_wait_for_the_queue_and_jump_to_the_selected_entry() {
    let mut app = queued_app(2, None);
    app.ui.cursors[1] = 1;
    app.data.loading.insert(Target::Queue, ());
    app.activate();
    app.remove_queue();
    assert!(app.outbox.is_empty());
    assert!(app.selected().is_none());
    app.data.loading.remove(&Target::Queue);
    assert_eq!(app.selected().unwrap().item_ref.id, "s1");
    app.activate();
    app.remove_queue();
    let sent = commands(&mut app);
    assert_eq!(sent.len(), 1);
    assert!(matches!(&sent[0], Command::QueueJump(p) if p.entry_id == "e1"));
    let mut app = queued_app(2, None);
    app.ui.cursors[1] = 1;
    app.remove_queue();
    let sent = commands(&mut app);
    assert!(matches!(&sent[0], Command::QueueRemove(p) if p.entry_id == "e1"));
}

#[test]
fn activating_plays_songs_and_opens_containers() {
    let mut app = App::default();
    let mut album = song("album");
    album.item_ref.kind = Kind::Album;
    app.data.items = vec![song("one"), album];
    app.activate();
    let sent = commands(&mut app);
    assert!(matches!(&sent[0], Command::Play(p) if p.items.len() == 1 && p.items[0].id == "one"));
    app.ui.cursors[0] = 1;
    app.activate();
    assert_eq!(app.ui.view, Screen::Detail);
    assert_eq!(app.detail_ref.as_ref().unwrap().id, "album");
    app.ui.focus = Focus::Nav;
    assert!(app.selected().is_none());
}
