use muse::controller::App;
use muse::offsets::{OffsetInput, read_offset, seconds_text};
use muse::protocol::{
    Collection, Command, CreatedCollection, ErrorCode, Event, Failure, Item, ItemRef, Kind, Notice,
    PlayerState, RepeatMode, Source, StoreState,
};
use muse::state::{Dialog, EditAction, Screen};
use muse::target::Target;
use muse::transport::Admission;

fn song_ref(id: &str) -> ItemRef {
    ItemRef {
        id: id.into(),
        source: Source::Catalog,
        kind: Kind::Song,
    }
}

fn playing(reference: ItemRef) -> PlayerState {
    PlayerState {
        current: Some(Item {
            item_ref: reference,
            title: "t".into(),
            artist: "a".into(),
            album: "b".into(),
            duration_ms: Some(1000),
            artwork_url: None,
            album_ref: None,
        }),
        current_entry_id: Some("entry".into()),
        playing: true,
        position_ms: 0,
        queue_count: 1,
        queue_revision: 1,
        updated_at_ms: 0,
        repeat_mode: RepeatMode::Off,
        shuffle: false,
        can_seek: true,
    }
}

#[test]
fn editing_one_field_never_resubmits_a_stale_other_field() {
    let mut app = App::default();
    app.edit(
        EditAction::Describe("playlist".into()),
        "New description".into(),
    );
    app.commit_edit().unwrap();
    assert_eq!(
        app.flush(|request| {
            assert!(matches!(&request.command, Command::CollectionUpdate(p)
                if p.id == "playlist" && p.name.is_none() && p.description.as_deref() == Some("New description")));
            Ok(Admission::Accepted)
        })
        .unwrap(),
        1
    );
}

#[test]
fn repeated_favorite_keys_keep_both_intentions() {
    let mut app = App::default();
    let item = song_ref("song");
    app.toggle_favorite(item.clone());
    app.toggle_favorite(item.clone());
    let mut id = 0;
    assert_eq!(
        app.flush(|r| {
            assert!(matches!(&r.command, Command::Favorite(p) if !p.enabled));
            id = r.id;
            Ok(Admission::Accepted)
        })
        .unwrap(),
        1
    );
    assert!(app.data.store.is_none());
    assert!(app.ui.feedback.is_none());
    app.receive(Event {
        version: 1,
        id: Some(id),
        sequence: 1,
        event: Notice::Store(StoreState {
            collections: vec![],
            favorites: vec![],
            history_count: 0,
        }),
    });
    assert_eq!(app.ui.feedback.take().as_deref(), Some("즐겨찾기에서 제거"));
    app.toggle_favorite(item);
    app.flush(|r| {
        id = r.id;
        Ok(Admission::Accepted)
    })
    .unwrap();
    app.receive(Event {
        version: 1,
        id: Some(id),
        sequence: 2,
        event: Notice::Failure(Failure {
            code: ErrorCode::Storage,
            message: "저장 실패".into(),
            retryable: true,
        }),
    });
    assert!(app.ui.feedback.is_none());
    assert!(app.data.store.as_ref().unwrap().favorites.is_empty());
}

#[test]
fn creation_includes_initial_items_and_opens_the_returned_identity() {
    let mut app = App::default();
    let song = song_ref("song");
    app.edit(EditAction::Create(Some(song.clone())), "Night".into());
    app.commit_edit().unwrap();
    let mut id = 0;
    app.flush(|r| {
        id = r.id;
        assert!(matches!(&r.command, Command::CollectionCreate(p) if p.items.as_ref() == Some(&vec![song.clone()])));
        Ok(Admission::Accepted)
    })
    .unwrap();
    let created = Collection {
        id: "exact-created-id".into(),
        name: "Night".into(),
        description: String::new(),
        count: 1,
    };
    app.receive(Event {
        version: 1,
        id: Some(id),
        sequence: 1,
        event: Notice::CollectionCreated(CreatedCollection {
            collection: created.clone(),
            store: StoreState {
                collections: vec![created],
                favorites: vec![],
                history_count: 0,
            },
        }),
    });
    app.flush(|r| {
        assert!(matches!(&r.command, Command::Detail(p) if p.item.id == "exact-created-id"));
        Ok(Admission::Accepted)
    })
    .unwrap();
    assert_eq!(app.detail_ref.unwrap().id, "exact-created-id");
}

#[test]
fn timing_text_reads_as_whole_milliseconds_within_thirty_seconds() {
    let read = |text: &str| read_offset(&text.chars().collect());
    assert_eq!(read("1.5"), OffsetInput::Millis(1500));
    assert_eq!(read("-0.25"), OffsetInput::Millis(-250));
    assert_eq!(read("+.5"), OffsetInput::Millis(500));
    assert_eq!(read("2."), OffsetInput::Millis(2000));
    assert_eq!(read("0.0009"), OffsetInput::Millis(0));
    assert_eq!(read("30"), OffsetInput::Millis(30000));
    assert_eq!(read("-30.000"), OffsetInput::Millis(-30000));
    assert_eq!(read("30.001"), OffsetInput::OutOfRange);
    assert_eq!(read("120"), OffsetInput::OutOfRange);
    assert_eq!(read("-Infinity"), OffsetInput::OutOfRange);
    assert_eq!(read("NaN"), OffsetInput::OutOfRange);
    assert_eq!(read("abc"), OffsetInput::Invalid);
    assert_eq!(read("."), OffsetInput::Invalid);
    assert_eq!(read("1.2.3"), OffsetInput::Invalid);
    assert_eq!(read("-"), OffsetInput::Invalid);
}

#[test]
fn refused_fields_stay_open_and_say_why() {
    let mut app = App::default();
    let song = song_ref("song");
    app.edit(EditAction::Offset(song.clone()), "1".into());
    assert_eq!(app.commit_edit(), Err("재생 중인 곡이 변경되었습니다".to_string()));
    app.data.player = Some(playing(song.clone()));
    app.edit(EditAction::Offset(song.clone()), "soon".into());
    assert_eq!(app.commit_edit(), Err("초 단위 숫자를 입력해주세요".to_string()));
    app.edit(EditAction::Offset(song.clone()), "45".into());
    assert_eq!(app.commit_edit(), Err("-30~30초 사이로 입력해주세요".to_string()));
    assert!(app.ui.editor.is_some());
    app.edit(EditAction::Offset(song.clone()), " -1.5 ".into());
    assert_eq!(app.commit_edit(), Ok(()));
    assert!(app.ui.editor.is_none());
    let sent: Vec<Command> = {
        let mut sent = vec![];
        app.flush(|r| {
            sent.push(r.command.clone());
            Ok(Admission::Accepted)
        })
        .unwrap();
        sent
    };
    assert!(matches!(&sent[0], Command::LyricsOffset(p) if p.offset_ms == -1500 && p.item == song));
    app.data.loading.insert(Target::Create, ());
    app.edit(EditAction::Copy(song.clone()), "copy".into());
    assert_eq!(app.commit_edit(), Err("플레이리스트를 만드는 중입니다".to_string()));
    app.edit(EditAction::Rename("p".into()), "x".repeat(101));
    assert_eq!(app.ui.editor.as_ref().unwrap().buffer.chars().count(), 100);
    app.ui.editor.as_mut().unwrap().buffer = "x".repeat(101);
    assert_eq!(app.commit_edit(), Err("입력할 수 있는 길이를 초과했습니다".to_string()));
}

#[test]
fn lyric_searches_open_the_match_choice_and_searches_show_results() {
    let mut app = App::default();
    let song = song_ref("song");
    app.data.player = Some(playing(song.clone()));
    app.edit(EditAction::Lyrics(song), "  title  ".into());
    app.commit_edit().unwrap();
    assert!(matches!(app.ui.dialog, Some(Dialog::Lyrics { cursor: 0 })));
    assert!(matches!(&app.outbox[0].command, Command::LyricsSearch(p) if p.query == "title"));
    app.edit(EditAction::Search, " 노래 ".into());
    app.commit_edit().unwrap();
    assert_eq!(app.ui.view, Screen::Search);
    assert_eq!(app.ui.query, "노래");
    assert!(app.ui.editor.is_none());
}

#[test]
fn written_timings_read_back_as_the_same_milliseconds() {
    for ms in [-30000i64, -29999, -1500, -10, -1, 0, 1, 30, 120, 1500, 2000, 29999, 30000] {
        let text = seconds_text(ms);
        assert_eq!(read_offset(&text.chars().collect()), OffsetInput::Millis(ms), "{text}");
    }
}
