use muse::data::Data;
use muse::protocol::{
    Authorization, ErrorCode, Failure, ItemRef, Kind, Lyrics, LyricsStatus, Notice, QueueEntry,
    QueuePage, SessionState, Source, VolumeState,
};
use muse::requests::Response;
use muse::state::{Focus, Panel, Screen, Ui};
use muse::target::Target;

fn volume(level: u32) -> VolumeState {
    VolumeState {
        device: "test".into(),
        level: Some(level),
        muted: Some(false),
        can_set_volume: true,
        can_mute: true,
    }
}

#[test]
fn notification_errors_follow_recency_and_skip_nonvisible_or_cleared_failures() {
    let mut data = Data::default();
    data.lyrics = Some(Lyrics {
        item: ItemRef {
            id: "song".into(),
            source: Source::Catalog,
            kind: Kind::Song,
        },
        match_id: None,
        status: LyricsStatus::Plain,
        lines: vec![],
        offset_ms: 0,
    });
    for (target, message) in [
        (Target::Lyrics, "old lyrics"),
        (Target::Mode, "mode"),
        (Target::Mutation, "new playback"),
        (Target::Artwork("cover".into()), "hidden cover"),
    ] {
        data.apply(Response {
            target: Some(target),
            sequence: 1,
            notice: Notice::Failure(Failure {
                code: ErrorCode::Network,
                message: message.into(),
                retryable: true,
            }),
        });
    }
    assert_eq!(data.notification_error().unwrap().1.message, "new playback");
    data.cancel(&Target::Mutation);
    assert_eq!(data.notification_error().unwrap().1.message, "mode");
    data.begin(Target::Mode, 0);
    assert_eq!(data.notification_error().unwrap().1.message, "old lyrics");
    data.lyrics = None;
    assert!(data.notification_error().is_none());
    data.errors.clear();
    data.apply(Response {
        target: Some(Target::Volume),
        sequence: 0,
        notice: Notice::Failure(Failure {
            code: ErrorCode::Busy,
            message: "local failure".into(),
            retryable: true,
        }),
    });
    assert_eq!(
        data.notification_error().unwrap().1.message,
        "local failure"
    );
    assert_eq!(data.failure_order(), &vec![Target::Volume]);
}

#[test]
fn stale_queue_pages_preserve_the_confirmed_entries() {
    let first = QueuePage {
        entries: vec![QueueEntry {
            id: "a".into(),
            item: None,
        }],
        next_offset: Some(1),
        revision: 2,
        total: 2,
    };
    let mut data = Data::default();
    data.queue = Some(first.clone());
    let mut second = QueuePage {
        entries: vec![QueueEntry {
            id: "b".into(),
            item: None,
        }],
        next_offset: None,
        revision: 1,
        total: 2,
    };
    data.begin(Target::Queue, 1);
    data.apply(Response {
        target: Some(Target::Queue),
        sequence: 1,
        notice: Notice::Queue(second.clone()),
    });
    assert_eq!(data.queue, Some(first));
    second.revision = 2;
    data.begin(Target::Queue, 1);
    data.apply(Response {
        target: Some(Target::Queue),
        sequence: 2,
        notice: Notice::Queue(second),
    });
    assert_eq!(
        data.queue
            .unwrap()
            .entries
            .iter()
            .map(|e| e.id.as_str())
            .collect::<Vec<_>>(),
        ["a", "b"]
    );
}

#[test]
fn streams_merge_independently_and_failed_reads_are_not_empty_successes() {
    let mut data = Data::default();
    data.apply(Response {
        target: None,
        sequence: 9,
        notice: Notice::Volume(volume(900)),
    });
    data.apply(Response {
        target: None,
        sequence: 7,
        notice: Notice::Volume(volume(700)),
    });
    data.apply(Response {
        target: None,
        sequence: 2,
        notice: Notice::Session(SessionState {
            authorization: Authorization::Authorized,
            can_play_catalog: Some(true),
        }),
    });
    assert_eq!(data.volume.clone().unwrap().level, Some(900));
    assert!(data.session.is_some());
    data.volume = None;
    data.begin(Target::Main, 0);
    data.apply(Response {
        target: Some(Target::Main),
        sequence: 3,
        notice: Notice::Failure(Failure {
            code: ErrorCode::Network,
            message: "offline".into(),
            retryable: true,
        }),
    });
    assert_eq!(data.loading.len(), 0);
    assert!(data.errors.contains(&Target::Main));
    let mut ui = Ui {
        cursors: [7, 3],
        focus: Focus::Right,
        panel: Panel::Queue,
        ..Ui::default()
    };
    assert_eq!(ui.cursor(), 3);
    ui.focus = Focus::Main;
    assert_eq!(ui.cursor(), 7);
    ui.go(Screen::Albums);
    assert_eq!(ui.cursors, [0, 3]);
}
