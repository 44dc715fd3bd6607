use muse::controller::App;
use muse::protocol::{
    API_VERSION, Ack, Authorization, Command, ErrorCode, Event, Failure, Kind, Notice, Page, Scope,
    SeekParams, SessionState,
};
use muse::state::Screen;
use muse::target::Target;
use muse::transport::Admission;

#[test]
fn busy_transport_preserves_intent_and_navigation_replaces_unsent_reads() {
    let mut app = App::default();
    app.go(Screen::Songs);
    app.go(Screen::Albums);
    assert_eq!(app.outbox.len(), 1);
    assert_eq!(app.flush(|_| Ok(Admission::Busy)).unwrap(), 0);
    assert!(app.requests.is_idle());
    let mut sent = vec![];
    app.flush(|r| {
        sent.push(r.clone());
        Ok(Admission::Accepted)
    })
    .unwrap();
    assert!(matches!(&sent[0].command, Command::Browse(p) if p.kind == Kind::Album));
    app.go(Screen::Favorites);
    assert!(!app.receive(Event {
        version: 1,
        id: Some(sent[0].id),
        sequence: 1,
        event: Notice::Page(Page {
            items: vec![],
            next_offset: None
        })
    }));
    assert!(app.data.loading.contains(&Target::Main));
}

#[test]
fn reads_leave_capacity_for_control_and_drags_coalesce_unsent_intent() {
    let mut app = App::default();
    for i in 0..20 {
        app.send(Command::Snapshot, Target::Artwork(i.to_string()), 0);
    }
    assert_eq!(app.flush(|_| Ok(Admission::Accepted)).unwrap(), 12);
    for position_ms in [1000, 2000, 3000] {
        app.send(
            Command::Seek(SeekParams {
                position_ms,
                entry_id: "entry".into(),
            }),
            Target::Seek,
            0,
        );
    }
    assert_eq!(
        app.flush(|r| {
            assert!(matches!(&r.command, Command::Seek(p) if p.position_ms == 3000));
            Ok(Admission::Accepted)
        })
        .unwrap(),
        1
    );
}

#[test]
fn granted_authorization_reloads_library_even_when_subscription_is_unknown() {
    let mut app = App::default();
    app.data.errors.insert(
        Target::Main,
        Failure {
            code: ErrorCode::NotAuthorized,
            message: "접근 허용".into(),
            retryable: false,
        },
    );
    app.send(Command::Authorize, Target::Mutation, 0);
    let mut id = 0;
    app.flush(|r| {
        id = r.id;
        Ok(Admission::Accepted)
    })
    .unwrap();
    app.receive(Event {
        version: 1,
        id: None,
        sequence: 1,
        event: Notice::Failure(Failure {
            code: ErrorCode::Network,
            message: "구독 조회 실패".into(),
            retryable: true,
        }),
    });
    app.receive(Event {
        version: 1,
        id: Some(id),
        sequence: 2,
        event: Notice::Session(SessionState {
            authorization: Authorization::Authorized,
            can_play_catalog: None,
        }),
    });
    assert_eq!(
        app.data.session.as_ref().unwrap().authorization,
        Authorization::Authorized
    );
    assert!(!app.data.errors.contains(&Target::Main));
    assert!(app.data.loading.contains(&Target::Main));
    assert_eq!(
        app.data.notification_error().unwrap().1.message,
        "구독 조회 실패"
    );
    assert_eq!(
        app.flush(|r| {
            assert!(matches!(&r.command, Command::Browse(p) if p.scope == Scope::Library));
            Ok(Admission::Accepted)
        })
        .unwrap(),
        1
    );
}

#[test]
fn a_full_outbox_records_a_busy_failure() {
    let mut app = App::default();
    for i in 0..64 {
        assert!(app.send(Command::Snapshot, Target::Artwork(i.to_string()), 0));
    }
    assert!(!app.send(Command::Snapshot, Target::Artwork("late".into()), 0));
    assert_eq!(app.outbox.len(), 64);
    let failure = app.data.errors.get(&Target::Artwork("late".into())).unwrap();
    assert_eq!(failure.code, ErrorCode::Busy);
    assert_eq!(failure.message, "처리 중입니다. 잠시 후 다시 시도해주세요");
    assert!(failure.retryable);
    // A waiting intent for the same view is replaced rather than refused.
    assert!(app.send(Command::Snapshot, Target::Artwork("3".into()), 0));
    assert_eq!(app.outbox.len(), 64);
}

#[test]
fn closed_hosts_end_the_round() {
    let mut app = App::default();
    app.start();
    assert_eq!(
        app.flush(|_| Ok(Admission::Closed)).unwrap_err(),
        "음악 서비스 연결이 종료되었습니다"
    );
}

#[test]
fn start_asks_for_the_snapshot_before_the_main_view() {
    let mut app = App::default();
    app.start();
    let mut commands = vec![];
    app.flush(|r| {
        commands.push(r.command.clone());
        Ok(Admission::Accepted)
    })
    .unwrap();
    assert_eq!(commands.len(), 2);
    assert_eq!(commands[0], Command::Snapshot);
    assert!(matches!(&commands[1], Command::Browse(p) if p.scope == Scope::Library && p.kind == Kind::Song));
    let reply = Event {
        version: API_VERSION,
        id: Some(2),
        sequence: 1,
        event: Notice::Ack(Ack { message: "ok".into() }),
    };
    assert!(app.receive(reply));
    assert!(!app.data.loading.contains(&Target::Main));
}

#[test]
fn going_back_returns_to_the_view_before_full_lyrics() {
    let mut app = App::default();
    app.go(Screen::Albums);
    app.go(Screen::Lyrics);
    assert_eq!(app.ui.view, Screen::Lyrics);
    assert_eq!(app.ui.back, Screen::Albums);
    app.back();
    assert_eq!(app.ui.view, Screen::Albums);
    app.go(Screen::Lyrics);
    app.leave_full_lyrics();
    assert_eq!(app.ui.view, Screen::Albums);
}
