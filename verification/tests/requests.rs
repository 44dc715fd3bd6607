use muse::protocol::{
    API_VERSION, Ack, Command, CollectionUpdate, Event, ItemRef, Kind, LyricsChooseParams,
    LyricsOffsetParams, Notice, SeekParams, Source,
};
use muse::requests::Requests;
use muse::target::Target;

fn event(id: Option<u64>, sequence: u64) -> Event {
    Event {
        version: API_VERSION,
        id,
        sequence,
        event: Notice::Ack(Ack {
            message: "ok".into(),
        }),
    }
}

#[test]
fn superseded_reads_cannot_update_new_views() {
    let mut requests = Requests::default();
    let old = requests.prepare(Command::Snapshot, Target::Main).unwrap();
    let new = requests.prepare(Command::Snapshot, Target::Main).unwrap();
    let mutation = requests.prepare(Command::Snapshot, Target::Mutation).unwrap();
    assert!(requests.complete(event(Some(new.id), 8)).is_some());
    assert!(requests.complete(event(Some(old.id), 9)).is_none());
    assert!(requests.complete(event(Some(mutation.id), 3)).is_some());
    assert!(requests.complete(event(Some(mutation.id), 10)).is_none());
    // Coalesced unsolicited streams can interleave with older correlated replies.
    assert!(requests.complete(event(None, 2)).is_some());
    assert!(requests.is_idle());
}

#[test]
fn invalidation_never_cancels_saved_edits_or_playback() {
    let item = ItemRef {
        id: "song".into(),
        source: Source::Catalog,
        kind: Kind::Song,
    };
    for (command, target) in [
        (
            Command::LyricsChoose(LyricsChooseParams {
                item: item.clone(),
                match_id: 1,
            }),
            Target::Lyrics,
        ),
        (
            Command::LyricsOffset(LyricsOffsetParams {
                item,
                offset_ms: 1000,
            }),
            Target::Lyrics,
        ),
        (
            Command::Seek(SeekParams {
                entry_id: "entry".into(),
                position_ms: 2000,
            }),
            Target::Seek,
        ),
        (
            Command::CollectionUpdate(CollectionUpdate {
                id: "playlist".into(),
                name: Some("renamed".into()),
                description: None,
            }),
            Target::Mutation,
        ),
    ] {
        let mut requests = Requests::default();
        let request = requests.prepare(command, target.clone()).unwrap();
        requests.invalidate(&target);
        assert!(requests.next_cancel().is_none());
        assert_eq!(requests.pending_for(&target), [request.id]);
        requests.complete(event(Some(request.id), 1));
        assert!(requests.is_idle());
    }
}

#[test]
fn abandoned_views_stay_bounded_until_settled() {
    let mut requests = Requests::default();
    for _ in 0..16 {
        requests.prepare(Command::Snapshot, Target::Main).unwrap();
    }
    assert!(requests.prepare(Command::Snapshot, Target::Queue).is_err());
    assert_eq!(requests.pending_for(&Target::Main).len(), 16);
    requests.invalidate(&Target::Main);
    for id in 1..=16 {
        assert!(requests.complete(event(Some(id), id)).is_none());
    }
    let rejected = requests.prepare(Command::Snapshot, Target::Main).unwrap();
    requests.rejected(rejected.id);
    assert!(requests.is_idle());
    assert!(requests.complete(event(Some(rejected.id), 20)).is_none());
}

#[test]
fn invalidated_reads_are_cancelled_once_each() {
    let mut requests = Requests::default();
    let read = requests.prepare(Command::Snapshot, Target::Main).unwrap();
    requests.invalidate(&Target::Main);
    assert_eq!(requests.next_cancel(), Some(read.id));
    assert_eq!(requests.count(), 1);
    let cancel = requests
        .prepare(
            Command::Cancel(muse::protocol::CancelParams { request_id: read.id }),
            Target::Cancel(read.id),
        )
        .unwrap();
    assert_eq!(requests.count(), 2);
    assert_eq!(requests.next_cancel(), None);
    assert!(requests.complete(event(Some(cancel.id), 4)).is_none());
    assert!(requests.complete(event(Some(read.id), 5)).is_none());
    assert!(requests.is_idle());
}

#[test]
fn full_tracker_refuses_with_the_busy_message() {
    let mut requests = Requests::default();
    for _ in 0..16 {
        requests.prepare(Command::Snapshot, Target::Queue).unwrap();
    }
    assert_eq!(
        requests.prepare(Command::Snapshot, Target::Main).unwrap_err(),
        "처리 중입니다. 잠시 후 다시 시도해주세요"
    );
    assert_eq!(requests.count(), 16);
}

#[test]
fn replies_are_routed_once_and_unknown_ids_are_dropped() {
    let mut requests = Requests::default();
    let request = requests.prepare(Command::Snapshot, Target::Queue).unwrap();
    assert_eq!(request.id, 1);
    assert_eq!(request.version, API_VERSION);
    let response = requests.complete(event(Some(1), 6)).unwrap();
    assert_eq!(response.target, Some(Target::Queue));
    assert_eq!(response.sequence, 6);
    assert!(requests.complete(event(Some(1), 7)).is_none());
    assert!(requests.complete(event(Some(99), 8)).is_none());
    let unsolicited = requests.complete(event(None, 9)).unwrap();
    assert_eq!(unsolicited.target, None);
}
