use muse::geometry::Area;
use muse::scene::{Action, Hit, clip, topmost};

#[test]
fn hits_are_clipped_to_the_canvas() {
    assert_eq!(
        clip(Area { x: -2, y: 1, w: 5, h: 3 }, 80, 24),
        Some(Area { x: 0, y: 1, w: 3, h: 3 })
    );
    assert_eq!(
        clip(Area { x: 78, y: 22, w: 5, h: 5 }, 80, 24),
        Some(Area { x: 78, y: 22, w: 2, h: 2 })
    );
    assert_eq!(clip(Area { x: 80, y: 0, w: 5, h: 1 }, 80, 24), None);
    assert_eq!(clip(Area { x: 0, y: -3, w: 5, h: 3 }, 80, 24), None);
}

#[test]
fn pointer_uses_topmost_hits() {
    let hits = vec![
        Hit { area: Area { x: 0, y: 0, w: 10, h: 10 }, action: Action::Key("esc") },
        Hit { area: Area { x: 2, y: 2, w: 3, h: 3 }, action: Action::Dialog(5) },
    ];
    assert_eq!(topmost(&hits, (3, 3)), Some(1));
    assert_eq!(topmost(&hits, (8, 8)), Some(0));
    assert_eq!(topmost(&hits, (10, 10)), None);
    assert!(matches!(hits[topmost(&hits, (3, 3)).unwrap()].action, Action::Dialog(5)));
}
