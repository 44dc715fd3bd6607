use muse::geometry::{Area, Layout};
use muse::state::{Focus, Ui};

#[test]
fn resizing_preserves_panel_intent_and_independent_cursors() {
    let mut ui = Ui {
        cursors: [7, 3],
        ..Ui::default()
    };
    let small = ui.fit(80, 24);
    assert!(small.nav.is_some() && small.side.is_none());
    ui.toggle_panel(Focus::Right, small);
    let small = ui.fit(80, 24);
    assert!(small.nav.is_none() && small.side.is_some());
    assert!(ui.left_open && ui.right_open);
    let wide = ui.fit(140, 40);
    assert!(wide.nav.is_some() && wide.side.is_some());
    ui.cycle_focus(wide, true);
    assert_eq!(ui.focus, Focus::Main);
    assert_eq!(ui.cursors, [7, 3]);
}

#[test]
fn areas_clamp_negative_sizes_and_hold_their_points() {
    let area = Area::new(2, 3, -4, 5);
    assert_eq!(area, Area { x: 2, y: 3, w: 0, h: 5 });
    let area = Area::new(2, 3, 4, 5);
    assert!(area.contains((2, 3)));
    assert!(area.contains((5, 7)));
    assert!(!area.contains((6, 7)));
    assert!(!area.contains((1, 3)));
}

#[test]
fn layouts_place_panels_around_the_main_list() {
    let layout = Layout::with_widths(140, 40, [21, 29], false);
    assert_eq!(layout.main, Area { x: 24, y: 4, w: 84, h: 31 });
    assert_eq!(layout.nav, Some(Area { x: 0, y: 4, w: 21, h: 31 }));
    let ui = Ui::default();
    let fitted = Layout::new(140, 40, &ui);
    assert!(fitted.nav.is_some() && fitted.side.is_some());
}
