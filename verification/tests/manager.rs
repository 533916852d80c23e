use lucky::position::Position;
use lucky::screen_manager::{Direction, ScreenManager};

fn manager_with(positions: Vec<Position>) -> ScreenManager {
    ScreenManager::new(positions, 2, false)
}

#[test]
fn get_screen_to_left() {
    let positions = vec![
        // active screen
        Position::new(1920, 0, 1920, 1080),
        // screen to the left of active screen
        Position::new(0, 0, 1920, 1080),
        // screen to the right of active screen
        Position::new(3840, 0, 1920, 1080),
        // screen to the bottom of active screen
        Position::new(1920, 1080, 1920, 1080),
        // screen to the bottom right of active screen
        Position::new(3840, 1080, 1920, 1080),
        // screen to the bottom left of active screen
        Position::new(0, 1080, 1920, 1080),
        // screen to the top of active screen
        Position::new(1920, -1080, 1920, 1080),
        // screen to the top right of active screen
        Position::new(3840, -1080, 1920, 1080),
        // screen to the top left of active screen
        Position::new(0, -1080, 1920, 1080),
    ];
    let sm = manager_with(positions);

    let idx = sm.get_relative_screen_idx(Direction::Left).unwrap();
    let expected = Position::new(0, 0, 1920, 1080);
    assert!(sm.screens()[idx].position() == &expected);

    let idx = sm.get_relative_screen_idx(Direction::Down).unwrap();
    let expected = Position::new(1920, 1080, 1920, 1080);
    assert!(sm.screens()[idx].position() == &expected);

    let idx = sm.get_relative_screen_idx(Direction::Up).unwrap();
    let expected = Position::new(1920, -1080, 1920, 1080);
    assert!(sm.screens()[idx].position() == &expected);

    let idx = sm.get_relative_screen_idx(Direction::Right).unwrap();
    let expected = Position::new(3840, 0, 1920, 1080);
    assert!(sm.screens()[idx].position() == &expected);

    let sm = manager_with(vec![Position::new(1920, 0, 1920, 1080)]);
    let idx = sm.get_relative_screen_idx(Direction::Up);
    assert!(idx.is_none());
}

#[test]
fn every_direction_is_none_on_a_single_screen() {
    let sm = manager_with(vec![Position::new(0, 0, 800, 600)]);
    assert!(sm.get_relative_screen_idx(Direction::Left).is_none());
    assert!(sm.get_relative_screen_idx(Direction::Right).is_none());
    assert!(sm.get_relative_screen_idx(Direction::Up).is_none());
    assert!(sm.get_relative_screen_idx(Direction::Down).is_none());
}

#[test]
fn ties_go_to_the_earliest_screen() {
    // two screens at the same distance to the left; the first one listed wins
    let positions = vec![
        Position::new(1920, 0, 1920, 1080),
        Position::new(0, 0, 1920, 1080),
        Position::new(0, 0, 1920, 1080),
    ];
    let mut sm = manager_with(positions);
    sm.set_active_screen(0);
    assert_eq!(sm.get_relative_screen_idx(Direction::Left), Some(1));
}

#[test]
fn create_client_registers_and_appends() {
    let mut sm = manager_with(vec![Position::new(0, 0, 800, 600)]);
    sm.create_client(10, 11);
    sm.create_client(20, 21);
    assert_eq!(sm.clients().len(), 2);
    assert_eq!(sm.clients()[0].frame, 10);
    assert_eq!(sm.clients()[0].window, 11);
    assert!(sm.clients()[0].visible);
    let ws = sm.screen(0).active_workspace();
    assert_eq!(ws.clients().as_slice(), &[10, 20]);
}

#[test]
fn create_client_focuses_only_first_when_focus_new_disabled() {
    let mut sm = ScreenManager::new(vec![Position::new(0, 0, 800, 600)], 2, false);
    // an empty workspace always ends up with a focused client after insertion
    sm.create_client(10, 11);
    assert_eq!(sm.screen(0).focused_client(), Some(10));
    // an existing focus on a non-empty workspace does not change
    sm.create_client(20, 21);
    assert_eq!(sm.screen(0).focused_client(), Some(10));
}

#[test]
fn create_client_focuses_new_when_enabled() {
    let mut sm = ScreenManager::new(vec![Position::new(0, 0, 800, 600)], 2, true);
    sm.create_client(10, 11);
    sm.create_client(20, 21);
    assert_eq!(sm.screen(0).focused_client(), Some(20));
}

#[test]
fn close_focused_client_removes_and_refocuses_first() {
    let mut sm = manager_with(vec![Position::new(0, 0, 800, 600)]);
    // workspace order [A, B, C] with focus on B
    sm.create_client(1, 101);
    sm.create_client(2, 102);
    sm.create_client(3, 103);
    sm.focus_client(102);
    assert_eq!(sm.screen(0).focused_client(), Some(2));
    let before = sm.clients()[1];

    let removed = sm.close_focused_client();

    // order [A, C], new focus A, and the returned record equals B's entry
    let ws = sm.screen(0).active_workspace();
    assert_eq!(ws.clients().as_slice(), &[1, 3]);
    assert_eq!(sm.screen(0).focused_client(), Some(1));
    assert_eq!(removed, Some(before));
    assert_eq!(sm.clients().len(), 2);
}

#[test]
fn close_focused_client_without_focus_does_nothing() {
    let mut sm = manager_with(vec![Position::new(0, 0, 800, 600)]);
    assert_eq!(sm.close_focused_client(), None);
    assert_eq!(sm.clients().len(), 0);
}

#[test]
fn focus_client_matches_window_or_frame() {
    let mut sm = manager_with(vec![Position::new(0, 0, 800, 600)]);
    sm.create_client(1, 101);
    sm.create_client(2, 102);
    // by content window id
    sm.focus_client(102);
    assert_eq!(sm.screen(0).focused_client(), Some(2));
    // by frame id
    sm.focus_client(1);
    assert_eq!(sm.screen(0).focused_client(), Some(1));
    // unknown id: a no-op
    sm.focus_client(9999);
    assert_eq!(sm.screen(0).focused_client(), Some(1));
}

#[test]
fn get_focused_client_returns_the_record() {
    let mut sm = manager_with(vec![Position::new(0, 0, 800, 600)]);
    assert!(sm.get_focused_client().is_none());
    sm.create_client(1, 101);
    let c = sm.get_focused_client().unwrap();
    assert_eq!(c.frame, 1);
    assert_eq!(c.window, 101);
}

#[test]
fn get_visible_screen_clients_keeps_workspace_order() {
    let mut sm = manager_with(vec![Position::new(0, 0, 800, 600)]);
    sm.create_client(1, 101);
    sm.create_client(2, 102);
    sm.create_client(3, 103);
    let records = sm.get_visible_screen_clients(0);
    let frames: Vec<u32> = records.iter().map(|c| c.frame).collect();
    assert_eq!(frames, vec![1, 2, 3]);
    let windows: Vec<u32> = records.iter().map(|c| c.window).collect();
    assert_eq!(windows, vec![101, 102, 103]);
}

#[test]
fn maybe_switch_screen_picks_the_containing_screen() {
    let mut sm = manager_with(vec![
        Position::new(0, 0, 100, 100),
        Position::new(100, 0, 100, 100),
    ]);
    // strictly inside exactly one screen
    sm.maybe_switch_screen(150, 50);
    assert_eq!(sm.active_screen_idx(), 1);
    sm.maybe_switch_screen(99, 99);
    assert_eq!(sm.active_screen_idx(), 0);
}

#[test]
fn maybe_switch_screen_excludes_right_and_bottom_edges() {
    let mut sm = manager_with(vec![
        Position::new(0, 0, 100, 100),
        Position::new(100, 0, 100, 100),
    ]);
    // x == 100 is the first screen's right edge: it selects the second screen
    sm.maybe_switch_screen(100, 50);
    assert_eq!(sm.active_screen_idx(), 1);
    // a point on the bottom edge of both screens selects neither
    sm.maybe_switch_screen(50, 100);
    assert_eq!(sm.active_screen_idx(), 1);
}

#[test]
fn screen_accessors_and_bounds() {
    let mut sm = manager_with(vec![
        Position::new(0, 0, 100, 100),
        Position::new(100, 0, 100, 100),
    ]);
    assert_eq!(sm.active_screen_idx(), 0);
    sm.set_active_screen(1);
    assert_eq!(sm.active_screen_idx(), 1);
    assert_eq!(sm.screens().len(), 2);
    assert_eq!(sm.screen(1).position(), &Position::new(100, 0, 100, 100));
    assert_eq!(sm.screen_mut(0).position(), &Position::new(0, 0, 100, 100));
}
