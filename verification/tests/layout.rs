use lucky::position::Position;
use lucky::screen::{Client, Screen};
use lucky::screen_manager::{Direction, ScreenManager};
use lucky::tall_layout::{Boundary, EmptyFocus, FocusOp, MoveOp, TallLayout};

fn client(frame: u32, window: u32) -> Client {
    Client { frame, window, workspace: 0, visible: true }
}

#[test]
fn test_client_focusing() {
    let screen_positions = vec![Position::new(0, 0, 100, 100)];
    let mut screen_manager = ScreenManager::new(screen_positions, 1, false);

    let (frame_a, client_a) = (1, 101);
    let (frame_b, client_b) = (2, 102);
    screen_manager.create_client(frame_a, client_a);
    screen_manager.create_client(frame_b, client_b);
    let screen = screen_manager.screen_mut(0);
    let workspace = screen.active_workspace_mut();

    // set the first one to be selected
    workspace.set_focused_client(Some(frame_a));
    assert!(workspace.clients().len().eq(&2));
    assert!(screen.focused_client().eq(&Some(frame_a)));

    // the selected client sits at the boundary for this binding and the
    // single screen has no neighbor to the right, so nothing changes
    TallLayout::focus_client(
        &mut screen_manager,
        EmptyFocus::Last,
        Boundary::First,
        Direction::Right,
        FocusOp::Prev,
    );
    let screen = screen_manager.screen_mut(0);
    assert!(screen.focused_client().eq(&Some(frame_a)));

    // repeating it still changes nothing
    TallLayout::focus_client(
        &mut screen_manager,
        EmptyFocus::Last,
        Boundary::First,
        Direction::Right,
        FocusOp::Prev,
    );
    let screen = screen_manager.screen_mut(0);
    assert!(screen.focused_client().eq(&Some(frame_a)));

    // the same holds escaping to the left
    TallLayout::focus_client(
        &mut screen_manager,
        EmptyFocus::Last,
        Boundary::First,
        Direction::Left,
        FocusOp::First,
    );
    let screen = screen_manager.screen_mut(0);
    assert!(screen.focused_client().eq(&Some(frame_a)));

    TallLayout::focus_client(
        &mut screen_manager,
        EmptyFocus::Last,
        Boundary::First,
        Direction::Left,
        FocusOp::First,
    );
    let screen = screen_manager.screen_mut(0);
    assert!(screen.focused_client().eq(&Some(frame_a)));
}

#[test]
fn focus_steps_one_position_at_a_time() {
    let mut sm = ScreenManager::new(vec![Position::new(0, 0, 100, 100)], 1, false);
    sm.create_client(1, 101);
    sm.create_client(2, 102);
    sm.create_client(3, 103);
    sm.screen_mut(0)
        .active_workspace_mut()
        .set_focused_client(Some(3));

    // away from the first position, the prev operator moves back one
    TallLayout::focus_client(
        &mut sm,
        EmptyFocus::Last,
        Boundary::First,
        Direction::Right,
        FocusOp::Prev,
    );
    assert_eq!(sm.screen(0).focused_client(), Some(2));
    TallLayout::focus_client(
        &mut sm,
        EmptyFocus::Last,
        Boundary::First,
        Direction::Right,
        FocusOp::Prev,
    );
    assert_eq!(sm.screen(0).focused_client(), Some(1));

    // away from the last position, the next operator moves forward one
    TallLayout::focus_client(
        &mut sm,
        EmptyFocus::First,
        Boundary::Last,
        Direction::Left,
        FocusOp::Next,
    );
    assert_eq!(sm.screen(0).focused_client(), Some(2));
}

#[test]
fn focus_picks_when_empty_policy_without_a_focus() {
    let mut sm = ScreenManager::new(vec![Position::new(0, 0, 100, 100)], 1, false);
    sm.create_client(1, 101);
    sm.create_client(2, 102);
    sm.screen_mut(0).active_workspace_mut().set_focused_client(None);
    TallLayout::focus_client(
        &mut sm,
        EmptyFocus::Last,
        Boundary::First,
        Direction::Right,
        FocusOp::Prev,
    );
    assert_eq!(sm.screen(0).focused_client(), Some(2));
}

#[test]
fn focus_crosses_to_the_neighboring_screen() {
    let mut sm = ScreenManager::new(
        vec![Position::new(0, 0, 100, 100), Position::new(100, 0, 100, 100)],
        1,
        false,
    );
    sm.set_active_screen(1);
    sm.create_client(1, 101);
    assert_eq!(sm.screen(1).focused_client(), Some(1));

    // the focused client is first, so escaping left hops to screen 0;
    // screen 0 has no clients, so the walk stops there
    TallLayout::focus_client(
        &mut sm,
        EmptyFocus::Last,
        Boundary::First,
        Direction::Left,
        FocusOp::Prev,
    );
    assert_eq!(sm.active_screen_idx(), 0);
    assert_eq!(sm.screen(1).focused_client(), Some(1));
}

#[test]
fn move_swaps_within_the_workspace() {
    let mut sm = ScreenManager::new(vec![Position::new(0, 0, 100, 100)], 1, false);
    sm.create_client(1, 101);
    sm.create_client(2, 102);
    sm.create_client(3, 103);
    sm.screen_mut(0)
        .active_workspace_mut()
        .set_focused_client(Some(2));

    TallLayout::move_client(
        &mut sm,
        EmptyFocus::Last,
        Boundary::First,
        Direction::Right,
        MoveOp::Prev,
    );
    assert_eq!(sm.screen(0).active_workspace().clients().as_slice(), &[2, 1, 3]);

    TallLayout::move_client(
        &mut sm,
        EmptyFocus::Last,
        Boundary::Last,
        Direction::Left,
        MoveOp::Next,
    );
    assert_eq!(sm.screen(0).active_workspace().clients().as_slice(), &[1, 2, 3]);
}

#[test]
fn move_hops_to_the_neighboring_screen() {
    let mut sm = ScreenManager::new(
        vec![Position::new(0, 0, 100, 100), Position::new(100, 0, 100, 100)],
        1,
        false,
    );
    sm.create_client(1, 101);
    assert_eq!(sm.screen(0).focused_client(), Some(1));

    // the only client is last; moving right sends it to the next screen
    TallLayout::move_client(
        &mut sm,
        EmptyFocus::Last,
        Boundary::Last,
        Direction::Right,
        MoveOp::Next,
    );
    assert!(sm.screen(0).active_workspace().clients().is_empty());
    assert_eq!(sm.screen(1).active_workspace().clients().as_slice(), &[1]);
    // the client moved unfocused: the source focus was cleared and the
    // target focus is untouched
    assert_eq!(sm.screen(0).focused_client(), None);
    assert_eq!(sm.screen(1).focused_client(), None);
    // the move is a single hop: the active screen stays
    assert_eq!(sm.active_screen_idx(), 0);
}

#[test]
fn boundary_tests_look_at_the_list_ends() {
    let mut screen = Screen::new(1, Position::new(0, 0, 100, 100));
    screen.active_workspace_mut().new_client(7);
    screen.active_workspace_mut().new_client(8);
    assert!(TallLayout::is_first(&screen, 7));
    assert!(!TallLayout::is_first(&screen, 8));
    assert!(TallLayout::is_last(&screen, 8));
    assert!(!TallLayout::is_last(&screen, 7));
}

#[test]
fn swaps_exchange_positions() {
    let mut screen = Screen::new(1, Position::new(0, 0, 100, 100));
    for f in [1u32, 2, 3] {
        screen.active_workspace_mut().new_client(f);
    }
    TallLayout::swap_first(&mut screen, 3);
    assert_eq!(screen.active_workspace().clients().as_slice(), &[3, 2, 1]);
    TallLayout::swap_next(&mut screen, 3);
    assert_eq!(screen.active_workspace().clients().as_slice(), &[2, 3, 1]);
    TallLayout::swap_prev(&mut screen, 3);
    assert_eq!(screen.active_workspace().clients().as_slice(), &[3, 2, 1]);
}

#[test]
fn tall_geometry_single_client_fills_the_screen() {
    let screen_position = Position::new(0, 0, 800, 600);
    let clients = vec![client(1, 101)];
    let placements = TallLayout::display_clients(&screen_position, &clients, 2);
    assert_eq!(placements.len(), 1);
    assert_eq!(placements[0].frame, 1);
    assert_eq!(placements[0].window, 101);
    assert_eq!(placements[0].frame_position, Position::new(0, 0, 796, 596));
    assert_eq!(placements[0].client_position, Position::new(0, 0, 798, 598));
}

#[test]
fn tall_geometry_splits_main_and_side_columns() {
    // width 801 halves to a 400-wide main column and a 401-wide side
    // column: together they span the screen exactly
    let screen_position = Position::new(10, 20, 801, 600);
    let clients = vec![client(1, 101), client(2, 102), client(3, 103)];
    let placements = TallLayout::display_clients(&screen_position, &clients, 1);
    assert_eq!(placements.len(), 3);

    // main client: left column
    assert_eq!(placements[0].frame_position, Position::new(10, 20, 398, 598));
    assert_eq!(placements[0].client_position, Position::new(0, 0, 399, 599));

    // side clients: stacked slices of ceil(600 / 2) == 300
    assert_eq!(placements[1].frame_position, Position::new(410, 20, 399, 298));
    assert_eq!(placements[1].client_position, Position::new(0, 0, 399, 298));
    assert_eq!(placements[2].frame_position, Position::new(410, 320, 399, 298));
    assert_eq!(placements[2].client_position, Position::new(0, 0, 399, 298));

    // main width + side width covers the screen width exactly
    let main_w = 801 / 2;
    let side_w = 801 - main_w;
    assert_eq!(main_w + side_w, 801);
    // the side slices cover the height with the last slice running over
    assert!(300 * 2 >= 600);
}

#[test]
fn tall_geometry_uneven_heights_round_up() {
    // 601 over 2 side clients gives slices of 301: covered, no gaps
    let screen_position = Position::new(0, 0, 800, 601);
    let clients = vec![client(1, 101), client(2, 102), client(3, 103)];
    let placements = TallLayout::display_clients(&screen_position, &clients, 0);
    assert_eq!(placements[1].frame_position, Position::new(400, 0, 400, 301));
    assert_eq!(placements[2].frame_position, Position::new(400, 301, 400, 301));
    assert!(301 * 2 >= 601);
}

#[test]
fn focused_client_among_visible() {
    let a = client(1, 101);
    let b = client(2, 102);
    let c = client(3, 103);
    let visible = vec![a, b];
    assert_eq!(TallLayout::focused_client_among(&visible, Some(b)), Some(b));
    assert_eq!(TallLayout::focused_client_among(&visible, Some(c)), None);
    assert_eq!(TallLayout::focused_client_among(&visible, None), None);
}
