use lucky::position::{is_cursor_inside, Position};
use lucky::screen::{Client, IntoClient, ReservedClient, Screen, Workspace, WorkspaceLayout};

#[test]
fn position_edges() {
    let p = Position::new(10, -20, 30, 40);
    assert_eq!(p.left(), 10);
    assert_eq!(p.right(), 40);
    assert_eq!(p.top(), -20);
    assert_eq!(p.bottom(), 20);
}

#[test]
fn cursor_containment_is_half_open() {
    let p = Position::new(0, 0, 100, 100);
    assert!(is_cursor_inside(0, 0, &p));
    assert!(is_cursor_inside(99, 99, &p));
    assert!(!is_cursor_inside(100, 50, &p));
    assert!(!is_cursor_inside(50, 100, &p));
    assert!(!is_cursor_inside(-1, 50, &p));
}

#[test]
fn workspace_names_are_one_based() {
    assert_eq!(Workspace::new(0).name(), "Workspace 1");
    assert_eq!(Workspace::new(8).name(), "Workspace 9");
    assert_eq!(Workspace::new(9).name(), "Workspace 10");
    assert_eq!(Workspace::new(255).name(), "Workspace 256");
}

#[test]
fn workspace_client_list_and_focus() {
    let mut ws = Workspace::new(3);
    assert_eq!(ws.id(), 3);
    assert_eq!(ws.layout(), &WorkspaceLayout::Tall);
    assert!(ws.clients().is_empty());

    ws.new_client(5);
    ws.new_client(6);
    assert_eq!(ws.clients().as_slice(), &[5, 6]);

    ws.set_focused_client(Some(6));
    // removing a non-focused client keeps the focus
    ws.remove_client(5);
    assert_eq!(ws.clients().as_slice(), &[6]);

    // removing the focused client clears the focus for the caller to re-pick
    ws.remove_client(6);
    assert!(ws.clients().is_empty());

    let mut sole = Workspace::new(0);
    sole.new_client(9);
    sole.set_focused_client(Some(9));
    sole.remove_client(9);
    assert!(sole.clients().is_empty());
}

#[test]
fn screen_reserved_margins_shrink_the_available_area() {
    let mut screen = Screen::new(2, Position::new(100, 200, 1000, 800));
    assert_eq!(screen.get_available_area(), Position::new(100, 200, 1000, 800));

    screen.add_left_reserved_area(10);
    screen.add_top_reserved_area(20);
    screen.add_right_reserved_area(30);
    screen.add_bottom_reserved_area(40);
    assert_eq!(screen.get_available_area(), Position::new(110, 220, 960, 740));

    screen.sub_left_reserved_area(10);
    screen.sub_top_reserved_area(20);
    screen.sub_right_reserved_area(30);
    screen.sub_bottom_reserved_area(40);
    assert_eq!(screen.get_available_area(), Position::new(100, 200, 1000, 800));
}

#[test]
fn screen_workspaces_and_activation() {
    let mut screen = Screen::new(3, Position::new(0, 0, 100, 100));
    assert_eq!(screen.workspaces().len(), 3);
    assert_eq!(screen.active_workspace_id(), 0);
    screen.set_active_workspace(2);
    assert_eq!(screen.active_workspace_id(), 2);
    assert_eq!(screen.active_workspace().id(), 2);

    screen.active_workspace_mut().new_client(4);
    screen.active_workspace_mut().set_focused_client(Some(4));
    assert_eq!(screen.focused_client(), Some(4));
    // the other workspaces keep an independent focus
    screen.set_active_workspace(0);
    assert_eq!(screen.focused_client(), None);
}

#[test]
fn reserved_clients_are_tracked_per_screen() {
    let mut screen = Screen::new(1, Position::new(0, 0, 100, 100));
    let rc = ReservedClient {
        window: 77,
        show_on_all_workspaces: true,
        workspace: 0,
        position: Position::new(0, 0, 100, 10),
        reserved_left: 0,
        reserved_bottom: 0,
        reserved_top: 10,
        reserved_right: 0,
    };
    screen.add_reserved_client(rc);
    assert_eq!(screen.reserved_clients().len(), 1);
    assert_eq!(screen.reserved_clients()[0], rc);
    screen.remove_reserved_client(0);
    assert!(screen.reserved_clients().is_empty());
}

#[test]
fn into_client_identities() {
    let c = Client { frame: 1, window: 2, workspace: 0, visible: true };
    assert_eq!(c.get_window(), 2);
    assert_eq!(c.get_frame(), Some(1));
    let rc = ReservedClient {
        window: 9,
        show_on_all_workspaces: false,
        workspace: 1,
        position: Position::new(0, 0, 1, 1),
        reserved_left: 0,
        reserved_bottom: 0,
        reserved_top: 0,
        reserved_right: 0,
    };
    assert_eq!(rc.get_window(), 9);
    assert_eq!(rc.get_frame(), None);
}
