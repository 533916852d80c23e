//! The tall tiling layout: one main client fills the left column, the
//! remaining clients split the right column evenly; plus the directional
//! navigation that moves focus or clients inside a workspace and across
//! screen boundaries.

use vstd::arithmetic::div_mod::{
    lemma_div_nonincreasing, lemma_div_plus_one, lemma_fundamental_div_mod,
};
use vstd::arithmetic::mul::lemma_mul_inequality;
use vstd::prelude::*;

use crate::position::Position;
use crate::screen::{lemma_without_is_subset, spec_clients_without, Client, Screen, Workspace};
use crate::screen_manager::{
    lemma_entry_carries_over, spec_corner_distance, spec_directional_candidate,
    spec_screen_same_but_workspaces, spec_screens_unchanged_except,
    spec_workspace_same_but_clients, spec_workspaces_unchanged_except, Direction, ScreenManager,
};

verus! {

/// The stateless tall-layout algorithms.
pub struct TallLayout {}

/// The main client's column width: the whole screen when it is alone,
/// half the screen (rounded down) otherwise.
pub open spec fn spec_main_width(width: u32, n: int) -> int {
    if n == 1 {
        width as int
    } else {
        width as int / 2
    }
}

/// The side column's width: whatever the main column leaves over.
pub open spec fn spec_side_width(width: u32, n: int) -> int {
    width - spec_main_width(width, n)
}

/// Division rounding up.
pub open spec fn spec_ceil_div(x: int, d: int) -> int {
    (x + d - 1) / d
}

/// Each side client's height: the screen height divided by the number of
/// side clients, rounded up.
pub open spec fn spec_side_height(height: u32, siblings: int) -> int {
    spec_ceil_div(height as int, siblings)
}

/// Where one visible client goes: its frame's rectangle on the screen and
/// its content window's rectangle local to the frame.
#[derive(Clone, Copy, Debug, PartialEq, Eq, Structural)]
pub struct ClientPlacement {
    pub frame: u32,
    pub window: u32,
    pub frame_position: Position,
    pub client_position: Position,
}

/// The main client's placement: the frame fills the left column minus a
/// border ring; the content window sits at the frame's origin, one border
/// width smaller than the column on the right and bottom.
pub open spec fn spec_main_placement(screen: Position, c: Client, border: u32, n: int) -> ClientPlacement {
    let mw = spec_main_width(screen.width, n);
    ClientPlacement {
        frame: c.frame,
        window: c.window,
        frame_position: Position {
            x: screen.x,
            y: screen.y,
            width: (mw - 2 * border) as u32,
            height: (screen.height - 2 * border) as u32,
        },
        client_position: Position {
            x: 0,
            y: 0,
            width: (mw - border) as u32,
            height: (screen.height - border) as u32,
        },
    }
}

/// The placement of the side client at index `i` (counting the main client
/// as index 0): the side column, one slice of the stacked heights down.
pub open spec fn spec_side_placement(
    screen: Position,
    c: Client,
    border: u32,
    n: int,
    i: int,
) -> ClientPlacement {
    let mw = spec_main_width(screen.width, n);
    let sw = spec_side_width(screen.width, n);
    let sh = spec_side_height(screen.height, n - 1);
    ClientPlacement {
        frame: c.frame,
        window: c.window,
        frame_position: Position {
            x: (screen.x + mw) as i32,
            y: (screen.y + sh * (i - 1)) as i32,
            width: (sw - 2 * border) as u32,
            height: (sh - 2 * border) as u32,
        },
        client_position: Position {
            x: 0,
            y: 0,
            width: (sw - 2 * border) as u32,
            height: (sh - 2 * border) as u32,
        },
    }
}

/// When the tall geometry is computable without underflow or overflow:
/// every column and slice is at least as large as the border ring it
/// loses, and every placed coordinate stays representable.
pub open spec fn spec_layout_fits(screen: Position, n: int, border: u32) -> bool {
    &&& screen.wf()
    &&& 1 <= n <= u32::MAX
    &&& 2 * border <= spec_main_width(screen.width, n)
    &&& 2 * border <= screen.height
    &&& (n >= 2 ==> 2 * border <= spec_side_width(screen.width, n))
    &&& (n >= 2 ==> 2 * border <= spec_side_height(screen.height, n - 1))
    &&& (n >= 2 ==> screen.y + (n - 2) * spec_side_height(screen.height, n - 1) <= i32::MAX)
}

fn ceil_div_u32(x: u32, d: u32) -> (r: u32)
    requires
        d >= 1,
    ensures
        r == spec_ceil_div(x as int, d as int),
        r <= x,
    {
    if x == 0 {
        proof {
            vstd::arithmetic::div_mod::lemma_basic_div_specific_divisor(d as int);
            assert((0 + d - 1) / (d as int) == 0);
        }
        0
    } else {
        proof {
            lemma_div_nonincreasing((x - 1) as int, d as int);
            lemma_div_plus_one((x - 1) as int, d as int);
            assert((d + (x - 1)) as int == (x + d - 1) as int);
        }
        (x - 1) / d + 1
    }
}

impl TallLayout {
    /// Computes, for each visible client in workspace order, where its
    /// frame and its content window go: client 0 takes the main column,
    /// the others stack in the side column from the top.
    #[verifier::loop_isolation(false)]
    pub fn display_clients(
        screen_position: &Position,
        clients: &Vec<Client>,
        border_width: u32,
    ) -> (r: Vec<ClientPlacement>)
        requires
            clients@.len() >= 1 ==> spec_layout_fits(
                *screen_position,
                clients@.len() as int,
                border_width,
            ),
        ensures
            r@.len() == clients@.len(),
            clients@.len() >= 1 ==> r@[0] == spec_main_placement(
                *screen_position,
                clients@[0],
                border_width,
                clients@.len() as int,
            ),
            forall|i: int|
                1 <= i < clients@.len() ==> r@[i] == spec_side_placement(
                    *screen_position,
                    clients@[i],
                    border_width,
                    clients@.len() as int,
                    i,
                ),
    {
        let n = clients.len();
        let mut placements: Vec<ClientPlacement> = Vec::new();
        if n == 0 {
            return placements;
        }
        let main_width: u32 = if n == 1 {
            screen_position.width
        } else {
            screen_position.width / 2
        };
        let border_double: u32 = 2 * border_width;
        let main = ClientPlacement {
            frame: clients[0].frame,
            window: clients[0].window,
            frame_position: Position::new(
                screen_position.x,
                screen_position.y,
                main_width - border_double,
                screen_position.height - border_double,
            ),
            client_position: Position::new(
                0,
                0,
                main_width - border_width,
                screen_position.height - border_width,
            ),
        };
        placements.push(main);
        if n == 1 {
            return placements;
        }
        let side_width: u32 = screen_position.width - main_width;
        let siblings: u32 = (n - 1) as u32;
        let side_height: u32 = ceil_div_u32(screen_position.height, siblings);
        let side_size = Position::new(
            0,
            0,
            side_width - border_double,
            side_height - border_double,
        );
        let side_x: i32 = ((screen_position.x as i64) + (main_width as i64)) as i32;
        let mut i: usize = 1;
        while i < n
            invariant
                1 <= i <= n,
                placements@.len() == i,
                placements@[0] == spec_main_placement(
                    *screen_position,
                    clients@[0],
                    border_width,
                    n as int,
                ),
                forall|k: int|
                    1 <= k < i ==> placements@[k] == spec_side_placement(
                        *screen_position,
                        clients@[k],
                        border_width,
                        n as int,
                        k,
                    ),
            decreases n - i,
        {
            proof {
                lemma_mul_inequality(i - 1, n - 2, side_height as int);
                vstd::arithmetic::mul::lemma_mul_is_commutative(
                    side_height as int,
                    i - 1,
                );
                vstd::arithmetic::mul::lemma_mul_is_commutative(
                    side_height as int,
                    n - 2,
                );
                vstd::arithmetic::mul::lemma_mul_nonnegative(side_height as int, i - 1);
            }
            let offset: i64 = (side_height as i64) * ((i - 1) as i64);
            let side_y: i32 = ((screen_position.y as i64) + offset) as i32;
            let placement = ClientPlacement {
                frame: clients[i].frame,
                window: clients[i].window,
                frame_position: Position::new(
                    side_x,
                    side_y,
                    side_width - border_double,
                    side_height - border_double,
                ),
                client_position: side_size,
            };
            placements.push(placement);
            i += 1;
        }
        placements
    }

    /// The client that should be decorated as focused once the layout is
    /// shown: the workspace's focused client, when it is among the visible
    /// ones.
    #[verifier::loop_isolation(false)]
    pub fn focused_client_among(clients: &Vec<Client>, focused_client: Option<Client>) -> (r: Option<
        Client,
    >)
        ensures
            r == (match focused_client {
                Option::Some(fc) => if clients@.contains(fc) {
                    Some(fc)
                } else {
                    None::<Client>
                },
                Option::None => None::<Client>,
            }),
    {
        match focused_client {
            Option::Some(fc) => {
                let mut i: usize = 0;
                while i < clients.len()
                    invariant
                        i <= clients@.len(),
                        forall|k: int| 0 <= k < i ==> clients@[k] != fc,
                    decreases clients@.len() - i,
                {
                    if clients[i] == fc {
                        proof {
                            assert(clients@[i as int] == fc);
                            assert(clients@.contains(fc));
                        }
                        return Some(fc);
                    }
                    i += 1;
                }
                None
            },
            Option::None => None,
        }
    }
}

/// The position of the first occurrence of a value in a sequence;
/// meaningful only when the sequence contains the value.
pub open spec fn spec_first_index(s: Seq<u32>, v: u32) -> int
    decreases s.len(),
{
    if s.len() == 0 {
        0
    } else if s[0] == v {
        0
    } else {
        1 + spec_first_index(s.drop_first(), v)
    }
}

/// An index that holds the value, with no earlier occurrence, is the first
/// index of that value.
pub proof fn lemma_first_index_is(s: Seq<u32>, v: u32, i: int)
    requires
        0 <= i < s.len(),
        s[i] == v,
        forall|k: int| 0 <= k < i ==> s[k] != v,
    ensures
        spec_first_index(s, v) == i,
    decreases s.len(),
{
    if s[0] == v {
        assert(i == 0);
    } else {
        let t = s.drop_first();
        assert(t[i - 1] == v);
        assert forall|k: int| 0 <= k < i - 1 implies t[k] != v by {
            assert(t[k] == s[k + 1]);
        }
        lemma_first_index_is(t, v, i - 1);
    }
}

/// The first index of a contained value is in range, holds the value, and
/// nothing before it does.
pub proof fn lemma_first_index_bounds(s: Seq<u32>, v: u32)
    requires
        s.contains(v),
    ensures
        0 <= spec_first_index(s, v) < s.len(),
        s[spec_first_index(s, v)] == v,
        forall|k: int| 0 <= k < spec_first_index(s, v) ==> s[k] != v,
    decreases s.len(),
{
    if s[0] == v {
    } else {
        let t = s.drop_first();
        let j = choose|j: int| 0 <= j < s.len() && s[j] == v;
        assert(t[j - 1] == s[j]);
        assert(t.contains(v));
        lemma_first_index_bounds(t, v);
        assert forall|k: int| 0 <= k < spec_first_index(s, v) implies s[k] != v by {
            if k > 0 {
                assert(s[k] == t[k - 1]);
            }
        }
    }
}

/// The first index of the workspace's focused client among its clients.
/// Guarded navigation never leaves the list: when the boundary tests are
/// used as guards, stepping to the previous or next position stays in
/// bounds — away from the first position the index is at least one, and
/// away from the last position there is an index after it.
pub proof fn lemma_boundary_guards(ws: Workspace, client: u32)
    requires
        ws.clients@.contains(client),
    ensures
        !(ws.clients@.len() > 0 && ws.clients@[0] == client) ==> spec_first_index(
            ws.clients@,
            client,
        ) >= 1,
        !(ws.clients@.len() > 0 && ws.clients@.last() == client) ==> spec_first_index(
            ws.clients@,
            client,
        ) + 1 < ws.clients@.len(),
{
    lemma_first_index_bounds(ws.clients@, client);
    let fi = spec_first_index(ws.clients@, client);
    if ws.clients@.last() != client {
        assert(ws.clients@[ws.clients@.len() - 1] != client);
        assert(fi != ws.clients@.len() - 1);
    }
}

fn index_of(v: &Vec<u32>, x: u32) -> (r: usize)
    requires
        v@.contains(x),
    ensures
        r == spec_first_index(v@, x),
        r < v@.len(),
        v@[r as int] == x,
        forall|k: int| 0 <= k < r ==> v@[k] != x,
{
    let n = v.len();
    let mut i: usize = 0;
    proof {
        lemma_first_index_bounds(v@, x);
    }
    loop
        invariant
            v@.contains(x),
            n == v@.len(),
            0 <= i <= n,
            forall|k: int| 0 <= k < i ==> v@[k] != x,
            i <= spec_first_index(v@, x),
            spec_first_index(v@, x) < v@.len(),
            v@[spec_first_index(v@, x)] == x,
        decreases v@.len() - i,
    {
        if v[i] == x {
            proof {
                lemma_first_index_is(v@, x, i as int);
            }
            return i;
        }
        i += 1;
    }
}

impl TallLayout {
    /// Whether this client sits at the head of the active workspace's list.
    pub fn is_first(screen: &Screen, client: u32) -> (r: bool)
        requires
            (screen.active_workspace as int) < screen.workspaces@.len(),
        ensures
            r == (screen.spec_active_workspace().clients@.len() > 0
                && screen.spec_active_workspace().clients@[0] == client),
    {
        let clients = screen.active_workspace().clients();
        clients.len() > 0 && clients[0] == client
    }

    /// Whether this client sits at the tail of the active workspace's list.
    pub fn is_last(screen: &Screen, client: u32) -> (r: bool)
        requires
            (screen.active_workspace as int) < screen.workspaces@.len(),
        ensures
            r == (screen.spec_active_workspace().clients@.len() > 0
                && screen.spec_active_workspace().clients@.last() == client),
    {
        let clients = screen.active_workspace().clients();
        clients.len() > 0 && clients[clients.len() - 1] == client
    }

    fn swap_with(screen: &mut Screen, client: u32, j: usize)
        requires
            (old(screen).active_workspace as int) < old(screen).workspaces@.len(),
            old(screen).spec_active_workspace().clients@.contains(client),
            (j as int) < old(screen).spec_active_workspace().clients@.len(),
        ensures
            spec_screen_ws_step(
                *old(screen),
                *final(screen),
                final(screen).workspaces@[old(screen).active_workspace as int],
            ),
            spec_ws_clients_swapped(
                old(screen).spec_active_workspace(),
                final(screen).workspaces@[old(screen).active_workspace as int],
                client,
                j as int,
            ),
            old(screen).wf() ==> final(screen).wf(),
    {
        let ghost w0 = old(screen).spec_active_workspace();
        let workspace = screen.active_workspace_mut();
        let index = index_of(workspace.clients(), client);
        let clients = workspace.clients_mut();
        let at_index = clients[index];
        let at_j = clients[j];
        clients.set(index, at_j);
        clients.set(j, at_index);
        proof {
            if old(screen).wf() {
                let w1 = screen.workspaces@[old(screen).active_workspace as int];
                if w1.focused_client is Some {
                    lemma_swap_preserves_contains(
                        w0.clients@,
                        client,
                        j as int,
                        w1.focused_client->0,
                    );
                }
                assert forall|k: int| 0 <= k < screen.workspaces@.len() implies (
                #[trigger] screen.workspaces@[k]).wf() by {
                    assert(old(screen).workspaces@[k].wf());
                }
                assert forall|k: int| 0 <= k < screen.workspaces@.len() implies (
                #[trigger] screen.workspaces@[k]).id == k by {
                    assert(old(screen).workspaces@[k].id == k);
                }
            }
        }
    }

    /// Exchanges the selected client with the head of the list: it becomes
    /// the main client.
    pub fn swap_first(screen: &mut Screen, client: u32)
        requires
            (old(screen).active_workspace as int) < old(screen).workspaces@.len(),
            old(screen).spec_active_workspace().clients@.contains(client),
        ensures
            spec_screen_ws_step(
                *old(screen),
                *final(screen),
                final(screen).workspaces@[old(screen).active_workspace as int],
            ),
            spec_ws_clients_swapped(
                old(screen).spec_active_workspace(),
                final(screen).workspaces@[old(screen).active_workspace as int],
                client,
                0,
            ),
            old(screen).wf() ==> final(screen).wf(),
    {
        Self::swap_with(screen, client, 0)
    }

    /// Exchanges the selected client with its predecessor in the list.
    pub fn swap_prev(screen: &mut Screen, client: u32)
        requires
            (old(screen).active_workspace as int) < old(screen).workspaces@.len(),
            old(screen).spec_active_workspace().clients@.contains(client),
            spec_first_index(old(screen).spec_active_workspace().clients@, client) >= 1,
        ensures
            spec_screen_ws_step(
                *old(screen),
                *final(screen),
                final(screen).workspaces@[old(screen).active_workspace as int],
            ),
            spec_ws_clients_swapped(
                old(screen).spec_active_workspace(),
                final(screen).workspaces@[old(screen).active_workspace as int],
                client,
                spec_first_index(old(screen).spec_active_workspace().clients@, client) - 1,
            ),
            old(screen).wf() ==> final(screen).wf(),
    {
        let index = index_of(screen.active_workspace().clients(), client);
        Self::swap_with(screen, client, index - 1)
    }

    /// Exchanges the selected client with its successor in the list.
    pub fn swap_next(screen: &mut Screen, client: u32)
        requires
            (old(screen).active_workspace as int) < old(screen).workspaces@.len(),
            old(screen).spec_active_workspace().clients@.contains(client),
            spec_first_index(old(screen).spec_active_workspace().clients@, client) + 1 < old(
                screen,
            ).spec_active_workspace().clients@.len(),
        ensures
            spec_screen_ws_step(
                *old(screen),
                *final(screen),
                final(screen).workspaces@[old(screen).active_workspace as int],
            ),
            spec_ws_clients_swapped(
                old(screen).spec_active_workspace(),
                final(screen).workspaces@[old(screen).active_workspace as int],
                client,
                spec_first_index(old(screen).spec_active_workspace().clients@, client) + 1,
            ),
            old(screen).wf() ==> final(screen).wf(),
    {
        // reading the length teaches the verifier that the list fits a usize
        let _list_len = screen.active_workspace().clients().len();
        let index = index_of(screen.active_workspace().clients(), client);
        Self::swap_with(screen, client, index + 1)
    }

    /// Focuses the first client of the active workspace.
    pub fn focus_first(screen: &mut Screen)
        requires
            (old(screen).active_workspace as int) < old(screen).workspaces@.len(),
            old(screen).spec_active_workspace().clients@.len() > 0,
        ensures
            spec_screen_ws_step(
                *old(screen),
                *final(screen),
                (Workspace {
                    focused_client: Some(old(screen).spec_active_workspace().clients@[0]),
                    ..old(screen).spec_active_workspace()
                }),
            ),
            old(screen).wf() ==> final(screen).wf(),
    {
        let workspace = screen.active_workspace_mut();
        let first = workspace.clients()[0];
        proof {
            assert(workspace.clients@.contains(workspace.clients@[0]));
        }
        workspace.set_focused_client(Some(first));
        proof {
            lemma_screen_update_keeps_wf(*old(screen), *screen);
        }
    }

    /// Focuses the last client of the active workspace.
    pub fn focus_last(screen: &mut Screen)
        requires
            (old(screen).active_workspace as int) < old(screen).workspaces@.len(),
            old(screen).spec_active_workspace().clients@.len() > 0,
        ensures
            spec_screen_ws_step(
                *old(screen),
                *final(screen),
                (Workspace {
                    focused_client: Some(old(screen).spec_active_workspace().clients@.last()),
                    ..old(screen).spec_active_workspace()
                }),
            ),
            old(screen).wf() ==> final(screen).wf(),
    {
        let workspace = screen.active_workspace_mut();
        let last = workspace.clients()[workspace.clients().len() - 1];
        proof {
            assert(workspace.clients@.contains(workspace.clients@.last()));
        }
        workspace.set_focused_client(Some(last));
        proof {
            lemma_screen_update_keeps_wf(*old(screen), *screen);
        }
    }

    /// Moves the focus one position back in the list, from the selected
    /// client to its predecessor.
    pub fn focus_prev(screen: &mut Screen, client: u32)
        requires
            (old(screen).active_workspace as int) < old(screen).workspaces@.len(),
            old(screen).spec_active_workspace().clients@.contains(client),
            spec_first_index(old(screen).spec_active_workspace().clients@, client) >= 1,
        ensures
            spec_screen_ws_step(
                *old(screen),
                *final(screen),
                (Workspace {
                    focused_client: Some(
                        old(screen).spec_active_workspace().clients@[spec_first_index(
                            old(screen).spec_active_workspace().clients@,
                            client,
                        ) - 1],
                    ),
                    ..old(screen).spec_active_workspace()
                }),
            ),
            old(screen).wf() ==> final(screen).wf(),
    {
        let workspace = screen.active_workspace_mut();
        let index = index_of(workspace.clients(), client);
        let target = workspace.clients()[index - 1];
        proof {
            assert(workspace.clients@.contains(workspace.clients@[index - 1]));
        }
        workspace.set_focused_client(Some(target));
        proof {
            lemma_screen_update_keeps_wf(*old(screen), *screen);
        }
    }

    /// Moves the focus one position forward in the list, from the selected
    /// client to its successor.
    pub fn focus_next(screen: &mut Screen, client: u32)
        requires
            (old(screen).active_workspace as int) < old(screen).workspaces@.len(),
            old(screen).spec_active_workspace().clients@.contains(client),
            spec_first_index(old(screen).spec_active_workspace().clients@, client) + 1 < old(
                screen,
            ).spec_active_workspace().clients@.len(),
        ensures
            spec_screen_ws_step(
                *old(screen),
                *final(screen),
                (Workspace {
                    focused_client: Some(
                        old(screen).spec_active_workspace().clients@[spec_first_index(
                            old(screen).spec_active_workspace().clients@,
                            client,
                        ) + 1],
                    ),
                    ..old(screen).spec_active_workspace()
                }),
            ),
            old(screen).wf() ==> final(screen).wf(),
    {
        let workspace = screen.active_workspace_mut();
        // reading the length teaches the verifier that the list fits a usize
        let _list_len = workspace.clients().len();
        let index = index_of(workspace.clients(), client);
        let target = workspace.clients()[index + 1];
        proof {
            assert(workspace.clients@.contains(workspace.clients@[index + 1]));
        }
        workspace.set_focused_client(Some(target));
        proof {
            lemma_screen_update_keeps_wf(*old(screen), *screen);
        }
    }
}

/// What to do when a workspace has clients but none is focused.
#[derive(Clone, Copy, Debug, PartialEq, Eq, Structural)]
pub enum EmptyFocus {
    First,
    Last,
}

/// Which end of the client list counts as the boundary of the screen in
/// the requested direction: at the boundary, navigation leaves the screen.
#[derive(Clone, Copy, Debug, PartialEq, Eq, Structural)]
pub enum Boundary {
    First,
    Last,
}

/// The terminal focus operator a direction binds.
#[derive(Clone, Copy, Debug, PartialEq, Eq, Structural)]
pub enum FocusOp {
    First,
    Last,
    Prev,
    Next,
}

/// The terminal list operator a direction binds when moving a client.
#[derive(Clone, Copy, Debug, PartialEq, Eq, Structural)]
pub enum MoveOp {
    First,
    Prev,
    Next,
}

/// The coordinate that cross-screen navigation strictly lowers with every
/// hop in the given direction; it bounds the chain of visited screens.
pub open spec fn spec_nav_key(p: Position, d: Direction) -> int {
    match d {
        Direction::Left => p.x as int,
        Direction::Up => p.y as int,
        Direction::Right => -(p.x as int),
        Direction::Down => -(p.y as int),
    }
}

/// A termination measure for cross-screen navigation: the active screen's
/// navigation key, shifted to be non-negative.
pub open spec fn spec_nav_measure(sm: ScreenManager, d: Direction) -> int {
    spec_nav_key(sm.spec_active_screen().position, d) + 0x8000_0000
}

/// The screen that directional navigation hops to: among the screens in
/// the direction's half-plane, the first (in list order) of those closest
/// to the current rectangle's top-left corner; folded over the list.
pub open spec fn spec_best_candidate(screens: Seq<Screen>, cur: Position, d: Direction) -> Option<
    int,
>
    decreases screens.len(),
{
    if screens.len() == 0 {
        None
    } else {
        let prefix = spec_best_candidate(screens.drop_last(), cur, d);
        let last = screens.len() - 1;
        if spec_directional_candidate(screens.last().position, cur, d) {
            match prefix {
                Option::None => Some(last as int),
                Option::Some(b) => if spec_corner_distance(screens.last().position, cur)
                    < spec_corner_distance(screens[b].position, cur) {
                    Some(last as int)
                } else {
                    Some(b)
                },
            }
        } else {
            prefix
        }
    }
}

/// The folded best candidate is exactly the first-encountered closest
/// candidate, and it is absent exactly when no screen qualifies.
pub proof fn lemma_best_candidate_props(screens: Seq<Screen>, cur: Position, d: Direction)
    ensures
        match spec_best_candidate(screens, cur, d) {
            Option::None => forall|i: int|
                0 <= i < screens.len() ==> !spec_directional_candidate(
                    (#[trigger] screens[i]).position,
                    cur,
                    d,
                ),
            Option::Some(b) => {
                &&& 0 <= b < screens.len()
                &&& spec_directional_candidate(screens[b].position, cur, d)
                &&& forall|i: int|
                    0 <= i < screens.len() && spec_directional_candidate(
                        (#[trigger] screens[i]).position,
                        cur,
                        d,
                    ) ==> spec_corner_distance(screens[b].position, cur) <= spec_corner_distance(
                        screens[i].position,
                        cur,
                    )
                &&& forall|i: int|
                    0 <= i < b && spec_directional_candidate(
                        (#[trigger] screens[i]).position,
                        cur,
                        d,
                    ) ==> spec_corner_distance(screens[b].position, cur) < spec_corner_distance(
                        screens[i].position,
                        cur,
                    )
            },
        },
    decreases screens.len(),
{
    if screens.len() > 0 {
        let t = screens.drop_last();
        lemma_best_candidate_props(t, cur, d);
        assert(forall|i: int| 0 <= i < t.len() ==> t[i] == (#[trigger] screens[i]));
        assert(screens.last() == screens[screens.len() - 1]);
    }
}

/// An exec result that satisfies the first-closest-candidate
/// characterization is the folded best candidate.
pub proof fn lemma_best_candidate_unique(
    screens: Seq<Screen>,
    cur: Position,
    d: Direction,
    r: Option<usize>,
)
    requires
        r is None ==> forall|i: int|
            0 <= i < screens.len() ==> !spec_directional_candidate(
                (#[trigger] screens[i]).position,
                cur,
                d,
            ),
        r is Some ==> {
            let idx = r->0 as int;
            &&& 0 <= idx < screens.len()
            &&& spec_directional_candidate(screens[idx].position, cur, d)
            &&& forall|i: int|
                0 <= i < screens.len() && spec_directional_candidate(
                    (#[trigger] screens[i]).position,
                    cur,
                    d,
                ) ==> spec_corner_distance(screens[idx].position, cur) <= spec_corner_distance(
                    screens[i].position,
                    cur,
                )
            &&& forall|i: int|
                0 <= i < idx && spec_directional_candidate(
                    (#[trigger] screens[i]).position,
                    cur,
                    d,
                ) ==> spec_corner_distance(screens[idx].position, cur) < spec_corner_distance(
                    screens[i].position,
                    cur,
                )
        },
    ensures
        match r {
            Option::None => spec_best_candidate(screens, cur, d) is None,
            Option::Some(idx) => spec_best_candidate(screens, cur, d) == Some(idx as int),
        },
{
    lemma_best_candidate_props(screens, cur, d);
    match r {
        Option::None => {
            if spec_best_candidate(screens, cur, d) is Some {
                let b = spec_best_candidate(screens, cur, d)->0;
                assert(!spec_directional_candidate(screens[b].position, cur, d));
            }
        },
        Option::Some(idx) => {
            match spec_best_candidate(screens, cur, d) {
                Option::None => {
                    assert(!spec_directional_candidate(screens[idx as int].position, cur, d));
                },
                Option::Some(b) => {
                    if b < idx as int {
                        assert(spec_corner_distance(screens[idx as int].position, cur)
                            < spec_corner_distance(screens[b].position, cur));
                        assert(spec_corner_distance(screens[b].position, cur)
                            <= spec_corner_distance(screens[idx as int].position, cur));
                    } else if b > idx as int {
                        assert(spec_corner_distance(screens[b].position, cur)
                            < spec_corner_distance(screens[idx as int].position, cur));
                        assert(spec_corner_distance(screens[idx as int].position, cur)
                            <= spec_corner_distance(screens[b].position, cur));
                    }
                },
            }
        },
    }
}

/// A directional candidate's navigation key is strictly below the active
/// screen's: screens have positive extent, so a hop always makes strict
/// spatial progress and no navigation can revisit a screen.
pub proof fn lemma_candidate_key_decreases(a: ScreenManager, n: int, d: Direction)
    requires
        a.wf(),
        0 <= n < a.screens@.len(),
        spec_directional_candidate(
            a.screens@[n].position,
            a.spec_active_screen().position,
            d,
        ),
    ensures
        spec_nav_key(a.screens@[n].position, d) < spec_nav_key(
            a.spec_active_screen().position,
            d,
        ),
{
    assert(a.screens@[n].wf());
    assert(a.spec_active_screen().wf());
}

/// `b` is `a` with only the active screen's active workspace replaced by
/// `w1`.
pub open spec fn spec_manager_ws_step(a: ScreenManager, b: ScreenManager, w1: Workspace) -> bool {
    &&& b.clients == a.clients
    &&& b.active_screen == a.active_screen
    &&& b.focus_new_clients == a.focus_new_clients
    &&& spec_screens_unchanged_except(a, b, a.active_screen as int)
    &&& spec_screen_ws_step(a.spec_active_screen(), b.screens@[a.active_screen as int], w1)
}

/// The workspace after the when-empty policy ran: focus lands on the first
/// or the last client.
pub open spec fn spec_apply_empty(ws: Workspace, when_empty: EmptyFocus) -> Workspace {
    match when_empty {
        EmptyFocus::First => Workspace { focused_client: Some(ws.clients@[0]), ..ws },
        EmptyFocus::Last => Workspace { focused_client: Some(ws.clients@.last()), ..ws },
    }
}

/// Whether the selected client sits at the boundary position the policy
/// names.
pub open spec fn spec_at_boundary(ws: Workspace, boundary: Boundary, client: u32) -> bool {
    match boundary {
        Boundary::First => ws.clients@.len() > 0 && ws.clients@[0] == client,
        Boundary::Last => ws.clients@.len() > 0 && ws.clients@.last() == client,
    }
}

/// The workspace after a terminal focus operator ran on the selected
/// client.
pub open spec fn spec_apply_focus_op(ws: Workspace, op: FocusOp, client: u32) -> Workspace {
    let fi = spec_first_index(ws.clients@, client);
    match op {
        FocusOp::First => Workspace { focused_client: Some(ws.clients@[0]), ..ws },
        FocusOp::Last => Workspace { focused_client: Some(ws.clients@.last()), ..ws },
        FocusOp::Prev => Workspace { focused_client: Some(ws.clients@[fi - 1]), ..ws },
        FocusOp::Next => Workspace { focused_client: Some(ws.clients@[fi + 1]), ..ws },
    }
}

/// The boundary policy guards its operator: stepping back is guarded by
/// the first position, stepping forward by the last, so the step stays in
/// bounds.
pub open spec fn spec_focus_policies_guarded(boundary: Boundary, op: FocusOp) -> bool {
    &&& (op == FocusOp::Prev ==> boundary == Boundary::First)
    &&& (op == FocusOp::Next ==> boundary == Boundary::Last)
}

/// What directional focus navigation does, related from the starting
/// manager to the finished one. An empty active workspace is left alone; a
/// workspace with clients but no focus gets the when-empty policy; a
/// focused client at the boundary sends the navigation to the nearest
/// screen in the direction (when there is one), where the whole algorithm
/// repeats; otherwise the terminal operator moves the focus.
pub open spec fn spec_focus_navigation(
    a: ScreenManager,
    b: ScreenManager,
    when_empty: EmptyFocus,
    boundary: Boundary,
    direction: Direction,
    op: FocusOp,
) -> bool
    decreases spec_nav_measure(a, direction),
        when a.wf()
        via spec_focus_navigation_decreases
{
    let ws = a.spec_active_screen().spec_active_workspace();
    if ws.clients@.len() == 0 {
        b == a
    } else if ws.focused_client is None {
        spec_manager_ws_step(a, b, spec_apply_empty(ws, when_empty))
    } else if spec_at_boundary(ws, boundary, ws.focused_client->0) {
        match spec_best_candidate(a.screens@, a.spec_active_screen().position, direction) {
            Option::None => b == a,
            Option::Some(n) => spec_focus_navigation(
                ScreenManager { active_screen: n as usize, ..a },
                b,
                when_empty,
                boundary,
                direction,
                op,
            ),
        }
    } else {
        spec_manager_ws_step(a, b, spec_apply_focus_op(ws, op, ws.focused_client->0))
    }
}

#[via_fn]
proof fn spec_focus_navigation_decreases(
    a: ScreenManager,
    b: ScreenManager,
    when_empty: EmptyFocus,
    boundary: Boundary,
    direction: Direction,
    op: FocusOp,
) {
    lemma_best_candidate_props(a.screens@, a.spec_active_screen().position, direction);
    match spec_best_candidate(a.screens@, a.spec_active_screen().position, direction) {
        Option::Some(n) => {
            if a.wf() {
                lemma_candidate_key_decreases(a, n, direction);
                vstd::std_specs::vec::axiom_spec_len(&a.screens);
                assert(n as usize as int == n);
                assert((ScreenManager {
                    active_screen: n as usize,
                    ..a
                }).spec_active_screen() == a.screens@[n]);
            }
        },
        Option::None => {},
    }
}

/// A manager whose screens were updated only with well-formed screens, and
/// whose other fields kept their bounds, stays well-formed.
proof fn lemma_manager_screens_update_keeps_wf(a: ScreenManager, b: ScreenManager)
    requires
        a.wf(),
        b.clients == a.clients,
        b.active_screen == a.active_screen,
        b.screens@.len() == a.screens@.len(),
        forall|i: int|
            0 <= i < b.screens@.len() ==> (#[trigger] b.screens@[i]).wf() || b.screens@[i]
                == a.screens@[i],
    ensures
        b.wf(),
{
    assert forall|i: int| 0 <= i < b.screens@.len() implies (#[trigger] b.screens@[i]).wf() by {
        assert(a.screens@[i].wf());
    }
}

impl TallLayout {
    /// Moves the focus in a direction, by the policy triple the direction
    /// binds: a workspace with clients but no focus gets the when-empty
    /// focus; a focused client at the boundary sends the focus to the
    /// nearest screen in that direction, where the algorithm repeats; away
    /// from the boundary the terminal operator steps the focus by one
    /// position. The walk is bounded: every hop makes strict spatial
    /// progress.
    #[verifier::loop_isolation(false)]
    pub fn focus_client(
        screen_manager: &mut ScreenManager,
        when_empty: EmptyFocus,
        should_change_screen: Boundary,
        change_screen_direction: Direction,
        focus: FocusOp,
    )
        requires
            old(screen_manager).wf(),
            spec_focus_policies_guarded(should_change_screen, focus),
        ensures
            final(screen_manager).wf(),
            spec_focus_navigation(
                *old(screen_manager),
                *final(screen_manager),
                when_empty,
                should_change_screen,
                change_screen_direction,
                focus,
            ),
    {
        loop
            invariant
                screen_manager.wf(),
                forall|b: ScreenManager|
                    #![trigger spec_focus_navigation(*screen_manager, b, when_empty, should_change_screen, change_screen_direction, focus)]
                    spec_focus_navigation(
                        *screen_manager,
                        b,
                        when_empty,
                        should_change_screen,
                        change_screen_direction,
                        focus,
                    ) ==> spec_focus_navigation(
                        *old(screen_manager),
                        b,
                        when_empty,
                        should_change_screen,
                        change_screen_direction,
                        focus,
                    ),
            decreases spec_nav_measure(*screen_manager, change_screen_direction),
        {
            let ghost pre = *screen_manager;
            let index = screen_manager.active_screen_idx();
            let ghost ws = pre.spec_active_screen().spec_active_workspace();
            if screen_manager.screen(index).active_workspace().clients().len() == 0 {
                proof {
                    assert(spec_focus_navigation(
                        pre,
                        *screen_manager,
                        when_empty,
                        should_change_screen,
                        change_screen_direction,
                        focus,
                    ));
                }
                return ;
            }
            let focused = screen_manager.screen(index).focused_client();
            match focused {
                Option::None => {
                    let screen = screen_manager.screen_mut(index);
                    match when_empty {
                        EmptyFocus::First => Self::focus_first(screen),
                        EmptyFocus::Last => Self::focus_last(screen),
                    }
                    proof {
                        lemma_manager_screens_update_keeps_wf(pre, *screen_manager);
                        assert(spec_manager_ws_step(
                            pre,
                            *screen_manager,
                            spec_apply_empty(ws, when_empty),
                        ));
                        assert(spec_focus_navigation(
                            pre,
                            *screen_manager,
                            when_empty,
                            should_change_screen,
                            change_screen_direction,
                            focus,
                        ));
                    }
                    return ;
                },
                Option::Some(client) => {
                    let at_boundary = match should_change_screen {
                        Boundary::First => Self::is_first(screen_manager.screen(index), client),
                        Boundary::Last => Self::is_last(screen_manager.screen(index), client),
                    };
                    proof {
                        assert(at_boundary == spec_at_boundary(ws, should_change_screen, client));
                    }
                    if at_boundary {
                        let next = screen_manager.get_relative_screen_idx(change_screen_direction);
                        proof {
                            lemma_best_candidate_unique(
                                pre.screens@,
                                pre.spec_active_screen().position,
                                change_screen_direction,
                                next,
                            );
                        }
                        match next {
                            Option::None => {
                                proof {
                                    assert(spec_focus_navigation(
                                        pre,
                                        *screen_manager,
                                        when_empty,
                                        should_change_screen,
                                        change_screen_direction,
                                        focus,
                                    ));
                                }
                                return ;
                            },
                            Option::Some(new_screen) => {
                                screen_manager.set_active_screen(new_screen);
                                proof {
                                    lemma_candidate_key_decreases(
                                        pre,
                                        new_screen as int,
                                        change_screen_direction,
                                    );
                                    assert forall|b: ScreenManager|
                                        spec_focus_navigation(
                                            *screen_manager,
                                            b,
                                            when_empty,
                                            should_change_screen,
                                            change_screen_direction,
                                            focus,
                                        ) implies spec_focus_navigation(
                                        *old(screen_manager),
                                        b,
                                        when_empty,
                                        should_change_screen,
                                        change_screen_direction,
                                        focus,
                                    ) by {
                                        assert(spec_focus_navigation(
                                            pre,
                                            b,
                                            when_empty,
                                            should_change_screen,
                                            change_screen_direction,
                                            focus,
                                        ) == spec_focus_navigation(
                                            *screen_manager,
                                            b,
                                            when_empty,
                                            should_change_screen,
                                            change_screen_direction,
                                            focus,
                                        ));
                                    }
                                }
                            },
                        }
                    } else {
                        proof {
                            assert(ws.wf());
                            assert(ws.clients@.contains(client));
                            lemma_boundary_guards(ws, client);
                        }
                        let screen = screen_manager.screen_mut(index);
                        match focus {
                            FocusOp::First => Self::focus_first(screen),
                            FocusOp::Last => Self::focus_last(screen),
                            FocusOp::Prev => Self::focus_prev(screen, client),
                            FocusOp::Next => Self::focus_next(screen, client),
                        }
                        proof {
                            lemma_manager_screens_update_keeps_wf(pre, *screen_manager);
                            assert(spec_manager_ws_step(
                                pre,
                                *screen_manager,
                                spec_apply_focus_op(ws, focus, client),
                            ));
                            assert(spec_focus_navigation(
                                pre,
                                *screen_manager,
                                when_empty,
                                should_change_screen,
                                change_screen_direction,
                                focus,
                            ));
                        }
                        return ;
                    }
                },
            }
        }
    }
}

/// The boundary policy guards its move operator, as for focus.
pub open spec fn spec_move_policies_guarded(boundary: Boundary, op: MoveOp) -> bool {
    &&& (op == MoveOp::Prev ==> boundary == Boundary::First)
    &&& (op == MoveOp::Next ==> boundary == Boundary::Last)
}

/// `b` is `a` with only the active workspace's client list swapped: the
/// first occurrence of `client` exchanged with position `j`.
pub open spec fn spec_manager_ws_swap(a: ScreenManager, b: ScreenManager, client: u32, j: int) -> bool {
    &&& b.clients == a.clients
    &&& b.active_screen == a.active_screen
    &&& b.focus_new_clients == a.focus_new_clients
    &&& spec_screens_unchanged_except(a, b, a.active_screen as int)
    &&& spec_screen_same_but_workspaces(a.spec_active_screen(), b.screens@[a.active_screen as int])
    &&& spec_workspaces_unchanged_except(
        a.spec_active_screen(),
        b.screens@[a.active_screen as int],
        a.spec_active_screen().active_workspace as int,
    )
    &&& spec_ws_clients_swapped(
        a.spec_active_screen().spec_active_workspace(),
        b.screens@[a.active_screen as int].workspaces@[a.spec_active_screen().active_workspace as int],
        client,
        j,
    )
}

/// `b` is `a` after the focused client hopped screens: it left the active
/// screen's active workspace (clearing that workspace's focus, since it
/// was the focused one) and joined the tail of screen `n`'s active
/// workspace, whose focus does not change.
pub open spec fn spec_manager_move_step(a: ScreenManager, b: ScreenManager, n: int, client: u32) -> bool {
    let src0 = a.spec_active_screen();
    let src1 = b.screens@[a.active_screen as int];
    let w0 = src0.spec_active_workspace();
    let w1 = src1.workspaces@[src0.active_workspace as int];
    let dst0 = a.screens@[n];
    let dst1 = b.screens@[n];
    let d0 = dst0.spec_active_workspace();
    let d1 = dst1.workspaces@[dst0.active_workspace as int];
    &&& b.clients == a.clients
    &&& b.active_screen == a.active_screen
    &&& b.focus_new_clients == a.focus_new_clients
    &&& b.screens@.len() == a.screens@.len()
    &&& forall|i: int|
        0 <= i < a.screens@.len() && i != a.active_screen as int && i != n ==> b.screens@[i] == (
        #[trigger] a.screens@[i])
    &&& spec_screen_same_but_workspaces(src0, src1)
    &&& spec_workspaces_unchanged_except(src0, src1, src0.active_workspace as int)
    &&& spec_workspace_same_but_clients(w0, w1)
    &&& w1.clients@ == spec_clients_without(w0.clients@, client)
    &&& w1.focused_client == (if w0.focused_client == Some(client) {
        None::<u32>
    } else {
        w0.focused_client
    })
    &&& spec_screen_same_but_workspaces(dst0, dst1)
    &&& spec_workspaces_unchanged_except(dst0, dst1, dst0.active_workspace as int)
    &&& spec_workspace_same_but_clients(d0, d1)
    &&& d1.clients@ == d0.clients@.push(client)
    &&& d1.focused_client == d0.focused_client
}

/// What moving a client in a direction does. An empty active workspace is
/// left alone; with clients but no focus, the when-empty policy only picks
/// a focus (a client cannot move unselected); a focused client at the
/// boundary is removed here and appended to the nearest screen in the
/// direction, a single hop; away from the boundary the terminal operator
/// swaps it one position.
pub open spec fn spec_move_navigation(
    a: ScreenManager,
    b: ScreenManager,
    when_empty: EmptyFocus,
    boundary: Boundary,
    direction: Direction,
    op: MoveOp,
) -> bool {
    let ws = a.spec_active_screen().spec_active_workspace();
    let fi = spec_first_index(ws.clients@, ws.focused_client->0);
    if ws.clients@.len() == 0 {
        b == a
    } else if ws.focused_client is None {
        spec_manager_ws_step(a, b, spec_apply_empty(ws, when_empty))
    } else if spec_at_boundary(ws, boundary, ws.focused_client->0) {
        match spec_best_candidate(a.screens@, a.spec_active_screen().position, direction) {
            Option::None => b == a,
            Option::Some(n) => spec_manager_move_step(a, b, n, ws.focused_client->0),
        }
    } else {
        match op {
            MoveOp::First => spec_manager_ws_swap(a, b, ws.focused_client->0, 0),
            MoveOp::Prev => spec_manager_ws_swap(a, b, ws.focused_client->0, fi - 1),
            MoveOp::Next => spec_manager_ws_swap(a, b, ws.focused_client->0, fi + 1),
        }
    }
}

/// Moving the focused client between screens keeps every listed frame
/// registered: the moved frame already had a record, and the registry does
/// not change.
pub proof fn lemma_move_keeps_registration(
    a: ScreenManager,
    b: ScreenManager,
    n: int,
    client: u32,
)
    requires
        a.wf(),
        a.clients_registered(),
        0 <= n < a.screens@.len(),
        n != a.active_screen as int,
        a.spec_active_screen().spec_active_workspace().clients@.contains(client),
        spec_manager_move_step(a, b, n, client),
    ensures
        b.clients_registered(),
{
    let active = a.active_screen as int;
    let s0 = a.spec_active_screen();
    let aw = s0.active_workspace as int;
    let w0 = s0.spec_active_workspace();
    let dst0 = a.screens@[n];
    let dw = dst0.active_workspace as int;
    assert forall|s: int, w: int, k: int|
        0 <= s < b.screens@.len() && 0 <= w < b.screens@[s].workspaces@.len() && 0 <= k
            < b.screens@[s].workspaces@[w].clients@.len() implies b.frame_has_entry(
        #[trigger] b.screens@[s].workspaces@[w].clients@[k],
    ) by {
        let v = b.screens@[s].workspaces@[w].clients@[k];
        if s == active && w == aw {
            lemma_without_is_subset(w0.clients@, client, v);
            let ci = choose|ci: int| 0 <= ci < w0.clients@.len() && w0.clients@[ci] == v;
            assert(a.screens@[active].workspaces@[aw].clients@[ci] == v);
            assert(a.frame_has_entry(v));
        } else if s == n && w == dw && k == dst0.workspaces@[dw].clients@.len() {
            let ci = choose|ci: int| 0 <= ci < w0.clients@.len() && w0.clients@[ci] == client;
            assert(a.screens@[active].workspaces@[aw].clients@[ci] == client);
            assert(a.frame_has_entry(client));
        } else {
            assert(v == a.screens@[s].workspaces@[w].clients@[k]);
            assert(a.frame_has_entry(v));
        }
        lemma_entry_carries_over(a, b, v);
    }
}

impl TallLayout {
    /// Moves the focused client in a direction, by the policy triple the
    /// direction binds: at the boundary it hops to the nearest screen in
    /// that direction (one hop, no repetition); away from the boundary the
    /// terminal operator swaps it one position in the list.
    #[verifier::rlimit(60)]
    pub fn move_client(
        screen_manager: &mut ScreenManager,
        when_empty: EmptyFocus,
        should_change_screen: Boundary,
        change_screen_direction: Direction,
        swap: MoveOp,
    )
        requires
            old(screen_manager).wf(),
            spec_move_policies_guarded(should_change_screen, swap),
        ensures
            final(screen_manager).wf(),
            spec_move_navigation(
                *old(screen_manager),
                *final(screen_manager),
                when_empty,
                should_change_screen,
                change_screen_direction,
                swap,
            ),
    {
        let ghost pre = *old(screen_manager);
        let ghost ws = pre.spec_active_screen().spec_active_workspace();
        let index = screen_manager.active_screen_idx();
        if screen_manager.screen(index).active_workspace().clients().len() == 0 {
            return ;
        }
        let focused = screen_manager.screen(index).focused_client();
        match focused {
            Option::None => {
                let screen = screen_manager.screen_mut(index);
                match when_empty {
                    EmptyFocus::First => Self::focus_first(screen),
                    EmptyFocus::Last => Self::focus_last(screen),
                }
                proof {
                    lemma_manager_screens_update_keeps_wf(pre, *screen_manager);
                    assert(spec_manager_ws_step(
                        pre,
                        *screen_manager,
                        spec_apply_empty(ws, when_empty),
                    ));
                }
            },
            Option::Some(client) => {
                let at_boundary = match should_change_screen {
                    Boundary::First => Self::is_first(screen_manager.screen(index), client),
                    Boundary::Last => Self::is_last(screen_manager.screen(index), client),
                };
                if at_boundary {
                    let next = screen_manager.get_relative_screen_idx(change_screen_direction);
                    proof {
                        lemma_best_candidate_unique(
                            pre.screens@,
                            pre.spec_active_screen().position,
                            change_screen_direction,
                            next,
                        );
                    }
                    match next {
                        Option::None => {},
                        Option::Some(new_screen) => {
                            proof {
                                lemma_candidate_key_decreases(
                                    pre,
                                    new_screen as int,
                                    change_screen_direction,
                                );
                                assert(new_screen != index);
                            }
                            {
                                let screen = screen_manager.screen_mut(index);
                                let workspace = screen.active_workspace_mut();
                                workspace.remove_client(client);
                            }
                            let ghost mid = *screen_manager;
                            {
                                let screen = screen_manager.screen_mut(new_screen);
                                let workspace = screen.active_workspace_mut();
                                workspace.new_client(client);
                            }
                            proof {
                                assert(mid.screens@[index as int].wf());
                                lemma_manager_screens_update_keeps_wf(pre, mid);
                                lemma_manager_screens_update_keeps_wf(mid, *screen_manager);
                                let fin = *screen_manager;
                                let n = new_screen as int;
                                assert forall|i: int|
                                    0 <= i < pre.screens@.len() && i != index as int && i != n
                                        implies fin.screens@[i] == (
                                #[trigger] pre.screens@[i]) by {
                                    assert(fin.screens@[i] == mid.screens@[i]);
                                }
                                assert(ws.focused_client == Some(client));
                                assert(fin.screens@[index as int] == mid.screens@[index as int]);
                                assert(mid.screens@[n] == pre.screens@[n]);
                                assert(spec_manager_move_step(pre, fin, n, client));
                            }
                        },
                    }
                } else {
                    proof {
                        assert(ws.wf());
                        assert(ws.clients@.contains(client));
                        lemma_boundary_guards(ws, client);
                    }
                    let screen = screen_manager.screen_mut(index);
                    match swap {
                        MoveOp::First => Self::swap_first(screen, client),
                        MoveOp::Prev => Self::swap_prev(screen, client),
                        MoveOp::Next => Self::swap_next(screen, client),
                    }
                    proof {
                        lemma_manager_screens_update_keeps_wf(pre, *screen_manager);
                    }
                }
            },
        }
    }
}

/// A screen whose workspaces were updated only at in-range indices with
/// well-formed workspaces of unchanged ids stays well-formed.
proof fn lemma_screen_update_keeps_wf(a: Screen, b: Screen)
    requires
        spec_screen_same_but_workspaces(a, b),
        b.workspaces@.len() == a.workspaces@.len(),
        forall|k: int|
            0 <= k < b.workspaces@.len() ==> (#[trigger] b.workspaces@[k]).wf() || b.workspaces@[k]
                == a.workspaces@[k],
        forall|k: int|
            0 <= k < b.workspaces@.len() ==> (#[trigger] b.workspaces@[k]).id == a.workspaces@[k].id,
    ensures
        a.wf() ==> b.wf(),
{
    if a.wf() {
        assert forall|k: int| 0 <= k < b.workspaces@.len() implies (
        #[trigger] b.workspaces@[k]).wf() by {
            assert(a.workspaces@[k].wf());
        }
        assert forall|k: int| 0 <= k < b.workspaces@.len() implies (#[trigger] b.workspaces@[k]).id
            == k by {
            assert(a.workspaces@[k].id == k);
        }
    }
}

/// `b` is `a` with only its active workspace replaced by `w1`.
pub open spec fn spec_screen_ws_step(a: Screen, b: Screen, w1: Workspace) -> bool {
    &&& spec_screen_same_but_workspaces(a, b)
    &&& spec_workspaces_unchanged_except(a, b, a.active_workspace as int)
    &&& b.workspaces@[a.active_workspace as int] == w1
}

/// A client list with the first occurrence of `client` and position `j`
/// exchanged.
pub open spec fn spec_swapped_clients(s: Seq<u32>, client: u32, j: int) -> Seq<u32> {
    let fi = spec_first_index(s, client);
    s.update(fi, s[j]).update(j, s[fi])
}

/// `w1` is `w0` with the first occurrence of `client` swapped to position
/// `j`; everything else, the focus included, stays.
pub open spec fn spec_ws_clients_swapped(w0: Workspace, w1: Workspace, client: u32, j: int) -> bool {
    &&& spec_workspace_same_but_clients(w0, w1)
    &&& w1.focused_client == w0.focused_client
    &&& w1.clients@ == spec_swapped_clients(w0.clients@, client, j)
}

/// Swapping two positions of a client list keeps every value the list
/// held.
proof fn lemma_swap_preserves_contains(s: Seq<u32>, client: u32, j: int, v: u32)
    requires
        s.contains(client),
        s.contains(v),
        0 <= j < s.len(),
    ensures
        spec_swapped_clients(s, client, j).contains(v),
{
    lemma_first_index_bounds(s, client);
    let fi = spec_first_index(s, client);
    let t = spec_swapped_clients(s, client, j);
    let m = choose|m: int| 0 <= m < s.len() && s[m] == v;
    if m == fi {
        assert(t[j] == s[fi]);
    } else if m == j {
        if fi == j {
            assert(t[j] == s[fi]);
        } else {
            assert(t[fi] == s[j]);
        }
    } else {
        assert(t[m] == s[m]);
    }
}

/// The tall geometry tiles the screen exactly: the main and side columns
/// together span the full width; the side slices sit at consecutive
/// multiples of the slice height, so they neither overlap nor leave gaps,
/// and together they cover the full screen height (the last slice may run
/// past the bottom edge); and each frame's content window is inset by
/// exactly the border width against the main column, while side contents
/// fill their frames.
pub proof fn lemma_tall_layout_covers_screen(width: u32, height: u32, n: int, border: u32)
    requires
        n >= 1,
    ensures
        spec_main_width(width, n) + spec_side_width(width, n) == width,
        n >= 2 ==> (n - 1) * spec_side_height(height, n - 1) >= height,
        n >= 2 ==> forall|i: int|
            1 <= i < n ==> #[trigger] (spec_side_height(height, n - 1) * (i - 1))
                + spec_side_height(height, n - 1) == spec_side_height(height, n - 1) * i,
        spec_main_width(width, n) - border == (spec_main_width(width, n) - 2 * border) + border,
        height - border == (height - 2 * border) + border,
{
    if n >= 2 {
        let d = n - 1;
        let h = height as int;
        let sh = spec_side_height(height, d);
        lemma_fundamental_div_mod(h + d - 1, d);
        let r = (h + d - 1) % d;
        vstd::arithmetic::div_mod::lemma_mod_bound(h + d - 1, d);
        assert(h + d - 1 == d * sh + r);
        assert(d * sh == h + d - 1 - r);
        assert(d * sh >= h);
        vstd::arithmetic::mul::lemma_mul_is_commutative(d, sh);
        assert forall|i: int| 1 <= i < n implies #[trigger] (sh * (i - 1)) + sh == sh * i by {
            vstd::arithmetic::mul::lemma_mul_is_distributive_add(sh, i - 1, 1);
        }
    }
}

} // verus!
