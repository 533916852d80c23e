//! The registry that owns every screen and every managed client: cross-screen
//! spatial queries, the active screen, and client lifecycle.

use vstd::prelude::*;

use crate::position::{
    distance_squared, is_cursor_inside, spec_cursor_inside, spec_distance_squared, Position,
};
use crate::screen::{lemma_without_is_subset, spec_clients_without, Client, Screen, Workspace};

verus! {

/// A spatial direction for cross-screen navigation.
#[derive(Debug, Clone, Copy, PartialEq, Eq, Structural)]
pub enum Direction {
    Left,
    Down,
    Up,
    Right,
}

/// Whether a screen rectangle lies in the half-plane that the given
/// direction selects, relative to the current rectangle: entirely at or
/// beyond the current edge on that side.
pub open spec fn spec_directional_candidate(p: Position, cur: Position, direction: Direction) -> bool {
    match direction {
        Direction::Left => p.spec_right() <= cur.spec_left(),
        Direction::Down => p.spec_top() >= cur.spec_bottom(),
        Direction::Up => p.spec_bottom() <= cur.spec_top(),
        Direction::Right => p.spec_left() >= cur.spec_right(),
    }
}

/// How far apart two screen rectangles are: the squared distance between
/// their top-left corners.
pub open spec fn spec_corner_distance(p: Position, cur: Position) -> int {
    spec_distance_squared(p.x as int, p.y as int, cur.x as int, cur.y as int)
}

/// Whether a client record answers to the given id, either as its content
/// window or as its frame.
pub open spec fn spec_client_matches(c: Client, id: u32) -> bool {
    c.window == id || c.frame == id
}

/// The registry: the ordered screens, the record of every managed client,
/// and the index of the screen that currently has the user's attention.
#[derive(Debug, Clone)]
pub struct ScreenManager {
    pub screens: Vec<Screen>,
    pub clients: Vec<Client>,
    pub active_screen: usize,
    pub focus_new_clients: bool,
}

impl ScreenManager {
    /// At least one screen, an in-range active index, well-formed screens,
    /// and no two client records sharing a frame id.
    pub open spec fn wf(self) -> bool {
        &&& 1 <= self.screens@.len()
        &&& (self.active_screen as int) < self.screens@.len()
        &&& forall|i: int| 0 <= i < self.screens@.len() ==> (#[trigger] self.screens@[i]).wf()
        &&& forall|i: int, j: int|
            #![trigger self.clients@[i], self.clients@[j]]
            0 <= i < j < self.clients@.len() ==> self.clients@[i].frame != self.clients@[j].frame
    }

    pub open spec fn spec_active_screen(self) -> Screen {
        self.screens@[self.active_screen as int]
    }

    /// Whether some client record carries the given frame id.
    pub open spec fn frame_has_entry(self, frame: u32) -> bool {
        exists|i: int| 0 <= i < self.clients@.len() && (#[trigger] self.clients@[i]).frame == frame
    }

    /// The data-model invariant tying workspaces to the registry: every
    /// frame listed on any workspace of any screen has a client record.
    pub open spec fn clients_registered(self) -> bool {
        forall|s: int, w: int, k: int|
            0 <= s < self.screens@.len() && 0 <= w < self.screens@[s].workspaces@.len() && 0 <= k
                < self.screens@[s].workspaces@[w].clients@.len() ==> self.frame_has_entry(
                #[trigger] self.screens@[s].workspaces@[w].clients@[k],
            )
    }

    pub fn new(screen_positions: Vec<Position>, workspace_count: u8, focus_new_clients: bool) -> (r:
        Self)
        requires
            screen_positions@.len() >= 1,
            workspace_count >= 1,
            forall|i: int|
                0 <= i < screen_positions@.len() ==> (#[trigger] screen_positions@[i]).wf()
                    && screen_positions@[i].width >= 1 && screen_positions@[i].height >= 1,
        ensures
            r.wf(),
            r.screens@.len() == screen_positions@.len(),
            forall|i: int|
                0 <= i < screen_positions@.len() ==> (#[trigger] r.screens@[i]).position
                    == screen_positions@[i],
            forall|i: int|
                0 <= i < screen_positions@.len() ==> (#[trigger] r.screens@[i]).active_workspace
                    == 0,
            forall|i: int|
                0 <= i < screen_positions@.len() ==> (#[trigger] r.screens@[i]).workspaces@.len()
                    == workspace_count,
            forall|i: int, w: int|
                0 <= i < screen_positions@.len() && 0 <= w < workspace_count ==> (#[trigger] r
                    .screens@[i].workspaces@[w]).clients@.len() == 0 && r.screens@[i].workspaces@[w]
                    .focused_client is None,
            r.clients@.len() == 0,
            r.active_screen == 0,
            r.focus_new_clients == focus_new_clients,
    {
        let mut screens: Vec<Screen> = Vec::new();
        let mut i: usize = 0;
        while i < screen_positions.len()
            invariant
                i <= screen_positions@.len(),
                screens@.len() == i,
                workspace_count >= 1,
                forall|k: int|
                    0 <= k < screen_positions@.len() ==> (#[trigger] screen_positions@[k]).wf()
                        && screen_positions@[k].width >= 1 && screen_positions@[k].height >= 1,
                forall|k: int| 0 <= k < i ==> (#[trigger] screens@[k]).wf(),
                forall|k: int|
                    0 <= k < i ==> (#[trigger] screens@[k]).position == screen_positions@[k],
                forall|k: int| 0 <= k < i ==> (#[trigger] screens@[k]).active_workspace == 0,
                forall|k: int|
                    0 <= k < i ==> (#[trigger] screens@[k]).workspaces@.len() == workspace_count,
                forall|k: int, w: int|
                    0 <= k < i && 0 <= w < workspace_count ==> (#[trigger] screens@[k].workspaces@[w]).clients@.len()
                        == 0 && screens@[k].workspaces@[w].focused_client is None,
            decreases screen_positions@.len() - i,
        {
            let position = screen_positions[i];
            screens.push(Screen::new(workspace_count, position));
            i += 1;
        }
        ScreenManager { screens, clients: Vec::new(), active_screen: 0, focus_new_clients }
    }

    pub fn clients(&self) -> (r: &Vec<Client>)
        ensures
            r@ == self.clients@,
    {
        &self.clients
    }

    pub fn clients_mut(&mut self) -> (r: &mut Vec<Client>)
        ensures
            *r == old(self).clients,
            *final(self) == (ScreenManager { clients: *final(r), ..*old(self) }),
    {
        &mut self.clients
    }

    pub fn screens(&self) -> (r: &Vec<Screen>)
        ensures
            r@ == self.screens@,
    {
        &self.screens
    }

    pub fn screens_mut(&mut self) -> (r: &mut Vec<Screen>)
        ensures
            *r == old(self).screens,
            *final(self) == (ScreenManager { screens: *final(r), ..*old(self) }),
    {
        &mut self.screens
    }

    pub fn screen(&self, index: usize) -> (r: &Screen)
        requires
            index < self.screens@.len(),
        ensures
            *r == self.screens@[index as int],
    {
        &self.screens[index]
    }

    pub fn screen_mut(&mut self, index: usize) -> (r: &mut Screen)
        requires
            index < old(self).screens@.len(),
        ensures
            *r == old(self).screens@[index as int],
            final(self).screens@ == old(self).screens@.update(index as int, *final(r)),
            final(self).clients == old(self).clients,
            final(self).active_screen == old(self).active_screen,
            final(self).focus_new_clients == old(self).focus_new_clients,
    {
        vstd::std_specs::vec::vec_index_mut(&mut self.screens, index)
    }

    pub fn active_screen_idx(&self) -> (r: usize)
        ensures
            r == self.active_screen,
    {
        self.active_screen
    }

    /// Picks, among the screens lying in the half-plane the direction
    /// selects relative to the active screen, the one whose top-left corner
    /// is closest (by Euclidean distance) to the active screen's top-left
    /// corner; ties go to the earliest screen in list order.
    pub fn get_relative_screen_idx(&self, direction: Direction) -> (r: Option<usize>)
        requires
            self.wf(),
        ensures
            r is None ==> forall|i: int|
                0 <= i < self.screens@.len() ==> !spec_directional_candidate(
                    (#[trigger] self.screens@[i]).position,
                    self.spec_active_screen().position,
                    direction,
                ),
            r is Some ==> {
                let idx = r->0 as int;
                let cur = self.spec_active_screen().position;
                &&& 0 <= idx < self.screens@.len()
                &&& spec_directional_candidate(self.screens@[idx].position, cur, direction)
                &&& forall|i: int|
                    0 <= i < self.screens@.len() && spec_directional_candidate(
                        (#[trigger] self.screens@[i]).position,
                        cur,
                        direction,
                    ) ==> spec_corner_distance(self.screens@[idx].position, cur)
                        <= spec_corner_distance(self.screens@[i].position, cur)
                &&& forall|i: int|
                    0 <= i < idx && spec_directional_candidate(
                        (#[trigger] self.screens@[i]).position,
                        cur,
                        direction,
                    ) ==> spec_corner_distance(self.screens@[idx].position, cur)
                        < spec_corner_distance(self.screens@[i].position, cur)
            },
    {
        let cur: Position = self.screens[self.active_screen].position;
        let ghost curp = self.spec_active_screen().position;
        let mut best: Option<usize> = None;
        let mut best_dist: u128 = 0;
        let mut i: usize = 0;
        while i < self.screens.len()
            invariant
                self.wf(),
                cur == curp,
                curp == self.spec_active_screen().position,
                i <= self.screens@.len(),
                best is None ==> forall|k: int|
                    0 <= k < i ==> !spec_directional_candidate(
                        (#[trigger] self.screens@[k]).position,
                        curp,
                        direction,
                    ),
                best is Some ==> {
                    let b = best->0 as int;
                    &&& 0 <= b < i as int
                    &&& spec_directional_candidate(self.screens@[b].position, curp, direction)
                    &&& best_dist == spec_corner_distance(self.screens@[b].position, curp)
                    &&& forall|k: int|
                        0 <= k < i && spec_directional_candidate(
                            (#[trigger] self.screens@[k]).position,
                            curp,
                            direction,
                        ) ==> best_dist <= spec_corner_distance(self.screens@[k].position, curp)
                    &&& forall|k: int|
                        0 <= k < b && spec_directional_candidate(
                            (#[trigger] self.screens@[k]).position,
                            curp,
                            direction,
                        ) ==> best_dist < spec_corner_distance(self.screens@[k].position, curp)
                },
            decreases self.screens@.len() - i,
        {
            let p: Position = self.screens[i].position;
            let is_candidate = match direction {
                Direction::Left => p.right() <= cur.left(),
                Direction::Down => p.top() >= cur.bottom(),
                Direction::Up => p.bottom() <= cur.top(),
                Direction::Right => p.left() >= cur.right(),
            };
            if is_candidate {
                let d = distance_squared(p.x, p.y, cur.x, cur.y);
                match best {
                    Option::None => {
                        best = Some(i);
                        best_dist = d;
                    },
                    Option::Some(_) => {
                        if d < best_dist {
                            best = Some(i);
                            best_dist = d;
                        }
                    },
                }
            }
            i += 1;
        }
        best
    }

    pub fn set_active_screen(&mut self, active_screen_idx: usize)
        requires
            active_screen_idx < old(self).screens@.len(),
        ensures
            *final(self) == (ScreenManager { active_screen: active_screen_idx, ..*old(self) }),
    {
        self.active_screen = active_screen_idx
    }
}

/// The screens of `b` are those of `a`, except possibly at index `idx`.
pub open spec fn spec_screens_unchanged_except(a: ScreenManager, b: ScreenManager, idx: int) -> bool {
    &&& b.screens@.len() == a.screens@.len()
    &&& forall|i: int|
        0 <= i < a.screens@.len() && i != idx ==> b.screens@[i] == (#[trigger] a.screens@[i])
}

/// Two screens agree on everything but their workspaces.
pub open spec fn spec_screen_same_but_workspaces(a: Screen, b: Screen) -> bool {
    &&& b.position == a.position
    &&& b.active_workspace == a.active_workspace
    &&& b.reserved_clients == a.reserved_clients
    &&& b.reserved_left_area == a.reserved_left_area
    &&& b.reserved_bottom_area == a.reserved_bottom_area
    &&& b.reserved_top_area == a.reserved_top_area
    &&& b.reserved_right_area == a.reserved_right_area
}

/// The workspaces of `b` are those of `a`, except possibly at index `w`.
pub open spec fn spec_workspaces_unchanged_except(a: Screen, b: Screen, w: int) -> bool {
    &&& b.workspaces@.len() == a.workspaces@.len()
    &&& forall|i: int|
        0 <= i < a.workspaces@.len() && i != w ==> b.workspaces@[i] == (#[trigger] a.workspaces@[i])
}

/// Two workspaces agree on everything but their client list and focus.
pub open spec fn spec_workspace_same_but_clients(a: Workspace, b: Workspace) -> bool {
    &&& b.id == a.id
    &&& b.layout == a.layout
    &&& b.name == a.name
}

/// What `create_client` does: the new record is appended to the registry,
/// the frame joins the tail of the active screen's active workspace, and
/// that workspace's focus moves to the new frame exactly when new clients
/// are configured to take focus or the workspace was empty.
pub open spec fn spec_create_client_post(
    a: ScreenManager,
    b: ScreenManager,
    frame: u32,
    window: u32,
) -> bool {
    let s0 = a.spec_active_screen();
    let s1 = b.screens@[a.active_screen as int];
    let w0 = s0.spec_active_workspace();
    let w1 = s1.workspaces@[s0.active_workspace as int];
    &&& b.active_screen == a.active_screen
    &&& b.focus_new_clients == a.focus_new_clients
    &&& b.clients@ == a.clients@.push(
        Client { frame, window, workspace: w0.id, visible: true },
    )
    &&& spec_screens_unchanged_except(a, b, a.active_screen as int)
    &&& spec_screen_same_but_workspaces(s0, s1)
    &&& spec_workspaces_unchanged_except(s0, s1, s0.active_workspace as int)
    &&& spec_workspace_same_but_clients(w0, w1)
    &&& w1.clients@ == w0.clients@.push(frame)
    &&& w1.focused_client == (if a.focus_new_clients || w0.clients@.len() == 0 {
        Some(frame)
    } else {
        w0.focused_client
    })
}

/// One screen's part in `focus_client`: when its active workspace lists the
/// frame, that workspace's focus moves to the frame and nothing else on the
/// screen changes; otherwise the screen is untouched.
pub open spec fn spec_screen_after_focus(s0: Screen, s1: Screen, frame: u32) -> bool {
    if s0.spec_active_workspace().clients@.contains(frame) {
        &&& spec_screen_same_but_workspaces(s0, s1)
        &&& spec_workspaces_unchanged_except(s0, s1, s0.active_workspace as int)
        &&& s1.workspaces@[s0.active_workspace as int] == (Workspace {
            focused_client: Some(frame),
            ..s0.spec_active_workspace()
        })
    } else {
        s1 == s0
    }
}

/// What `focus_client` does: when no client record answers to the id the
/// manager is unchanged; otherwise the first matching record's frame gains
/// the focus on every screen whose active workspace lists it.
pub open spec fn spec_focus_client_post(a: ScreenManager, b: ScreenManager, window: u32) -> bool {
    if forall|k: int|
        0 <= k < a.clients@.len() ==> !spec_client_matches(#[trigger] a.clients@[k], window) {
        b == a
    } else {
        exists|k: int|
            {
                &&& 0 <= k < a.clients@.len()
                &&& spec_client_matches(#[trigger] a.clients@[k], window)
                &&& forall|j: int|
                    0 <= j < k ==> !spec_client_matches(#[trigger] a.clients@[j], window)
                &&& b.clients == a.clients
                &&& b.active_screen == a.active_screen
                &&& b.focus_new_clients == a.focus_new_clients
                &&& b.screens@.len() == a.screens@.len()
                &&& forall|s: int|
                    0 <= s < a.screens@.len() ==> spec_screen_after_focus(
                        #[trigger] a.screens@[s],
                        b.screens@[s],
                        a.clients@[k].frame,
                    )
            }
    }
}

/// What `close_focused_client` does: nothing without a focused client;
/// otherwise the focused frame leaves the active workspace, focus falls to
/// the new first client (or clears), the frame's record leaves the registry,
/// and the removed record is returned.
pub open spec fn spec_close_focused_post(
    a: ScreenManager,
    b: ScreenManager,
    r: Option<Client>,
) -> bool {
    let s0 = a.spec_active_screen();
    let w0 = s0.spec_active_workspace();
    match w0.focused_client {
        Option::None => b == a && r is None,
        Option::Some(f) => {
            let s1 = b.screens@[a.active_screen as int];
            let w1 = s1.workspaces@[s0.active_workspace as int];
            &&& b.active_screen == a.active_screen
            &&& b.focus_new_clients == a.focus_new_clients
            &&& spec_screens_unchanged_except(a, b, a.active_screen as int)
            &&& spec_screen_same_but_workspaces(s0, s1)
            &&& spec_workspaces_unchanged_except(s0, s1, s0.active_workspace as int)
            &&& spec_workspace_same_but_clients(w0, w1)
            &&& w1.clients@ == spec_clients_without(w0.clients@, f)
            &&& w1.focused_client == (if w1.clients@.len() > 0 {
                Some(w1.clients@[0])
            } else {
                None::<u32>
            })
            &&& (r is Some <==> a.frame_has_entry(f))
            &&& match r {
                Option::Some(c) => exists|k: int|
                    {
                        &&& 0 <= k < a.clients@.len()
                        &&& #[trigger] a.clients@[k] == c
                        &&& c.frame == f
                        &&& b.clients@ == a.clients@.remove(k)
                    },
                Option::None => b.clients == a.clients,
            }
        },
    }
}

/// What `maybe_switch_screen` does: the last screen (in list order) whose
/// rectangle contains the point becomes active; with no containing screen
/// nothing changes. Only the active index may change.
pub open spec fn spec_maybe_switch_post(a: ScreenManager, b: ScreenManager, x: int, y: int) -> bool {
    &&& b.screens == a.screens
    &&& b.clients == a.clients
    &&& b.focus_new_clients == a.focus_new_clients
    &&& if exists|i: int|
        0 <= i < a.screens@.len() && spec_cursor_inside(x, y, (#[trigger] a.screens@[i]).position) {
        &&& 0 <= b.active_screen < a.screens@.len()
        &&& spec_cursor_inside(x, y, a.screens@[b.active_screen as int].position)
        &&& forall|j: int|
            (b.active_screen as int) < j < a.screens@.len() ==> !spec_cursor_inside(
                x,
                y,
                (#[trigger] a.screens@[j]).position,
            )
    } else {
        b.active_screen == a.active_screen
    }
}

fn contains_u32(v: &Vec<u32>, x: u32) -> (r: bool)
    ensures
        r == v@.contains(x),
{
    let mut i: usize = 0;
    while i < v.len()
        invariant
            i <= v@.len(),
            forall|k: int| 0 <= k < i ==> v@[k] != x,
        decreases v@.len() - i,
    {
        if v[i] == x {
            return true;
        }
        i += 1;
    }
    false
}

impl ScreenManager {
    /// Registers a new client on the active screen's active workspace: the
    /// record joins the registry, the frame joins the workspace tail, and
    /// the workspace focuses it when configured to focus new clients or
    /// when it was the only client.
    pub fn create_client(&mut self, frame: u32, window: u32)
        requires
            old(self).wf(),
            !old(self).frame_has_entry(frame),
        ensures
            final(self).wf(),
            spec_create_client_post(*old(self), *final(self), frame, window),
    {
        let active = self.active_screen;
        let workspace_id = self.screens[active].active_workspace().id();
        self.clients.push(Client { frame, window, workspace: workspace_id, visible: true });
        let focus_new = self.focus_new_clients;
        let screen = vstd::std_specs::vec::vec_index_mut(&mut self.screens, active);
        let workspace = screen.active_workspace_mut();
        workspace.new_client(frame);
        if focus_new || workspace.clients().len() == 1 {
            proof {
                assert(workspace.clients@.last() == frame);
            }
            workspace.set_focused_client(Some(frame));
        }
    }

    /// Directly focuses a client on any screen, looked up by either its
    /// content window or its frame id (an enter-notify can carry either);
    /// every screen whose active workspace lists the client's frame sets
    /// its focus there. A no-op when no record matches.
    pub fn focus_client(&mut self, window: u32)
        requires
            old(self).wf(),
        ensures
            final(self).wf(),
            spec_focus_client_post(*old(self), *final(self), window),
    {
        let mut found: Option<u32> = None;
        let ghost mut fidx: int = 0;
        let mut j: usize = 0;
        while j < self.clients.len()
            invariant
                *self == *old(self),
                j <= self.clients@.len(),
                found is None ==> forall|k: int|
                    0 <= k < j ==> !spec_client_matches(#[trigger] self.clients@[k], window),
                found is Some ==> {
                    &&& 0 <= fidx < self.clients@.len()
                    &&& spec_client_matches(self.clients@[fidx], window)
                    &&& forall|k: int|
                        0 <= k < fidx ==> !spec_client_matches(#[trigger] self.clients@[k], window)
                    &&& found->0 == self.clients@[fidx].frame
                },
            decreases self.clients@.len() - j,
        {
            if found.is_none() {
                let c = &self.clients[j];
                if c.window == window || c.frame == window {
                    found = Some(c.frame);
                    proof {
                        fidx = j as int;
                    }
                }
            }
            j += 1;
        }
        match found {
            Option::None => {},
            Option::Some(frame) => {
                let mut s: usize = 0;
                while s < self.screens.len()
                    invariant
                        old(self).wf(),
                        self.wf(),
                        s <= self.screens@.len(),
                        self.screens@.len() == old(self).screens@.len(),
                        self.clients == old(self).clients,
                        self.active_screen == old(self).active_screen,
                        self.focus_new_clients == old(self).focus_new_clients,
                        forall|k: int|
                            0 <= k < s ==> spec_screen_after_focus(
                                #[trigger] old(self).screens@[k],
                                self.screens@[k],
                                frame,
                            ),
                        forall|k: int|
                            s <= k < self.screens@.len() ==> self.screens@[k] == (
                            #[trigger] old(self).screens@[k]),
                    decreases self.screens@.len() - s,
                {
                    let listed = contains_u32(self.screens[s].active_workspace().clients(), frame);
                    if listed {
                        let screen = vstd::std_specs::vec::vec_index_mut(&mut self.screens, s);
                        let workspace = screen.active_workspace_mut();
                        workspace.set_focused_client(Some(frame));
                    }
                    s += 1;
                }
            },
        }
    }

    /// The registry record of the active screen's focused client, when a
    /// client is focused and its frame is registered.
    pub fn get_focused_client(&self) -> (r: Option<Client>)
        requires
            self.wf(),
        ensures
            match self.spec_active_screen().spec_active_workspace().focused_client {
                Option::None => r is None,
                Option::Some(f) => {
                    &&& (r is Some <==> self.frame_has_entry(f))
                    &&& (r is Some ==> r->0.frame == f && self.clients@.contains(r->0))
                },
            },
    {
        let focused = self.screens[self.active_screen].focused_client();
        match focused {
            Option::Some(frame) => self.find_by_frame(frame),
            Option::None => None,
        }
    }

    fn find_by_frame(&self, frame: u32) -> (r: Option<Client>)
        ensures
            r is Some <==> self.frame_has_entry(frame),
            r is Some ==> r->0.frame == frame && self.clients@.contains(r->0),
    {
        let mut i: usize = 0;
        while i < self.clients.len()
            invariant
                i <= self.clients@.len(),
                forall|k: int| 0 <= k < i ==> (#[trigger] self.clients@[k]).frame != frame,
            decreases self.clients@.len() - i,
        {
            if self.clients[i].frame == frame {
                let c = self.clients[i];
                proof {
                    assert(self.clients@.contains(c));
                }
                return Some(c);
            }
            i += 1;
        }
        None
    }

    /// Removes the active screen's focused client from its workspace and
    /// from the registry; focus falls to the workspace's new first client.
    /// Returns the removed record so the caller can tear its frame down.
    #[verifier::loop_isolation(false)]
    pub fn close_focused_client(&mut self) -> (r: Option<Client>)
        requires
            old(self).wf(),
        ensures
            final(self).wf(),
            spec_close_focused_post(*old(self), *final(self), r),
    {
        let active = self.active_screen;
        let focused = self.screens[active].focused_client();
        match focused {
            Option::None => None,
            Option::Some(frame) => {
                {
                    let screen = vstd::std_specs::vec::vec_index_mut(&mut self.screens, active);
                    let workspace = screen.active_workspace_mut();
                    workspace.remove_client(frame);
                    let first: Option<u32> = if workspace.clients().len() > 0 {
                        Some(workspace.clients()[0])
                    } else {
                        None
                    };
                    proof {
                        if first is Some {
                            assert(workspace.clients@.contains(workspace.clients@[0]));
                        }
                    }
                    workspace.set_focused_client(first);
                }
                let ghost mid = *self;
                proof {
                    assert forall|ii: int| 0 <= ii < mid.screens@.len() implies (
                    #[trigger] mid.screens@[ii]).wf() by {
                        assert(old(self).screens@[ii].wf());
                    }
                }
                let mut i: usize = 0;
                while i < self.clients.len()
                    invariant
                        i <= self.clients@.len(),
                        self.screens == mid.screens,
                        self.active_screen == mid.active_screen,
                        self.focus_new_clients == mid.focus_new_clients,
                        self.clients == old(self).clients,
                        forall|k: int| 0 <= k < i ==> (#[trigger] self.clients@[k]).frame != frame,
                    decreases self.clients@.len() - i,
                {
                    if self.clients[i].frame == frame {
                        let c = self.clients.remove(i);
                        proof {
                            lemma_unique_frames_remove(old(self).clients@, i as int);
                        }
                        return Some(c);
                    }
                    i += 1;
                }
                None
            },
        }
    }

    /// The full client records, in workspace order, of the given screen's
    /// active workspace. Every listed frame must be registered: a listed
    /// frame without a record is an internal-consistency violation.
    pub fn get_visible_screen_clients(&self, screen_idx: usize) -> (r: Vec<Client>)
        requires
            self.wf(),
            screen_idx < self.screens@.len(),
            forall|k: int|
                0 <= k < self.screens@[screen_idx as int].spec_active_workspace().clients@.len()
                    ==> self.frame_has_entry(
                    #[trigger] self.screens@[
                        screen_idx as int
                    ].spec_active_workspace().clients@[k],
                ),
        ensures
            r@.len() == self.screens@[screen_idx as int].spec_active_workspace().clients@.len(),
            forall|k: int|
                0 <= k < r@.len() ==> (#[trigger] r@[k]).frame == self.screens@[
                    screen_idx as int
                ].spec_active_workspace().clients@[k] && self.clients@.contains(r@[k]),
    {
        let frames = self.screens[screen_idx].active_workspace().clients();
        let ghost frames_seq = frames@;
        let mut out: Vec<Client> = Vec::new();
        let mut i: usize = 0;
        while i < frames.len()
            invariant
                self.wf(),
                frames@ == frames_seq,
                frames_seq == self.screens@[screen_idx as int].spec_active_workspace().clients@,
                forall|k: int|
                    0 <= k < frames_seq.len() ==> self.frame_has_entry(#[trigger] frames_seq[k]),
                i <= frames_seq.len(),
                out@.len() == i,
                forall|k: int|
                    0 <= k < i ==> (#[trigger] out@[k]).frame == frames_seq[k]
                        && self.clients@.contains(out@[k]),
            decreases frames_seq.len() - i,
        {
            let frame = frames[i];
            let looked_up = self.find_by_frame(frame);
            match looked_up {
                Option::Some(c) => out.push(c),
                Option::None => {
                    proof {
                        assert(self.frame_has_entry(frames_seq[i as int]));
                        assert(false);
                    }
                },
            }
            i += 1;
        }
        out
    }

    /// Makes active the last screen (in list order) whose rectangle
    /// contains the pointer; half-open edges, so a point exactly on a
    /// screen's right or bottom edge does not select it.
    pub fn maybe_switch_screen(&mut self, cursor_x: i32, cursor_y: i32)
        requires
            old(self).wf(),
        ensures
            final(self).wf(),
            spec_maybe_switch_post(
                *old(self),
                *final(self),
                cursor_x as int,
                cursor_y as int,
            ),
    {
        let mut idx: usize = 0;
        while idx < self.screens.len()
            invariant
                old(self).wf(),
                self.screens == old(self).screens,
                self.clients == old(self).clients,
                self.focus_new_clients == old(self).focus_new_clients,
                idx <= self.screens@.len(),
                if exists|i: int|
                    0 <= i < idx as int && spec_cursor_inside(
                        cursor_x as int,
                        cursor_y as int,
                        (#[trigger] self.screens@[i]).position,
                    ) {
                    &&& 0 <= self.active_screen < idx as int
                    &&& spec_cursor_inside(
                        cursor_x as int,
                        cursor_y as int,
                        self.screens@[self.active_screen as int].position,
                    )
                    &&& forall|j: int|
                        (self.active_screen as int) < j < idx as int ==> !spec_cursor_inside(
                            cursor_x as int,
                            cursor_y as int,
                            (#[trigger] self.screens@[j]).position,
                        )
                } else {
                    self.active_screen == old(self).active_screen
                },
            decreases self.screens@.len() - idx,
        {
            if is_cursor_inside(cursor_x, cursor_y, &self.screens[idx].position) {
                self.active_screen = idx;
            }
            idx += 1;
        }
    }
}

/// A record that exists keeps existing when the registry only grows.
pub(crate) proof fn lemma_entry_carries_over(a: ScreenManager, b: ScreenManager, f: u32)
    requires
        a.frame_has_entry(f),
        a.clients@.len() <= b.clients@.len(),
        forall|i: int| 0 <= i < a.clients@.len() ==> b.clients@[i] == (#[trigger] a.clients@[i]),
    ensures
        b.frame_has_entry(f),
{
    let i = choose|i: int| 0 <= i < a.clients@.len() && (#[trigger] a.clients@[i]).frame == f;
    assert(b.clients@[i].frame == f);
}

/// Creating a client keeps every listed frame registered: the lists gain
/// only the new frame, and the registry gains its record.
pub proof fn lemma_create_client_keeps_registration(
    a: ScreenManager,
    b: ScreenManager,
    frame: u32,
    window: u32,
)
    requires
        a.wf(),
        a.clients_registered(),
        spec_create_client_post(a, b, frame, window),
    ensures
        b.clients_registered(),
{
    let active = a.active_screen as int;
    let s0 = a.spec_active_screen();
    let aw = s0.active_workspace as int;
    let w0 = s0.spec_active_workspace();
    assert forall|s: int, w: int, k: int|
        0 <= s < b.screens@.len() && 0 <= w < b.screens@[s].workspaces@.len() && 0 <= k
            < b.screens@[s].workspaces@[w].clients@.len() implies b.frame_has_entry(
        #[trigger] b.screens@[s].workspaces@[w].clients@[k],
    ) by {
        let v = b.screens@[s].workspaces@[w].clients@[k];
        if s == active && w == aw && k == w0.clients@.len() {
            assert(v == frame);
            assert(b.clients@[a.clients@.len() as int].frame == frame);
        } else {
            assert(v == a.screens@[s].workspaces@[w].clients@[k]);
            assert(a.frame_has_entry(v));
            lemma_entry_carries_over(a, b, v);
        }
    }
}

/// A record other than the removed one survives the removal.
proof fn lemma_entry_survives_remove(a: ScreenManager, b: ScreenManager, v: u32, kf: int)
    requires
        a.frame_has_entry(v),
        0 <= kf < a.clients@.len(),
        a.clients@[kf].frame != v,
        b.clients@ == a.clients@.remove(kf),
    ensures
        b.frame_has_entry(v),
{
    let i = choose|i: int| 0 <= i < a.clients@.len() && (#[trigger] a.clients@[i]).frame == v;
    if i < kf {
        assert(b.clients@[i].frame == v);
    } else {
        assert(b.clients@[i - 1].frame == v);
    }
}

/// Closing the focused client keeps every listed frame registered, as long
/// as the focused frame was listed nowhere but on the active workspace
/// (a frame is expected to live on exactly one workspace).
pub proof fn lemma_close_keeps_registration(a: ScreenManager, b: ScreenManager, r: Option<Client>)
    requires
        a.wf(),
        a.clients_registered(),
        spec_close_focused_post(a, b, r),
        match a.spec_active_screen().spec_active_workspace().focused_client {
            Option::Some(f) => forall|s: int, w: int, k: int|
                0 <= s < a.screens@.len() && 0 <= w < a.screens@[s].workspaces@.len() && 0 <= k
                    < a.screens@[s].workspaces@[w].clients@.len() && !(s == a.active_screen as int
                    && w == a.spec_active_screen().active_workspace as int)
                    ==> a.screens@[s].workspaces@[w].clients@[k] != f,
            Option::None => true,
        },
    ensures
        b.clients_registered(),
{
    let active = a.active_screen as int;
    let s0 = a.spec_active_screen();
    let aw = s0.active_workspace as int;
    let w0 = s0.spec_active_workspace();
    match w0.focused_client {
        Option::None => {},
        Option::Some(f) => {
            assert forall|s: int, w: int, k: int|
                0 <= s < b.screens@.len() && 0 <= w < b.screens@[s].workspaces@.len() && 0 <= k
                    < b.screens@[s].workspaces@[w].clients@.len() implies b.frame_has_entry(
                #[trigger] b.screens@[s].workspaces@[w].clients@[k],
            ) by {
                let v = b.screens@[s].workspaces@[w].clients@[k];
                if s == active && w == aw {
                    lemma_without_is_subset(w0.clients@, f, v);
                    let ci = choose|ci: int| 0 <= ci < w0.clients@.len() && w0.clients@[ci] == v;
                    assert(a.screens@[active].workspaces@[aw].clients@[ci] == v);
                } else {
                    assert(v == a.screens@[s].workspaces@[w].clients@[k]);
                    assert(v != f);
                }
                assert(a.frame_has_entry(v));
                match r {
                    Option::Some(c) => {
                        let kf = choose|kf: int|
                            0 <= kf < a.clients@.len() && #[trigger] a.clients@[kf] == c && c.frame
                                == f && b.clients@ == a.clients@.remove(kf);
                        lemma_entry_survives_remove(a, b, v, kf);
                    },
                    Option::None => {},
                }
            }
        },
    }
}

/// With a single screen, every direction resolves to no neighbor: a screen
/// of positive size never lies in its own directional half-plane, so the
/// only screen is never a candidate and `get_relative_screen_idx` returns
/// none.
pub proof fn lemma_single_screen_no_neighbor(sm: ScreenManager, direction: Direction)
    requires
        sm.wf(),
        sm.screens@.len() == 1,
    ensures
        forall|i: int|
            0 <= i < sm.screens@.len() ==> !spec_directional_candidate(
                (#[trigger] sm.screens@[i]).position,
                sm.spec_active_screen().position,
                direction,
            ),
{
    assert(sm.screens@[0].wf());
}

/// A point strictly inside exactly one screen's rectangle switches the
/// manager to that screen: when no other screen contains the point, the
/// last containing screen is the only containing screen.
pub proof fn lemma_switch_to_unique_screen(
    a: ScreenManager,
    b: ScreenManager,
    x: int,
    y: int,
    i: int,
)
    requires
        spec_maybe_switch_post(a, b, x, y),
        0 <= i < a.screens@.len(),
        spec_cursor_inside(x, y, a.screens@[i].position),
        forall|j: int|
            0 <= j < a.screens@.len() && j != i ==> !spec_cursor_inside(
                x,
                y,
                (#[trigger] a.screens@[j]).position,
            ),
    ensures
        b.active_screen == i,
{
    assert(spec_cursor_inside(x, y, a.screens@[i].position));
}

/// Removing one record from a registry with pairwise-distinct frames leaves
/// the remaining frames pairwise distinct.
proof fn lemma_unique_frames_remove(s: Seq<Client>, k: int)
    requires
        0 <= k < s.len(),
        forall|i: int, j: int|
            #![trigger s[i], s[j]]
            0 <= i < j < s.len() ==> s[i].frame != s[j].frame,
    ensures
        forall|i: int, j: int|
            #![trigger s.remove(k)[i], s.remove(k)[j]]
            0 <= i < j < s.remove(k).len() ==> s.remove(k)[i].frame != s.remove(k)[j].frame,
{
    let t = s.remove(k);
    assert forall|i: int, j: int|
        #![trigger t[i], t[j]]
        0 <= i < j < t.len() implies t[i].frame != t[j].frame by {
        let i0 = if i < k {
            i
        } else {
            i + 1
        };
        let j0 = if j < k {
            j
        } else {
            j + 1
        };
        assert(t[i] == s[i0]);
        assert(t[j] == s[j0]);
    }
}

} // verus!
