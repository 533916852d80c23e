//! Screens and workspaces: a screen is one monitor's rectangle with a fixed
//! set of workspaces and reserved-margin accumulators; a workspace is an
//! ordered list of client frame ids with an optional focused id.

use vstd::prelude::*;

use crate::position::Position;

verus! {

/// Anything that identifies a managed window: a content window id and,
/// when the window is wrapped by a decoration, its frame id.
pub trait IntoClient {
    fn get_window(&self) -> u32;

    fn get_frame(&self) -> Option<u32>;
}

/// A managed window: its decoration frame, its content window, the
/// workspace it lives on, and whether it is currently shown.
#[derive(Clone, Copy, Debug, PartialEq, Eq, Hash, Structural)]
pub struct Client {
    pub frame: u32,
    pub window: u32,
    pub workspace: u8,
    pub visible: bool,
}

impl IntoClient for Client {
    fn get_window(&self) -> (r: u32)
        ensures
            r == self.window,
    {
        self.window
    }

    fn get_frame(&self) -> (r: Option<u32>)
        ensures
            r == Some(self.frame),
    {
        Some(self.frame)
    }
}

/// A panel or dock that ceded screen-edge space: its window, where it sits,
/// and how much margin it reserves on each edge.
#[derive(Clone, Copy, Debug, PartialEq, Eq, Hash, Structural)]
pub struct ReservedClient {
    pub window: u32,
    pub show_on_all_workspaces: bool,
    pub workspace: u8,
    pub position: Position,
    pub reserved_left: u32,
    pub reserved_bottom: u32,
    pub reserved_top: u32,
    pub reserved_right: u32,
}

impl IntoClient for ReservedClient {
    fn get_window(&self) -> (r: u32)
        ensures
            r == self.window,
    {
        self.window
    }

    fn get_frame(&self) -> (r: Option<u32>)
        ensures
            r is None,
    {
        None
    }
}

/// The tiling strategy a workspace uses; only the tall layout exists.
#[derive(Clone, Copy, Debug, PartialEq, Eq, Structural)]
pub enum WorkspaceLayout {
    Tall,
}

impl Default for WorkspaceLayout {
    fn default() -> (r: Self)
        ensures
            r == WorkspaceLayout::Tall,
    {
        WorkspaceLayout::Tall
    }
}

pub open spec fn spec_digit_char(d: int) -> char {
    if d == 0 {
        '0'
    } else if d == 1 {
        '1'
    } else if d == 2 {
        '2'
    } else if d == 3 {
        '3'
    } else if d == 4 {
        '4'
    } else if d == 5 {
        '5'
    } else if d == 6 {
        '6'
    } else if d == 7 {
        '7'
    } else if d == 8 {
        '8'
    } else {
        '9'
    }
}

/// The decimal rendering of a number below one thousand, without leading
/// zeros.
pub open spec fn spec_decimal(n: int) -> Seq<char> {
    if n < 10 {
        seq![spec_digit_char(n)]
    } else if n < 100 {
        seq![spec_digit_char(n / 10), spec_digit_char(n % 10)]
    } else {
        seq![spec_digit_char(n / 100), spec_digit_char((n / 10) % 10), spec_digit_char(n % 10)]
    }
}

/// A workspace's display name: the word "Workspace" followed by its
/// one-based number.
pub open spec fn spec_workspace_name(id: u8) -> Seq<char> {
    "Workspace "@ + spec_decimal(id + 1)
}

fn digit_str(d: u8) -> (r: &'static str)
    requires
        d < 10,
    ensures
        r@ == seq![spec_digit_char(d as int)],
{
    proof {
        reveal_strlit("0");
        reveal_strlit("1");
        reveal_strlit("2");
        reveal_strlit("3");
        reveal_strlit("4");
        reveal_strlit("5");
        reveal_strlit("6");
        reveal_strlit("7");
        reveal_strlit("8");
        reveal_strlit("9");
    }
    let r = if d == 0 {
        "0"
    } else if d == 1 {
        "1"
    } else if d == 2 {
        "2"
    } else if d == 3 {
        "3"
    } else if d == 4 {
        "4"
    } else if d == 5 {
        "5"
    } else if d == 6 {
        "6"
    } else if d == 7 {
        "7"
    } else if d == 8 {
        "8"
    } else {
        "9"
    };
    proof {
        assert(r@ =~= seq![spec_digit_char(d as int)]);
    }
    r
}

fn workspace_name(id: u8) -> (r: String)
    ensures
        r@ == spec_workspace_name(id),
{
    let n: u16 = (id as u16) + 1;
    let mut s = String::from_str("Workspace ");
    if n >= 100 {
        s.append(digit_str((n / 100) as u8));
        s.append(digit_str(((n / 10) % 10) as u8));
        s.append(digit_str((n % 10) as u8));
        proof {
            assert(s@ =~= spec_workspace_name(id));
        }
    } else if n >= 10 {
        s.append(digit_str((n / 10) as u8));
        s.append(digit_str((n % 10) as u8));
        proof {
            assert(s@ =~= spec_workspace_name(id));
        }
    } else {
        s.append(digit_str(n as u8));
        proof {
            assert(s@ =~= spec_workspace_name(id));
        }
    }
    s
}

/// The client list with every entry equal to `client` dropped, order kept.
pub open spec fn spec_clients_without(s: Seq<u32>, client: u32) -> Seq<u32> {
    s.filter(|c: u32| c != client)
}

/// A frame kept by the removal was in the list before it, and is not the
/// removed one.
pub(crate) proof fn lemma_without_is_subset(s: Seq<u32>, client: u32, v: u32)
    requires
        spec_clients_without(s, client).contains(v),
    ensures
        s.contains(v),
        v != client,
    decreases s.len(),
{
    reveal_with_fuel(Seq::filter, 2);
    if s.len() > 0 {
        let t = s.drop_last();
        if s.last() != client && v == s.last() {
            assert(s.contains(v));
        } else {
            if s.last() != client {
                let f = spec_clients_without(s, client);
                let i = choose|i: int| 0 <= i < f.len() && f[i] == v;
                assert(spec_clients_without(t, client)[i] == v);
            }
            lemma_without_is_subset(t, client, v);
            let j = choose|j: int| 0 <= j < t.len() && t[j] == v;
            assert(s[j] == v);
        }
    }
}

/// A virtual desktop: an ordered list of client frame ids and an optional
/// focused frame.
#[derive(Debug, PartialEq, Eq, Clone)]
pub struct Workspace {
    pub id: u8,
    pub layout: WorkspaceLayout,
    pub name: String,
    pub clients: Vec<u32>,
    pub focused_client: Option<u32>,
}

impl Workspace {
    /// The focused frame, when set, must be one of the listed clients.
    pub open spec fn wf(self) -> bool {
        self.focused_client is Some ==> self.clients@.contains(self.focused_client->0)
    }

    pub fn new(id: u8) -> (r: Self)
        ensures
            r.id == id,
            r.layout == WorkspaceLayout::Tall,
            r.name@ == spec_workspace_name(id),
            r.clients@ == Seq::<u32>::empty(),
            r.focused_client is None,
            r.wf(),
    {
        let r = Workspace {
            id,
            layout: WorkspaceLayout::default(),
            name: workspace_name(id),
            clients: Vec::new(),
            focused_client: None,
        };
        proof {
            assert(r.clients@ =~= Seq::<u32>::empty());
        }
        r
    }

    pub fn name(&self) -> (r: &str)
        ensures
            r@ == self.name@,
    {
        self.name.as_str()
    }

    pub fn layout(&self) -> (r: &WorkspaceLayout)
        ensures
            r == self.layout,
    {
        &self.layout
    }

    pub fn id(&self) -> (r: u8)
        ensures
            r == self.id,
    {
        self.id
    }

    /// Appends a client at the tail: the most recently mapped client is
    /// last in the tiling order.
    pub fn new_client(&mut self, client: u32)
        ensures
            final(self).clients@ == old(self).clients@.push(client),
            final(self).focused_client == old(self).focused_client,
            final(self).id == old(self).id,
            final(self).layout == old(self).layout,
            final(self).name == old(self).name,
            old(self).wf() ==> final(self).wf(),
    {
        self.clients.push(client);
        proof {
            if old(self).wf() && self.focused_client is Some {
                let f = self.focused_client->0;
                let i = choose|i: int|
                    0 <= i < old(self).clients@.len() && old(self).clients@[i] == f;
                assert(self.clients@[i] == f);
            }
        }
    }

    pub fn clients(&self) -> (r: &Vec<u32>)
        ensures
            r@ == self.clients@,
    {
        &self.clients
    }

    pub fn clients_mut(&mut self) -> (r: &mut Vec<u32>)
        ensures
            *r == old(self).clients,
            *final(self) == (Workspace { clients: *final(r), ..*old(self) }),
    {
        &mut self.clients
    }

    /// Records which client is focused. Callers may only set a frame that
    /// is a member of the client list (or clear the focus).
    pub fn set_focused_client(&mut self, client: Option<u32>)
        requires
            client is Some ==> old(self).clients@.contains(client->0),
        ensures
            *final(self) == (Workspace { focused_client: client, ..*old(self) }),
            final(self).wf(),
    {
        self.focused_client = client;
    }

    /// Drops every entry equal to the given client; when the removed id was
    /// the focused one, the focus is cleared for the caller to re-pick.
    pub fn remove_client(&mut self, client: u32)
        ensures
            final(self).clients@ == spec_clients_without(old(self).clients@, client),
            final(self).focused_client == (if old(self).focused_client == Some(client) {
                None::<u32>
            } else {
                old(self).focused_client
            }),
            final(self).id == old(self).id,
            final(self).layout == old(self).layout,
            final(self).name == old(self).name,
            old(self).wf() ==> final(self).wf(),
    {
        let mut kept: Vec<u32> = Vec::new();
        let mut i: usize = 0;
        while i < self.clients.len()
            invariant
                i <= self.clients.len(),
                kept@ == spec_clients_without(self.clients@.take(i as int), client),
            decreases self.clients.len() - i,
        {
            proof {
                assert(self.clients@.take(i + 1).drop_last() =~= self.clients@.take(i as int));
                reveal_with_fuel(Seq::filter, 2);
            }
            if self.clients[i] != client {
                kept.push(self.clients[i]);
            }
            i += 1;
        }
        proof {
            assert(self.clients@.take(self.clients@.len() as int) =~= self.clients@);
        }
        self.clients = kept;
        if self.focused_client.is_some() {
            let f = *self.focused_client.as_ref().unwrap();
            if f == client {
                self.focused_client = None;
            }
        }
        proof {
            if old(self).wf() && self.focused_client is Some {
                let f = self.focused_client->0;
                let i = choose|i: int|
                    0 <= i < old(self).clients@.len() && old(self).clients@[i] == f;
                old(self).clients@.lemma_filter_contains(|c: u32| c != client, i);
            }
        }
    }
}

/// One monitor: its rectangle, a fixed set of workspaces, the active
/// workspace, the panels registered on it and the margins they reserve.
#[derive(Debug, Clone)]
pub struct Screen {
    pub position: Position,
    pub active_workspace: u8,
    pub workspaces: Vec<Workspace>,
    pub reserved_clients: Vec<ReservedClient>,
    pub reserved_left_area: u32,
    pub reserved_bottom_area: u32,
    pub reserved_top_area: u32,
    pub reserved_right_area: u32,
}

impl Screen {
    /// A screen has a non-degenerate rectangle, at least one workspace, an
    /// in-range active-workspace index, workspaces numbered by their index,
    /// and well-formed workspaces.
    pub open spec fn wf(self) -> bool {
        &&& self.position.wf()
        &&& self.position.width >= 1
        &&& self.position.height >= 1
        &&& 1 <= self.workspaces@.len() <= 256
        &&& (self.active_workspace as int) < self.workspaces@.len()
        &&& forall|i: int|
            0 <= i < self.workspaces@.len() ==> (#[trigger] self.workspaces@[i]).id == i
        &&& forall|i: int| 0 <= i < self.workspaces@.len() ==> (#[trigger] self.workspaces@[i]).wf()
    }

    /// The workspace currently shown on this screen.
    pub open spec fn spec_active_workspace(self) -> Workspace {
        self.workspaces@[self.active_workspace as int]
    }

    pub fn new(workspace_count: u8, position: Position) -> (r: Self)
        requires
            workspace_count >= 1,
            position.wf(),
            position.width >= 1,
            position.height >= 1,
        ensures
            r.wf(),
            r.position == position,
            r.active_workspace == 0,
            r.workspaces@.len() == workspace_count,
            forall|i: int|
                0 <= i < workspace_count ==> (#[trigger] r.workspaces@[i]).clients@.len() == 0,
            forall|i: int|
                0 <= i < workspace_count ==> (#[trigger] r.workspaces@[i]).focused_client is None,
            r.reserved_clients@.len() == 0,
            r.reserved_left_area == 0,
            r.reserved_bottom_area == 0,
            r.reserved_top_area == 0,
            r.reserved_right_area == 0,
    {
        let mut workspaces: Vec<Workspace> = Vec::new();
        let mut id: u8 = 0;
        while id < workspace_count
            invariant
                id <= workspace_count,
                workspaces@.len() == id,
                forall|i: int| 0 <= i < id ==> (#[trigger] workspaces@[i]).id == i,
                forall|i: int| 0 <= i < id ==> (#[trigger] workspaces@[i]).wf(),
                forall|i: int| 0 <= i < id ==> (#[trigger] workspaces@[i]).clients@.len() == 0,
                forall|i: int| 0 <= i < id ==> (#[trigger] workspaces@[i]).focused_client is None,
            decreases workspace_count - id,
        {
            workspaces.push(Workspace::new(id));
            id += 1;
        }
        Screen {
            position,
            active_workspace: 0,
            workspaces,
            reserved_clients: Vec::new(),
            reserved_left_area: 0,
            reserved_bottom_area: 0,
            reserved_top_area: 0,
            reserved_right_area: 0,
        }
    }

    pub fn reserved_clients(&self) -> (r: &Vec<ReservedClient>)
        ensures
            r@ == self.reserved_clients@,
    {
        &self.reserved_clients
    }

    pub fn reserved_clients_mut(&mut self) -> (r: &mut Vec<ReservedClient>)
        ensures
            *r == old(self).reserved_clients,
            *final(self) == (Screen { reserved_clients: *final(r), ..*old(self) }),
    {
        &mut self.reserved_clients
    }

    /// The focused client of the active workspace, if any.
    pub fn focused_client(&self) -> (r: Option<u32>)
        requires
            (self.active_workspace as int) < self.workspaces@.len(),
        ensures
            r == self.spec_active_workspace().focused_client,
    {
        self.workspaces[self.active_workspace as usize].focused_client
    }

    pub fn workspaces(&self) -> (r: &Vec<Workspace>)
        ensures
            r@ == self.workspaces@,
    {
        &self.workspaces
    }

    pub fn workspaces_mut(&mut self) -> (r: &mut Vec<Workspace>)
        ensures
            *r == old(self).workspaces,
            *final(self) == (Screen { workspaces: *final(r), ..*old(self) }),
    {
        &mut self.workspaces
    }

    pub fn active_workspace(&self) -> (r: &Workspace)
        requires
            (self.active_workspace as int) < self.workspaces@.len(),
        ensures
            *r == self.spec_active_workspace(),
    {
        &self.workspaces[self.active_workspace as usize]
    }

    pub fn active_workspace_mut(&mut self) -> (r: &mut Workspace)
        requires
            (old(self).active_workspace as int) < old(self).workspaces@.len(),
        ensures
            *r == old(self).spec_active_workspace(),
            final(self).workspaces@ == old(self).workspaces@.update(
                old(self).active_workspace as int,
                *final(r),
            ),
            final(self).position == old(self).position,
            final(self).active_workspace == old(self).active_workspace,
            final(self).reserved_clients == old(self).reserved_clients,
            final(self).reserved_left_area == old(self).reserved_left_area,
            final(self).reserved_bottom_area == old(self).reserved_bottom_area,
            final(self).reserved_top_area == old(self).reserved_top_area,
            final(self).reserved_right_area == old(self).reserved_right_area,
    {
        let idx = self.active_workspace as usize;
        let r = &mut self.workspaces[idx];
        r
    }

    pub fn active_workspace_id(&self) -> (r: usize)
        ensures
            r == self.active_workspace as usize,
    {
        self.active_workspace as usize
    }

    pub fn set_active_workspace(&mut self, workspace: u8)
        requires
            (workspace as int) < old(self).workspaces@.len(),
        ensures
            *final(self) == (Screen { active_workspace: workspace, ..*old(self) }),
    {
        self.active_workspace = workspace;
    }

    pub fn position(&self) -> (r: &Position)
        ensures
            *r == self.position,
    {
        &self.position
    }

    pub fn sub_left_reserved_area(&mut self, amount: u32)
        requires
            amount <= old(self).reserved_left_area,
        ensures
            *final(self) == (Screen {
                reserved_left_area: (old(self).reserved_left_area - amount) as u32,
                ..*old(self)
            }),
    {
        self.reserved_left_area -= amount;
    }

    pub fn sub_bottom_reserved_area(&mut self, amount: u32)
        requires
            amount <= old(self).reserved_bottom_area,
        ensures
            *final(self) == (Screen {
                reserved_bottom_area: (old(self).reserved_bottom_area - amount) as u32,
                ..*old(self)
            }),
    {
        self.reserved_bottom_area -= amount;
    }

    pub fn sub_top_reserved_area(&mut self, amount: u32)
        requires
            amount <= old(self).reserved_top_area,
        ensures
            *final(self) == (Screen {
                reserved_top_area: (old(self).reserved_top_area - amount) as u32,
                ..*old(self)
            }),
    {
        self.reserved_top_area -= amount;
    }

    pub fn sub_right_reserved_area(&mut self, amount: u32)
        requires
            amount <= old(self).reserved_right_area,
        ensures
            *final(self) == (Screen {
                reserved_right_area: (old(self).reserved_right_area - amount) as u32,
                ..*old(self)
            }),
    {
        self.reserved_right_area -= amount;
    }

    pub fn add_left_reserved_area(&mut self, amount: u32)
        requires
            old(self).reserved_left_area + amount <= u32::MAX,
        ensures
            *final(self) == (Screen {
                reserved_left_area: (old(self).reserved_left_area + amount) as u32,
                ..*old(self)
            }),
    {
        self.reserved_left_area += amount;
    }

    pub fn add_bottom_reserved_area(&mut self, amount: u32)
        requires
            old(self).reserved_bottom_area + amount <= u32::MAX,
        ensures
            *final(self) == (Screen {
                reserved_bottom_area: (old(self).reserved_bottom_area + amount) as u32,
                ..*old(self)
            }),
    {
        self.reserved_bottom_area += amount;
    }

    pub fn add_top_reserved_area(&mut self, amount: u32)
        requires
            old(self).reserved_top_area + amount <= u32::MAX,
        ensures
            *final(self) == (Screen {
                reserved_top_area: (old(self).reserved_top_area + amount) as u32,
                ..*old(self)
            }),
    {
        self.reserved_top_area += amount;
    }

    pub fn add_right_reserved_area(&mut self, amount: u32)
        requires
            old(self).reserved_right_area + amount <= u32::MAX,
        ensures
            *final(self) == (Screen {
                reserved_right_area: (old(self).reserved_right_area + amount) as u32,
                ..*old(self)
            }),
    {
        self.reserved_right_area += amount;
    }

    pub fn add_reserved_client(&mut self, reserved_client: ReservedClient)
        ensures
            final(self).reserved_clients@ == old(self).reserved_clients@.push(reserved_client),
            final(self).position == old(self).position,
            final(self).active_workspace == old(self).active_workspace,
            final(self).workspaces == old(self).workspaces,
            final(self).reserved_left_area == old(self).reserved_left_area,
            final(self).reserved_bottom_area == old(self).reserved_bottom_area,
            final(self).reserved_top_area == old(self).reserved_top_area,
            final(self).reserved_right_area == old(self).reserved_right_area,
    {
        self.reserved_clients.push(reserved_client);
    }

    pub fn remove_reserved_client(&mut self, reserved_client_idx: usize)
        requires
            reserved_client_idx < old(self).reserved_clients@.len(),
        ensures
            final(self).reserved_clients@ == old(self).reserved_clients@.remove(
                reserved_client_idx as int,
            ),
            final(self).position == old(self).position,
            final(self).active_workspace == old(self).active_workspace,
            final(self).workspaces == old(self).workspaces,
            final(self).reserved_left_area == old(self).reserved_left_area,
            final(self).reserved_bottom_area == old(self).reserved_bottom_area,
            final(self).reserved_top_area == old(self).reserved_top_area,
            final(self).reserved_right_area == old(self).reserved_right_area,
    {
        self.reserved_clients.remove(reserved_client_idx);
    }

    /// The screen rectangle shrunk by the four reserved margins: the space
    /// left for tiling once panels and docks took their share.
    pub open spec fn spec_available_area(self) -> Position {
        Position {
            x: (self.position.x + self.reserved_left_area) as i32,
            y: (self.position.y + self.reserved_top_area) as i32,
            width: (self.position.width - self.reserved_left_area
                - self.reserved_right_area) as u32,
            height: (self.position.height - self.reserved_top_area
                - self.reserved_bottom_area) as u32,
        }
    }

    pub fn get_available_area(&self) -> (r: Position)
        requires
            self.position.wf(),
            self.reserved_left_area + self.reserved_right_area <= self.position.width,
            self.reserved_top_area + self.reserved_bottom_area <= self.position.height,
        ensures
            r == self.spec_available_area(),
    {
        let x = ((self.position.x as i64) + (self.reserved_left_area as i64)) as i32;
        let y = ((self.position.y as i64) + (self.reserved_top_area as i64)) as i32;
        let width = self.position.width - self.reserved_left_area - self.reserved_right_area;
        let height = self.position.height - self.reserved_top_area - self.reserved_bottom_area;
        Position::new(x, y, width, height)
    }
}

} // verus!
