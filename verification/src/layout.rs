//! A snapshot of the tiling structure: which windows stand in which
//! column, of which workspace, on which monitor. The layout engine owns
//! the structure; decisions read it here.

use crate::geometry::WindowId;
use crate::search::{first_where, lemma_first_is, lemma_first_none, lemma_first_where, same_index};
use vstd::prelude::*;

verus! {

/// One column: its tiles from top to bottom.
#[derive(Debug)]
pub struct Column {
    pub tiles: Vec<WindowId>,
    /// Explicit width in the engine's own encoding, carried unread.
    pub width: Option<u64>,
}

/// One workspace: its columns from left to right.
#[derive(Debug)]
pub struct Workspace {
    pub columns: Vec<Column>,
    /// The window that holds the focus on this workspace.
    pub focused: Option<WindowId>,
    /// The window in windowed fullscreen.
    pub fullscreen_id: Option<WindowId>,
    pub is_overview: bool,
}

/// The workspaces of one monitor, top to bottom on its strip.
#[derive(Debug)]
pub struct MonitorLayout {
    pub device: String,
    pub active_workspace_idx: usize,
    pub workspaces: Vec<Workspace>,
}

/// The whole tiling structure.
#[derive(Debug)]
pub struct Layout {
    pub monitors: Vec<MonitorLayout>,
}

/// All tiles of a run of columns, left to right and top to bottom.
pub open spec fn column_ids(columns: Seq<Column>) -> Seq<WindowId>
    decreases columns.len(),
{
    if columns.len() == 0 {
        Seq::empty()
    } else {
        column_ids(columns.drop_last()) + columns.last().tiles@
    }
}

/// All windows of a run of workspaces.
pub open spec fn workspace_ids(workspaces: Seq<Workspace>) -> Seq<WindowId>
    decreases workspaces.len(),
{
    if workspaces.len() == 0 {
        Seq::empty()
    } else {
        workspace_ids(workspaces.drop_last()) + workspaces.last().ids()
    }
}

/// Columns that have `id` among their tiles.
pub open spec fn column_with(id: WindowId) -> spec_fn(Column) -> bool {
    |c: Column| c.tiles@.contains(id)
}

/// Workspaces that hold `id`.
pub open spec fn workspace_with(id: WindowId) -> spec_fn(Workspace) -> bool {
    |ws: Workspace| ws.holds(id)
}

/// Monitor layouts that hold `id` on some workspace.
pub open spec fn monitor_with(id: WindowId) -> spec_fn(MonitorLayout) -> bool {
    |m: MonitorLayout| m.home(id) is Some
}

/// Monitor layouts of that name.
pub open spec fn layout_called(device: Seq<char>) -> spec_fn(MonitorLayout) -> bool {
    |m: MonitorLayout| m.device@ == device
}

impl Workspace {
    /// Every window of the workspace, column by column.
    pub open spec fn ids(self) -> Seq<WindowId> {
        column_ids(self.columns@)
    }

    /// Some column has `id` among its tiles.
    pub open spec fn holds(self, id: WindowId) -> bool {
        self.column_of(id) is Some
    }

    /// The first column with `id`.
    pub open spec fn column_of(self, id: WindowId) -> Option<int> {
        first_where(self.columns@, column_with(id))
    }

    /// The row of `id` in its column.
    pub open spec fn row_of(self, id: WindowId) -> int {
        self.columns@[self.column_of(id)->0].tiles@.index_of_first(id)->0
    }

    /// List every window of the workspace, column by column.
    pub fn window_ids(&self) -> (ids: Vec<WindowId>)
        ensures
            ids@ == self.ids(),
    {
        let mut ids: Vec<WindowId> = Vec::new();
        let mut i: usize = 0;
        while i < self.columns.len()
            invariant
                i <= self.columns@.len(),
                ids@ == column_ids(self.columns@.take(i as int)),
            decreases self.columns@.len() - i,
        {
            let tiles = &self.columns[i].tiles;
            let ghost before = ids@;
            let mut j: usize = 0;
            while j < tiles.len()
                invariant
                    j <= tiles@.len(),
                    ids@ =~= before + tiles@.take(j as int),
                decreases tiles@.len() - j,
            {
                ids.push(tiles[j]);
                j = j + 1;
            }
            proof {
                assert(tiles@.take(j as int) =~= tiles@);
                assert(self.columns@.take(i + 1).drop_last() =~= self.columns@.take(i as int));
            }
            i = i + 1;
        }
        proof {
            assert(self.columns@.take(i as int) =~= self.columns@);
        }
        ids
    }

    /// Column and row of a window on this workspace.
    pub fn find(&self, id: WindowId) -> (found: Option<(usize, usize)>)
        ensures
            found is Some <==> self.holds(id),
            found matches Some(p) ==> {
                &&& p.0 == self.column_of(id)->0
                &&& p.1 == self.row_of(id)
                &&& p.0 < self.columns@.len()
                &&& p.1 < self.columns@[p.0 as int].tiles@.len()
                &&& p.0 < usize::MAX
                &&& p.1 < usize::MAX
            },
    {
        let mut i: usize = 0;
        while i < self.columns.len()
            invariant
                i <= self.columns@.len(),
                forall|k: int| 0 <= k < i ==> !column_with(id)(#[trigger] self.columns@[k]),
            decreases self.columns@.len() - i,
        {
            let tiles = &self.columns[i].tiles;
            let mut j: usize = 0;
            while j < tiles.len()
                invariant
                    i < self.columns@.len(),
                    i < usize::MAX,
                    tiles == self.columns@[i as int].tiles,
                    j <= tiles@.len(),
                    forall|k: int| 0 <= k < j ==> tiles@[k] != id,
                    forall|k: int| 0 <= k < i ==> !column_with(id)(#[trigger] self.columns@[k]),
                decreases tiles@.len() - j,
            {
                if tiles[j] == id {
                    proof {
                        assert(tiles@[j as int] == id);
                        assert(column_with(id)(self.columns@[i as int]));
                        lemma_first_is(self.columns@, column_with(id), i as int);
                        tiles@.index_of_first_ensures(id);
                    }
                    return Some((i, j));
                }
                j = j + 1;
            }
            i = i + 1;
        }
        proof {
            lemma_first_none(self.columns@, column_with(id));
        }
        None
    }
}

impl MonitorLayout {
    /// The active workspace exists.
    pub open spec fn wf(self) -> bool {
        self.active_workspace_idx < self.workspaces@.len()
    }

    pub open spec fn active(self) -> Workspace {
        self.workspaces@[self.active_workspace_idx as int]
    }

    /// The first workspace that holds `id`.
    pub open spec fn home(self, id: WindowId) -> Option<int> {
        first_where(self.workspaces@, workspace_with(id))
    }

    /// `id` is found on the workspace that is on view.
    pub open spec fn shows(self, id: WindowId) -> bool {
        self.home(id) == Some(self.active_workspace_idx as int)
    }

    /// Every window of the monitor, workspace by workspace.
    pub open spec fn ids(self) -> Seq<WindowId> {
        workspace_ids(self.workspaces@)
    }

    pub fn active_workspace(&self) -> (ws: &Workspace)
        requires
            self.wf(),
        ensures
            *ws == self.active(),
    {
        &self.workspaces[self.active_workspace_idx]
    }

    /// Which workspace holds the window?
    pub fn workspace_of(&self, id: WindowId) -> (found: Option<usize>)
        ensures
            same_index(found, self.home(id)),
            found matches Some(i) ==> i < self.workspaces@.len(),
            found matches Some(i) ==> self.workspaces@[i as int].holds(id),
    {
        let mut i: usize = 0;
        while i < self.workspaces.len()
            invariant
                i <= self.workspaces@.len(),
                forall|k: int| 0 <= k < i ==> !workspace_with(id)(#[trigger] self.workspaces@[k]),
            decreases self.workspaces@.len() - i,
        {
            if self.workspaces[i].find(id).is_some() {
                proof {
                    lemma_first_is(self.workspaces@, workspace_with(id), i as int);
                }
                return Some(i);
            }
            i = i + 1;
        }
        proof {
            lemma_first_none(self.workspaces@, workspace_with(id));
        }
        None
    }

    /// List every window of the monitor, workspace by workspace.
    pub fn window_ids(&self) -> (ids: Vec<WindowId>)
        ensures
            ids@ == self.ids(),
    {
        let mut ids: Vec<WindowId> = Vec::new();
        let mut i: usize = 0;
        while i < self.workspaces.len()
            invariant
                i <= self.workspaces@.len(),
                ids@ == workspace_ids(self.workspaces@.take(i as int)),
            decreases self.workspaces@.len() - i,
        {
            let mut more = self.workspaces[i].window_ids();
            ids.append(&mut more);
            proof {
                assert(self.workspaces@.take(i + 1).drop_last() =~= self.workspaces@.take(
                    i as int,
                ));
            }
            i = i + 1;
        }
        proof {
            assert(self.workspaces@.take(i as int) =~= self.workspaces@);
        }
        ids
    }
}

impl Layout {
    /// Every monitor's active workspace exists.
    pub open spec fn wf(self) -> bool {
        forall|i: int| 0 <= i < self.monitors@.len() ==> (#[trigger] self.monitors@[i]).wf()
    }

    /// The layout of the monitor of that name.
    pub open spec fn at(self, device: Seq<char>) -> Option<MonitorLayout> {
        match first_where(self.monitors@, layout_called(device)) {
            Some(i) => Some(self.monitors@[i]),
            None => None,
        }
    }

    /// The first monitor layout that holds the window.
    pub open spec fn holder(self, id: WindowId) -> Option<MonitorLayout> {
        match first_where(self.monitors@, monitor_with(id)) {
            Some(i) => Some(self.monitors@[i]),
            None => None,
        }
    }

    /// Some monitor has the window on the workspace that it shows.
    pub open spec fn on_view(self, id: WindowId) -> bool {
        exists|i: int| 0 <= i < self.monitors@.len() && (#[trigger] self.monitors@[i]).shows(id)
    }

    /// The workspace that a monitor shows, where the monitor is known.
    pub open spec fn active_on(self, device: Seq<char>) -> Option<usize> {
        match self.at(device) {
            Some(m) => Some(m.active_workspace_idx),
            None => None,
        }
    }

    /// The window focused on the workspace that a monitor shows.
    pub open spec fn focus_on(self, device: Seq<char>) -> Option<WindowId> {
        match self.at(device) {
            Some(m) => m.active().focused,
            None => None,
        }
    }

    /// Look up a monitor by name.
    pub fn monitor(&self, device: &String) -> (found: Option<&MonitorLayout>)
        ensures
            match found {
                Some(m) => self.at(device@) == Some(*m),
                None => self.at(device@) is None,
            },
            found matches Some(m) ==> m.device@ == device@ && (self.wf() ==> m.wf()),
    {
        let mut i: usize = 0;
        while i < self.monitors.len()
            invariant
                i <= self.monitors@.len(),
                forall|k: int| 0 <= k < i ==> !layout_called(device@)(#[trigger] self.monitors@[k]),
            decreases self.monitors@.len() - i,
        {
            if self.monitors[i].device == *device {
                proof {
                    lemma_first_is(self.monitors@, layout_called(device@), i as int);
                }
                return Some(&self.monitors[i]);
            }
            i = i + 1;
        }
        proof {
            lemma_first_none(self.monitors@, layout_called(device@));
        }
        None
    }

    /// Name of the monitor whose tiling holds the window.
    pub fn device_of(&self, id: WindowId) -> (found: Option<String>)
        ensures
            found == match self.holder(id) {
                Some(m) => Some(m.device),
                None => None,
            },
    {
        let mut i: usize = 0;
        while i < self.monitors.len()
            invariant
                i <= self.monitors@.len(),
                forall|k: int| 0 <= k < i ==> !monitor_with(id)(#[trigger] self.monitors@[k]),
            decreases self.monitors@.len() - i,
        {
            if self.monitors[i].workspace_of(id).is_some() {
                proof {
                    lemma_first_is(self.monitors@, monitor_with(id), i as int);
                }
                return Some(self.monitors[i].device.clone());
            }
            i = i + 1;
        }
        proof {
            lemma_first_none(self.monitors@, monitor_with(id));
        }
        None
    }

    /// Is the window on a workspace that is on view?
    pub fn is_on_view(&self, id: WindowId) -> (b: bool)
        ensures
            b == self.on_view(id),
    {
        let mut i: usize = 0;
        while i < self.monitors.len()
            invariant
                i <= self.monitors@.len(),
                forall|k: int| 0 <= k < i ==> !(#[trigger] self.monitors@[k]).shows(id),
            decreases self.monitors@.len() - i,
        {
            if let Some(ws) = self.monitors[i].workspace_of(id) {
                if ws == self.monitors[i].active_workspace_idx {
                    assert(self.monitors@[i as int].shows(id));
                    return true;
                }
            }
            i = i + 1;
        }
        false
    }

    /// The workspace that a monitor shows.
    pub fn active_idx(&self, device: &String) -> (found: Option<usize>)
        ensures
            found == self.active_on(device@),
    {
        match self.monitor(device) {
            Some(m) => Some(m.active_workspace_idx),
            None => None,
        }
    }

    /// The window focused on the workspace that a monitor shows.
    pub fn focused_id(&self, device: &String) -> (found: Option<WindowId>)
        requires
            self.wf(),
        ensures
            found == self.focus_on(device@),
    {
        match self.monitor(device) {
            Some(m) => m.active_workspace().focused,
            None => None,
        }
    }
}

/// A window is held by a workspace exactly when it is among its windows.
pub proof fn lemma_holds(ws: Workspace, id: WindowId)
    ensures
        ws.holds(id) <==> ws.ids().contains(id),
{
    lemma_first_where(ws.columns@, column_with(id));
    lemma_column_ids(ws.columns@, id);
    if ws.holds(id) {
        assert(column_with(id)(ws.columns@[ws.column_of(id)->0]));
    }
    if ws.ids().contains(id) {
        let c = choose|c: int|
            0 <= c < ws.columns@.len() && (#[trigger] ws.columns@[c]).tiles@.contains(id);
        assert(column_with(id)(ws.columns@[c]));
    }
}

/// A window is among a run of columns exactly when one has it.
pub proof fn lemma_column_ids(columns: Seq<Column>, id: WindowId)
    ensures
        column_ids(columns).contains(id) <==> exists|c: int|
            0 <= c < columns.len() && (#[trigger] columns[c]).tiles@.contains(id),
    decreases columns.len(),
{
    if columns.len() > 0 {
        let t = columns.drop_last();
        lemma_column_ids(t, id);
        let a = column_ids(t);
        let b = columns.last().tiles@;
        if a.contains(id) {
            let c = choose|c: int| 0 <= c < t.len() && (#[trigger] t[c]).tiles@.contains(id);
            assert(columns[c] == t[c]);
            let i = a.index_of(id);
            assert((a + b)[i] == id);
        }
        if b.contains(id) {
            let i = b.index_of(id);
            assert((a + b)[a.len() + i] == id);
            assert(columns[columns.len() - 1].tiles@.contains(id));
        }
        if (a + b).contains(id) {
            let i = (a + b).index_of(id);
            if i < a.len() {
                assert(a[i] == id);
            } else {
                assert(b[i - a.len()] == id);
            }
        }
        if exists|c: int| 0 <= c < columns.len() && (#[trigger] columns[c]).tiles@.contains(id) {
            let c = choose|c: int|
                0 <= c < columns.len() && (#[trigger] columns[c]).tiles@.contains(id);
            if c < t.len() {
                assert(t[c].tiles@.contains(id));
            }
        }
    }
}

} // verus!
