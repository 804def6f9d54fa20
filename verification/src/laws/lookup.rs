//! What a look-up finds, said of rows, columns and positions alone. The
//! other laws speak in these words.

use crate::geometry::{called, monitor_at, Monitor, WindowId};
use crate::layout::{
    column_ids, column_with, layout_called, monitor_with, workspace_ids, workspace_with, Column,
    Layout, MonitorLayout, Workspace,
};
use crate::search::{first_where, lemma_first_is, lemma_first_none, lemma_first_where};
use crate::state::StateView;
use vstd::prelude::*;

verus! {

/// The window is a tile of some column of the workspace.
pub open spec fn stands_on(ws: Workspace, id: WindowId) -> bool {
    exists|c: int| 0 <= c < ws.columns@.len() && (#[trigger] ws.columns@[c]).tiles@.contains(id)
}

/// The window is on some workspace of the monitor.
pub open spec fn lives_on(m: MonitorLayout, id: WindowId) -> bool {
    exists|k: int| 0 <= k < m.workspaces@.len() && stands_on(#[trigger] m.workspaces@[k], id)
}

/// Monitor `i` is the first of that name.
pub open spec fn is_called(monitors: Seq<Monitor>, device: Seq<char>, i: int) -> bool {
    &&& 0 <= i < monitors.len()
    &&& monitors[i].device@ == device
    &&& forall|j: int| 0 <= j < i ==> (#[trigger] monitors[j]).device@ != device
}

/// No monitor has that name.
pub open spec fn none_called(monitors: Seq<Monitor>, device: Seq<char>) -> bool {
    forall|j: int| 0 <= j < monitors.len() ==> (#[trigger] monitors[j]).device@ != device
}

/// Layout `i` is the first of a monitor of that name.
pub open spec fn is_known(layout: Layout, device: Seq<char>, i: int) -> bool {
    &&& 0 <= i < layout.monitors@.len()
    &&& layout.monitors@[i].device@ == device
    &&& forall|j: int| 0 <= j < i ==> (#[trigger] layout.monitors@[j]).device@ != device
}

/// The layout has no monitor of that name.
pub open spec fn is_unknown(layout: Layout, device: Seq<char>) -> bool {
    forall|j: int|
        0 <= j < layout.monitors@.len() ==> (#[trigger] layout.monitors@[j]).device@ != device
}

/// Monitor `i` of the layout is the first that has the window on any of
/// its workspaces.
pub open spec fn is_home(layout: Layout, id: WindowId, i: int) -> bool {
    &&& 0 <= i < layout.monitors@.len()
    &&& lives_on(layout.monitors@[i], id)
    &&& forall|j: int| 0 <= j < i ==> !lives_on(#[trigger] layout.monitors@[j], id)
}

/// No monitor of the layout has the window.
pub open spec fn is_homeless(layout: Layout, id: WindowId) -> bool {
    forall|j: int| 0 <= j < layout.monitors@.len() ==> !lives_on(#[trigger] layout.monitors@[j], id)
}

/// Workspace `k` of the monitor is the first that has the window.
pub open spec fn is_first_on(m: MonitorLayout, id: WindowId, k: int) -> bool {
    &&& 0 <= k < m.workspaces@.len()
    &&& stands_on(m.workspaces@[k], id)
    &&& forall|j: int| 0 <= j < k ==> !stands_on(#[trigger] m.workspaces@[j], id)
}

/// The window is at that row of that column, and nowhere further to the
/// left, nor higher up in the column.
pub open spec fn is_spot(ws: Workspace, id: WindowId, c: int, row: int) -> bool {
    &&& 0 <= c < ws.columns@.len()
    &&& 0 <= row < ws.columns@[c].tiles@.len()
    &&& ws.columns@[c].tiles@[row] == id
    &&& forall|j: int| 0 <= j < row ==> (#[trigger] ws.columns@[c].tiles@[j]) != id
    &&& forall|j: int| 0 <= j < c ==> !(#[trigger] ws.columns@[j]).tiles@.contains(id)
}

/// A monitor is found by its name, and the first of that name is.
pub proof fn law_monitors_are_found_by_name(monitors: Seq<Monitor>, device: Seq<char>, i: int)
    ensures
        monitor_at(monitors, device) == Some(i) <==> is_called(monitors, device, i),
        monitor_at(monitors, device) is None <==> none_called(monitors, device),
{
    let p = called(device);
    lemma_first_where(monitors, p);
    if is_called(monitors, device, i) {
        lemma_first_is(monitors, p, i);
    }
    if none_called(monitors, device) {
        lemma_first_none(monitors, p);
    }
    if monitor_at(monitors, device) is None {
        assert forall|j: int| 0 <= j < monitors.len() implies (#[trigger] monitors[j]).device@
            != device by {
            assert(!p(monitors[j]));
        }
    }
    if monitor_at(monitors, device) == Some(i) {
        assert forall|j: int| 0 <= j < i implies (#[trigger] monitors[j]).device@ != device by {
            assert(!p(monitors[j]));
        }
    }
}

/// The layout of a monitor is found by the monitor's name.
pub proof fn law_layouts_are_found_by_name(layout: Layout, device: Seq<char>, i: int)
    ensures
        is_known(layout, device, i) ==> {
            &&& layout.at(device) == Some(layout.monitors@[i])
            &&& layout.active_on(device) == Some(layout.monitors@[i].active_workspace_idx)
        },
        is_unknown(layout, device) <==> layout.at(device) is None,
        is_unknown(layout, device) ==> layout.active_on(device) is None && layout.focus_on(
            device,
        ) is None,
        layout.at(device) is Some ==> exists|j: int| is_known(layout, device, j),
{
    let p = layout_called(device);
    let s = layout.monitors@;
    lemma_first_where(s, p);
    if is_known(layout, device, i) {
        lemma_first_is(s, p, i);
    }
    if is_unknown(layout, device) {
        lemma_first_none(s, p);
    }
    if layout.at(device) is None {
        assert forall|j: int| 0 <= j < s.len() implies (#[trigger] s[j]).device@ != device by {
            assert(!p(s[j]));
        }
    }
    if layout.at(device) is Some {
        let k = first_where(s, p)->0;
        assert forall|j: int| 0 <= j < k implies (#[trigger] s[j]).device@ != device by {
            assert(!p(s[j]));
        }
        assert(is_known(layout, device, k));
    }
}

/// A layout is valid exactly when every monitor's number of the
/// workspace shown is one of a workspace that it has.
pub proof fn law_when_a_layout_is_valid(layout: Layout)
    ensures
        layout.wf() <==> forall|i: int|
            0 <= i < layout.monitors@.len() ==> (
            #[trigger] layout.monitors@[i]).active_workspace_idx
                < layout.monitors@[i].workspaces@.len(),
{
    let s = layout.monitors@;
    if forall|i: int|
        0 <= i < s.len() ==> (#[trigger] s[i]).active_workspace_idx < s[i].workspaces@.len() {
        assert forall|i: int| 0 <= i < s.len() implies (#[trigger] s[i]).wf() by {}
    }
    if layout.wf() {
        assert forall|i: int| 0 <= i < s.len() implies (#[trigger] s[i]).active_workspace_idx
            < s[i].workspaces@.len() by {
            assert(s[i].wf());
        }
    }
}

/// A state is valid exactly when a place is on record for tracked
/// windows only and no two slides are on one monitor. Every float is
/// managed exactly when it is tracked.
pub proof fn law_when_a_state_is_valid(v: StateView)
    ensures
        v.wf() <==> {
            &&& forall|id: WindowId| #[trigger]
                v.original_rects.contains_key(id) ==> v.windows.contains(id)
            &&& forall|i: int, j: int|
                #![trigger v.slides[i], v.slides[j]]
                0 <= i < v.slides.len() && 0 <= j < v.slides.len() && v.slides[i].device
                    == v.slides[j].device ==> i == j
        },
        v.floats_managed() <==> forall|id: WindowId| #[trigger]
            v.floating.contains_key(id) ==> v.windows.contains(id),
{
    if v.wf() {
        assert forall|id: WindowId| #[trigger]
            v.original_rects.contains_key(id) implies v.windows.contains(id) by {
            assert(v.original_rects.dom().contains(id));
        }
        assert forall|i: int, j: int|
            #![trigger v.slides[i], v.slides[j]]
            0 <= i < v.slides.len() && 0 <= j < v.slides.len() && v.slides[i].device
                == v.slides[j].device implies i == j by {
            if i < j {
                assert(v.slides[i].device != v.slides[j].device);
            } else if j < i {
                assert(v.slides[j].device != v.slides[i].device);
            }
        }
    }
    if v.floats_managed() {
        assert forall|id: WindowId| #[trigger]
            v.floating.contains_key(id) implies v.windows.contains(id) by {
            assert(v.floating.dom().contains(id));
        }
    }
}

/// The focus on a monitor is that of the workspace it shows.
pub proof fn law_focus_is_on_the_workspace_shown(layout: Layout, device: Seq<char>, i: int, k: int)
    requires
        is_known(layout, device, i),
        k == layout.monitors@[i].active_workspace_idx,
    ensures
        layout.focus_on(device) == layout.monitors@[i].workspaces@[k].focused,
{
    law_layouts_are_found_by_name(layout, device, i);
}

/// A window is at the leftmost column that has it, as high as it is
/// there; a workspace holds exactly its tiles.
pub proof fn law_windows_are_found_on_a_workspace(ws: Workspace, id: WindowId, c: int, row: int)
    ensures
        ws.holds(id) <==> stands_on(ws, id),
        is_spot(ws, id, c, row) ==> ws.column_of(id) == Some(c) && ws.row_of(id) == row,
        ws.holds(id) ==> is_spot(ws, id, ws.column_of(id)->0, ws.row_of(id)),
{
    let s = ws.columns@;
    let p = column_with(id);
    lemma_first_where(s, p);
    if stands_on(ws, id) {
        let j = choose|j: int| 0 <= j < s.len() && (#[trigger] s[j]).tiles@.contains(id);
        assert(p(s[j]));
    }
    if ws.holds(id) {
        let at = ws.column_of(id)->0;
        assert(p(s[at]));
        s[at].tiles@.index_of_first_ensures(id);
        assert forall|j: int| 0 <= j < at implies !(#[trigger] s[j]).tiles@.contains(id) by {
            assert(!p(s[j]));
        }
    }
    if is_spot(ws, id, c, row) {
        assert(s[c].tiles@[row] == id);
        assert(s[c].tiles@.contains(id));
        lemma_first_is(s, p, c);
        s[c].tiles@.index_of_first_ensures(id);
    }
}

/// A window is on the first workspace of a monitor that has it.
pub proof fn law_windows_are_found_on_a_monitor(m: MonitorLayout, id: WindowId, k: int)
    ensures
        m.home(id) == Some(k) <==> is_first_on(m, id, k),
        m.home(id) is Some <==> lives_on(m, id),
        m.shows(id) <==> is_first_on(m, id, m.active_workspace_idx as int),
{
    let s = m.workspaces@;
    let p = workspace_with(id);
    lemma_first_where(s, p);
    assert forall|j: int| 0 <= j < s.len() implies p(#[trigger] s[j]) == stands_on(s[j], id) by {
        law_windows_are_found_on_a_workspace(s[j], id, 0, 0);
    }
    if is_first_on(m, id, k) {
        assert forall|j: int| 0 <= j < k implies !p(#[trigger] s[j]) by {
            assert(!stands_on(s[j], id));
        }
        lemma_first_is(s, p, k);
    }
    if lives_on(m, id) && m.home(id) is None {
        let j = choose|j: int| 0 <= j < s.len() && stands_on(#[trigger] s[j], id);
        assert(!p(s[j]));
    }
    if m.home(id) is Some {
        let j = m.home(id)->0;
        assert(stands_on(s[j], id));
        assert forall|x: int| 0 <= x < j implies !stands_on(#[trigger] s[x], id) by {
            assert(!p(s[x]));
        }
        assert(is_first_on(m, id, j));
    }
    let a = m.active_workspace_idx as int;
    if is_first_on(m, id, a) {
        assert forall|j: int| 0 <= j < a implies !p(#[trigger] s[j]) by {
            assert(!stands_on(s[j], id));
        }
        lemma_first_is(s, p, a);
    }
}

/// A window is on the first monitor of the layout that has it.
pub proof fn law_windows_are_found_in_the_layout(layout: Layout, id: WindowId, i: int)
    ensures
        is_home(layout, id, i) ==> layout.holder(id) == Some(layout.monitors@[i]),
        is_homeless(layout, id) <==> layout.holder(id) is None,
        layout.holder(id) is Some ==> exists|j: int| is_home(layout, id, j),
{
    let s = layout.monitors@;
    let p = monitor_with(id);
    lemma_first_where(s, p);
    assert forall|j: int| 0 <= j < s.len() implies p(#[trigger] s[j]) == lives_on(s[j], id) by {
        law_windows_are_found_on_a_monitor(s[j], id, 0);
    }
    if is_home(layout, id, i) {
        assert forall|j: int| 0 <= j < i implies !p(#[trigger] s[j]) by {
            assert(!lives_on(s[j], id));
        }
        lemma_first_is(s, p, i);
    }
    if is_homeless(layout, id) {
        assert forall|j: int| 0 <= j < s.len() implies !p(#[trigger] s[j]) by {
            assert(!lives_on(s[j], id));
        }
        lemma_first_none(s, p);
    }
    if layout.holder(id) is None {
        assert forall|j: int| 0 <= j < s.len() implies !lives_on(#[trigger] s[j], id) by {
            assert(!p(s[j]));
        }
    }
    if layout.holder(id) is Some {
        let k = first_where(s, p)->0;
        assert(lives_on(s[k], id));
        assert forall|j: int| 0 <= j < k implies !lives_on(#[trigger] s[j], id) by {
            assert(!p(s[j]));
        }
        assert(is_home(layout, id, k));
    }
}

/// A window is on view exactly when a monitor shows the workspace it is
/// on.
pub proof fn law_on_view_is_on_a_workspace_shown(layout: Layout, id: WindowId)
    ensures
        layout.on_view(id) <==> exists|i: int|
            0 <= i < layout.monitors@.len() && is_first_on(
                #[trigger] layout.monitors@[i],
                id,
                layout.monitors@[i].active_workspace_idx as int,
            ),
{
    let s = layout.monitors@;
    assert forall|i: int| 0 <= i < s.len() implies (#[trigger] s[i]).shows(id) == is_first_on(
        s[i],
        id,
        s[i].active_workspace_idx as int,
    ) by {
        law_windows_are_found_on_a_monitor(s[i], id, 0);
    }
    if layout.on_view(id) {
        let i = choose|i: int| 0 <= i < s.len() && (#[trigger] s[i]).shows(id);
        assert(is_first_on(s[i], id, s[i].active_workspace_idx as int));
    }
}

proof fn lemma_column_ids_join(a: Seq<Column>, b: Seq<Column>)
    ensures
        column_ids(a + b) == column_ids(a) + column_ids(b),
    decreases b.len(),
{
    if b.len() == 0 {
        assert(a + b =~= a);
    } else {
        lemma_column_ids_join(a, b.drop_last());
        assert((a + b).drop_last() =~= a + b.drop_last());
        assert(column_ids(a + b) =~= column_ids(a) + column_ids(b));
    }
}

/// The windows of a workspace are its tiles from left to right and, in a
/// column, from top to bottom: those of the columns on the left come
/// first, and a column gives its tiles.
pub proof fn law_windows_are_listed_in_order(a: Seq<Column>, column: Column, b: Seq<Column>)
    ensures
        column_ids(a + b) == column_ids(a) + column_ids(b),
        column_ids(seq![column]) == column.tiles@,
        column_ids(Seq::<Column>::empty()) == Seq::<WindowId>::empty(),
{
    lemma_column_ids_join(a, b);
    let one = seq![column];
    assert(one.drop_last() =~= Seq::<Column>::empty());
    assert(column_ids(one.drop_last()) =~= Seq::<WindowId>::empty());
    assert(column_ids(one) =~= column.tiles@);
}

proof fn lemma_workspace_ids_join(a: Seq<Workspace>, b: Seq<Workspace>)
    ensures
        workspace_ids(a + b) == workspace_ids(a) + workspace_ids(b),
    decreases b.len(),
{
    if b.len() == 0 {
        assert(a + b =~= a);
    } else {
        lemma_workspace_ids_join(a, b.drop_last());
        assert((a + b).drop_last() =~= a + b.drop_last());
        assert(workspace_ids(a + b) =~= workspace_ids(a) + workspace_ids(b));
    }
}

/// The windows of a monitor are those of its workspaces, from the first
/// to the last.
pub proof fn law_workspaces_are_listed_in_order(
    a: Seq<Workspace>,
    ws: Workspace,
    b: Seq<Workspace>,
)
    ensures
        workspace_ids(a + b) == workspace_ids(a) + workspace_ids(b),
        workspace_ids(seq![ws]) == column_ids(ws.columns@),
        workspace_ids(Seq::<Workspace>::empty()) == Seq::<WindowId>::empty(),
{
    lemma_workspace_ids_join(a, b);
    let one = seq![ws];
    assert(one.drop_last() =~= Seq::<Workspace>::empty());
    assert(workspace_ids(one.drop_last()) =~= Seq::<WindowId>::empty());
    assert(workspace_ids(one) =~= ws.ids());
}

} // verus!
