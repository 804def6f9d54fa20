//! What a slide does: where its camera goes, who takes part, where each
//! window is in every frame, and how a slide ends.

use crate::effect::{hide_all, place_all, retire_all, show_all, Effect};
use crate::geometry::{saturated_pixels, tile_ids, Rect, TileRect, WindowId};
use crate::laws::lookup::{
    is_called, is_known, is_unknown, law_layouts_are_found_by_name,
    law_monitors_are_found_by_name, law_windows_are_found_on_a_workspace, none_called, stands_on,
};
use crate::laws::tiling::{lemma_joined, lemma_part_ids, lemma_tile_ids, takes_part, tiled_in};
use crate::laws::{
    law_moved_windows_are_taken_along, law_slide_settles_exactly, lemma_carried_from,
    lemma_taken_from,
};
use crate::layout::{lemma_holds, Layout, MonitorLayout};
use crate::reflow::{inactive_ids, outside};
use crate::search::{lemma_first_is, lemma_first_none, lemma_first_where};
use crate::slide::{
    all_tiles, carried, displacement, displacements, frame_at, fresh, ids_on, merged, part_ids,
    rects_of, rounded, shiftable, shifted, stride_of, taken_along, PartView, SlideView,
    CAMERA_UNIT,
};
use crate::state::{slide_on, StateView};
use crate::transition::{
    all_shiftable, inactive_parts, slide_effects, snap_effects, snap_hidden,
};
use vstd::prelude::*;

verus! {

/// The window is on some workspace of the monitor other than `idx`.
pub open spec fn is_off(ml: MonitorLayout, idx: usize, id: WindowId) -> bool {
    exists|k: int|
        0 <= k < ml.workspaces@.len() && k != idx && stands_on(#[trigger] ml.workspaces@[k], id)
}

proof fn lemma_off(ml: MonitorLayout, idx: usize, sliding: Seq<WindowId>, id: WindowId, n: int)
    requires
        0 <= n <= ml.workspaces@.len(),
    ensures
        inactive_ids(ml.workspaces@.take(n), idx as int, sliding).contains(id) <==> {
            &&& !sliding.contains(id)
            &&& exists|k: int|
                0 <= k < n && k != idx && stands_on(#[trigger] ml.workspaces@[k], id)
        },
    decreases n,
{
    broadcast use vstd::seq_lib::group_filter_ensures;

    if n > 0 {
        lemma_off(ml, idx, sliding, id, n - 1);
        let t = ml.workspaces@.take(n);
        assert(t.drop_last() =~= ml.workspaces@.take(n - 1));
        let ws = ml.workspaces@[n - 1];
        let ids = ws.ids();
        let more = ids.filter(outside(sliding));
        lemma_joined(inactive_ids(t.drop_last(), idx as int, sliding), more, id);
        lemma_holds(ws, id);
        law_windows_are_found_on_a_workspace(ws, id, 0, 0);
        if ids.contains(id) && !sliding.contains(id) {
            assert(outside(sliding)(ids[ids.index_of(id)]));
        }
        if more.contains(id) {
            assert(outside(sliding)(more[more.index_of(id)]));
            ids.lemma_filter_contains_rev(outside(sliding), id);
        }
    }
}

proof fn lemma_others(ml: MonitorLayout, idx: usize, finals: Seq<PartView>, id: WindowId)
    ensures
        inactive_ids(ml.workspaces@, idx as int, part_ids(finals)).contains(id) <==> is_off(
            ml,
            idx,
            id,
        ) && !takes_part(finals, id),
{
    lemma_off(ml, idx, part_ids(finals), id, ml.workspaces@.len() as int);
    assert(ml.workspaces@.take(ml.workspaces@.len() as int) =~= ml.workspaces@);
    lemma_part_ids(finals, id);
}

/// A switch aims the camera once, first of all, from the workspace shown
/// before to the one switched to, upwards and downwards alike. Then the
/// windows are placed, and last the bars go on top.
pub proof fn law_switches_aim_at_their_workspace(
    device: String,
    prev: usize,
    idx: usize,
    finals: Seq<PartView>,
    ml: MonitorLayout,
    k: int,
)
    ensures
        ({
            let effects = slide_effects(device, prev, idx, finals, ml);
            &&& effects.len() >= 3
            &&& effects[0] == (Effect::AimCamera { device, from: prev, to: idx })
            &&& effects[1] == Effect::PlaceSlide(device)
            &&& effects[effects.len() - 1] == Effect::RaiseBars
            &&& 0 < k < effects.len() ==> !(effects[k] is AimCamera)
            &&& 1 < k < effects.len() ==> !(effects[k] is PlaceSlide)
        }),
{
    let effects = slide_effects(device, prev, idx, finals, ml);
    let e1 = seq![Effect::AimCamera { device, from: prev, to: idx }, Effect::PlaceSlide(device)];
    let e2 = show_all(part_ids(finals));
    let others = inactive_ids(ml.workspaces@, idx as int, part_ids(finals));
    let e3 = retire_all(others);
    let e4 = seq![Effect::RaiseBars];
    assert(effects =~= e1 + e2 + e3 + e4);
    if 1 < k < effects.len() {
        if k < 2 + e2.len() {
            assert(effects[k] == e2[k - 2]);
        } else if k < 2 + e2.len() + e3.len() {
            assert(effects[k] == e3[k - 2 - e2.len()]);
            lemma_retire_is(others, k - 2 - e2.len());
        }
    }
}

proof fn lemma_retire_is(ids: Seq<WindowId>, k: int)
    requires
        0 <= k < retire_all(ids).len(),
    ensures
        retire_all(ids).len() == 2 * ids.len(),
        retire_all(ids)[k] == (if k % 2 == 0 {
            Effect::Hide(ids[k / 2])
        } else {
            Effect::RemoveAnimation(ids[k / 2])
        }),
    decreases ids.len(),
{
    if ids.len() > 0 {
        let t = ids.drop_last();
        lemma_retire_len(t);
        if k < retire_all(t).len() {
            lemma_retire_is(t, k);
        }
    }
}

proof fn lemma_retire_len(ids: Seq<WindowId>)
    ensures
        retire_all(ids).len() == 2 * ids.len(),
    decreases ids.len(),
{
    if ids.len() > 0 {
        lemma_retire_len(ids.drop_last());
    }
}

/// Once the camera is where a switch aimed it, the workspace switched to
/// stands exactly at its tiles; where the camera starts, the workspace
/// shown before does.
pub proof fn law_switches_end_on_their_workspace(
    prev: usize,
    idx: usize,
    stride: i64,
    rects: Seq<TileRect>,
)
    requires
        idx * CAMERA_UNIT <= i64::MAX,
        prev * CAMERA_UNIT <= i64::MAX,
    ensures
        displacement(idx, (idx * CAMERA_UNIT) as i64, stride) == 0,
        displacement(prev, (prev * CAMERA_UNIT) as i64, stride) == 0,
        shifted(rects, 0) == rects,
{
    law_slide_settles_exactly(idx, (idx * CAMERA_UNIT) as i64, stride, rects);
    law_slide_settles_exactly(prev, (prev * CAMERA_UNIT) as i64, stride, rects);
}

/// A switch shows exactly the windows that take part in its slide, and
/// hides, and stops animating, exactly the windows of the monitor's
/// other workspaces that do not.
pub proof fn law_switches_show_the_participants(
    device: String,
    prev: usize,
    idx: usize,
    finals: Seq<PartView>,
    ml: MonitorLayout,
    id: WindowId,
)
    ensures
        ({
            let effects = slide_effects(device, prev, idx, finals, ml);
            &&& effects.contains(Effect::Show(id)) <==> takes_part(finals, id)
            &&& effects.contains(Effect::Hide(id)) <==> is_off(ml, idx, id) && !takes_part(
                finals,
                id,
            )
            &&& effects.contains(Effect::RemoveAnimation(id)) <==> is_off(ml, idx, id)
                && !takes_part(finals, id)
            &&& !effects.contains(Effect::Raise(id))
        }),
{
    let effects = slide_effects(device, prev, idx, finals, ml);
    let e1 = seq![Effect::AimCamera { device, from: prev, to: idx }, Effect::PlaceSlide(device)];
    let parts = part_ids(finals);
    let e2 = show_all(parts);
    let others = inactive_ids(ml.workspaces@, idx as int, parts);
    let e3 = retire_all(others);
    let e4 = seq![Effect::RaiseBars];
    assert(effects =~= e1 + e2 + e3 + e4);
    lemma_part_ids(finals, id);
    lemma_others(ml, idx, finals, id);
    lemma_retire_len(others);
    if parts.contains(id) {
        let k = parts.index_of(id);
        assert(effects[2 + k] == e2[k]);
        assert(effects[2 + k] == Effect::Show(id));
    }
    if others.contains(id) {
        let k = others.index_of(id);
        lemma_retire_is(others, 2 * k);
        lemma_retire_is(others, 2 * k + 1);
        assert(effects[2 + e2.len() + 2 * k] == Effect::Hide(id));
        assert(effects[2 + e2.len() + 2 * k + 1] == Effect::RemoveAnimation(id));
    }
    assert forall|k: int| 0 <= k < effects.len() implies {
        let e = #[trigger] effects[k];
        &&& e == Effect::Show(id) ==> parts.contains(id)
        &&& e == Effect::Hide(id) || e == Effect::RemoveAnimation(id) ==> others.contains(id)
        &&& e != Effect::Raise(id)
    } by {
        if k < 2 {
            assert(effects[k] == e1[k]);
        } else if k < 2 + e2.len() {
            assert(effects[k] == e2[k - 2]);
            assert(parts.contains(parts[k - 2]));
        } else if k < 2 + e2.len() + e3.len() {
            let x = k - 2 - e2.len();
            assert(effects[k] == e3[x]);
            lemma_retire_is(others, x);
            assert(others.contains(others[x / 2]));
        } else {
            assert(effects[k] == e4[k - 2 - e2.len() - e3.len()]);
        }
    }
}

/// A slide starts exactly when management does not rest, slides are
/// wanted, and both the program and the layout know the monitor.
pub proof fn law_when_slides_start(v: StateView, device: Seq<char>, layout: Layout)
    ensures
        v.can_slide(device, layout) <==> {
            &&& v.interacting_window is None
            &&& !v.suspended
            &&& v.settings.slides_enabled
            &&& !none_called(v.monitors, device)
            &&& !is_unknown(layout, device)
        },
{
    law_monitors_are_found_by_name(v.monitors, device, 0);
    law_layouts_are_found_by_name(layout, device, 0);
}

/// `k` lies between the two, either of which may be the greater.
pub open spec fn between(k: int, a: usize, b: usize) -> bool {
    a <= k <= b || b <= k <= a
}

/// No slide is on the monitor of that name.
pub open spec fn is_still(v: StateView, device: Seq<char>) -> bool {
    forall|s: int| 0 <= s < v.slides.len() ==> (#[trigger] v.slides[s]).device != device
}

proof fn lemma_still(v: StateView, device: Seq<char>)
    requires
        is_still(v, device),
    ensures
        v.slide_at(device) is None,
{
    let p = slide_on(device);
    assert forall|s: int| 0 <= s < v.slides.len() implies !p(#[trigger] v.slides[s]) by {
        assert(v.slides[s].device != device);
    }
    lemma_first_none(v.slides, p);
}

proof fn lemma_slide_is(v: StateView, device: Seq<char>, s: int)
    requires
        v.wf(),
        0 <= s < v.slides.len(),
        v.slides[s].device == device,
    ensures
        v.slide_at(device) == Some(s),
{
    let p = slide_on(device);
    assert forall|x: int| 0 <= x < s implies !p(#[trigger] v.slides[x]) by {
        assert(v.slides[x].device != v.slides[s].device);
    }
    lemma_first_is(v.slides, p, s);
}

/// Where no slide is in flight, exactly the workspaces from the one
/// shown before to the one switched to take part, in either direction,
/// each once, from the first to the last, with its own tiles.
pub proof fn law_participants_lie_between(
    v: StateView,
    device: Seq<char>,
    prev: usize,
    idx: usize,
    tiles: Seq<Seq<TileRect>>,
    ml: MonitorLayout,
    i: int,
    k: int,
)
    requires
        is_still(v, device),
        tiles.len() <= usize::MAX,
    ensures
        ({
            let finals = v.switch_finals(device, prev, idx, tiles, ml);
            &&& 0 <= i < finals.len() ==> {
                &&& between(finals[i].workspace as int, prev, idx)
                &&& finals[i].workspace < tiles.len()
                &&& finals[i].rects == tiles[finals[i].workspace as int]
            }
            &&& 0 <= i && i + 1 < finals.len() ==> finals[i].workspace + 1 == finals[i
                + 1].workspace
            &&& 0 <= k < tiles.len() && between(k, prev, idx) ==> exists|p: int|
                0 <= p < finals.len() && (#[trigger] finals[p]).workspace == k
        }),
{
    lemma_still(v, device);
    let finals = v.switch_finals(device, prev, idx, tiles, ml);
    let lo = if prev < idx {
        prev as int
    } else {
        idx as int
    };
    if 0 <= k < tiles.len() && between(k, prev, idx) {
        assert(finals[k - lo].workspace == k);
    }
}

/// Over a slide in flight, every workspace from the one shown before to
/// the one switched to takes part with its own fresh tiles; any other
/// participant is a workspace of that slide outside of these, with
/// windows that the slide had moving and that are on the workspace now,
/// at their old tiles, and in no fresh one.
pub proof fn law_participants_over_a_slide(
    v: StateView,
    device: Seq<char>,
    prev: usize,
    idx: usize,
    tiles: Seq<Seq<TileRect>>,
    ml: MonitorLayout,
    s: int,
    i: int,
    k: int,
    r: TileRect,
)
    requires
        v.wf(),
        0 <= s < v.slides.len(),
        v.slides[s].device == device,
        tiles.len() <= usize::MAX,
    ensures
        ({
            let finals = v.switch_finals(device, prev, idx, tiles, ml);
            let old = v.slides[s].finals;
            &&& 0 <= i < k < finals.len() && between(finals[i].workspace as int, prev, idx)
                && between(finals[k].workspace as int, prev, idx) ==> finals[i].workspace
                < finals[k].workspace
            &&& 0 <= k < tiles.len() && between(k, prev, idx) ==> exists|p: int|
                0 <= p < finals.len() && (#[trigger] finals[p]).workspace == k && finals[p].rects
                    == tiles[k]
            &&& 0 <= i < finals.len() && between(finals[i].workspace as int, prev, idx) ==> {
                &&& finals[i].workspace < tiles.len()
                &&& finals[i].rects == tiles[finals[i].workspace as int]
            }
            &&& 0 <= i < finals.len() && !between(finals[i].workspace as int, prev, idx) ==> {
                &&& exists|p: int|
                    0 <= p < old.len() && (#[trigger] old[p]).workspace == finals[i].workspace
                &&& finals[i].rects.contains(r) ==> {
                    &&& finals[i].workspace < ml.workspaces@.len()
                    &&& stands_on(ml.workspaces@[finals[i].workspace as int], r.id)
                    &&& exists|p: int| 0 <= p < old.len() && (#[trigger] old[p]).rects.contains(r)
                    &&& forall|w: int|
                        0 <= w < tiles.len() && between(w, prev, idx) ==> !tiled_in(
                            #[trigger] tiles[w],
                            r.id,
                        )
                }
            }
        }),
{
    lemma_slide_is(v, device, s);
    let old = v.slides[s].finals;
    let lo = if prev < idx {
        prev as int
    } else {
        idx as int
    };
    let hi = if prev < idx {
        idx as int
    } else {
        prev as int
    };
    let new = fresh(tiles, lo, hi);
    let finals = v.switch_finals(device, prev, idx, tiles, ml);
    assert(finals == new + carried(old, new, ml, lo, hi));
    if 0 <= k < tiles.len() && between(k, prev, idx) {
        assert(finals[k - lo] == new[k - lo]);
    }
    if new.len() <= k < finals.len() {
        let q = lemma_carried_from(old, new, ml, lo, hi, k - new.len());
        assert(finals[k].workspace == old[q].workspace);
    }
    if 0 <= i < finals.len() {
        if i < new.len() {
            assert(finals[i] == new[i]);
        } else {
            let at = i - new.len();
            let q = lemma_carried_from(old, new, ml, lo, hi, at);
            assert(finals[i] == carried(old, new, ml, lo, hi)[at]);
            assert(old[q].workspace == finals[i].workspace);
            if finals[i].rects.contains(r) {
                let ids = ids_on(ml, old[q].workspace as int);
                lemma_taken_from(
                    all_tiles(old),
                    ids,
                    part_ids(new),
                    r,
                );
                let ws = ml.workspaces@[finals[i].workspace as int];
                lemma_holds(ws, r.id);
                law_windows_are_found_on_a_workspace(ws, r.id, 0, 0);
                lemma_all_from(old, r);
                assert forall|w: int|
                    0 <= w < tiles.len() && between(w, prev, idx) implies !tiled_in(
                    #[trigger] tiles[w],
                    r.id,
                ) by {
                    lemma_part_ids(new, r.id);
                    if tiled_in(tiles[w], r.id) {
                        assert(new[w - lo].rects == tiles[w]);
                        assert(takes_part(new, r.id));
                    }
                }
            }
        }
    }
}

/// A window that the slide in flight had moving, and that is now on one
/// of its workspaces outside of the new range, keeps sliding with that
/// workspace, unless a fresh workspace has it.
pub proof fn law_moving_windows_keep_sliding(
    v: StateView,
    device: Seq<char>,
    prev: usize,
    idx: usize,
    tiles: Seq<Seq<TileRect>>,
    ml: MonitorLayout,
    s: int,
    q: int,
    id: WindowId,
)
    requires
        v.wf(),
        0 <= s < v.slides.len(),
        v.slides[s].device == device,
        0 <= q < v.slides[s].finals.len(),
        takes_part(v.slides[s].finals, id),
        ({
            let k = v.slides[s].finals[q].workspace;
            !between(k as int, prev, idx) && k < ml.workspaces@.len() && stands_on(
                ml.workspaces@[k as int],
                id,
            )
        }),
        forall|w: int|
            0 <= w < tiles.len() && between(w, prev, idx) ==> !tiled_in(#[trigger] tiles[w], id),
    ensures
        ({
            let finals = v.switch_finals(device, prev, idx, tiles, ml);
            exists|p: int|
                0 <= p < finals.len() && (#[trigger] finals[p]).workspace
                    == v.slides[s].finals[q].workspace && tiled_in(finals[p].rects, id)
        }),
{
    lemma_slide_is(v, device, s);
    let old = v.slides[s].finals;
    let lo = if prev < idx {
        prev as int
    } else {
        idx as int
    };
    let hi = if prev < idx {
        idx as int
    } else {
        prev as int
    };
    let new = fresh(tiles, lo, hi);
    let ws = ml.workspaces@[old[q].workspace as int];
    lemma_part_ids(old, id);
    lemma_part_ids(new, id);
    lemma_holds(ws, id);
    law_windows_are_found_on_a_workspace(ws, id, 0, 0);
    if takes_part(new, id) {
        let p = choose|p: int| 0 <= p < new.len() && tiled_in((#[trigger] new[p]).rects, id);
        assert(new[p].rects == tiles[lo + p]);
        assert(between(lo + p, prev, idx));
    }
    law_moved_windows_are_taken_along(old, tiles, ml, lo, hi, q, id);
    let finals = v.switch_finals(device, prev, idx, tiles, ml);
    assert(finals == merged(Some(old), tiles, ml, lo, hi));
    let p = choose|p: int|
        0 <= p < finals.len() && {
            let part = #[trigger] merged(Some(old), tiles, ml, lo, hi)[p];
            part.workspace == old[q].workspace && tile_ids(part.rects).contains(id)
        };
    lemma_tile_ids(finals[p].rects, id);
    assert(finals[p].workspace == old[q].workspace);
}

/// A slide can be shown exactly when no tile of it leaves the 32-bit
/// coordinates by its workspace's displacement; several can when each
/// can.
pub proof fn law_when_slides_can_be_shown(
    finals: Seq<PartView>,
    camera: i64,
    stride: i64,
    slides: Seq<SlideView>,
    cameras: Seq<i64>,
)
    ensures
        shiftable(finals, camera, stride) <==> forall|p: int, k: int|
            #![trigger finals[p].rects[k]]
            0 <= p < finals.len() && 0 <= k < finals[p].rects.len() ==> i32::MIN
                <= finals[p].rects[k].y + displacement(finals[p].workspace, camera, stride)
                <= i32::MAX,
        all_shiftable(slides, cameras) <==> cameras.len() == slides.len() && forall|s: int|
            0 <= s < slides.len() ==> shiftable(
                (#[trigger] slides[s]).finals,
                cameras[s],
                slides[s].stride,
            ),
{
    let dys = displacements(finals, camera, stride);
    assert forall|p: int| 0 <= p < finals.len() implies #[trigger] dys[p] == displacement(
        finals[p].workspace,
        camera,
        stride,
    ) by {}
    if shiftable(finals, camera, stride) {
        assert forall|p: int, k: int|
            #![trigger finals[p].rects[k]]
            0 <= p < finals.len() && 0 <= k < finals[p].rects.len() implies i32::MIN
            <= finals[p].rects[k].y + displacement(finals[p].workspace, camera, stride)
            <= i32::MAX by {
            assert(dys[p] == displacement(finals[p].workspace, camera, stride));
        }
    }
}

/// The slide on a monitor, where there is one, is shown or advanced as
/// that monitor's: no other slide answers to its name.
pub proof fn law_slides_are_found_by_name(v: StateView, device: Seq<char>, s: int, camera: i64)
    requires
        v.wf(),
    ensures
        0 <= s < v.slides.len() && v.slides[s].device == device ==> {
            &&& v.slide_at(device) == Some(s)
            &&& v.finals_on(device) == Some(v.slides[s].finals)
            &&& v.shiftable_on(device, camera) <==> shiftable(
                v.slides[s].finals,
                camera,
                v.slides[s].stride,
            )
        },
        is_still(v, device) <==> v.slide_at(device) is None,
        is_still(v, device) ==> v.finals_on(device) is None && v.shiftable_on(device, camera),
{
    if 0 <= s < v.slides.len() && v.slides[s].device == device {
        lemma_slide_is(v, device, s);
    }
    if is_still(v, device) {
        lemma_still(v, device);
    }
    let p = slide_on(device);
    lemma_first_where(v.slides, p);
    if v.slide_at(device) is None {
        assert forall|x: int| 0 <= x < v.slides.len() implies (#[trigger] v.slides[x]).device
            != device by {
            assert(!p(v.slides[x]));
        }
    }
}

proof fn lemma_all_from(finals: Seq<PartView>, r: TileRect)
    requires
        all_tiles(finals).contains(r),
    ensures
        exists|p: int| 0 <= p < finals.len() && (#[trigger] finals[p]).rects.contains(r),
    decreases finals.len(),
{
    if finals.len() > 0 {
        let t = finals.drop_last();
        lemma_joined(all_tiles(t), finals.last().rects, r);
        if finals.last().rects.contains(r) {
            assert(finals[finals.len() - 1].rects.contains(r));
        } else {
            lemma_all_from(t, r);
            let p = choose|p: int| 0 <= p < t.len() && (#[trigger] t[p]).rects.contains(r);
            assert(finals[p] == t[p]);
        }
    }
}

/// A window is taken along at most once per workspace.
pub proof fn law_windows_are_taken_along_once(
    rects: Seq<TileRect>,
    ids: Seq<WindowId>,
    covered: Seq<WindowId>,
)
    ensures
        tile_ids(taken_along(rects, ids, covered)).no_duplicates(),
    decreases rects.len(),
{
    if rects.len() > 0 {
        law_windows_are_taken_along_once(rects.drop_last(), ids, covered);
        let sofar = taken_along(rects.drop_last(), ids, covered);
        let all = taken_along(rects, ids, covered);
        if all.len() > sofar.len() {
            assert forall|x: int, y: int|
                0 <= x < all.len() && 0 <= y < all.len() && x != y implies tile_ids(all)[x]
                != tile_ids(all)[y] by {
                if x < sofar.len() {
                    assert(tile_ids(sofar)[x] == tile_ids(all)[x]);
                }
                if y < sofar.len() {
                    assert(tile_ids(sofar)[y] == tile_ids(all)[y]);
                }
            }
        }
    }
}

/// A started slide is the one slide of its monitor, whose full height
/// and a tenth it has for a stride; slides on other monitors go on as
/// they were. A window of another workspace that does not take part is
/// registered as hidden, a living participant no longer is unless it is
/// one, and every other window stays as it was. Nothing else changes.
pub proof fn law_started_slides(
    v: StateView,
    device: Seq<char>,
    idx: usize,
    finals: Seq<PartView>,
    ml: MonitorLayout,
    alive: Set<WindowId>,
    m: int,
    other: SlideView,
    id: WindowId,
)
    requires
        v.wf(),
        is_called(v.monitors, device, m),
    ensures
        ({
            let w = v.slide_started(device, idx, finals, ml, alive);
            let full = v.monitors[m].full;
            let stride = ((full.bottom - full.top) * 11) as i64;
            let slide = SlideView { device, finals, stride };
            &&& w.slides.contains(slide)
            &&& other.device == device ==> (w.slides.contains(other) <==> other == slide)
            &&& other.device != device ==> (w.slides.contains(other) <==> v.slides.contains(other))
            &&& w.wf()
            &&& takes_part(finals, id) && alive.contains(id) ==> !w.hidden_by_us.contains(id)
            &&& !takes_part(finals, id) && is_off(ml, idx, id) ==> w.hidden_by_us.contains(id)
            &&& takes_part(finals, id) && !alive.contains(id) ==> w.hidden_by_us.contains(id)
                == v.hidden_by_us.contains(id)
            &&& !takes_part(finals, id) && !is_off(ml, idx, id) ==> w.hidden_by_us.contains(id)
                == v.hidden_by_us.contains(id)
            &&& StateView { hidden_by_us: v.hidden_by_us, slides: v.slides, ..w } == v
        }),
{
    let w = v.slide_started(device, idx, finals, ml, alive);
    let full = v.monitors[m].full;
    let slide = SlideView { device, finals, stride: ((full.bottom - full.top) * 11) as i64 };
    law_monitors_are_found_by_name(v.monitors, device, m);
    lemma_part_ids(finals, id);
    lemma_others(ml, idx, finals, id);
    let p = slide_on(device);
    lemma_first_where(v.slides, p);
    assert((StateView { hidden_by_us: v.hidden_by_us, slides: v.slides, ..w }) =~= v);
    match v.slide_at(device) {
        Some(s) => {
            assert(w.slides == v.slides.update(s, slide));
            assert(w.slides[s] == slide);
            assert(v.slides[s].device == device);
            assert forall|x: int| 0 <= x < w.slides.len() && x != s implies (#[trigger] w.slides[x])
                == v.slides[x] && v.slides[x].device != device by {
                assert(v.slides[x].device != v.slides[s].device);
            }
            if v.slides.contains(other) && other.device != device {
                let x = v.slides.index_of(other);
                assert(w.slides[x] == other);
            }
            if w.slides.contains(other) {
                let x = w.slides.index_of(other);
                assert(w.slides[x] == other);
                if x != s {
                    assert(v.slides[x] == other);
                }
            }
        },
        None => {
            assert(w.slides == v.slides.push(slide));
            let n = v.slides.len() as int;
            assert(w.slides[n] == slide);
            assert forall|x: int| 0 <= x < n implies (#[trigger] w.slides[x]) == v.slides[x]
                && v.slides[x].device != device by {
                assert(!p(v.slides[x]));
            }
            if v.slides.contains(other) {
                let x = v.slides.index_of(other);
                assert(w.slides[x] == other);
            }
            if w.slides.contains(other) {
                let x = w.slides.index_of(other);
                assert(w.slides[x] == other);
                if x < n {
                    assert(v.slides[x] == other);
                }
            }
        },
    }
}

/// A workspace is displaced by one stride for each workspace that the
/// camera is away from it, downwards if it lies below, to the nearest
/// pixel.
pub proof fn law_displacement_follows_the_camera(workspace: usize, camera: i64, stride: i64)
    ensures
        ({
            let d = displacement(workspace, camera, stride);
            let wanted = (workspace * CAMERA_UNIT - camera) * stride;
            i32::MIN < d < i32::MAX ==> 2 * (d * 10 * CAMERA_UNIT - wanted) <= 10 * CAMERA_UNIT && 2
                * (wanted - d * 10 * CAMERA_UNIT) <= 10 * CAMERA_UNIT
        }),
        ({
            let d = displacement(workspace, camera, stride);
            let wanted = (workspace * CAMERA_UNIT - camera) * stride;
            &&& wanted > 0 ==> d >= 0
            &&& wanted < 0 ==> d <= 0
            &&& d == i32::MAX ==> wanted > 0
            &&& d == i32::MIN ==> wanted < 0
            &&& wanted >= 0x8000_0000 * 10 * CAMERA_UNIT ==> d == i32::MAX
            &&& wanted <= -0x8000_0001 * 10 * CAMERA_UNIT ==> d == i32::MIN
        }),
{
    let wanted = (workspace * CAMERA_UNIT - camera) * stride;
    assert(CAMERA_UNIT == 4_294_967_296);
    let d = displacement(workspace, camera, stride);
    let q = rounded(wanted, 42_949_672_960);
    assert(d == saturated_pixels(q) as i32);
    if wanted >= 0 {
        assert(q == (2 * wanted + 42_949_672_960) / 85_899_345_920);
    } else {
        assert(q == -((42_949_672_960 - 2 * wanted) / 85_899_345_920));
    }
}

/// The strip between two workspaces is the full height of the monitor
/// and a tenth of it, in tenths of a pixel.
pub proof fn law_strides_are_a_height_and_a_tenth(full: Rect)
    ensures
        stride_of(full) == 10 * (full.bottom - full.top) + (full.bottom - full.top),
{
}

proof fn lemma_rects_join(a: Seq<PartView>, b: Seq<PartView>, x: Seq<i32>, y: Seq<i32>)
    requires
        a.len() == x.len(),
        b.len() == y.len(),
    ensures
        rects_of(a + b, x + y) == rects_of(a, x) + rects_of(b, y),
    decreases b.len(),
{
    if b.len() == 0 {
        assert(a + b =~= a);
        assert(x + y =~= x);
    } else {
        lemma_rects_join(a, b.drop_last(), x, y.drop_last());
        assert((a + b).drop_last() =~= a + b.drop_last());
        assert((x + y).drop_last() =~= x + y.drop_last());
        assert(rects_of(a + b, x + y) =~= rects_of(a, x) + rects_of(b, y));
    }
}

/// A frame is made workspace by workspace, in order: each contributes
/// its tiles, in order, moved down by the workspace's displacement and
/// otherwise as they are.
pub proof fn law_frames_displace_each_workspace(
    a: Seq<PartView>,
    b: Seq<PartView>,
    p: PartView,
    camera: i64,
    stride: i64,
    k: int,
)
    ensures
        frame_at(a + b, camera, stride) == frame_at(a, camera, stride) + frame_at(
            b,
            camera,
            stride,
        ),
        frame_at(seq![p], camera, stride).len() == p.rects.len(),
        0 <= k < p.rects.len() ==> {
            let t = frame_at(seq![p], camera, stride)[k];
            let r = p.rects[k];
            let y = r.y + displacement(p.workspace, camera, stride);
            &&& t.id == r.id
            &&& t.x == r.x
            &&& t.w == r.w
            &&& t.h == r.h
            &&& i32::MIN <= y <= i32::MAX ==> t.y == y
        },
{
    let x = displacements(a, camera, stride);
    let y = displacements(b, camera, stride);
    assert(displacements(a + b, camera, stride) =~= x + y);
    lemma_rects_join(a, b, x, y);
    let one = seq![p];
    let dys = displacements(one, camera, stride);
    assert(one.drop_last() =~= Seq::<PartView>::empty());
    assert(dys.drop_last() =~= Seq::<i32>::empty());
    assert(rects_of(one.drop_last(), dys.drop_last()) =~= Seq::<TileRect>::empty());
    assert(frame_at(one, camera, stride) =~= shifted(p.rects, dys.last()));
}

/// A participant on a workspace that is not shown has the window.
pub open spec fn is_parked(finals: Seq<PartView>, active: Option<usize>, id: WindowId) -> bool {
    exists|p: int|
        0 <= p < finals.len() && active != Some((#[trigger] finals[p]).workspace) && tiled_in(
            finals[p].rects,
            id,
        )
}

proof fn lemma_parked(finals: Seq<PartView>, active: Option<usize>, id: WindowId)
    ensures
        inactive_parts(finals, active).contains(id) <==> is_parked(finals, active, id),
    decreases finals.len(),
{
    if finals.len() > 0 {
        let n = finals.len() - 1;
        let t = finals.drop_last();
        lemma_parked(t, active, id);
        lemma_tile_ids(finals.last().rects, id);
        lemma_joined(inactive_parts(t, active), tile_ids(finals.last().rects), id);
        if is_parked(t, active, id) {
            let p = choose|p: int|
                0 <= p < t.len() && active != Some((#[trigger] t[p]).workspace) && tiled_in(
                    t[p].rects,
                    id,
                );
            assert(finals[p] == t[p]);
        }
        if active != Some(finals.last().workspace) && tiled_in(finals.last().rects, id) {
            assert(active != Some(finals[n].workspace) && tiled_in(finals[n].rects, id));
        }
        if is_parked(finals, active, id) {
            let p = choose|p: int|
                0 <= p < finals.len() && active != Some((#[trigger] finals[p]).workspace)
                    && tiled_in(finals[p].rects, id);
            if p < n {
                assert(t[p] == finals[p]);
            }
        }
    }
}

/// A frame of a slide places its windows by the camera and then puts the
/// bars on top; nothing else happens until the slide is done.
pub proof fn law_frames_of_a_slide(v: StateView, i: int, camera: i64, layout: Layout, k: int)
    requires
        0 <= i < v.slides.len(),
    ensures
        ({
            let (w, effects) = v.slide_ticked(i, camera, false, layout);
            let frame = frame_at(v.slides[i].finals, camera, v.slides[i].stride);
            &&& w == v
            &&& effects.len() == frame.len() + 1
            &&& 0 <= k < frame.len() ==> effects[k] == Effect::Place(frame[k])
            &&& effects[frame.len() as int] == Effect::RaiseBars
        }),
{
}

/// The last frame of a slide is placed like any other. Then exactly the
/// windows on workspaces that the monitor does not show are hidden and
/// registered as hidden, the slide is gone, no other slide is touched,
/// and all is tiled.
pub proof fn law_the_end_of_a_slide(
    v: StateView,
    i: int,
    camera: i64,
    layout: Layout,
    j: int,
    k: int,
    id: WindowId,
    active: Option<usize>,
)
    requires
        0 <= i < v.slides.len(),
        is_known(layout, v.slides[i].device, j) ==> active == Some(
            layout.monitors@[j].active_workspace_idx,
        ),
        is_unknown(layout, v.slides[i].device) ==> active is None,
        is_known(layout, v.slides[i].device, j) || is_unknown(layout, v.slides[i].device),
    ensures
        ({
            let (w, effects) = v.slide_ticked(i, camera, true, layout);
            let finals = v.slides[i].finals;
            let frame = frame_at(finals, camera, v.slides[i].stride);
            let n = effects.len() - 1;
            &&& w.slides == v.slides.remove(i)
            &&& w.hidden_by_us.contains(id) <==> v.hidden_by_us.contains(id) || is_parked(
                finals,
                active,
                id,
            )
            &&& StateView { hidden_by_us: v.hidden_by_us, slides: v.slides, ..w } == v
            &&& n > frame.len()
            &&& 0 <= k < frame.len() ==> effects[k] == Effect::Place(frame[k])
            &&& effects[frame.len() as int] == Effect::RaiseBars
            &&& frame.len() < k < n ==> effects[k] is Hide
            &&& effects[n] == Effect::Reflow
            &&& effects.contains(Effect::Hide(id)) <==> is_parked(finals, active, id)
        }),
{
    let s = v.slides[i];
    let (w, effects) = v.slide_ticked(i, camera, true, layout);
    law_layouts_are_found_by_name(layout, s.device, j);
    lemma_parked(s.finals, active, id);
    let parked = inactive_parts(s.finals, active);
    assert(layout.active_on(s.device) == active);
    assert(parked.to_set().contains(id) <==> parked.contains(id));
    let frame = frame_at(s.finals, camera, s.stride);
    let first = place_all(frame).push(Effect::RaiseBars);
    assert(effects =~= (first + hide_all(parked)).push(Effect::Reflow));
    assert((StateView { hidden_by_us: v.hidden_by_us, slides: v.slides, ..w }) =~= v);
    let at = first.len() as int;
    if parked.contains(id) {
        let x = parked.index_of(id);
        assert(effects[at + x] == hide_all(parked)[x]);
        assert(effects[at + x] == Effect::Hide(id));
    }
    if effects.contains(Effect::Hide(id)) {
        let x = effects.index_of(Effect::Hide(id));
        if x < at {
            assert(effects[x] == first[x]);
            if x < frame.len() {
                assert(first[x] == place_all(frame)[x]);
            }
        } else {
            assert(x < at + parked.len());
            assert(effects[x] == hide_all(parked)[x - at]);
            assert(parked[x - at] == id);
        }
    }
    if frame.len() < k < effects.len() - 1 {
        assert(effects[k] == hide_all(parked)[k - at]);
    }
}

/// Slide `s` of those in flight has the window on a workspace that its
/// monitor does not show.
pub open spec fn is_snapped_away(
    slides: Seq<SlideView>,
    layout: Layout,
    id: WindowId,
    s: int,
) -> bool {
    0 <= s < slides.len() && is_parked(
        slides[s].finals,
        layout.active_on(slides[s].device),
        id,
    )
}

proof fn lemma_snap_hidden(slides: Seq<SlideView>, layout: Layout, id: WindowId)
    ensures
        snap_hidden(slides, layout).contains(id) <==> exists|s: int|
            is_snapped_away(slides, layout, id, s),
    decreases slides.len(),
{
    if slides.len() > 0 {
        let n = slides.len() - 1;
        let t = slides.drop_last();
        let last = slides.last();
        lemma_snap_hidden(t, layout, id);
        lemma_parked(last.finals, layout.active_on(last.device), id);
        lemma_joined(
            snap_hidden(t, layout),
            inactive_parts(last.finals, layout.active_on(last.device)),
            id,
        );
        if exists|s: int| is_snapped_away(t, layout, id, s) {
            let s = choose|s: int| is_snapped_away(t, layout, id, s);
            assert(slides[s] == t[s]);
            assert(is_snapped_away(slides, layout, id, s));
        }
        if is_parked(last.finals, layout.active_on(last.device), id) {
            assert(is_snapped_away(slides, layout, id, n));
        }
        if exists|s: int| is_snapped_away(slides, layout, id, s) {
            let s = choose|s: int| is_snapped_away(slides, layout, id, s);
            if s < n {
                assert(slides[s] == t[s]);
                assert(is_snapped_away(t, layout, id, s));
            }
        }
    }
}

proof fn lemma_snap_hides_iff(
    slides: Seq<SlideView>,
    cameras: Seq<i64>,
    layout: Layout,
    id: WindowId,
)
    ensures
        snap_effects(slides, cameras, layout).contains(Effect::Hide(id)) <==> snap_hidden(
            slides,
            layout,
        ).contains(id),
    decreases slides.len(),
{
    if slides.len() > 0 {
        let hide = Effect::Hide(id);
        let s = slides.last();
        lemma_snap_hides_iff(slides.drop_last(), cameras.drop_last(), layout, id);
        let a = snap_effects(slides.drop_last(), cameras.drop_last(), layout);
        let b = place_all(frame_at(s.finals, cameras.last(), s.stride));
        let ids = inactive_parts(s.finals, layout.active_on(s.device));
        let c = hide_all(ids);
        lemma_joined(a + b, c, hide);
        lemma_joined(a, b, hide);
        lemma_joined(snap_hidden(slides.drop_last(), layout), ids, id);
        assert(!b.contains(hide));
        if ids.contains(id) {
            assert(c[ids.index_of(id)] == hide);
        }
        if c.contains(hide) {
            assert(ids[c.index_of(hide)] == id);
        }
    }
}

proof fn lemma_snap_places(
    slides: Seq<SlideView>,
    cameras: Seq<i64>,
    layout: Layout,
    t: TileRect,
)
    requires
        cameras.len() == slides.len(),
    ensures
        snap_effects(slides, cameras, layout).contains(Effect::Place(t)) <==> exists|s: int|
            #![trigger slides[s]]
            0 <= s < slides.len() && frame_at(
                slides[s].finals,
                cameras[s],
                slides[s].stride,
            ).contains(t),
    decreases slides.len(),
{
    if slides.len() > 0 {
        let n = slides.len() - 1;
        let ss = slides.drop_last();
        let cs = cameras.drop_last();
        lemma_snap_places(ss, cs, layout, t);
        let place = Effect::Place(t);
        let l = slides.last();
        let a = snap_effects(ss, cs, layout);
        let frame = frame_at(l.finals, cameras.last(), l.stride);
        let b = place_all(frame);
        let c = hide_all(inactive_parts(l.finals, layout.active_on(l.device)));
        lemma_joined(a + b, c, place);
        lemma_joined(a, b, place);
        assert(!c.contains(place));
        if frame.contains(t) {
            assert(b[frame.index_of(t)] == place);
            assert(frame_at(slides[n].finals, cameras[n], slides[n].stride).contains(t));
        }
        if b.contains(place) {
            let x = b.index_of(place);
            assert(frame[x] == t);
        }
        if a.contains(place) {
            let s = choose|s: int|
                #![trigger ss[s]]
                0 <= s < ss.len() && frame_at(ss[s].finals, cs[s], ss[s].stride).contains(t);
            assert(slides[s] == ss[s]);
            assert(cameras[s] == cs[s]);
        }
        if exists|s: int|
            #![trigger slides[s]]
            0 <= s < slides.len() && frame_at(
                slides[s].finals,
                cameras[s],
                slides[s].stride,
            ).contains(t) {
            let s = choose|s: int|
                #![trigger slides[s]]
                0 <= s < slides.len() && frame_at(
                    slides[s].finals,
                    cameras[s],
                    slides[s].stride,
                ).contains(t);
            if s < n {
                assert(ss[s] == slides[s]);
                assert(cs[s] == cameras[s]);
            }
        }
    }
}

/// A suspension finishes every animation, places the windows of every
/// slide where its camera is bound for, hides exactly those on
/// workspaces not shown, and takes the ring away last, if there is one.
/// It leaves no slide, remembers exactly what it hid besides what was
/// hidden before, and changes nothing else.
pub proof fn law_suspensions_snap_everything(
    v: StateView,
    cameras: Seq<i64>,
    layout: Layout,
    id: WindowId,
    t: TileRect,
)
    requires
        !v.suspended,
        cameras.len() == v.slides.len(),
    ensures
        ({
            let (w, effects) = v.suspension(cameras, layout);
            let away = exists|s: int| is_snapped_away(v.slides, layout, id, s);
            &&& effects[0] == Effect::FinishAnimations
            &&& effects.contains(Effect::Hide(id)) <==> away
            &&& effects.contains(Effect::Place(t)) <==> exists|s: int|
                #![trigger v.slides[s]]
                0 <= s < v.slides.len() && frame_at(
                    v.slides[s].finals,
                    cameras[s],
                    v.slides[s].stride,
                ).contains(t)
            &&& effects.contains(Effect::HideRing) <==> v.has_focus_border
            &&& v.has_focus_border ==> effects[effects.len() - 1] == Effect::HideRing
            &&& w.suspended
            &&& w.slides.len() == 0
            &&& w.hidden_by_us.contains(id) <==> v.hidden_by_us.contains(id) || away
            &&& StateView {
                suspended: false,
                slides: v.slides,
                hidden_by_us: v.hidden_by_us,
                ..w
            } == v
        }),
{
    let (w, effects) = v.suspension(cameras, layout);
    let a = seq![Effect::FinishAnimations];
    let b = snap_effects(v.slides, cameras, layout);
    let c = if v.has_focus_border {
        seq![Effect::HideRing]
    } else {
        Seq::empty()
    };
    assert(effects =~= a + b + c);
    let hide = Effect::Hide(id);
    let place = Effect::Place(t);
    let ring = Effect::HideRing;
    lemma_joined(a + b, c, hide);
    lemma_joined(a, b, hide);
    lemma_joined(a + b, c, place);
    lemma_joined(a, b, place);
    lemma_joined(a + b, c, ring);
    lemma_joined(a, b, ring);
    lemma_snap_hidden(v.slides, layout, id);
    lemma_snap_hides_iff(v.slides, cameras, layout, id);
    lemma_snap_places(v.slides, cameras, layout, t);
    lemma_snap_no_ring(v.slides, cameras, layout);
    let hidden = snap_hidden(v.slides, layout);
    assert(hidden.to_set().contains(id) <==> hidden.contains(id));
    if v.has_focus_border {
        assert(c[0] == ring);
    }
    assert((StateView { suspended: false, slides: v.slides, hidden_by_us: v.hidden_by_us, ..w })
        =~= v);
}

proof fn lemma_snap_no_ring(slides: Seq<SlideView>, cameras: Seq<i64>, layout: Layout)
    ensures
        !snap_effects(slides, cameras, layout).contains(Effect::HideRing),
    decreases slides.len(),
{
    if slides.len() > 0 {
        let ring = Effect::HideRing;
        let s = slides.last();
        lemma_snap_no_ring(slides.drop_last(), cameras.drop_last(), layout);
        let a = snap_effects(slides.drop_last(), cameras.drop_last(), layout);
        let b = place_all(frame_at(s.finals, cameras.last(), s.stride));
        let c = hide_all(inactive_parts(s.finals, layout.active_on(s.device)));
        lemma_joined(a + b, c, ring);
        lemma_joined(a, b, ring);
    }
}

/// A screen transition covers the monitor of the focused window, or the
/// primary one where nothing is focused or its monitor is not known; it
/// suspends management first. Without an overlay, or without a monitor
/// to cover, nothing happens.
pub proof fn law_transitions_cover_the_focused_monitor(
    v: StateView,
    focused_monitor: Option<String>,
    primary: Option<String>,
    cameras: Seq<i64>,
    layout: Layout,
    device: String,
)
    ensures
        ({
            let begun = v.transition_begun(focused_monitor, primary, cameras, layout);
            let (w, effects) = v.suspension(cameras, layout);
            let shown = (w, effects.push(Effect::ShowTransition(device)));
            &&& v.has_overlay && v.focused is Some && focused_monitor == Some(device) ==> begun
                == shown
            &&& v.has_overlay && (v.focused is None || focused_monitor is None) && primary == Some(
                device,
            ) ==> begun == shown
            &&& !v.has_overlay ==> begun == (v, Seq::<Effect>::empty())
            &&& (v.focused is None || focused_monitor is None) && primary is None ==> begun == (
                v,
                Seq::<Effect>::empty(),
            )
        }),
{
}

} // verus!
