//! Workspace-switch slides. The workspaces of a monitor lie on a
//! vertical strip and a camera moves along it; every window of a
//! workspace is displaced by the same amount, so the windows move in
//! lockstep. This module holds the windows that take part and says where
//! they are for a position of the camera; how the camera moves is up to
//! the animation.

use crate::geometry::{saturated_pixels, tile_ids, Rect, TileRect, WindowId};
use crate::layout::MonitorLayout;
use crate::search::contains_id;
use vstd::prelude::*;

verus! {

/// Positions on the strip between two workspaces: the camera at this
/// number times a workspace's index is at that workspace.
pub const CAMERA_UNIT: i64 = 4_294_967_296;

/// One workspace that takes part in a slide, with the tiles its
/// windows settle on.
#[derive(Debug, PartialEq, Eq)]
pub struct Participant {
    pub workspace: usize,
    pub rects: Vec<TileRect>,
}

/// A slide in flight on one monitor: every workspace that crosses the
/// view.
#[derive(Debug, PartialEq, Eq)]
pub struct Slide {
    pub finals: Vec<Participant>,
    /// One workspace unit of the strip, in tenths of a pixel.
    pub stride: i64,
}

/// The slide in flight on the monitor of that name.
#[derive(Debug, PartialEq, Eq)]
pub struct SlideOn {
    pub device: String,
    pub slide: Slide,
}

#[verifier::ext_equal]
pub struct PartView {
    pub workspace: usize,
    pub rects: Seq<TileRect>,
}

/// What a slide moves, and how far apart on the strip.
#[verifier::ext_equal]
pub struct StripView {
    pub finals: Seq<PartView>,
    pub stride: i64,
}

#[verifier::ext_equal]
pub struct SlideView {
    pub device: Seq<char>,
    pub finals: Seq<PartView>,
    pub stride: i64,
}

impl View for Participant {
    type V = PartView;

    open spec fn view(&self) -> PartView {
        PartView { workspace: self.workspace, rects: self.rects@ }
    }
}

impl View for Slide {
    type V = StripView;

    open spec fn view(&self) -> StripView {
        StripView {
            finals: self.finals@.map_values(|p: Participant| p@),
            stride: self.stride,
        }
    }
}

impl View for SlideOn {
    type V = SlideView;

    open spec fn view(&self) -> SlideView {
        SlideView {
            device: self.device@,
            finals: self.slide@.finals,
            stride: self.slide@.stride,
        }
    }
}

/// The integer nearest to `n / d`, halves away from zero.
pub open spec fn rounded(n: int, d: int) -> int {
    if n >= 0 {
        (2 * n + d) / (2 * d)
    } else {
        -((d - 2 * n) / (2 * d))
    }
}

/// One workspace unit of a monitor's strip, in tenths of a pixel: the
/// full height, bar zone included, and a tenth of it as a gap.
pub open spec fn stride_of(full: Rect) -> i64 {
    (full.height_of() * 11) as i64
}

/// How far a workspace is displaced when the camera is at `camera`: by
/// one stride for each workspace that the camera is away from it.
pub open spec fn displacement(workspace: usize, camera: i64, stride: i64) -> i32 {
    saturated_pixels(
        rounded(
            (workspace * CAMERA_UNIT - camera) * stride,
            10 * CAMERA_UNIT as int,
        ),
    ) as i32
}

/// The displacement of each workspace of a slide.
pub open spec fn displacements(finals: Seq<PartView>, camera: i64, stride: i64) -> Seq<i32> {
    finals.map_values(|p: PartView| displacement(p.workspace, camera, stride))
}

/// Where every window of a slide is when the camera is at `camera`.
pub open spec fn frame_at(finals: Seq<PartView>, camera: i64, stride: i64) -> Seq<TileRect> {
    rects_of(finals, displacements(finals, camera, stride))
}

/// No tile leaves the 32-bit coordinates when the camera is at
/// `camera`.
pub open spec fn shiftable(finals: Seq<PartView>, camera: i64, stride: i64) -> bool {
    displaceable(finals, displacements(finals, camera, stride))
}

/// Tiles moved down by `dy`.
pub open spec fn shifted(rects: Seq<TileRect>, dy: i32) -> Seq<TileRect> {
    rects.map_values(|r: TileRect| TileRect { y: (r.y + dy) as i32, ..r })
}

/// Every tile of a slide, each workspace moved by its displacement.
pub open spec fn rects_of(finals: Seq<PartView>, dys: Seq<i32>) -> Seq<TileRect>
    decreases finals.len(),
{
    if finals.len() == 0 {
        Seq::empty()
    } else {
        rects_of(finals.drop_last(), dys.drop_last()) + shifted(finals.last().rects, dys.last())
    }
}

/// There is a displacement for each workspace, and no tile leaves the
/// 32-bit coordinates by it.
pub open spec fn displaceable(finals: Seq<PartView>, dys: Seq<i32>) -> bool {
    &&& dys.len() == finals.len()
    &&& forall|i: int, j: int|
        0 <= i < finals.len() && 0 <= j < finals[i].rects.len() ==> i32::MIN <= (
        #[trigger] finals[i].rects[j]).y + dys[i] <= i32::MAX
}

/// Every window of a slide.
pub open spec fn part_ids(finals: Seq<PartView>) -> Seq<WindowId>
    decreases finals.len(),
{
    if finals.len() == 0 {
        Seq::empty()
    } else {
        part_ids(finals.drop_last()) + tile_ids(finals.last().rects)
    }
}

/// One workspace unit of a monitor's strip.
pub fn strip_stride(full: &Rect) -> (stride: i64)
    ensures
        stride == stride_of(*full),
{
    full.height() * 11
}

/// Products from here on displace by more than 32 bits hold.
const FAR: i128 = 0x1_0000_0000_0000_0000_0000_0000;

fn displacement_of(workspace: usize, camera: i64, stride: i64) -> (dy: i32)
    ensures
        dy == displacement(workspace, camera, stride),
{
    let unit: i128 = CAMERA_UNIT as i128;
    let d: i128 = 10 * unit;
    assert(d == 42_949_672_960);
    let away: i128 = workspace as i128 * unit - camera as i128;
    let ghost product: int = away * stride;
    proof {
        if product >= FAR {
            assert((2 * product + 42_949_672_960) / 85_899_345_920 > i32::MAX);
        }
        if product <= -FAR {
            assert((42_949_672_960 - 2 * product) / 85_899_345_920 > 0x8000_0000);
        }
    }
    match away.checked_mul(stride as i128) {
        Some(n) => {
            if n >= FAR {
                return i32::MAX;
            }
            if n <= -FAR {
                return i32::MIN;
            }
            let r: i128 = if n >= 0 {
                (2 * n + d) / (2 * d)
            } else {
                -((d - 2 * n) / (2 * d))
            };
            if r < i32::MIN as i128 {
                i32::MIN
            } else if r > i32::MAX as i128 {
                i32::MAX
            } else {
                r as i32
            }
        },
        None => {
            proof {
                assert(product > 0 ==> (away < 0) == (stride < 0)) by (nonlinear_arith)
                    requires
                        product == away * stride,
                ;
                assert(product < 0 ==> (away < 0) != (stride < 0)) by (nonlinear_arith)
                    requires
                        product == away * stride,
                ;
            }
            if (away < 0) == (stride < 0) {
                i32::MAX
            } else {
                i32::MIN
            }
        },
    }
}

impl Slide {
    /// The displacement of each workspace.
    fn displace(&self, camera: i64) -> (dys: Vec<i32>)
        ensures
            dys@ == displacements(self@.finals, camera, self@.stride),
    {
        let mut dys: Vec<i32> = Vec::new();
        let mut i: usize = 0;
        while i < self.finals.len()
            invariant
                i <= self.finals@.len(),
                dys@ =~= displacements(self@.finals.take(i as int), camera, self@.stride),
            decreases self.finals@.len() - i,
        {
            dys.push(displacement_of(self.finals[i].workspace, camera, self.stride));
            proof {
                assert(self@.finals.take(i + 1) =~= self@.finals.take(i as int).push(
                    self@.finals[i as int],
                ));
            }
            i = i + 1;
        }
        assert(self@.finals.take(i as int) =~= self@.finals);
        dys
    }

    /// Do all tiles stay within the 32-bit coordinates when the camera
    /// is at `camera`?
    pub fn can_shift(&self, camera: i64) -> (b: bool)
        ensures
            b == shiftable(self@.finals, camera, self@.stride),
    {
        let dys = self.displace(camera);
        self.can_displace(&dys)
    }

    /// Current on-screen rects for every participating window when the
    /// camera is at `camera`.
    pub fn rects_at(&self, camera: i64) -> (out: Vec<TileRect>)
        requires
            shiftable(self@.finals, camera, self@.stride),
        ensures
            out@ == frame_at(self@.finals, camera, self@.stride),
    {
        let dys = self.displace(camera);
        self.displaced(&dys)
    }

    fn can_displace(&self, dys: &Vec<i32>) -> (b: bool)
        ensures
            b == displaceable(self@.finals, dys@),
    {
        if dys.len() != self.finals.len() {
            return false;
        }
        let mut i: usize = 0;
        while i < self.finals.len()
            invariant
                i <= self.finals@.len(),
                dys@.len() == self@.finals.len(),
                forall|k: int, j: int|
                    0 <= k < i && 0 <= j < self@.finals[k].rects.len() ==> i32::MIN <= (
                    #[trigger] self@.finals[k].rects[j]).y + dys@[k] <= i32::MAX,
            decreases self.finals@.len() - i,
        {
            let rects = &self.finals[i].rects;
            let dy: i64 = dys[i] as i64;
            let mut j: usize = 0;
            while j < rects.len()
                invariant
                    i < self.finals@.len(),
                    rects == self.finals@[i as int].rects,
                    dy == dys@[i as int],
                    j <= rects@.len(),
                    dys@.len() == self@.finals.len(),
                    forall|k: int|
                        0 <= k < j ==> i32::MIN <= (#[trigger] rects@[k]).y + dy <= i32::MAX,
                decreases rects@.len() - j,
            {
                let y: i64 = rects[j].y as i64 + dy;
                if y < i32::MIN as i64 || y > i32::MAX as i64 {
                    assert(self@.finals[i as int].rects[j as int] == rects@[j as int]);
                    return false;
                }
                j = j + 1;
            }
            i = i + 1;
        }
        true
    }

    fn displaced(&self, dys: &Vec<i32>) -> (out: Vec<TileRect>)
        requires
            displaceable(self@.finals, dys@),
        ensures
            out@ == rects_of(self@.finals, dys@),
    {
        let mut out: Vec<TileRect> = Vec::new();
        let mut i: usize = 0;
        while i < self.finals.len()
            invariant
                i <= self.finals@.len(),
                displaceable(self@.finals, dys@),
                out@ == rects_of(self@.finals.take(i as int), dys@.take(i as int)),
            decreases self.finals@.len() - i,
        {
            let rects = &self.finals[i].rects;
            let dy: i32 = dys[i];
            let ghost before = out@;
            let mut j: usize = 0;
            while j < rects.len()
                invariant
                    i < self.finals@.len(),
                    rects == self.finals@[i as int].rects,
                    dy == dys@[i as int],
                    displaceable(self@.finals, dys@),
                    j <= rects@.len(),
                    out@ =~= before + shifted(rects@.take(j as int), dy),
                decreases rects@.len() - j,
            {
                let r = rects[j];
                proof {
                    assert(self@.finals[i as int].rects[j as int] == r);
                    assert(rects@.take(j + 1) =~= rects@.take(j as int).push(r));
                }
                out.push(TileRect { id: r.id, x: r.x, y: r.y + dy, w: r.w, h: r.h });
                j = j + 1;
            }
            proof {
                assert(rects@.take(j as int) =~= rects@);
                assert(self@.finals.take(i + 1).drop_last() =~= self@.finals.take(i as int));
                assert(dys@.take(i + 1).drop_last() =~= dys@.take(i as int));
                assert(self@.finals.take(i + 1).last() == self@.finals[i as int]);
            }
            i = i + 1;
        }
        proof {
            assert(self@.finals.take(i as int) =~= self@.finals);
            assert(dys@.take(i as int) =~= dys@);
        }
        out
    }

    fn tiles(&self) -> (all: Vec<TileRect>)
        ensures
            all@ == all_tiles(self@.finals),
    {
        let mut all: Vec<TileRect> = Vec::new();
        let mut i: usize = 0;
        while i < self.finals.len()
            invariant
                i <= self.finals@.len(),
                all@ == all_tiles(self@.finals.take(i as int)),
            decreases self.finals@.len() - i,
        {
            let mut more = copy_rects(&self.finals[i].rects);
            all.append(&mut more);
            proof {
                assert(self@.finals.take(i + 1).drop_last() =~= self@.finals.take(i as int));
                assert(self@.finals.take(i + 1).last() == self@.finals[i as int]);
            }
            i = i + 1;
        }
        assert(self@.finals.take(i as int) =~= self@.finals);
        all
    }

    /// Every window that takes part.
    pub fn window_ids(&self) -> (ids: Vec<WindowId>)
        ensures
            ids@ == part_ids(self@.finals),
    {
        let mut ids: Vec<WindowId> = Vec::new();
        let mut i: usize = 0;
        while i < self.finals.len()
            invariant
                i <= self.finals@.len(),
                ids@ == part_ids(self@.finals.take(i as int)),
            decreases self.finals@.len() - i,
        {
            let rects = &self.finals[i].rects;
            let ghost before = ids@;
            let mut j: usize = 0;
            while j < rects.len()
                invariant
                    j <= rects@.len(),
                    ids@ =~= before + tile_ids(rects@.take(j as int)),
                decreases rects@.len() - j,
            {
                ids.push(rects[j].id);
                proof {
                    assert(rects@.take(j + 1) =~= rects@.take(j as int).push(rects@[j as int]));
                }
                j = j + 1;
            }
            proof {
                assert(rects@.take(j as int) =~= rects@);
                assert(self@.finals.take(i + 1).drop_last() =~= self@.finals.take(i as int));
                assert(self@.finals.take(i + 1).last() == self@.finals[i as int]);
            }
            i = i + 1;
        }
        proof {
            assert(self@.finals.take(i as int) =~= self@.finals);
        }
        ids
    }
}

/// The workspaces from `lo` to `hi` that exist, with their tiles.
pub open spec fn fresh(tiles: Seq<Seq<TileRect>>, lo: int, hi: int) -> Seq<PartView> {
    let end = if hi < tiles.len() {
        hi + 1
    } else {
        tiles.len() as int
    };
    if lo < end {
        Seq::new(
            (end - lo) as nat,
            |i: int| PartView { workspace: (lo + i) as usize, rects: tiles[lo + i] },
        )
    } else {
        Seq::empty()
    }
}

/// Participants outside the range from `lo` to `hi`.
pub open spec fn beyond(lo: int, hi: int) -> spec_fn(PartView) -> bool {
    |p: PartView| !(lo <= p.workspace <= hi)
}

/// The windows of workspace `k`, if there is one.
pub open spec fn ids_on(ml: MonitorLayout, k: int) -> Seq<WindowId> {
    if 0 <= k < ml.workspaces@.len() {
        ml.workspaces@[k].ids()
    } else {
        Seq::empty()
    }
}

/// The settled tiles of all participants.
pub open spec fn all_tiles(finals: Seq<PartView>) -> Seq<TileRect>
    decreases finals.len(),
{
    if finals.len() == 0 {
        Seq::empty()
    } else {
        all_tiles(finals.drop_last()) + finals.last().rects
    }
}

/// The tiles of windows that are among `ids` and not `covered`, one for
/// each window.
pub open spec fn taken_along(
    rects: Seq<TileRect>,
    ids: Seq<WindowId>,
    covered: Seq<WindowId>,
) -> Seq<TileRect>
    decreases rects.len(),
{
    if rects.len() == 0 {
        Seq::empty()
    } else {
        let sofar = taken_along(rects.drop_last(), ids, covered);
        let r = rects.last();
        if ids.contains(r.id) && !covered.contains(r.id) && !tile_ids(sofar).contains(r.id) {
            sofar.push(r)
        } else {
            sofar
        }
    }
}

/// A workspace of an interrupted slide, with every window that the slide
/// had moving and that is on the workspace now, unless the new slide has
/// it already. The tiles stay the settled ones.
pub open spec fn carried_part(
    p: PartView,
    old: Seq<PartView>,
    new: Seq<PartView>,
    ml: MonitorLayout,
) -> PartView {
    PartView {
        workspace: p.workspace,
        rects: taken_along(all_tiles(old), ids_on(ml, p.workspace as int), part_ids(new)),
    }
}

/// The workspaces of an interrupted slide that the new range misses:
/// they keep sliding, from exactly where they are.
pub open spec fn carried(
    old: Seq<PartView>,
    new: Seq<PartView>,
    ml: MonitorLayout,
    lo: int,
    hi: int,
) -> Seq<PartView> {
    old.filter(beyond(lo, hi)).map_values(|p: PartView| carried_part(p, old, new, ml))
}

/// The participants of a new slide from `lo` to `hi`, over a slide in
/// flight if there is one.
pub open spec fn merged(
    old: Option<Seq<PartView>>,
    tiles: Seq<Seq<TileRect>>,
    ml: MonitorLayout,
    lo: int,
    hi: int,
) -> Seq<PartView> {
    let new = fresh(tiles, lo, hi);
    match old {
        Some(old) => new + carried(old, new, ml, lo, hi),
        None => new,
    }
}

/// The ids of a list of tiles.
pub fn ids_of(rects: &Vec<TileRect>) -> (ids: Vec<WindowId>)
    ensures
        ids@ == tile_ids(rects@),
{
    let mut ids: Vec<WindowId> = Vec::new();
    let mut i: usize = 0;
    while i < rects.len()
        invariant
            i <= rects@.len(),
            ids@ =~= tile_ids(rects@.take(i as int)),
        decreases rects@.len() - i,
    {
        ids.push(rects[i].id);
        i = i + 1;
    }
    assert(rects@.take(i as int) =~= rects@);
    ids
}

fn take_along(rects: &Vec<TileRect>, ids: &Vec<WindowId>, covered: &Vec<WindowId>) -> (taken: Vec<
    TileRect,
>)
    ensures
        taken@ == taken_along(rects@, ids@, covered@),
{
    let mut taken: Vec<TileRect> = Vec::new();
    let mut i: usize = 0;
    while i < rects.len()
        invariant
            i <= rects@.len(),
            taken@ == taken_along(rects@.take(i as int), ids@, covered@),
        decreases rects@.len() - i,
    {
        proof {
            assert(rects@.take(i + 1).drop_last() =~= rects@.take(i as int));
        }
        let r = rects[i];
        let present = ids_of(&taken);
        if contains_id(ids, r.id) && !contains_id(covered, r.id) && !contains_id(&present, r.id) {
            taken.push(r);
        }
        i = i + 1;
    }
    assert(rects@.take(i as int) =~= rects@);
    taken
}

fn copy_rects(rects: &Vec<TileRect>) -> (out: Vec<TileRect>)
    ensures
        out@ == rects@,
{
    let mut out: Vec<TileRect> = Vec::new();
    let mut i: usize = 0;
    while i < rects.len()
        invariant
            i <= rects@.len(),
            out@ =~= rects@.take(i as int),
        decreases rects@.len() - i,
    {
        out.push(rects[i]);
        i = i + 1;
    }
    out
}

/// The views of a list of tile lists.
pub open spec fn tiles_of(tiles: Seq<Vec<TileRect>>) -> Seq<Seq<TileRect>> {
    tiles.map_values(|t: Vec<TileRect>| t@)
}

/// Set up the participants of a slide from workspace `lo` to `hi`:
/// every workspace of the range that exists, with fresh tiles, and
/// what an interrupted slide has outside the range, as it was. `tiles`
/// holds the settled tiles of each workspace of the monitor.
pub fn merge(
    old: Option<&Slide>,
    tiles: &Vec<Vec<TileRect>>,
    ml: &MonitorLayout,
    lo: usize,
    hi: usize,
    stride: i64,
) -> (slide: Slide)
    requires
        lo <= hi,
    ensures
        slide@ == (StripView {
            finals: merged(
                match old {
                    Some(s) => Some(s@.finals),
                    None => None,
                },
                tiles_of(tiles@),
                *ml,
                lo as int,
                hi as int,
            ),
            stride,
        }),
{
    let mut finals: Vec<Participant> = Vec::new();
    let ghost new = fresh(tiles_of(tiles@), lo as int, hi as int);
    let end: usize = if hi < tiles.len() {
        hi + 1
    } else {
        tiles.len()
    };
    let mut k: usize = lo;
    while k < end
        invariant
            lo <= k,
            k <= end || lo >= end,
            end <= tiles@.len(),
            end == (if hi < tiles@.len() { hi + 1 } else { tiles@.len() as int }),
            new == fresh(tiles_of(tiles@), lo as int, hi as int),
            lo < end ==> finals@.map_values(|p: Participant| p@) =~= new.take(k - lo),
            lo >= end ==> finals@.len() == 0 && k == lo,
        decreases end - k,
    {
        let rects = copy_rects(&tiles[k]);
        let ghost before = finals@;
        finals.push(Participant { workspace: k, rects });
        proof {
            assert(tiles_of(tiles@)[k as int] == tiles@[k as int]@);
            assert(new.take(k + 1 - lo) =~= new.take(k - lo).push(new[k - lo]));
            assert(finals@.map_values(|p: Participant| p@) =~= before.map_values(
                |p: Participant| p@,
            ).push(new[k - lo]));
        }
        k = k + 1;
    }
    let mut slide = Slide { finals, stride };
    proof {
        assert(slide@.finals =~= new);
    }
    if let Some(s) = old {
        let ghost outer = beyond(lo as int, hi as int);
        let covered = slide.window_ids();
        let all = s.tiles();
        let mut n: usize = 0;
        proof {
            reveal(Seq::filter);
            assert(slide@.finals =~= new + Seq::<PartView>::empty());
        }
        while n < s.finals.len()
            invariant
                n <= s.finals@.len(),
                outer == beyond(lo as int, hi as int),
                slide.stride == stride,
                covered@ == part_ids(new),
                all@ == all_tiles(s@.finals),
                slide@.finals =~= new + s@.finals.take(n as int).filter(outer).map_values(
                    |p: PartView| carried_part(p, s@.finals, new, *ml),
                ),
            decreases s.finals@.len() - n,
        {
            let w: usize = s.finals[n].workspace;
            let ghost sofar = s@.finals.take(n as int);
            let ghost p = s@.finals[n as int];
            proof {
                reveal(Seq::filter);
                assert(s@.finals.take(n + 1).drop_last() =~= sofar);
                assert(s@.finals.take(n + 1).last() == p);
            }
            if !(lo <= w && w <= hi) {
                let ids = if w < ml.workspaces.len() {
                    ml.workspaces[w].window_ids()
                } else {
                    Vec::new()
                };
                let rects = take_along(&all, &ids, &covered);
                let ghost before = slide@.finals;
                let part = Participant { workspace: w, rects };
                slide.finals.push(part);
                proof {
                    assert(part@ == carried_part(p, s@.finals, new, *ml));
                    assert(slide@.finals =~= before.push(part@));
                    assert(s@.finals.take(n + 1).filter(outer) =~= sofar.filter(outer).push(p));
                }
            } else {
                proof {
                    assert(s@.finals.take(n + 1).filter(outer) =~= sofar.filter(outer));
                }
            }
            n = n + 1;
        }
        proof {
            assert(s@.finals.take(n as int) =~= s@.finals);
        }
    }
    slide
}

} // verus!
