use std::collections::HashSet;
use yumi_wini::effect::Effect;
use yumi_wini::geometry::{Bounds, FloatRect, Monitor, Rect, TileRect};
use yumi_wini::layout::{Column, Layout, MonitorLayout, Workspace};
use yumi_wini::events::{Seen, WinEvent};
use yumi_wini::slide::{Participant, Slide, SlideOn, CAMERA_UNIT};
use yumi_wini::state::{AppState, Ring, Settings};

fn rect(left: i32, top: i32, right: i32, bottom: i32) -> Rect {
    Rect { left, top, right, bottom }
}

fn state() -> AppState {
    let monitor = Monitor {
        device: "A".to_string(),
        full: rect(0, 0, 1000, 800),
        work: rect(0, 40, 1000, 800),
        is_primary: true,
    };
    let settings = Settings {
        mod_key: "super".to_string(),
        focus_follows_mouse: false,
        slides_enabled: true,
        gaps: 20_000_000,
        ring: Ring { enabled: true, active_color: 0, width: 4, radius: 8 },
    };
    AppState::new(vec![monitor], settings, None, true, true)
}

fn workspace(columns: Vec<Vec<isize>>) -> Workspace {
    Workspace {
        columns: columns.into_iter().map(|tiles| Column { tiles, width: None }).collect(),
        focused: None,
        fullscreen_id: None,
        is_overview: false,
    }
}

fn layout(active: usize, workspaces: Vec<Workspace>) -> Layout {
    Layout {
        monitors: vec![MonitorLayout {
            device: "A".to_string(),
            active_workspace_idx: active,
            workspaces,
        }],
    }
}

fn tile(id: isize, x: i32, y: i32) -> TileRect {
    TileRect { id, x, y, w: 100, h: 50 }
}

fn alive(ids: &[isize]) -> HashSet<isize> {
    ids.iter().copied().collect()
}

const UNSEEN: Seen = Seen { manageable: None, bounds: None };

#[test]
fn a_reflow_hides_the_other_workspaces_and_shows_this_one() {
    let mut s = state();
    s.hidden_by_us.insert(1);
    let l = layout(0, vec![workspace(vec![vec![1]]), workspace(vec![vec![2]])]);
    let effects = s.reflow(&vec![], &vec![vec![tile(1, 10, 20)]], &l);
    assert_eq!(
        effects,
        vec![
            Effect::Hide(2),
            Effect::RemoveAnimation(2),
            Effect::Show(1),
            Effect::SetTarget {
                id: 1,
                rect: FloatRect { x: 10_000_000, y: 20_000_000, w: 100_000_000, h: 50_000_000 },
            },
            Effect::TickAnimations,
            Effect::UpdateFocusBorder,
        ]
    );
    assert_eq!(s.hidden_by_us, alive(&[2]));
}

#[test]
fn a_window_hidden_by_a_reflow_stays_managed() {
    let mut s = state();
    s.handle_event(
        WinEvent::Shown(2),
        Seen { manageable: Some(rect(0, 0, 5, 5)), bounds: None },
    );
    let l = layout(0, vec![workspace(vec![]), workspace(vec![vec![2]])]);
    s.reflow(&vec![], &vec![vec![]], &l);
    assert_eq!(s.handle_event(WinEvent::Hidden(2), UNSEEN), vec![]);
    assert!(s.tracks(2));
    // Back on view, its hiding is noticed again.
    let l = layout(1, vec![workspace(vec![]), workspace(vec![vec![2]])]);
    s.reflow(&vec![], &vec![vec![tile(2, 0, 0)]], &l);
    assert_eq!(s.handle_event(WinEvent::Hidden(2), UNSEEN).len(), 3);
    assert!(!s.tracks(2));
}

#[test]
fn a_fullscreen_window_covers_the_whole_monitor() {
    let mut s = state();
    let mut ws = workspace(vec![vec![1], vec![2]]);
    ws.fullscreen_id = Some(1);
    let l = layout(0, vec![ws]);
    let effects = s.reflow(&vec![], &vec![vec![tile(1, 10, 60), tile(2, 200, 60)]], &l);
    assert_eq!(
        effects,
        vec![
            Effect::Show(1),
            Effect::Show(2),
            Effect::SetTarget {
                id: 1,
                rect: FloatRect { x: 0, y: 0, w: 1000 * 1_000_000, h: 800 * 1_000_000 },
            },
            Effect::SetTarget {
                id: 2,
                rect: FloatRect { x: 200_000_000, y: 60_000_000, w: 100_000_000, h: 50_000_000 },
            },
            Effect::Raise(1),
            Effect::RaiseBars,
            Effect::TickAnimations,
            Effect::UpdateFocusBorder,
        ]
    );
}

#[test]
fn floats_follow_their_workspace() {
    let mut s = state();
    let on = layout(0, vec![workspace(vec![]), workspace(vec![])]);
    s.float_window(5, Some("A".to_string()), Some(Bounds { x: 1, y: 1, w: 2, h: 2 }), &on);
    let order = s.float_ids();
    assert_eq!(order, vec![5]);
    let rect = FloatRect { x: 1_000_000, y: 1_000_000, w: 2_000_000, h: 2_000_000 };
    assert_eq!(
        s.reflow(&order, &vec![vec![]], &on),
        vec![
            Effect::Show(5),
            Effect::Raise(5),
            Effect::SetTarget { id: 5, rect },
            Effect::TickAnimations,
            Effect::UpdateFocusBorder,
        ]
    );
    let away = layout(1, vec![workspace(vec![]), workspace(vec![])]);
    assert_eq!(
        s.reflow(&order, &vec![vec![]], &away),
        vec![
            Effect::Hide(5),
            Effect::RemoveAnimation(5),
            Effect::TickAnimations,
            Effect::UpdateFocusBorder,
        ]
    );
    assert_eq!(s.hidden_by_us, alive(&[5]));
}

#[test]
fn a_paused_reflow_does_nothing() {
    let l = layout(0, vec![workspace(vec![vec![1]]), workspace(vec![vec![2]])]);
    let mut s = state();
    s.interacting_window = Some(1);
    assert_eq!(s.reflow(&vec![], &vec![vec![tile(1, 0, 0)]], &l), vec![]);
    let mut s = state();
    s.suspended = true;
    assert_eq!(s.reflow(&vec![], &vec![vec![tile(1, 0, 0)]], &l), vec![]);
    assert!(s.hidden_by_us.is_empty());
}

#[test]
fn a_monitor_that_the_layout_lacks_is_passed_over() {
    let mut s = state();
    let l = Layout { monitors: vec![] };
    assert_eq!(
        s.reflow(&vec![], &vec![vec![]], &l),
        vec![Effect::TickAnimations, Effect::UpdateFocusBorder]
    );
}

fn two() -> Layout {
    layout(1, vec![workspace(vec![vec![1]]), workspace(vec![vec![2]]), workspace(vec![vec![3]])])
}

fn two_tiles() -> Vec<Vec<TileRect>> {
    vec![vec![tile(1, 0, 40)], vec![tile(2, 0, 40)], vec![tile(3, 0, 40)]]
}

#[test]
fn a_workspace_switch_slides() {
    let mut s = state();
    s.hidden_by_us.insert(2);
    let device = "A".to_string();
    let effects = s.switch_view(&device, 0, 1, &two_tiles(), &alive(&[1, 2, 3]), &two());
    assert_eq!(
        effects,
        vec![
            Effect::AimCamera { device: "A".to_string(), from: 0, to: 1 },
            Effect::PlaceSlide("A".to_string()),
            Effect::Show(1),
            Effect::Show(2),
            Effect::Hide(3),
            Effect::RemoveAnimation(3),
            Effect::RaiseBars,
        ]
    );
    assert_eq!(s.hidden_by_us, alive(&[3]));
    assert_eq!(s.slides.len(), 1);
    assert_eq!(s.slides[0].device, "A");
    assert_eq!(
        s.slides[0].slide.finals,
        vec![
            Participant { workspace: 0, rects: vec![tile(1, 0, 40)] },
            Participant { workspace: 1, rects: vec![tile(2, 0, 40)] },
        ]
    );
}

#[test]
fn a_dead_participant_stays_registered_as_hidden() {
    let mut s = state();
    s.hidden_by_us.insert(2);
    let device = "A".to_string();
    s.switch_view(&device, 0, 1, &two_tiles(), &alive(&[1, 3]), &two());
    assert_eq!(s.hidden_by_us, alive(&[2, 3]));
}

#[test]
fn an_interrupted_slide_takes_its_workspaces_along() {
    let mut s = state();
    let device = "A".to_string();
    let ids = alive(&[1, 2, 3]);
    let at_two = layout(2, two().monitors.remove(0).workspaces);
    s.switch_view(&device, 0, 2, &two_tiles(), &ids, &at_two);
    assert_eq!(s.slides[0].slide.finals.len(), 3);
    let interrupted = s.slides.remove(0);
    s.slides.push(SlideOn {
        device: interrupted.device.clone(),
        slide: Slide {
            finals: interrupted
                .slide
                .finals
                .iter()
                .map(|p| Participant { workspace: p.workspace, rects: p.rects.clone() })
                .collect(),
            stride: interrupted.slide.stride,
        },
    });
    let interrupted = interrupted.slide;
    // Interrupted half way: back from workspace 2 to workspace 1.
    s.switch_view(&device, 2, 1, &two_tiles(), &ids, &two());
    let finals = &s.slides[0].slide.finals;
    assert_eq!(s.slides.len(), 1);
    assert_eq!(
        finals.iter().map(|p| p.workspace).collect::<Vec<usize>>(),
        vec![1, 2, 0]
    );
    assert_eq!(finals[0].rects, vec![tile(2, 0, 40)]);
    // Its tiles stay the settled ones, so it does not jump wherever the camera is.
    assert_eq!(finals[2].rects, vec![tile(1, 0, 40)]);
    for camera in [0, CAMERA_UNIT / 3, CAMERA_UNIT, 2 * CAMERA_UNIT] {
        let find = |slide: &Slide| {
            slide.rects_at(camera).into_iter().find(|t| t.id == 1)
        };
        assert_eq!(find(&s.slides[0].slide), find(&interrupted));
    }
}

#[test]
fn a_window_that_left_the_layout_is_not_taken_along() {
    let mut s = state();
    let device = "A".to_string();
    let ids = alive(&[1, 2, 3]);
    let at_two = layout(2, two().monitors.remove(0).workspaces);
    s.switch_view(&device, 0, 2, &two_tiles(), &ids, &at_two);
    let left = vec![workspace(vec![]), workspace(vec![vec![2]]), workspace(vec![vec![3]])];
    let closed = layout(1, left);
    s.switch_view(&device, 2, 1, &two_tiles(), &ids, &closed);
    assert_eq!(s.slides[0].slide.window_ids(), vec![2, 3]);
}

#[test]
fn a_window_that_changed_its_workspace_slides_with_the_new_one() {
    let mut s = state();
    let device = "A".to_string();
    let ids = alive(&[1, 2, 3, 4]);
    let four = |active: usize, spots: [Vec<Vec<isize>>; 4]| {
        layout(active, spots.into_iter().map(workspace).collect())
    };
    let tiles = vec![
        vec![tile(1, 0, 40)],
        vec![tile(2, 0, 40)],
        vec![tile(3, 0, 40)],
        vec![tile(4, 0, 40)],
    ];
    let before = four(3, [vec![vec![1]], vec![vec![2]], vec![vec![3]], vec![vec![4]]]);
    s.switch_view(&device, 0, 3, &tiles, &ids, &before);
    // Window 1 is on workspace 1 now; both lie outside the new range.
    let after = four(2, [vec![], vec![vec![2], vec![1]], vec![vec![3]], vec![vec![4]]]);
    s.switch_view(&device, 3, 2, &tiles, &ids, &after);
    let finals = &s.slides[0].slide.finals;
    assert_eq!(
        finals.iter().map(|p| p.workspace).collect::<Vec<usize>>(),
        vec![2, 3, 0, 1]
    );
    assert_eq!(finals[2].rects, vec![]);
    assert_eq!(finals[3].rects, vec![tile(1, 0, 40), tile(2, 0, 40)]);
    assert!(!s.hidden_by_us.contains(&1));
}

#[test]
fn no_slide_starts_where_none_can() {
    let device = "A".to_string();
    let ids = alive(&[1, 2, 3]);
    let mut s = state();
    s.settings.slides_enabled = false;
    let plain = vec![Effect::Reflow];
    assert_eq!(s.switch_view(&device, 0, 1, &two_tiles(), &ids, &two()), plain);
    let mut s = state();
    s.interacting_window = Some(1);
    assert_eq!(s.switch_view(&device, 0, 1, &two_tiles(), &ids, &two()), plain);
    let mut s = state();
    s.suspended = true;
    assert!(s
        .workspace_slide_reflow(&device, 0, 1, &two_tiles(), &ids, &two())
        .is_none());
    let mut s = state();
    let other = "B".to_string();
    assert_eq!(s.switch_view(&other, 0, 1, &vec![], &ids, &two()), plain);
    let mut s = state();
    let none = Layout { monitors: vec![] };
    assert_eq!(s.switch_view(&device, 0, 1, &vec![], &ids, &none), plain);
    assert!(s.slides.is_empty());
}

#[test]
fn a_slide_in_flight_owns_its_windows() {
    let mut s = state();
    let device = "A".to_string();
    s.switch_view(&device, 0, 1, &two_tiles(), &alive(&[1, 2, 3]), &two());
    let effects = s.reflow(&vec![], &vec![vec![tile(2, 0, 40)]], &two());
    // Window 1 slides out and is not hidden; window 2 slides in and gets no target.
    assert_eq!(
        effects,
        vec![
            Effect::Hide(3),
            Effect::RemoveAnimation(3),
            Effect::Show(2),
            Effect::TickAnimations,
            Effect::UpdateFocusBorder,
        ]
    );
}

#[test]
fn frames_of_a_slide_and_its_end() {
    let mut s = state();
    let device = "A".to_string();
    s.switch_view(&device, 0, 1, &two_tiles(), &alive(&[1, 2, 3]), &two());
    assert_eq!(s.tick_slides(), vec![Effect::TickSlide("A".to_string())]);
    assert_eq!(
        s.tick_slide(&device, CAMERA_UNIT / 2, false, &two()),
        vec![
            Effect::Place(tile(1, 0, -400)),
            Effect::Place(tile(2, 0, 480)),
            Effect::RaiseBars,
        ]
    );
    assert_eq!(s.slides.len(), 1);
    assert_eq!(
        s.tick_slide(&device, CAMERA_UNIT, true, &two()),
        vec![
            Effect::Place(tile(1, 0, -840)),
            Effect::Place(tile(2, 0, 40)),
            Effect::RaiseBars,
            Effect::Hide(1),
            Effect::Reflow,
        ]
    );
    assert!(s.slides.is_empty());
    assert_eq!(s.hidden_by_us, alive(&[1, 3]));
    assert_eq!(s.tick_slide(&device, 0, true, &two()), vec![]);
    assert_eq!(s.tick_slides(), vec![]);
}

#[test]
fn a_settled_slide_gives_its_windows_back() {
    let mut s = state();
    let device = "A".to_string();
    s.switch_view(&device, 0, 1, &two_tiles(), &alive(&[1, 2, 3]), &two());
    assert_eq!(s.sliding_ids(&device), vec![1, 2]);
    s.tick_slide(&device, CAMERA_UNIT, true, &two());
    assert_eq!(s.sliding_ids(&device), vec![]);
    let effects = s.reflow(&vec![], &vec![vec![tile(2, 0, 40)]], &two());
    assert!(effects.contains(&Effect::Hide(1)));
    assert!(effects.contains(&Effect::SetTarget {
        id: 2,
        rect: FloatRect { x: 0, y: 40 * 1_000_000, w: 100 * 1_000_000, h: 50 * 1_000_000 },
    }));
}

#[test]
fn a_slide_follows_its_camera() {
    let slide = Slide {
        finals: vec![
            Participant { workspace: 0, rects: vec![tile(1, 0, 40), tile(2, 100, 40)] },
            Participant { workspace: 1, rects: vec![tile(3, 0, 40)] },
        ],
        stride: 8800,
    };
    assert_eq!(slide.window_ids(), vec![1, 2, 3]);
    // At workspace 0, its windows are at their tiles; the next workspace is a full height and a
    // tenth further down.
    assert!(slide.can_shift(0));
    assert_eq!(
        slide.rects_at(0),
        vec![tile(1, 0, 40), tile(2, 100, 40), tile(3, 0, 920)]
    );
    assert_eq!(
        slide.rects_at(CAMERA_UNIT),
        vec![tile(1, 0, -840), tile(2, 100, -840), tile(3, 0, 40)]
    );
    // Half a pixel is rounded away from zero.
    let step = CAMERA_UNIT / 1760;
    assert_eq!(slide.rects_at(step)[0].y, 40);
    assert_eq!(slide.rects_at(step + 1)[0].y, 39);
    let low = Slide {
        finals: vec![Participant { workspace: 9, rects: vec![tile(1, 0, i32::MAX - 5)] }],
        stride: 8800,
    };
    assert!(!low.can_shift(0));
    let small = Slide {
        finals: vec![Participant { workspace: 1, rects: vec![tile(1, 0, 40)] }],
        stride: 1010,
    };
    assert_eq!(small.rects_at(0), vec![tile(1, 0, 141)]);
    assert_eq!(small.rects_at(CAMERA_UNIT / 2), vec![tile(1, 0, 91)]);
    assert_eq!(small.rects_at(3 * CAMERA_UNIT / 2), vec![tile(1, 0, -11)]);
    let endless = Slide {
        finals: vec![Participant { workspace: usize::MAX, rects: vec![tile(1, 0, 0)] }],
        stride: i64::MAX,
    };
    assert_eq!(endless.rects_at(0), vec![tile(1, 0, i32::MAX)]);
    assert!(low.can_shift(9 * CAMERA_UNIT));
}

#[test]
fn a_started_slide_is_placed_by_its_camera() {
    let mut s = state();
    let device = "A".to_string();
    assert_eq!(s.place_slide(&device, 0), vec![]);
    s.switch_view(&device, 0, 1, &two_tiles(), &alive(&[1, 2, 3]), &two());
    assert_eq!(
        s.place_slide(&device, 0),
        vec![Effect::Place(tile(1, 0, 40)), Effect::Place(tile(2, 0, 920))]
    );
}

#[test]
fn a_frame_advances_everything_in_order() {
    assert_eq!(
        state().tick_animations(),
        vec![
            Effect::PollTray,
            Effect::StepAnimations,
            Effect::TickSlides,
            Effect::UpdateFocusBorder,
        ]
    );
}

#[test]
fn suspending_snaps_slides_to_their_ends() {
    let mut s = state();
    let device = "A".to_string();
    s.switch_view(&device, 0, 1, &two_tiles(), &alive(&[1, 2, 3]), &two());
    let effects = s.suspend_management(&vec![CAMERA_UNIT], &two());
    assert_eq!(
        effects,
        vec![
            Effect::FinishAnimations,
            Effect::Place(tile(1, 0, -840)),
            Effect::Place(tile(2, 0, 40)),
            Effect::Hide(1),
            Effect::HideRing,
        ]
    );
    assert!(s.slides.is_empty());
    assert_eq!(s.hidden_by_us, alive(&[1, 3]));
    assert!(s.is_paused());
    // A second time changes nothing.
    assert_eq!(s.suspend_management(&vec![], &two()), vec![]);
    assert_eq!(s.resume_management(), vec![Effect::Reflow]);
    assert!(!s.is_paused());
    assert_eq!(s.resume_management(), vec![]);
}

#[test]
fn a_screen_transition_covers_the_focused_monitor_or_the_primary_one() {
    let none = Layout { monitors: vec![] };
    let a = Some("A".to_string());
    let b = Some("B".to_string());
    let mut s = state();
    s.focused = Some(1);
    assert_eq!(
        s.begin_screen_transition(b.clone(), a.clone(), &vec![], &none),
        vec![
            Effect::FinishAnimations,
            Effect::HideRing,
            Effect::ShowTransition("B".to_string()),
        ]
    );
    // Restarting it covers the screen again without suspending twice.
    assert_eq!(
        s.begin_screen_transition(None, a.clone(), &vec![], &none),
        vec![Effect::ShowTransition("A".to_string())]
    );
    let mut s = state();
    s.has_focus_border = false;
    assert_eq!(
        s.begin_screen_transition(b.clone(), a.clone(), &vec![], &none),
        vec![Effect::FinishAnimations, Effect::ShowTransition("A".to_string())]
    );
    let mut s = state();
    assert_eq!(s.begin_screen_transition(b.clone(), None, &vec![], &none), vec![]);
    assert!(!s.is_paused());
    let mut s = state();
    s.has_overlay = false;
    assert_eq!(s.begin_screen_transition(b, a, &vec![], &none), vec![]);
    assert!(!s.is_paused());
}
