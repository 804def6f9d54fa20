use std::collections::HashSet;
use yumi_wini::geometry::{Bounds, FloatRect, Monitor, Rect, TileRect};
use yumi_wini::placement::{
    apply_geometry, decorations_of, looks_like_bar, raise_bars, set_borderless, BarCandidate,
    BAR_STYLE, FULLSCREEN_STRIP,
};

fn monitor() -> Monitor {
    Monitor {
        device: "A".to_string(),
        full: Rect { left: 0, top: 0, right: 1000, bottom: 800 },
        work: Rect { left: 0, top: 40, right: 1000, bottom: 800 },
        is_primary: true,
    }
}

fn bar(id: isize) -> BarCandidate {
    BarCandidate {
        id,
        visible: true,
        process: 9,
        ex_style: BAR_STYLE | 8,
        rect: Some(Rect { left: 0, top: 0, right: 1000, bottom: 40 }),
    }
}

fn is_bar(c: BarCandidate) -> bool {
    looks_like_bar(&c, 1, &vec![monitor()])
}

#[test]
fn decorations_are_stripped_and_put_back() {
    assert_eq!(FULLSCREEN_STRIP, 0x00CF_0000);
    assert_eq!(set_borderless(0x16CF_0000, 0, true), Some(0x1600_0000));
    assert_eq!(set_borderless(0x1600_0000, 0, true), None);
    assert_eq!(set_borderless(0x1600_0000, 0x00CF_0000, false), Some(0x16CF_0000));
    // Only what was stripped comes back.
    assert_eq!(set_borderless(0x1600_0000, 0x00C0_0000, false), Some(0x16C0_0000));
    assert_eq!(set_borderless(0x1600_0000, 0, false), None);
    assert_eq!(set_borderless(0x1600_0000, 0x0100_0000, false), None);
    for style in [0u32, 0x16CF_0000, 0x94C8_0000, u32::MAX] {
        let bare = set_borderless(style, 0, true).unwrap_or(style);
        assert_eq!(decorations_of(bare), 0);
        let back = set_borderless(bare, decorations_of(style), false).unwrap_or(bare);
        assert_eq!(back, style);
    }
}

#[test]
fn a_bar_is_wide_short_and_in_the_strip() {
    assert!(is_bar(bar(1)));
    let with = |left: i32, top: i32, right: i32, bottom: i32| BarCandidate {
        rect: Some(Rect { left, top, right, bottom }),
        ..bar(1)
    };
    assert!(is_bar(with(0, 0, 500, 40)));
    assert!(!is_bar(with(0, 0, 499, 40)));
    assert!(is_bar(with(0, 0, 1000, 200)));
    assert!(!is_bar(with(0, 0, 1000, 201)));
    assert!(is_bar(with(0, 39, 1000, 80)));
    assert!(!is_bar(with(0, 40, 1000, 80)));
    // There is no strip at the bottom of this monitor.
    assert!(!is_bar(with(0, 760, 1000, 800)));
    let mut low = monitor();
    low.work.bottom = 760;
    assert!(looks_like_bar(&with(0, 760, 1000, 800), 1, &vec![low]));
}

#[test]
fn a_strip_counts_only_on_its_own_monitor() {
    let a = Monitor {
        device: "A".to_string(),
        full: Rect { left: 0, top: 0, right: 1920, bottom: 1080 },
        work: Rect { left: 0, top: 40, right: 1920, bottom: 1080 },
        is_primary: true,
    };
    let whole = Rect { left: 1920, top: 0, right: 3840, bottom: 1080 };
    let b = Monitor { device: "B".to_string(), full: whole, work: whole, is_primary: false };
    let monitors = vec![a, b];
    let at = |left: i32, right: i32| BarCandidate {
        rect: Some(Rect { left, top: 0, right, bottom: 40 }),
        ..bar(1)
    };
    assert!(!looks_like_bar(&at(1920, 3840), 1, &monitors));
    assert!(looks_like_bar(&at(0, 1920), 1, &monitors));
    assert!(looks_like_bar(&at(1919, 3840), 1, &monitors));
}

#[test]
fn what_is_no_bar() {
    assert!(!is_bar(BarCandidate { visible: false, ..bar(1) }));
    assert!(!is_bar(BarCandidate { process: 1, ..bar(1) }));
    assert!(!is_bar(BarCandidate { ex_style: 0x80, ..bar(1) }));
    assert!(!is_bar(BarCandidate { ex_style: 0x0800_0000, ..bar(1) }));
    assert!(!is_bar(BarCandidate { rect: None, ..bar(1) }));
    assert!(!looks_like_bar(&bar(1), 1, &vec![]));
}

#[test]
fn bars_are_raised_in_the_order_they_were_found() {
    let windows = vec![
        bar(3),
        BarCandidate { visible: false, ..bar(4) },
        bar(2),
        BarCandidate { process: 1, ..bar(5) },
    ];
    assert_eq!(raise_bars(&windows, 1, &vec![monitor()]), vec![3, 2]);
}

#[test]
fn dead_handles_are_passed_over() {
    let tile = |id: isize| TileRect { id, x: 1, y: 2, w: 3, h: 4 };
    let alive: HashSet<isize> = [1, 3].into_iter().collect();
    assert_eq!(
        apply_geometry(&vec![tile(3), tile(2), tile(1)], &alive),
        vec![tile(3), tile(1)]
    );
}

#[test]
fn rectangles_and_the_sub_pixel_grid() {
    let r = Rect { left: -5, top: 10, right: 15, bottom: 40 };
    assert_eq!((r.width(), r.height()), (20, 30));
    assert!(r.is_sane());
    assert_eq!(r.bounds(), Bounds { x: -5, y: 10, w: 20, h: 30 });
    assert_eq!(
        r.scaled(),
        FloatRect { x: -5_000_000, y: 10_000_000, w: 20_000_000, h: 30_000_000 }
    );
    let wide = Rect { left: i32::MIN, top: 0, right: i32::MAX, bottom: 1 };
    assert!(!wide.is_sane());
    assert_eq!(wide.width(), 4294967295);
}
