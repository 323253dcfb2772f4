use layaway::absolute::{Layout, Output, OutputConfig};
use layaway::comms::Port;
use layaway::convert::Error;
use layaway::geometry::{Interval, Point, Rect, Rotation, Scale, Size, Transform};
use layaway::info::{Connector, Resolution};
use layaway::parse::parse;
use layaway::relative::{Position, Screen};

fn rect(x0: i32, x1: i32, y0: i32, y1: i32) -> Rect {
    Rect { x: Interval::new(x0, x1), y: Interval::new(y0, y1) }
}

fn dp(idx: u32) -> Port {
    Port { kind: Connector::DisplayPort, idx }
}

fn edp(idx: u32) -> Port {
    Port { kind: Connector::Edp, idx }
}

fn connected(port: Port, bounds: Rect, scale: Scale) -> Output {
    Output {
        port,
        cfg: OutputConfig {
            bounds,
            resolution: Some(bounds.size()),
            scale,
            transform: Transform::default(),
            active: true,
        },
    }
}

fn full_hd_pair() -> Layout {
    Layout::from_outputs(vec![
        connected(dp(1), rect(0, 1920, 0, 1080), Scale::whole(1)),
        connected(edp(1), rect(1920, 3840, 0, 1080), Scale::whole(1)),
    ])
}

fn absolute(text: &str, current: &Layout) -> Layout {
    parse(text).unwrap().to_absolute(current).unwrap()
}

fn least_corner(layout: &Layout) -> Point {
    let outputs = layout.outputs();
    Point {
        x: outputs.iter().map(|output| output.cfg.bounds.x.start()).min().unwrap(),
        y: outputs.iter().map(|output| output.cfg.bounds.y.start()).min().unwrap(),
    }
}

#[test]
fn edp_centered_below_dp() {
    let layout = absolute("dp1 + edp1/bottom,center", &full_hd_pair());
    assert_eq!(layout.len(), 2);
    assert_eq!(layout.get(dp(1)).unwrap().bounds, rect(0, 1920, 0, 1080));
    assert_eq!(layout.get(edp(1)).unwrap().bounds, rect(0, 1920, 1080, 2160));
    assert_eq!(layout.bounding_box(), rect(0, 1920, 0, 2160));
    let cfg = layout.get(edp(1)).unwrap();
    assert_eq!(cfg.resolution, Some(Size { width: 1920, height: 1080 }));
    assert_eq!(cfg.scale, Scale::whole(1));
    assert_eq!(cfg.transform, Transform::default());
    assert!(cfg.active);
}

#[test]
fn disconnected_screen_is_left_out() {
    let layout = absolute("dp1 + dp5 + edp1", &full_hd_pair());
    assert_eq!(layout.len(), 2);
    assert_eq!(layout.get(dp(5)), None);
    assert_eq!(layout.get(dp(1)).unwrap().bounds, rect(0, 1920, 0, 1080));
    assert_eq!(layout.get(edp(1)).unwrap().bounds, rect(1920, 3840, 0, 1080));

    let nothing = absolute("dp5", &full_hd_pair());
    assert!(nothing.is_empty());
    assert_eq!(nothing.get(dp(5)), None);
    assert_eq!(nothing.bounding_box(), rect(0, 0, 0, 0));
}

#[test]
fn default_scale_by_height() {
    let none = Layout::new();
    let low = absolute("dp1@4k", &none);
    assert_eq!(low.get(dp(1)).unwrap().scale, Scale::whole(1));
    assert_eq!(low.get(dp(1)).unwrap().bounds, rect(0, 3840, 0, 2160));

    let high = absolute("dp1@8k", &none);
    assert_eq!(high.get(dp(1)).unwrap().scale, Scale::whole(2));
    assert_eq!(high.get(dp(1)).unwrap().bounds, rect(0, 3840, 0, 2160));
    assert_eq!(high.get(dp(1)).unwrap().resolution, Some(Size { width: 7680, height: 4320 }));

    let edge = absolute("dp1@100x4000 + dp2@100x4001", &none);
    assert_eq!(edge.get(dp(1)).unwrap().scale, Scale::whole(1));
    assert_eq!(edge.get(dp(2)).unwrap().scale, Scale::whole(2));
}

#[test]
fn rotation_swaps_logical_size() {
    let layout = absolute("dp1@1080p#flip 90", &Layout::new());
    let cfg = layout.get(dp(1)).unwrap();
    assert_eq!(cfg.transform, Transform { flipped: true, rotation: Rotation::Quarter });
    assert_eq!(cfg.bounds, rect(0, 1080, 0, 1920));
    assert_eq!(cfg.resolution, Some(Size { width: 1920, height: 1080 }));
}

#[test]
fn two_screens_to_the_left() {
    let bb = Rect::default();
    let first = bb.x.place_outside(1920, layaway::geometry::Side::Least);
    assert_eq!(first, Interval::new(-1920, 0));
    let second = first.place_outside(1920, layaway::geometry::Side::Least);
    assert_eq!(second, Interval::new(-3840, -1920));

    let layout = absolute("dp1@1080p/left + edp1@1080p/left", &Layout::new());
    assert_eq!(layout.get(dp(1)).unwrap().bounds, rect(1920, 3840, 0, 1080));
    assert_eq!(layout.get(edp(1)).unwrap().bounds, rect(0, 1920, 0, 1080));
    for output in layout.outputs() {
        assert!(output.cfg.bounds.x.start() >= 0);
        assert!(output.cfg.bounds.y.start() >= 0);
    }
}

#[test]
fn normalized_layout_has_least_corner_at_origin() {
    let texts = [
        "dp1@1080p",
        "dp1@1080p/left,bottom + edp1@720p/top,right + vga@4k:2/left,center",
        "dp1@1080p/top + dp2@1080p/top + dp3@1080p/right,bottom",
        "dp1@1080p + dp1@720p",
        "dp1@1080p#90/bottom,left + edp@3k:1.5",
    ];
    for text in texts {
        let layout = absolute(text, &Layout::new());
        assert!(!layout.is_empty());
        assert_eq!(least_corner(&layout), Point { x: 0, y: 0 }, "{text}");
    }
}

#[test]
fn normalizing_twice_changes_nothing() {
    let mut layout = Layout::from_outputs(vec![
        connected(dp(1), rect(-500, 1420, 300, 1380), Scale::whole(1)),
        connected(edp(1), rect(1420, 2700, 100, 820), Scale::new(15, 1).unwrap()),
    ]);
    layout.reset_to_origin();
    assert_eq!(layout.get(dp(1)).unwrap().bounds, rect(0, 1920, 200, 1280));
    assert_eq!(layout.get(edp(1)).unwrap().bounds, rect(1920, 3200, 0, 720));
    let once: Vec<Output> = layout.outputs().iter().map(|output| output.to_output()).collect();
    layout.reset_to_origin();
    let twice: Vec<Output> = layout.outputs().iter().map(|output| output.to_output()).collect();
    assert_eq!(once, twice);
}

#[test]
fn reset_to_origin_moves_positive_layouts_too() {
    let mut layout =
        Layout::from_outputs(vec![connected(dp(1), rect(1920, 3840, 10, 1090), Scale::whole(1))]);
    assert_eq!(layout.bounding_box(), rect(1920, 3840, 10, 1090));
    layout.reset_to_origin();
    assert_eq!(layout.get(dp(1)).unwrap().bounds, rect(0, 1920, 0, 1080));
}

#[test]
fn reset_to_origin_of_empty_layout() {
    assert!(Layout::default().is_empty());
    let mut layout = Layout::new();
    layout.reset_to_origin();
    assert!(layout.is_empty());
    assert_eq!(layout.len(), 0);
}

#[test]
fn duplicate_port_keeps_last_screen() {
    let layout = absolute("dp1@1080p + dp1@720p", &Layout::new());
    assert_eq!(layout.len(), 1);
    let cfg = layout.get(dp(1)).unwrap();
    assert_eq!(cfg.resolution, Some(Size { width: 1280, height: 720 }));
    assert_eq!(cfg.bounds, rect(0, 1280, 0, 720));
}

#[test]
fn explicit_values_win_over_connected_ones() {
    let current = Layout::from_outputs(vec![connected(
        dp(1),
        rect(0, 2560, 0, 1440),
        Scale::whole(2),
    )]);
    let taken = absolute("dp1", &current);
    assert_eq!(taken.get(dp(1)).unwrap().resolution, Some(Size { width: 2560, height: 1440 }));
    assert_eq!(taken.get(dp(1)).unwrap().scale, Scale::whole(2));
    assert_eq!(taken.get(dp(1)).unwrap().bounds, rect(0, 1280, 0, 720));

    let sized = absolute("dp1@1080p", &current);
    assert_eq!(sized.get(dp(1)).unwrap().resolution, Some(Size { width: 1920, height: 1080 }));
    assert_eq!(sized.get(dp(1)).unwrap().scale, Scale::whole(2));
    assert_eq!(sized.get(dp(1)).unwrap().bounds, rect(0, 960, 0, 540));

    let scaled = absolute("dp1@8k:1", &current);
    assert_eq!(scaled.get(dp(1)).unwrap().scale, Scale::whole(1));
    assert_eq!(scaled.get(dp(1)).unwrap().bounds, rect(0, 7680, 0, 4320));
}

#[test]
fn scale_divides_logical_size() {
    let layout = absolute("dp1@1080p:1.5 + edp1@4k:2", &Layout::new());
    assert_eq!(layout.get(dp(1)).unwrap().bounds, rect(0, 1280, 0, 720));
    assert_eq!(layout.get(edp(1)).unwrap().bounds, rect(1280, 3200, 0, 1080));
}

#[test]
fn centered_placement_of_odd_lengths() {
    let layout = absolute("dp1@1080p + edp1@1001x501/right,center", &Layout::new());
    assert_eq!(layout.get(edp(1)).unwrap().bounds, rect(1920, 2921, 290, 790));
    let above = absolute("dp1@1080p + edp1@501x300/top", &Layout::new());
    assert_eq!(above.get(dp(1)).unwrap().bounds, rect(0, 1920, 300, 1380));
    assert_eq!(above.get(edp(1)).unwrap().bounds, rect(710, 1210, 0, 300));
}

#[test]
fn centered_below_a_box_left_of_the_origin() {
    let layout = absolute("dp1@1921x100/left + edp1@100x100/bottom,center", &Layout::new());
    assert_eq!(layout.get(dp(1)).unwrap().bounds, rect(0, 1921, 0, 100));
    assert_eq!(layout.get(edp(1)).unwrap().bounds, rect(910, 1010, 100, 200));
    let beside = absolute("dp1@100x1921/top + edp1@100x100/right,center", &Layout::new());
    assert_eq!(beside.get(dp(1)).unwrap().bounds, rect(0, 100, 0, 1921));
    assert_eq!(beside.get(edp(1)).unwrap().bounds, rect(100, 200, 910, 1010));
}

#[test]
fn placement_order_matters() {
    let a = absolute("dp1@1080p + edp1@720p/bottom,left + vga@480p", &Layout::new());
    let vga = Port { kind: Connector::Vga, idx: 1 };
    assert_eq!(a.get(vga).unwrap().bounds, rect(1920, 2560, 0, 480));
    let b = absolute("dp1@1080p + vga@480p + edp1@720p/bottom,left", &Layout::new());
    assert_eq!(b.get(vga).unwrap().bounds, rect(1920, 2560, 0, 480));
    assert_eq!(b.get(edp(1)).unwrap().bounds, rect(0, 1280, 1080, 1800));
    assert_eq!(a.get(edp(1)).unwrap().bounds, rect(0, 1280, 1080, 1800));
    let c = absolute("dp1@1080p + edp1@720p/bottom,right + vga@480p/bottom,right", &Layout::new());
    assert_eq!(c.get(edp(1)).unwrap().bounds, rect(640, 1920, 1080, 1800));
    assert_eq!(c.get(vga).unwrap().bounds, rect(1280, 1920, 1800, 2280));
}

#[test]
fn out_of_range_is_an_error() {
    let huge = Screen {
        port: dp(1),
        resolution: Some(Resolution::Custom(Size { width: i32::MAX, height: 1 })),
        scale: Some(Scale::whole(1)),
        transform: Transform::default(),
        pos: Position::default(),
    };
    let two = layaway::relative::Layout { screens: vec![huge, Screen { port: dp(2), ..huge }] };
    assert_eq!(two.to_absolute(&Layout::new()).err(), Some(Error::OutOfRange));
    let one = layaway::relative::Layout { screens: vec![huge] };
    let placed = one.to_absolute(&Layout::new()).unwrap();
    assert_eq!(placed.get(dp(1)).unwrap().bounds, rect(0, i32::MAX, 0, 1));

    let wide = layaway::relative::Layout {
        screens: vec![
            huge,
            Screen {
                port: dp(2),
                resolution: Some(Resolution::Fhd),
                pos: parse("dp/left").unwrap().screens[0].pos,
                ..huge
            },
        ],
    };
    assert_eq!(wide.to_absolute(&Layout::new()).err(), Some(Error::OutOfRange));
}

#[test]
fn layout_add_overwrites_and_orders_by_port() {
    let mut layout = Layout::new();
    layout.add(connected(edp(1), rect(0, 10, 0, 10), Scale::whole(1)));
    layout.add(connected(dp(2), rect(0, 20, 0, 20), Scale::whole(1)));
    layout.add(connected(dp(1), rect(0, 30, 0, 30), Scale::whole(1)));
    layout.add(connected(dp(2), rect(0, 40, 0, 40), Scale::whole(2)));
    assert_eq!(layout.len(), 3);
    let ports: Vec<Port> = layout.outputs().iter().map(|output| *output.port).collect();
    assert_eq!(ports, vec![dp(1), dp(2), edp(1)]);
    assert_eq!(layout.get(dp(2)).unwrap().bounds, rect(0, 40, 0, 40));
    assert_eq!(layout.get(dp(2)).unwrap().scale, Scale::whole(2));
    assert_eq!(layout.get(dp(3)), None);
    let mut sorted = ports.clone();
    sorted.sort();
    assert_eq!(ports, sorted);
    assert_eq!(dp(2).sort_key(), 10 * 0x1_0000_0000 + 2);
}

#[test]
fn bounding_box_is_tight() {
    let layout = Layout::from_outputs(vec![
        connected(dp(1), rect(100, 200, 300, 400), Scale::whole(1)),
        connected(dp(2), rect(-50, 120, 350, 900), Scale::whole(1)),
        connected(dp(3), rect(0, 10, 290, 295), Scale::whole(1)),
    ]);
    assert_eq!(layout.bounding_box(), rect(-50, 200, 290, 900));
}

#[test]
fn output_and_its_reference() {
    let output = connected(dp(1), rect(0, 10, 0, 10), Scale::whole(1));
    let reference = output.as_ref();
    assert_eq!(*reference.port, dp(1));
    assert_eq!(reference.to_output(), output);
    assert_eq!(Output::from(reference), output);
    assert_eq!(layaway::absolute::OutputRef::from(&output), reference);
    let transform: layaway::relative::Transform = Transform::default();
    assert!(!transform.flipped);
}
