use layaway::comms::Port;
use layaway::geometry::{Hori, MaybeCenter, Rotation, Scale, Size, Transform, Vert};
use layaway::info::{Connector, Resolution};
use layaway::parse::{parse, Fault, ParseError, SyntaxError};
use layaway::relative::{Layout, Position, Screen};

fn plain(kind: Connector, idx: u32) -> Screen {
    Screen {
        port: Port { kind, idx },
        resolution: None,
        scale: None,
        transform: Transform::default(),
        pos: Position::default(),
    }
}

fn faults(text: &str) -> Vec<SyntaxError> {
    match parse(text) {
        Ok(layout) => panic!("{text:?} was read as {layout:?}"),
        Err(error) => error.errors,
    }
}

fn chars(s: &str) -> Vec<char> {
    s.chars().collect()
}

#[test]
fn parse_three_plain_screens() {
    let layout = parse("vga3 + dp + edp").unwrap();
    assert_eq!(
        layout.screens,
        vec![
            plain(Connector::Vga, 3),
            plain(Connector::DisplayPort, 1),
            plain(Connector::Edp, 1),
        ]
    );
}

#[test]
fn parse_second_screen_with_position() {
    let layout = parse("dp1 + edp1/bottom,center").unwrap();
    assert_eq!(layout.screens.len(), 2);
    assert_eq!(layout.screens[0], plain(Connector::DisplayPort, 1));
    assert_eq!(
        layout.screens[1],
        Screen {
            pos: Position::Vert { edge: Vert::Bottom, spec: MaybeCenter::Center },
            ..plain(Connector::Edp, 1)
        }
    );
}

#[test]
fn parse_defaults_of_a_screen() {
    let layout = parse("hdmi").unwrap();
    let screen = layout.screens[0];
    assert_eq!(screen.port, Port { kind: Connector::HdmiA, idx: 1 });
    assert_eq!(screen.resolution, None);
    assert_eq!(screen.scale, None);
    assert_eq!(screen.transform, Transform { flipped: false, rotation: Rotation::Zero });
    assert_eq!(
        screen.pos,
        Position::Hori { edge: Hori::Right, spec: MaybeCenter::Extreme(Vert::Top) }
    );
}

#[test]
fn parse_all_parts() {
    let layout = parse("edp2@1080p:1.5#flip 90/bottom,left").unwrap();
    assert_eq!(
        layout.screens,
        vec![Screen {
            port: Port { kind: Connector::Edp, idx: 2 },
            resolution: Some(Resolution::Fhd),
            scale: Some(Scale::new(15, 1).unwrap()),
            transform: Transform { flipped: true, rotation: Rotation::Quarter },
            pos: Position::Vert { edge: Vert::Bottom, spec: MaybeCenter::Extreme(Hori::Left) },
        }]
    );
}

#[test]
fn parse_white_space_around_delimiters() {
    let spaced = parse("dp1 @ 4k \n:\t2 # 180 / left , bottom\n+\u{a0}edp").unwrap();
    let dense = parse("dp1@4k:2#180/left,bottom+edp").unwrap();
    assert_eq!(spaced.screens, dense.screens);
    assert_eq!(dense.screens.len(), 2);
    assert_eq!(dense.screens[0].resolution, Some(Resolution::Uhd4k));
    assert_eq!(dense.screens[0].scale, Some(Scale::whole(2)));
    assert_eq!(dense.screens[0].transform.rotation, Rotation::Half);
    assert_eq!(
        dense.screens[0].pos,
        Position::Hori { edge: Hori::Left, spec: MaybeCenter::Extreme(Vert::Bottom) }
    );
}

#[test]
fn parse_connector_names() {
    let cases = [
        ("unknown", Connector::Unknown),
        ("vga", Connector::Vga),
        ("dvii", Connector::DviI),
        ("dvid", Connector::DviD),
        ("dvia", Connector::DviA),
        ("composite", Connector::Composite),
        ("svideo", Connector::Svideo),
        ("lvds", Connector::Lvds),
        ("component", Connector::Component),
        ("din", Connector::NinePinDin),
        ("dp", Connector::DisplayPort),
        ("hdmib", Connector::HdmiB),
        ("hdmia", Connector::HdmiA),
        ("hdmi", Connector::HdmiA),
        ("tv", Connector::Tv),
        ("edp", Connector::Edp),
        ("virtual", Connector::Virtual),
        ("dsi", Connector::Dsi),
        ("dpi", Connector::Dpi),
        ("writeback", Connector::Writeback),
        ("spi", Connector::Spi),
        ("usb", Connector::Usb),
        ("headless", Connector::Headless),
    ];
    for (name, kind) in cases {
        let layout = parse(&format!("{name}7")).unwrap();
        assert_eq!(layout.screens, vec![plain(kind, 7)]);
        let input = chars(name);
        assert_eq!(Connector::parse_from_name(&input, input.len(), 0), Some((kind, input.len())));
    }
}

#[test]
fn parse_port_index() {
    assert_eq!(parse("dp0").unwrap().screens, vec![plain(Connector::DisplayPort, 0)]);
    assert_eq!(parse("dp10").unwrap().screens, vec![plain(Connector::DisplayPort, 10)]);
    assert_eq!(
        parse("dp4294967295").unwrap().screens,
        vec![plain(Connector::DisplayPort, u32::MAX)]
    );
    assert_eq!(faults("dp4294967296"), vec![SyntaxError { at: 2, fault: Fault::Index }]);
    assert_eq!(faults("dp01"), vec![SyntaxError { at: 3, fault: Fault::Unexpected }]);
}

#[test]
fn parse_resolution_names_and_sizes() {
    assert_eq!(parse("dp@4k").unwrap().screens[0].resolution, Some(Resolution::Uhd4k));
    assert_eq!(parse("dp@3.5k").unwrap().screens[0].resolution, Some(Resolution::Hd3Halfk));
    assert_eq!(parse("dp@uw1600p").unwrap().screens[0].resolution, Some(Resolution::UwqhdPlus));
    assert_eq!(
        parse("dp@1920x1080").unwrap().screens[0].resolution,
        Some(Resolution::Custom(Size { width: 1920, height: 1080 }))
    );
    assert_eq!(
        parse("dp@2147483647x0").unwrap().screens[0].resolution,
        Some(Resolution::Custom(Size { width: i32::MAX, height: 0 }))
    );
    assert_eq!(faults("dp@2147483648x1"), vec![SyntaxError { at: 3, fault: Fault::Resolution }]);
    assert_eq!(faults("dp@1x2147483648"), vec![SyntaxError { at: 5, fault: Fault::Resolution }]);
    assert_eq!(faults("dp@12"), vec![SyntaxError { at: 5, fault: Fault::Resolution }]);
    assert_eq!(faults("dp@12x"), vec![SyntaxError { at: 6, fault: Fault::Resolution }]);
    assert_eq!(faults("dp1 @ foo"), vec![SyntaxError { at: 6, fault: Fault::Resolution }]);
}

#[test]
fn resolution_sizes() {
    assert_eq!(Resolution::Fhd.size(), Size { width: 1920, height: 1080 });
    assert_eq!(Resolution::Uhd4k.size(), Size { width: 3840, height: 2160 });
    assert_eq!(Resolution::Uhd8k.size(), Size { width: 7680, height: 4320 });
    assert_eq!(Resolution::Hd3k.size(), Size { width: 1620, height: 2880 });
    assert_eq!(Resolution::Qvga.size(), Size { width: 320, height: 240 });
    assert_eq!(
        Resolution::Custom(Size { width: 5, height: 7 }).size(),
        Size { width: 5, height: 7 }
    );
}

#[test]
fn parse_scale() {
    assert_eq!(parse("dp:2").unwrap().screens[0].scale, Some(Scale::whole(2)));
    assert_eq!(parse("dp:1.25").unwrap().screens[0].scale, Scale::new(125, 2));
    assert_eq!(parse("dp:0.5").unwrap().screens[0].scale, Scale::new(5, 1));
    assert_eq!(parse("dp:1.0").unwrap().screens[0].scale, Scale::new(10, 1));
    assert_eq!(parse("dp:4.294967295").unwrap().screens[0].scale, Scale::new(u32::MAX, 9));
    assert_eq!(faults("dp:0"), vec![SyntaxError { at: 3, fault: Fault::Scale }]);
    assert_eq!(faults("dp:0.0"), vec![SyntaxError { at: 3, fault: Fault::Scale }]);
    assert_eq!(faults("dp:x"), vec![SyntaxError { at: 3, fault: Fault::Scale }]);
    assert_eq!(faults("dp:1."), vec![SyntaxError { at: 5, fault: Fault::Scale }]);
    assert_eq!(faults("dp:4294967296"), vec![SyntaxError { at: 3, fault: Fault::Scale }]);
    assert_eq!(faults("dp:4294967296.5"), vec![SyntaxError { at: 3, fault: Fault::Scale }]);
    assert_eq!(faults("dp:0.0000000001"), vec![SyntaxError { at: 3, fault: Fault::Scale }]);
}

#[test]
fn parse_scale_cuts_places_it_cannot_keep() {
    let scale = |text: &str| parse(text).unwrap().screens[0].scale;
    assert_eq!(scale("dp:1.0000000000"), Scale::new(1_000_000_000, 9));
    assert_eq!(scale("dp:1.3333333333333333"), Scale::new(1_333_333_333, 9));
    assert_eq!(scale("dp:0.12345678987654321"), Scale::new(123_456_789, 9));
    assert_eq!(scale("dp:4.294967295"), Scale::new(u32::MAX, 9));
    assert_eq!(scale("dp:4.294967296"), Scale::new(429_496_729, 8));
    assert_eq!(scale("dp:5.000000000"), Scale::new(500_000_000, 8));
    assert_eq!(scale("dp:4294967295.9"), Scale::new(u32::MAX, 0));
    assert_eq!(scale("dp:429496729.59"), Scale::new(4_294_967_295, 1));
    assert_eq!(scale("dp:429496729.6"), Scale::new(429_496_729, 0));
    assert_eq!(scale("dp:0001.50"), Scale::new(150, 2));
    let layout = parse("dp@1080p:1.3333333333333333/left").unwrap();
    assert_eq!(layout.screens[0].scale, Scale::new(1_333_333_333, 9));
    assert_eq!(layout.screens[0].resolution, Some(Resolution::Fhd));
}

#[test]
fn parse_transform_flip_90() {
    let layout = parse("dp#flip 90").unwrap();
    assert_eq!(
        layout.screens[0].transform,
        Transform { flipped: true, rotation: Rotation::Quarter }
    );
    let size = Size { width: 1920, height: 1080 };
    assert_eq!(
        size.rotate(layout.screens[0].transform.rotation),
        Size { width: 1080, height: 1920 }
    );
}

#[test]
fn parse_transform_forms() {
    let t = |text: &str| parse(text).unwrap().screens[0].transform;
    assert_eq!(t("dp#flip"), Transform { flipped: true, rotation: Rotation::Zero });
    assert_eq!(t("dp#flip270"), Transform { flipped: true, rotation: Rotation::ThreeQuarter });
    assert_eq!(t("dp#flip  180"), Transform { flipped: true, rotation: Rotation::Half });
    assert_eq!(t("dp#0"), Transform { flipped: false, rotation: Rotation::Zero });
    assert_eq!(t("dp#90"), Transform { flipped: false, rotation: Rotation::Quarter });
    assert_eq!(t("dp#180"), Transform { flipped: false, rotation: Rotation::Half });
    assert_eq!(t("dp#270"), Transform { flipped: false, rotation: Rotation::ThreeQuarter });
    assert_eq!(t("dp#flip /left"), Transform { flipped: true, rotation: Rotation::Zero });
    assert_eq!(faults("dp#45"), vec![SyntaxError { at: 3, fault: Fault::Transform }]);
    assert_eq!(faults("dp#900"), vec![SyntaxError { at: 5, fault: Fault::Unexpected }]);
}

#[test]
fn parse_positions() {
    let p = |text: &str| parse(text).unwrap().screens[0].pos;
    let top = MaybeCenter::Extreme(Vert::Top);
    assert_eq!(p("dp/left"), Position::Hori { edge: Hori::Left, spec: top });
    assert_eq!(p("dp/right"), Position::Hori { edge: Hori::Right, spec: top });
    assert_eq!(
        p("dp/right,center"),
        Position::Hori { edge: Hori::Right, spec: MaybeCenter::Center }
    );
    assert_eq!(
        p("dp/left,bottom"),
        Position::Hori { edge: Hori::Left, spec: MaybeCenter::Extreme(Vert::Bottom) }
    );
    assert_eq!(p("dp/top"), Position::Vert { edge: Vert::Top, spec: MaybeCenter::Center });
    assert_eq!(p("dp/bottom"), Position::Vert { edge: Vert::Bottom, spec: MaybeCenter::Center });
    assert_eq!(
        p("dp/top,right"),
        Position::Vert { edge: Vert::Top, spec: MaybeCenter::Extreme(Hori::Right) }
    );
    assert_eq!(faults("dp/center"), vec![SyntaxError { at: 3, fault: Fault::Position }]);
    assert_eq!(faults("dp/left,left"), vec![SyntaxError { at: 8, fault: Fault::Position }]);
    assert_eq!(faults("dp/top, top"), vec![SyntaxError { at: 8, fault: Fault::Position }]);
}

#[test]
fn parse_rejects_parts_out_of_order() {
    assert_eq!(faults("dp:2@4k"), vec![SyntaxError { at: 4, fault: Fault::Unexpected }]);
    assert_eq!(faults("dp/left#90"), vec![SyntaxError { at: 7, fault: Fault::Unexpected }]);
}

#[test]
fn parse_rejects_empty_and_padded_text() {
    assert_eq!(faults(""), vec![SyntaxError { at: 0, fault: Fault::Connector }]);
    assert_eq!(faults(" dp1"), vec![SyntaxError { at: 0, fault: Fault::Connector }]);
    assert_eq!(faults("dp1 "), vec![SyntaxError { at: 3, fault: Fault::Unexpected }]);
    assert_eq!(faults("dp1 +"), vec![SyntaxError { at: 5, fault: Fault::Connector }]);
    assert_eq!(faults("+dp1"), vec![SyntaxError { at: 0, fault: Fault::Connector }]);
}

#[test]
fn parse_unknown_connector() {
    assert_eq!(faults("foo1"), vec![SyntaxError { at: 0, fault: Fault::Connector }]);
    assert_eq!(faults("DP1"), vec![SyntaxError { at: 0, fault: Fault::Connector }]);
    assert_eq!(faults("dp1 + screen"), vec![SyntaxError { at: 6, fault: Fault::Connector }]);
}

#[test]
fn parse_collects_all_errors() {
    assert_eq!(
        faults("foo + dp1:x + edp + vga/middle + dp 2"),
        vec![
            SyntaxError { at: 0, fault: Fault::Connector },
            SyntaxError { at: 10, fault: Fault::Scale },
            SyntaxError { at: 24, fault: Fault::Position },
            SyntaxError { at: 35, fault: Fault::Unexpected },
        ]
    );
}

#[test]
fn parse_error_text() {
    let one = ParseError { errors: faults("foo") };
    assert_eq!(one.to_text(), "at 0: expected the name of a connector\n");
    let two = ParseError { errors: faults("dp1:x + dp#45") };
    assert_eq!(
        two.to_text(),
        "2 errors encountered:\n\
         1: at 4: expected a scale\n\
         2: at 11: expected flip or an angle of 0, 90, 180 or 270\n"
    );
    assert_eq!(
        SyntaxError { at: 12, fault: Fault::Unexpected }.to_text(),
        "at 12: expected the end of the screen"
    );
    assert_eq!(Fault::Index.message(), "the index of the port is too large");
    assert_eq!(
        Fault::Resolution.message(),
        "expected the name of a resolution, or width and height"
    );
    assert_eq!(Fault::Position.message(), "expected left, right, top, bottom or center");
}

#[test]
fn parse_through_from_str() {
    let layout: Layout = "dp1 + edp1/bottom,center".parse().unwrap();
    assert_eq!(layout.screens.len(), 2);
    assert!("dp1 + ".parse::<Layout>().is_err());
}

#[test]
fn parse_counts_characters_not_bytes() {
    assert_eq!(
        faults("dp1\u{2003}+\u{2003}é"),
        vec![SyntaxError { at: 6, fault: Fault::Connector }]
    );
}

#[test]
fn parse_every_resolution_name() {
    let cases = [
        ("240p", Resolution::Qvga, 320, 240),
        ("w240p", Resolution::Wqvga, 400, 240),
        ("480p", Resolution::Vga, 640, 480),
        ("w480p", Resolution::Wvga, 800, 480),
        ("uw480p", Resolution::Fwvga, 854, 480),
        ("540p", Resolution::Qhd, 960, 540),
        ("600p", Resolution::Svga, 800, 600),
        ("w600p", Resolution::Wsvga, 1024, 600),
        ("720p", Resolution::Hd, 1280, 720),
        ("768p", Resolution::Xga, 1024, 768),
        ("864p", Resolution::XgaPlus, 1152, 864),
        ("900p", Resolution::HdPlus, 1600, 900),
        ("960p", Resolution::QuadVga, 1280, 960),
        ("1024p", Resolution::Sxga, 1280, 1024),
        ("1080p", Resolution::Fhd, 1920, 1080),
        ("dci2k", Resolution::Dci2k, 2048, 1080),
        ("w1080p", Resolution::Uwfhd, 2560, 1080),
        ("1152p", Resolution::Qwxga, 2048, 1152),
        ("s1200p", Resolution::Uxga, 1600, 1200),
        ("1200p", Resolution::FhdPlus, 1900, 1200),
        ("1440p", Resolution::Wqhd, 2560, 1440),
        ("w1440p", Resolution::Uwqhd, 3440, 1440),
        ("2k", Resolution::Hd2k, 2256, 1504),
        ("1600p", Resolution::Qxga, 2048, 1600),
        ("w1600p", Resolution::Wqxga, 2560, 1600),
        ("uw1600p", Resolution::UwqhdPlus, 3840, 1600),
        ("3k", Resolution::Hd3k, 1620, 2880),
        ("1800p", Resolution::WqxgaPlus, 2880, 1800),
        ("w1800p", Resolution::WqhdPlus, 3200, 1800),
        ("sq1920p", Resolution::Sqhd, 1920, 1920),
        ("1920p", Resolution::Hd3kPlus, 3072, 1920),
        ("2048p", Resolution::Qsxga, 2560, 2048),
        ("2100p", Resolution::QsxgaPlus, 2800, 2100),
        ("3.5k", Resolution::Hd3Halfk, 3456, 2160),
        ("4k", Resolution::Uhd4k, 3840, 2160),
        ("dci4k", Resolution::Dci4k, 4096, 2160),
        ("2400p", Resolution::Quxga, 3200, 2400),
        ("w2400p", Resolution::Uhd4kPlus, 3840, 2400),
        ("5k", Resolution::Uhd5k, 5120, 2880),
        ("6k", Resolution::Uhd6k, 6144, 3456),
        ("8k", Resolution::Uhd8k, 7680, 4320),
    ];
    for (name, resolution, width, height) in cases {
        let layout = parse(&format!("dp@{name}/left")).unwrap();
        assert_eq!(layout.screens[0].resolution, Some(resolution), "{name}");
        assert_eq!(resolution.size(), Size { width, height }, "{name}");
        let input = chars(name);
        assert_eq!(
            Resolution::parse_from_name(&input, input.len(), 0),
            Some((resolution, input.len()))
        );
    }
    assert_eq!(Resolution::parse_from_name(&chars("1081p"), 5, 0), None);
}
