use layaway::geometry::{
    Corner, Hori, Interval, MaybeCenter, Point, Rect, Rotation, Scale, Side, Size, Transform, Vert,
};

fn rect(x0: i32, x1: i32, y0: i32, y1: i32) -> Rect {
    Rect { x: Interval::new(x0, x1), y: Interval::new(y0, y1) }
}

#[test]
fn interval_new_orders_bounds() {
    let a = Interval::new(200, 100);
    assert_eq!(a.start(), 100);
    assert_eq!(a.end(), 200);
    assert_eq!(a, Interval::new(100, 200));
    assert_eq!(a.len(), 100);
    assert!(!a.is_empty());
    assert!(Interval::new(7, 7).is_empty());
}

#[test]
fn interval_mid_rounds_towards_start() {
    assert_eq!(Interval::new(0, 1080).mid(), 540);
    assert_eq!(Interval::new(0, 5).mid(), 2);
    assert_eq!(Interval::new(-5, 0).mid(), -3);
    assert_eq!(Interval::new(-3, 0).mid(), -2);
    assert_eq!(Interval::new(-5, -2).mid(), -4);
    assert_eq!(Interval::new(-4, 0).mid(), -2);
    assert_eq!(Interval::new(-2, 3).mid(), 0);
    assert_eq!(Interval::new(-3, 2).mid(), -1);
    assert_eq!(Interval::new(i32::MAX - 1, i32::MAX).mid(), i32::MAX - 1);
    assert_eq!(Interval::new(i32::MIN, i32::MIN + 1).mid(), i32::MIN);
    assert_eq!(Interval::new(i32::MIN, i32::MAX).mid(), -1);
    for (a, b) in [(-7, 4), (-8, -1), (0, 9), (-1, 0), (3, 3)] {
        let interval = Interval::new(a, b);
        let mid = interval.mid();
        assert!(a <= mid && mid <= b);
        let lean = (b - mid) - (mid - a);
        assert!(lean == 0 || lean == 1, "{a} {b}");
    }
}

#[test]
fn interval_contains_is_closed() {
    let a = Interval::new(100, 200);
    assert!(a.contains(100));
    assert!(a.contains(200));
    assert!(a.contains(150));
    assert!(!a.contains(99));
    assert!(!a.contains(201));
}

#[test]
fn interval_stretch_to_moves_nearer_bound() {
    let mut a = Interval::new(100, 200);
    a.stretch_to(150);
    assert_eq!(a, Interval::new(100, 200));
    a.stretch_to(50);
    assert_eq!(a, Interval::new(50, 200));
    a.stretch_to(300);
    assert_eq!(a, Interval::new(50, 300));
    a.stretch_to(50);
    assert_eq!(a, Interval::new(50, 300));
}

#[test]
fn interval_set_len_keeps_one_side() {
    let mut a = Interval::new(100, 200);
    a.set_len(Side::Least, 30);
    assert_eq!(a, Interval::new(100, 130));
    a.set_len(Side::Most, 10);
    assert_eq!(a, Interval::new(120, 130));
    a.set_len(Side::Least, -20);
    assert_eq!(a, Interval::new(100, 120));
}

#[test]
fn interval_place_outside_touches() {
    let space = Interval::new(100, 200);
    assert_eq!(space.place_outside(10, Side::Least), Interval::new(90, 100));
    assert_eq!(space.place_outside(10, Side::Most), Interval::new(200, 210));
    assert_eq!(space.place_outside(0, Side::Most), Interval::new(200, 200));
}

#[test]
fn interval_place_outside_shares_one_point() {
    let space = Interval::new(100, 200);
    let left = space.place_outside(25, Side::Least);
    let right = space.place_outside(25, Side::Most);
    for p in 50..260 {
        assert_eq!(space.contains(p) && left.contains(p), p == 100);
        assert_eq!(space.contains(p) && right.contains(p), p == 200);
    }
}

#[test]
fn interval_place_inside_aligns() {
    let space = Interval::new(0, 1080);
    assert_eq!(
        space.place_inside(720, MaybeCenter::Extreme(Side::Least)),
        Interval::new(0, 720)
    );
    assert_eq!(
        space.place_inside(720, MaybeCenter::Extreme(Side::Most)),
        Interval::new(360, 1080)
    );
    assert_eq!(space.place_inside(720, MaybeCenter::Center), Interval::new(180, 900));
}

#[test]
fn interval_place_inside_center_of_odd_length() {
    let space = Interval::new(0, 1080);
    assert_eq!(space.place_inside(501, MaybeCenter::Center), Interval::new(290, 790));
    let odd = Interval::new(0, 5);
    assert_eq!(odd.place_inside(3, MaybeCenter::Center), Interval::new(1, 3));
    let wider = Interval::new(0, 100).place_inside(300, MaybeCenter::Center);
    assert_eq!(wider, Interval::new(-100, 200));
    let negative = Interval::new(-5, 0);
    assert_eq!(negative.place_inside(2, MaybeCenter::Center), Interval::new(-4, -2));
    assert_eq!(negative.try_place_inside(3, MaybeCenter::Center), Some(Interval::new(-4, -2)));
    let left = Interval::new(-1921, 0);
    assert_eq!(left.place_inside(100, MaybeCenter::Center), Interval::new(-1011, -911));
}

#[test]
fn interval_try_place_reports_range() {
    let high = Interval::new(i32::MAX - 10, i32::MAX);
    assert_eq!(high.try_place_outside(11, Side::Most), None);
    assert_eq!(
        high.try_place_outside(10, Side::Least),
        Some(Interval::new(i32::MAX - 20, i32::MAX - 10))
    );
    let low = Interval::new(i32::MIN, i32::MIN + 4);
    assert_eq!(low.try_place_inside(10, MaybeCenter::Extreme(Side::Most)), None);
    assert_eq!(
        low.try_place_inside(10, MaybeCenter::Extreme(Side::Least)),
        Some(Interval::new(i32::MIN, i32::MIN + 10))
    );
    assert_eq!(
        Interval::new(0, 10).try_place_inside(4, MaybeCenter::Center),
        Some(Interval::new(3, 7))
    );
}

#[test]
fn interval_shifts() {
    let a = Interval::new(100, 200);
    assert_eq!(a.shifted(5), Interval::new(105, 205));
    assert_eq!(a.shifted(-150), Interval::new(-50, 50));
    assert_eq!(a.shifted_back(100), Interval::new(0, 100));
    assert_eq!(a.shifted_back(-1), Interval::new(101, 201));
}

#[test]
fn interval_is_measurable() {
    assert!(Interval::new(0, i32::MAX).is_measurable());
    assert!(!Interval::new(-1, i32::MAX).is_measurable());
    assert!(!Interval::new(i32::MIN, i32::MAX).is_measurable());
}

#[test]
fn scale_new_rejects_zero_and_long_fractions() {
    assert!(Scale::new(0, 0).is_none());
    assert!(Scale::new(1, 10).is_none());
    let s = Scale::new(15, 1).unwrap();
    assert_eq!(s.mantissa(), 15);
    assert_eq!(s.decimals(), 1);
    assert_eq!(s.unit(), 10);
    assert_eq!(Scale::whole(2), Scale::new(2, 0).unwrap());
    assert_eq!(Scale::new(1, 9).unwrap().unit(), 1_000_000_000);
}

#[test]
fn scale_apply_divides_and_truncates() {
    assert_eq!(Scale::whole(2).apply(3840), 1920);
    assert_eq!(Scale::new(15, 1).unwrap().apply(1920), 1280);
    assert_eq!(Scale::new(15, 1).unwrap().apply(1000), 666);
    assert_eq!(Scale::new(15, 1).unwrap().apply(-1000), -666);
    assert_eq!(Scale::new(125, 2).unwrap().apply(2560), 2048);
    assert_eq!(Scale::whole(3).apply(10), 3);
    assert_eq!(Scale::whole(3).apply(-10), -3);
}

#[test]
fn scale_apply_saturates() {
    let tiny = Scale::new(1, 9).unwrap();
    assert_eq!(tiny.apply(1000), i32::MAX);
    assert_eq!(tiny.apply(-1000), i32::MIN);
    assert_eq!(tiny.apply(2), 2_000_000_000);
    assert_eq!(tiny.apply(0), 0);
}

#[test]
fn divide_at_one_is_identity() {
    for one in [Scale::whole(1), Scale::new(10, 1).unwrap(), Scale::new(1_000_000_000, 9).unwrap()] {
        for (a, b) in [(0, 0), (100, 200), (-50, 1030), (-7, -3), (0, i32::MAX)] {
            for side in [Side::Least, Side::Most] {
                let mut interval = Interval::new(a, b);
                interval.divide_at(side, one);
                assert_eq!(interval, Interval::new(a, b));
            }
        }
    }
}

#[test]
fn interval_divide_at_keeps_side() {
    let mut a = Interval::new(100, 300);
    a.divide_at(Side::Least, Scale::whole(2));
    assert_eq!(a, Interval::new(100, 200));
    let mut b = Interval::new(100, 300);
    b.divide_at(Side::Most, Scale::whole(2));
    assert_eq!(b, Interval::new(200, 300));
    let mut c = Interval::new(0, 100);
    c.divide_at(Side::Least, Scale::new(5, 1).unwrap());
    assert_eq!(c, Interval::new(0, 200));
}

#[test]
fn rect_vertices_in_order() {
    let r = rect(1, 2, 3, 4);
    assert_eq!(
        r.vertices(),
        [
            Point { x: 1, y: 3 },
            Point { x: 2, y: 3 },
            Point { x: 1, y: 4 },
            Point { x: 2, y: 4 },
        ]
    );
}

#[test]
fn rect_size_and_contains() {
    let r = rect(10, 1930, 20, 1100);
    assert_eq!(r.size(), Size { width: 1920, height: 1080 });
    assert!(r.contains(Point { x: 10, y: 20 }));
    assert!(r.contains(Point { x: 1930, y: 1100 }));
    assert!(!r.contains(Point { x: 9, y: 20 }));
    assert!(!r.contains(Point { x: 10, y: 1101 }));
    assert!(r.is_measurable());
}

#[test]
fn rect_stretch_to_point_grows_each_axis() {
    let mut r = rect(0, 10, 0, 10);
    r.stretch_to_point(Point { x: 5, y: 5 });
    assert_eq!(r, rect(0, 10, 0, 10));
    r.stretch_to_point(Point { x: -5, y: 20 });
    assert_eq!(r, rect(-5, 10, 0, 20));
}

#[test]
fn rect_stretch_to_rect_is_hull() {
    let mut r = rect(0, 1920, 0, 1080);
    r.stretch_to_rect(rect(0, 1920, 1080, 2160));
    assert_eq!(r, rect(0, 1920, 0, 2160));
    r.stretch_to_rect(rect(100, 200, 100, 200));
    assert_eq!(r, rect(0, 1920, 0, 2160));
    r.stretch_to_rect(rect(-10, 3000, -20, 5));
    assert_eq!(r, rect(-10, 3000, -20, 2160));
}

#[test]
fn rect_default_is_empty_at_origin() {
    assert_eq!(Rect::default(), rect(0, 0, 0, 0));
    assert_eq!(Interval::default(), Interval::new(0, 0));
}

#[test]
fn rect_divide_at_keeps_corner() {
    let mut r = rect(100, 300, 200, 600);
    r.divide_at(Corner { hori: Hori::Left, vert: Vert::Bottom }, Scale::whole(2));
    assert_eq!(r, rect(100, 200, 400, 600));
    let mut same = rect(100, 300, 200, 600);
    same.divide_at(Corner::upper_left(), Scale::whole(1));
    assert_eq!(same, rect(100, 300, 200, 600));
}

#[test]
fn rotate_in_place_is_identity_for_no_and_half_turn() {
    for amount in [Rotation::Zero, Rotation::Half] {
        for hori in [Hori::Left, Hori::Right] {
            for vert in [Vert::Top, Vert::Bottom] {
                let mut r = rect(100, 2020, 50, 1130);
                r.rotate_in_place(Corner { hori, vert }, amount);
                assert_eq!(r, rect(100, 2020, 50, 1130));
            }
        }
    }
}

#[test]
fn rotate_in_place_swaps_for_quarter_turns() {
    for amount in [Rotation::Quarter, Rotation::ThreeQuarter] {
        let mut a = rect(100, 2020, 50, 1130);
        a.rotate_in_place(Corner::upper_left(), amount);
        assert_eq!(a, rect(100, 1180, 50, 1970));
        assert_eq!(a.size(), Size { width: 1080, height: 1920 });

        let mut b = rect(100, 2020, 50, 1130);
        b.rotate_in_place(Corner { hori: Hori::Right, vert: Vert::Bottom }, amount);
        assert_eq!(b, rect(940, 2020, -790, 1130));
        assert_eq!(b.size(), Size { width: 1080, height: 1920 });
    }
}

#[test]
fn rect_transpose_swaps() {
    let mut r = rect(0, 30, 0, 10);
    r.transpose(Corner { hori: Hori::Right, vert: Vert::Top });
    assert_eq!(r, rect(20, 30, 0, 30));
}

#[test]
fn rect_shifts() {
    let r = rect(-10, 10, 0, 5);
    assert_eq!(r.shifted(Point { x: 10, y: -5 }), rect(0, 20, -5, 0));
    assert_eq!(r.shifted_back(Point { x: -10, y: 0 }), rect(0, 20, 0, 5));
}

#[test]
fn size_rotate_swaps_for_quarter_turns() {
    let size = Size { width: 1920, height: 1080 };
    assert_eq!(size.rotate(Rotation::Zero), size);
    assert_eq!(size.rotate(Rotation::Half), size);
    assert_eq!(size.rotate(Rotation::Quarter), Size { width: 1080, height: 1920 });
    assert_eq!(size.rotate(Rotation::ThreeQuarter), Size { width: 1080, height: 1920 });
}

#[test]
fn size_divide_by_scale() {
    let size = Size { width: 3840, height: 2160 };
    assert_eq!(size.divide(Scale::whole(2)), Size { width: 1920, height: 1080 });
    assert_eq!(size.divide(Scale::new(15, 1).unwrap()), Size { width: 2560, height: 1440 });
}

#[test]
fn sides_of_edges() {
    assert_eq!(Hori::Left.side(), Side::Least);
    assert_eq!(Hori::Right.side(), Side::Most);
    assert_eq!(Vert::Top.side(), Side::Least);
    assert_eq!(Vert::Bottom.side(), Side::Most);
    assert_eq!(MaybeCenter::Extreme(Hori::Right).side(), MaybeCenter::Extreme(Side::Most));
    assert_eq!(MaybeCenter::<Vert>::Center.side(), MaybeCenter::Center);
    assert_eq!(MaybeCenter::Extreme(3).map(|n| n + 1), MaybeCenter::Extreme(4));
    assert_eq!(MaybeCenter::<i32>::Center.map(|n| n + 1), MaybeCenter::Center);
}

#[test]
fn defaults() {
    assert_eq!(Hori::default(), Hori::Right);
    assert_eq!(Vert::default(), Vert::Top);
    assert_eq!(Rotation::default(), Rotation::Zero);
    assert_eq!(Transform::default(), Transform { flipped: false, rotation: Rotation::Zero });
    assert_eq!(MaybeCenter::<Hori>::default(), MaybeCenter::Center);
    assert_eq!(MaybeCenter::<Vert>::default(), MaybeCenter::Extreme(Vert::Top));
    assert_eq!(Rotation::ThreeQuarter.degrees(), 270);
    assert!(Rotation::Quarter.swaps_axes());
    assert!(!Rotation::Half.swaps_axes());
}

#[test]
fn operators_move_intervals_and_rects() {
    let a = Interval::new(100, 200);
    assert_eq!(a + 5, Interval::new(105, 205));
    assert_eq!(a - 150, Interval::new(-50, 50));
    assert_eq!(a - i32::MIN / 2, Interval::new(100 + 1_073_741_824, 200 + 1_073_741_824));
    let r = rect(-10, 10, 0, 5);
    assert_eq!(r + Point { x: 10, y: -5 }, rect(0, 20, -5, 0));
    assert_eq!(r - Point { x: -10, y: 0 }, rect(0, 20, 0, 5));
    assert_eq!(r + -Point { x: 10, y: -5 }, r - Point { x: 10, y: -5 });
    assert_eq!(-Point { x: 3, y: -4 }, Point { x: -3, y: 4 });
    assert_eq!(
        Size { width: 3840, height: 2160 } / Scale::whole(2),
        Size { width: 1920, height: 1080 }
    );
}

#[test]
fn conversions_between_sides_and_corners() {
    assert_eq!(Side::from(Hori::Left), Side::Least);
    assert_eq!(Side::from(Hori::Right), Side::Most);
    assert_eq!(Side::from(Vert::Top), Side::Least);
    assert_eq!(Side::from(Vert::Bottom), Side::Most);
    let corner = Corner { hori: Hori::Right, vert: Vert::Bottom };
    assert_eq!(Hori::from(corner), Hori::Right);
    assert_eq!(Vert::from(corner), Vert::Bottom);
    assert_eq!(Corner::upper_left(), Corner { hori: Hori::Left, vert: Vert::Top });
    assert_eq!(MaybeCenter::from(Vert::Bottom), MaybeCenter::Extreme(Vert::Bottom));
    let spec: MaybeCenter<Hori> = Hori::Left.into();
    assert_eq!(spec, MaybeCenter::Extreme(Hori::Left));
}

#[test]
fn scale_times_multiplies_and_truncates() {
    assert_eq!(Scale::whole(2).times(960), 1920);
    assert_eq!(Scale::new(15, 1).unwrap().times(1280), 1920);
    assert_eq!(Scale::new(15, 1).unwrap().times(333), 499);
    assert_eq!(Scale::new(15, 1).unwrap().times(-333), -499);
    assert_eq!(Scale::new(5, 3).unwrap().times(1000), 5);
    assert_eq!(Scale::whole(4_000_000_000).times(1), i32::MAX);
    assert_eq!(Scale::whole(4_000_000_000).times(-1), i32::MIN);
    let size = Size { width: 1280, height: 720 };
    assert_eq!(size.multiply(Scale::new(15, 1).unwrap()), Size { width: 1920, height: 1080 });
    assert_eq!(size * Scale::whole(2), Size { width: 2560, height: 1440 });
}

#[test]
fn ten_to_powers() {
    assert_eq!(layaway::geometry::ten_to(0), 1);
    assert_eq!(layaway::geometry::ten_to(3), 1000);
    assert_eq!(layaway::geometry::ten_to(9), 1_000_000_000);
    assert_eq!(Scale::whole(4_000_000_000).mantissa(), 4_000_000_000);
}
