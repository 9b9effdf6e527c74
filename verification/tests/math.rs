use blasterball::math::{Angle, Point, SideCollided};

#[test]
fn point_is_a_row_and_a_column() {
    let mut point = Point(3, 7);
    assert_eq!(point.y(), 3);
    assert_eq!(point.x(), 7);
    point.set_x(-2);
    point.set_y(40);
    assert_eq!(point, Point(40, -2));
}

#[test]
fn points_add_and_subtract_by_coordinate() {
    let a = Point(10, -4);
    let b = Point(-3, 9);
    assert_eq!(a + b, Point(7, 5));
    assert_eq!(a - b, Point(13, -13));
    let mut c = a;
    c.add_assign(b);
    assert_eq!(c, Point(7, 5));
    c.sub_assign(b);
    c.sub_assign(b);
    assert_eq!(c, Point(13, -13));
}

#[test]
fn new_angle_wraps_around_and_rounds_down() {
    assert_eq!(Angle::new(0).to_degrees(), 0);
    assert_eq!(Angle::new(14).to_degrees(), 0);
    assert_eq!(Angle::new(15).to_degrees(), 15);
    assert_eq!(Angle::new(359).to_degrees(), 345);
    assert_eq!(Angle::new(360).to_degrees(), 0);
    assert_eq!(Angle::new(400).to_degrees(), 30);
    assert_eq!(Angle::new(1000).to_degrees(), 270);
    assert_eq!(Angle::new(usize::MAX).to_degrees(), (usize::MAX % 360) / 15 * 15);
}

#[test]
fn reflect_turns_the_axes_around() {
    for side in [SideCollided::Vertical, SideCollided::Horizontal] {
        assert_eq!(Angle::new(0).reflect(side).to_degrees(), 180);
        assert_eq!(Angle::new(90).reflect(side).to_degrees(), 270);
        assert_eq!(Angle::new(180).reflect(side).to_degrees(), 0);
        assert_eq!(Angle::new(270).reflect(side).to_degrees(), 90);
    }
}

#[test]
fn reflect_on_a_vertical_side() {
    assert_eq!(Angle::new(15).reflect(SideCollided::Vertical).to_degrees(), 165);
    assert_eq!(Angle::new(45).reflect(SideCollided::Vertical).to_degrees(), 135);
    assert_eq!(Angle::new(165).reflect(SideCollided::Vertical).to_degrees(), 15);
    assert_eq!(Angle::new(195).reflect(SideCollided::Vertical).to_degrees(), 345);
    assert_eq!(Angle::new(300).reflect(SideCollided::Vertical).to_degrees(), 240);
    assert_eq!(Angle::new(345).reflect(SideCollided::Vertical).to_degrees(), 195);
}

#[test]
fn reflect_on_a_horizontal_side() {
    assert_eq!(Angle::new(15).reflect(SideCollided::Horizontal).to_degrees(), 345);
    assert_eq!(Angle::new(45).reflect(SideCollided::Horizontal).to_degrees(), 315);
    assert_eq!(Angle::new(165).reflect(SideCollided::Horizontal).to_degrees(), 195);
    assert_eq!(Angle::new(300).reflect(SideCollided::Horizontal).to_degrees(), 60);
}

#[test]
fn reflecting_twice_on_the_same_side_gives_the_angle_back() {
    for n in (0..360).step_by(15) {
        for side in [SideCollided::Vertical, SideCollided::Horizontal] {
            let angle = Angle::new(n);
            assert_eq!(angle.reflect(side).reflect(side), angle);
        }
    }
}

#[test]
fn sin_and_cos_are_the_steps_of_the_table() {
    let sins = [0, -1, -1, -1, -2, -3, -1, -3, -2, -1, -1, -1, -1, 1, 1, 1, 2, 3, 1, 3, 2, 1, 1, 1];
    let coss = [1, 3, 2, 1, 1, 1, 0, -1, -1, -1, -2, -3, 0, -3, -2, -1, -1, -1, 0, 1, 1, 1, 2, 3];
    for step in 0..24 {
        let angle = Angle::new(15 * step);
        assert_eq!(angle.sin(), sins[step], "sin of {}", 15 * step);
        assert_eq!(angle.cos(), coss[step], "cos of {}", 15 * step);
    }
}
