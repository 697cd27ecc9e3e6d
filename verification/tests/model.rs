use physics_sim::model::primitive::{Circle, Color, Rectangle};
use physics_sim::model::Primitive;
use physics_sim::physics;
use physics_sim::physics::Pose;

fn grey() -> Color {
    Color::from_rgb(8, 0, 22)
}

fn at(x: i64, y: i64) -> Pose {
    Pose { position: (x, y), orientation: 0 }
}

#[test]
fn from_rgb_is_opaque() {
    assert_eq!(Color::from_rgb(8, 0, 22), Color { alpha: 255, red: 8, green: 0, blue: 22 });
}

#[test]
fn black_and_white() {
    assert_eq!(Color::black(), Color { alpha: 255, red: 0, green: 0, blue: 0 });
    assert_eq!(Color::white(), Color { alpha: 255, red: 255, green: 255, blue: 255 });
}

#[test]
fn circle_with_motion_moves_the_centre() {
    let circle = Circle { origin: (1, 2), radius: 3, color: grey() };
    let moved = circle.with_motion(&at(25, 35));
    assert_eq!(moved, Circle { origin: (26, 37), radius: 3, color: grey() });
    assert_eq!(circle.origin, (1, 2));
}

#[test]
fn rectangle_with_motion_moves_the_corner() {
    let rectangle = Rectangle { origin: (-5, 5), dimensions: (10, 20), color: grey() };
    let moved = rectangle.with_motion(&at(5, -5));
    assert_eq!(moved, Rectangle { origin: (0, 0), dimensions: (10, 20), color: grey() });
}

#[test]
fn with_motion_ignores_orientation() {
    let circle = Circle { origin: (1, 2), radius: 3, color: grey() };
    let turned = Pose { position: (1, 1), orientation: 90 };
    assert_eq!(circle.with_motion(&turned).origin, (2, 3));
}

#[test]
fn with_motion_saturates() {
    let circle = Circle { origin: (i64::MAX - 1, i64::MIN + 1), radius: 3, color: grey() };
    let moved = circle.with_motion(&at(5, -5));
    assert_eq!(moved.origin, (i64::MAX, i64::MIN));
}

#[test]
fn primitive_with_motion_keeps_the_kind() {
    let circle = Circle { origin: (1, 2), radius: 3, color: grey() };
    let rectangle = Rectangle { origin: (1, 2), dimensions: (3, 4), color: grey() };
    assert_eq!(
        Primitive::Circle(circle).with_motion(&at(1, 1)),
        Primitive::Circle(Circle { origin: (2, 3), radius: 3, color: grey() })
    );
    assert_eq!(
        Primitive::Rectangle(rectangle).with_motion(&at(1, 1)),
        Primitive::Rectangle(Rectangle { origin: (2, 3), dimensions: (3, 4), color: grey() })
    );
}

#[test]
fn primitive_from_circle_and_rectangle() {
    let circle = Circle { origin: (1, 2), radius: 3, color: grey() };
    let rectangle = Rectangle { origin: (1, 2), dimensions: (3, 4), color: grey() };
    assert_eq!(Primitive::from(circle), Primitive::Circle(circle));
    assert_eq!(Primitive::from(rectangle), Primitive::Rectangle(rectangle));
    let converted: Primitive = rectangle.into();
    assert_eq!(converted, Primitive::Rectangle(rectangle));
}

#[test]
fn footprint_of_a_circle_is_the_circle() {
    let circle = Circle { origin: (7, -7), radius: 3, color: grey() };
    assert_eq!(
        Primitive::Circle(circle).physics_footprint(),
        physics::Circle { origin: (7, -7), radius: 3 }
    );
}

#[test]
fn footprint_of_a_wide_rectangle() {
    let rectangle = Rectangle { origin: (0, 0), dimensions: (100, 40), color: grey() };
    assert_eq!(
        Primitive::Rectangle(rectangle).physics_footprint(),
        physics::Circle { origin: (50, 20), radius: 20 }
    );
}

#[test]
fn footprint_of_a_tall_rectangle() {
    let rectangle = Rectangle { origin: (10, -30), dimensions: (6, 80), color: grey() };
    assert_eq!(
        Primitive::Rectangle(rectangle).physics_footprint(),
        physics::Circle { origin: (13, 10), radius: 3 }
    );
}

#[test]
fn footprint_of_a_square() {
    let rectangle = Rectangle { origin: (0, 0), dimensions: (100, 100), color: grey() };
    assert_eq!(
        Primitive::Rectangle(rectangle).physics_footprint(),
        physics::Circle { origin: (50, 50), radius: 50 }
    );
}

#[test]
fn footprint_rounds_odd_sides_down() {
    let rectangle = Rectangle { origin: (0, 0), dimensions: (7, 9), color: grey() };
    assert_eq!(
        Primitive::Rectangle(rectangle).physics_footprint(),
        physics::Circle { origin: (3, 4), radius: 3 }
    );
}

#[test]
fn footprint_of_a_rectangle_without_area() {
    let rectangle = Rectangle { origin: (5, 5), dimensions: (0, 10), color: grey() };
    assert_eq!(
        Primitive::Rectangle(rectangle).physics_footprint(),
        physics::Circle { origin: (5, 10), radius: 0 }
    );
}

#[test]
fn footprint_with_negative_sides_rounds_towards_negative_infinity() {
    let rectangle = Rectangle { origin: (0, 0), dimensions: (-3, 10), color: grey() };
    assert_eq!(
        Primitive::Rectangle(rectangle).physics_footprint(),
        physics::Circle { origin: (-2, 5), radius: -2 }
    );
}

#[test]
fn footprint_centre_saturates() {
    let rectangle =
        Rectangle { origin: (i64::MAX, i64::MAX), dimensions: (10, 10), color: grey() };
    assert_eq!(
        Primitive::Rectangle(rectangle).physics_footprint(),
        physics::Circle { origin: (i64::MAX, i64::MAX), radius: 5 }
    );
}

#[test]
fn footprint_lies_inside_the_rectangle() {
    let sides = [(100i64, 40i64), (7, 9), (1, 1), (0, 0), (2, 1000)];
    for (width, height) in sides {
        let rectangle = Rectangle { origin: (-3, 11), dimensions: (width, height), color: grey() };
        let circle = Primitive::Rectangle(rectangle).physics_footprint();
        assert_eq!(circle.radius, width.min(height) / 2);
        assert!(-3 <= circle.origin.0 - circle.radius);
        assert!(circle.origin.0 + circle.radius <= -3 + width);
        assert!(11 <= circle.origin.1 - circle.radius);
        assert!(circle.origin.1 + circle.radius <= 11 + height);
    }
}
