use smeagol::node::Quadrant;
use smeagol::{BoundingBox, Cell, Position};

#[test]
fn cell_new_and_is_alive() {
    assert_eq!(Cell::new(true), Cell::Alive);
    assert_eq!(Cell::new(false), Cell::Dead);
    assert!(Cell::Alive.is_alive());
    assert!(!Cell::Dead.is_alive());
}

#[test]
fn cell_round_trip() {
    for alive in [true, false] {
        assert_eq!(Cell::new(alive).is_alive(), alive);
    }
    for c in [Cell::Alive, Cell::Dead] {
        assert_eq!(Cell::new(c.is_alive()), c);
    }
}

#[test]
fn position_new_and_offset() {
    let p = Position::new(3, -7);
    assert_eq!(p.x, 3);
    assert_eq!(p.y, -7);
    assert_eq!(p.offset(10, 20), Position::new(13, 13));
    assert_eq!(p.offset(0, 0), p);
}

#[test]
fn position_offset_composes_and_undoes() {
    let p = Position::new(-5, 8);
    assert_eq!(p.offset(2, 3).offset(4, -9), p.offset(6, -6));
    assert_eq!(p.offset(17, -4).offset(-17, 4), p);
}

#[test]
fn position_quadrant_by_signs() {
    assert_eq!(Position::new(-1, -1).quadrant(), Quadrant::Northwest);
    assert_eq!(Position::new(0, -1).quadrant(), Quadrant::Northeast);
    assert_eq!(Position::new(-1, 0).quadrant(), Quadrant::Southwest);
    assert_eq!(Position::new(0, 0).quadrant(), Quadrant::Southeast);
    assert_eq!(Position::new(i64::MIN, i64::MAX).quadrant(), Quadrant::Southwest);
}

#[test]
fn bounding_box_corners() {
    let b = BoundingBox::new(Position::new(-2, -3), Position::new(4, 5));
    assert_eq!(b.upper_left(), Position::new(-2, -3));
    assert_eq!(b.lower_right(), Position::new(4, 5));
    let point = BoundingBox::new(Position::new(1, 1), Position::new(1, 1));
    assert_eq!(point.upper_left(), point.lower_right());
}

#[test]
fn bounding_box_combine() {
    let a = BoundingBox::new(Position::new(0, 0), Position::new(4, 4));
    let b = BoundingBox::new(Position::new(2, -3), Position::new(9, 1));
    let c = a.combine(b);
    assert_eq!(c.upper_left(), Position::new(0, -3));
    assert_eq!(c.lower_right(), Position::new(9, 4));
    assert_eq!(b.combine(a), c);
    assert_eq!(a.combine(a), a);
}

#[test]
fn bounding_box_intersect() {
    let a = BoundingBox::new(Position::new(0, 0), Position::new(4, 4));
    let b = BoundingBox::new(Position::new(2, -3), Position::new(9, 1));
    let i = a.intersect(b).unwrap();
    assert_eq!(i.upper_left(), Position::new(2, 0));
    assert_eq!(i.lower_right(), Position::new(4, 1));
    assert_eq!(b.intersect(a), Some(i));
    assert_eq!(a.intersect(a), Some(a));
}

#[test]
fn bounding_box_intersect_disjoint_and_touching() {
    let a = BoundingBox::new(Position::new(0, 0), Position::new(4, 4));
    let far = BoundingBox::new(Position::new(10, 10), Position::new(12, 12));
    assert_eq!(a.intersect(far), None);
    let beside = BoundingBox::new(Position::new(5, 0), Position::new(6, 4));
    assert_eq!(a.intersect(beside), None);
    let touching = BoundingBox::new(Position::new(4, 4), Position::new(6, 6));
    let t = a.intersect(touching).unwrap();
    assert_eq!(t.upper_left(), Position::new(4, 4));
    assert_eq!(t.lower_right(), Position::new(4, 4));
}

#[test]
fn bounding_box_offset() {
    let a = BoundingBox::new(Position::new(0, 1), Position::new(4, 6));
    let b = a.offset(-3, 10);
    assert_eq!(b.upper_left(), Position::new(-3, 11));
    assert_eq!(b.lower_right(), Position::new(1, 16));
    assert_eq!(b.offset(3, -10), a);
}

#[test]
fn bounding_box_pad() {
    let a = BoundingBox::new(Position::new(0, 1), Position::new(4, 6));
    let b = a.pad(2);
    assert_eq!(b.upper_left(), Position::new(-2, -1));
    assert_eq!(b.lower_right(), Position::new(6, 8));
    assert_eq!(a.pad(0), a);
}
