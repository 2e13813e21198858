use cliche::geometry::{from_rounded_edges, PhysicalRect};

#[test]
fn a_rectangle_with_no_area_cannot_be_constructed_at_all() {
    assert!(PhysicalRect::new(0, 0, 0, 10).is_err());
    assert!(PhysicalRect::new(0, 0, 10, 0).is_err());
    assert!(PhysicalRect::new(0, 0, 0, 0).is_err());
    assert!(
        PhysicalRect::new(0, 0, 1, 1).is_ok(),
        "a single pixel is a legal selection, or the check is refusing everything"
    );
}

#[test]
fn a_rectangle_keeps_the_four_numbers_it_was_built_with() {
    let rect = PhysicalRect::new(3, 4, 5, 6).expect("an area of 30");

    assert_eq!((rect.x(), rect.y(), rect.width(), rect.height()), (3, 4, 5, 6));
}

#[test]
fn the_size_comes_from_the_rounded_edges() {
    let rect = from_rounded_edges(15, 30, 165, 105).expect("a 150x75 rectangle");

    assert_eq!((rect.x(), rect.y(), rect.width(), rect.height()), (15, 30, 150, 75));
}

#[test]
fn edges_that_rounded_onto_each_other_are_refused() {
    assert!(from_rounded_edges(10, 10, 10, 20).is_err());
    assert!(from_rounded_edges(10, 10, 20, 10).is_err());
    assert!(from_rounded_edges(10, 10, 9, 20).is_err());
}
