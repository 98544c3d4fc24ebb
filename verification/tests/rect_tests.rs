use screen_ghost::rect::Rect;

#[test]
fn new_keeps_fields() {
    let r = Rect::new(3, -4, 10, 20);
    assert_eq!(r.x, 3);
    assert_eq!(r.y, -4);
    assert_eq!(r.width, 10);
    assert_eq!(r.height, 20);
}

#[test]
fn contains_point_edges() {
    let r = Rect::new(10, 10, 5, 5);
    assert!(r.contains_point(10, 10));
    assert!(r.contains_point(14, 14));
    assert!(!r.contains_point(15, 10));
    assert!(!r.contains_point(10, 15));
    assert!(!r.contains_point(9, 10));
}

#[test]
fn contains_rect() {
    let outer = Rect::new(0, 0, 100, 100);
    let inner = Rect::new(10, 10, 20, 20);
    assert!(outer.contains(&inner));
    assert!(!inner.contains(&outer));
    assert!(outer.contains(&outer));
}

#[test]
fn intersects_cases() {
    let a = Rect::new(0, 0, 10, 10);
    let b = Rect::new(5, 5, 10, 10);
    let c = Rect::new(10, 0, 10, 10);
    let d = Rect::new(20, 20, 5, 5);
    assert!(a.intersects(&b));
    assert!(b.intersects(&a));
    assert!(!a.intersects(&c), "touching edges do not intersect");
    assert!(!a.intersects(&d));
}

#[test]
fn intersection_value() {
    let a = Rect::new(0, 0, 10, 10);
    let b = Rect::new(5, 5, 10, 10);
    let i = a.intersection(&b).unwrap();
    assert_eq!((i.x, i.y, i.width, i.height), (5, 5, 5, 5));
    assert!(a.intersection(&Rect::new(20, 20, 5, 5)).is_none());
}

#[test]
fn area_value() {
    assert_eq!(Rect::new(1, 2, 10, 20).area(), 200);
    assert_eq!(Rect::new(0, 0, 0, 7).area(), 0);
}

#[test]
fn subtract_disjoint_returns_self() {
    let a = Rect::new(0, 0, 10, 10);
    let b = Rect::new(50, 50, 5, 5);
    let parts = a.subtract(&b);
    assert_eq!(parts.len(), 1);
    assert_eq!(parts[0], a);
}

#[test]
fn subtract_fully_covered_returns_nothing() {
    let a = Rect::new(5, 5, 10, 10);
    let b = Rect::new(0, 0, 100, 100);
    assert!(a.subtract(&b).is_empty());
}

#[test]
fn subtract_hole_in_middle_gives_four_parts() {
    let a = Rect::new(0, 0, 10, 10);
    let b = Rect::new(2, 2, 4, 4);
    let parts = a.subtract(&b);
    assert_eq!(parts.len(), 4);
    assert_eq!(parts[0], Rect::new(0, 0, 10, 2)); // above
    assert_eq!(parts[1], Rect::new(0, 6, 10, 4)); // below
    assert_eq!(parts[2], Rect::new(0, 2, 2, 4)); // left
    assert_eq!(parts[3], Rect::new(6, 2, 4, 4)); // right
}

#[test]
fn subtract_overlap_on_one_side() {
    let a = Rect::new(0, 0, 10, 10);
    let b = Rect::new(-5, -5, 10, 10);
    let parts = a.subtract(&b);
    // overlap is (0,0,5,5): remaining are the bottom strip and the right part
    assert_eq!(parts.len(), 2);
    assert_eq!(parts[0], Rect::new(0, 5, 10, 5)); // below
    assert_eq!(parts[1], Rect::new(5, 0, 5, 5)); // right
}
