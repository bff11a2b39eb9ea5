use roguelike::rect::Rect;

#[test]
fn rect_new_sets_corners() {
    let r = Rect::new(3, 4, 5, 6);
    assert_eq!(r, Rect { x1: 3, x2: 8, y1: 4, y2: 10 });
}

#[test]
fn rect_new_does_not_clamp() {
    let r = Rect::new(70, 40, 20, 20);
    assert_eq!(r.x2, 90);
    assert_eq!(r.y2, 60);
}

#[test]
fn rect_center_truncates() {
    assert_eq!(Rect::new(0, 0, 7, 9).center(), (3, 4));
    assert_eq!(Rect::new(35, 20, 8, 8).center(), (39, 24));
    assert_eq!(Rect::new(2, 3, 1, 1).center(), (2, 3));
}

#[test]
fn rect_center_of_negative_corners_rounds_toward_zero() {
    let r = Rect { x1: -4, x2: 1, y1: -7, y2: -2 };
    assert_eq!(r.center(), (-1, -4));
}

#[test]
fn rect_center_does_not_overflow() {
    let r = Rect { x1: i32::MAX - 2, x2: i32::MAX, y1: i32::MIN, y2: i32::MIN + 2 };
    assert_eq!(r.center(), (i32::MAX - 1, i32::MIN + 1));
}

#[test]
fn rect_intersect_overlapping() {
    let a = Rect::new(0, 0, 10, 10);
    let b = Rect::new(5, 5, 10, 10);
    assert!(a.intersect(&b));
    assert!(b.intersect(&a));
}

#[test]
fn rect_intersect_touching_edges_counts() {
    let a = Rect::new(0, 0, 5, 5);
    let right = Rect::new(5, 0, 5, 5);
    let below = Rect::new(0, 5, 5, 5);
    let corner = Rect::new(5, 5, 5, 5);
    assert!(a.intersect(&right));
    assert!(a.intersect(&below));
    assert!(a.intersect(&corner));
}

#[test]
fn rect_intersect_apart() {
    let a = Rect::new(0, 0, 5, 5);
    let right = Rect::new(6, 0, 5, 5);
    let below = Rect::new(0, 6, 5, 5);
    assert!(!a.intersect(&right));
    assert!(!right.intersect(&a));
    assert!(!a.intersect(&below));
    assert!(!below.intersect(&a));
}

#[test]
fn rect_intersect_needs_both_axes() {
    let a = Rect::new(0, 0, 5, 5);
    let same_rows_far_right = Rect::new(20, 0, 5, 5);
    let same_columns_far_down = Rect::new(0, 20, 5, 5);
    assert!(!a.intersect(&same_rows_far_right));
    assert!(!a.intersect(&same_columns_far_down));
}

#[test]
fn rect_intersects_itself() {
    let a = Rect::new(3, 3, 6, 6);
    assert!(a.intersect(&a));
}
