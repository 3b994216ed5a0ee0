use gristmill::two::{Anchor, EdgeRect, IRect, Rect, Vec2};

#[test]
fn edge_rect_keeps_the_order_of_its_edges() {
    let edges = EdgeRect::new(1, 2, 3, 4);
    assert_eq!((edges.top, edges.right, edges.bottom, edges.left), (1, 2, 3, 4));
    assert_eq!(EdgeRect::splat(7), EdgeRect::new(7, 7, 7, 7));
    assert_eq!(EdgeRect::zero(), EdgeRect::splat(0));
}

#[test]
fn vectors_add_and_subtract_by_component() {
    assert_eq!(Vec2::new(1, 2).add(Vec2::new(10, 20)), Vec2::new(11, 22));
    assert_eq!(Vec2::new(1, 2).sub(Vec2::new(10, 20)), Vec2::new(-9, -18));
    assert_eq!(Vec2::new(i32::MAX, i32::MIN).add(Vec2::new(1, -1)), Vec2::new(i32::MAX, i32::MIN));
}

#[test]
fn rect_accessors() {
    let rect = Rect::new(1, 2, 3, 4);
    assert_eq!((rect.x(), rect.y(), rect.width(), rect.height()), (1, 2, 3, 4));
    assert_eq!(rect.position, Vec2::new(1, 2));
    assert_eq!(rect.size, Vec2::new(3, 4));
    assert_eq!(Rect::from_size(Vec2::new(5, 6)), Rect::new(0, 0, 5, 6));
    assert_eq!(Rect::zero(), Rect::new(0, 0, 0, 0));
    assert_eq!(Rect::one(), Rect::new(0, 0, 64, 64));
}

#[test]
fn rect_from_anchor_puts_the_anchor_at_the_point() {
    let size = Vec2::new(100, 50);
    let at = Vec2::new(200, 200);
    assert_eq!(Rect::from_anchor(size, Anchor::TopLeft, at), Rect::new(200, 200, 100, 50));
    assert_eq!(Rect::from_anchor(size, Anchor::TopCenter, at), Rect::new(150, 200, 100, 50));
    assert_eq!(Rect::from_anchor(size, Anchor::TopRight, at), Rect::new(100, 200, 100, 50));
    assert_eq!(Rect::from_anchor(size, Anchor::MiddleLeft, at), Rect::new(200, 175, 100, 50));
    assert_eq!(Rect::from_anchor(size, Anchor::Center, at), Rect::new(150, 175, 100, 50));
    assert_eq!(Rect::from_anchor(size, Anchor::MiddleRight, at), Rect::new(100, 175, 100, 50));
    assert_eq!(Rect::from_anchor(size, Anchor::BottomLeft, at), Rect::new(200, 150, 100, 50));
    assert_eq!(Rect::from_anchor(size, Anchor::BottomCenter, at), Rect::new(150, 150, 100, 50));
    assert_eq!(Rect::from_anchor(size, Anchor::BottomRight, at), Rect::new(100, 150, 100, 50));
}

#[test]
fn rect_anchors() {
    let rect = Rect::new(10, 20, 100, 50);
    assert_eq!(rect.get_anchor(Anchor::TopLeft), Vec2::new(10, 20));
    assert_eq!(rect.get_anchor(Anchor::TopCenter), Vec2::new(60, 20));
    assert_eq!(rect.get_anchor(Anchor::TopRight), Vec2::new(110, 20));
    assert_eq!(rect.get_anchor(Anchor::MiddleLeft), Vec2::new(10, 45));
    assert_eq!(rect.get_anchor(Anchor::Center), Vec2::new(60, 45));
    assert_eq!(rect.get_anchor(Anchor::MiddleRight), Vec2::new(110, 45));
    assert_eq!(rect.get_anchor(Anchor::BottomLeft), Vec2::new(10, 70));
    assert_eq!(rect.get_anchor(Anchor::BottomCenter), Vec2::new(60, 70));
    assert_eq!(rect.get_anchor(Anchor::BottomRight), Vec2::new(110, 70));
}

#[test]
fn anchor_of_a_rect_built_from_it_is_the_point() {
    let anchors = [
        Anchor::TopLeft,
        Anchor::TopCenter,
        Anchor::TopRight,
        Anchor::MiddleLeft,
        Anchor::Center,
        Anchor::MiddleRight,
        Anchor::BottomLeft,
        Anchor::BottomCenter,
        Anchor::BottomRight,
    ];
    for anchor in anchors {
        let at = Vec2::new(-7, 33);
        let rect = Rect::from_anchor(Vec2::new(101, 51), anchor, at);
        assert_eq!(rect.get_anchor(anchor), at);
    }
}

#[test]
fn rect_contains_is_half_open() {
    let rect = Rect::new(10, 20, 100, 50);
    assert!(rect.contains(Vec2::new(10, 20)));
    assert!(rect.contains(Vec2::new(109, 69)));
    assert!(!rect.contains(Vec2::new(110, 69)));
    assert!(!rect.contains(Vec2::new(109, 70)));
    assert!(!rect.contains(Vec2::new(9, 20)));
    assert!(!rect.contains(Vec2::new(10, 19)));
    assert!(!Rect::new(0, 0, 0, 0).contains(Vec2::new(0, 0)));
    assert!(Rect::new(i32::MAX - 1, 0, i32::MAX, 1).contains(Vec2::new(i32::MAX, 0)));
}

#[test]
fn rect_grows_and_shrinks_on_all_sides() {
    let rect = Rect::new(10, 20, 100, 50);
    assert_eq!(rect.grow(5), Rect::new(5, 15, 110, 60));
    assert_eq!(rect.shrink(5), Rect::new(15, 25, 90, 40));
    assert_eq!(rect.grow(-5), rect.shrink(5));
    assert_eq!(rect.shrink(30), Rect::new(40, 50, 40, -10));
    assert_eq!(
        Rect::new(i32::MIN, 0, i32::MAX, 0).grow(1),
        Rect::new(i32::MIN, -1, i32::MAX, 2)
    );
}

#[test]
fn rect_as_irect_rounds_towards_zero() {
    assert_eq!(Rect::new(-65, 64, 130, 63).as_irect(), IRect::new(-1, 1, 2, 0));
    assert_eq!(Rect::new(-63, -64, -128, 127).as_irect(), IRect::new(0, -1, -2, 1));
}

#[test]
fn irect_accessors() {
    let rect = IRect::new(1, 2, 3, 4);
    assert_eq!((rect.x(), rect.y(), rect.width(), rect.height()), (1, 2, 3, 4));
    assert_eq!(IRect::from_size(Vec2::new(5, 6)), IRect::new(0, 0, 5, 6));
    assert_eq!(IRect::zero(), IRect::new(0, 0, 0, 0));
}

#[test]
fn irect_center() {
    assert_eq!(IRect::new(0, 0, 5, 5).center(), Vec2::new(2, 2));
    assert_eq!(IRect::new(10, 20, 4, 6).center(), Vec2::new(12, 23));
    assert_eq!(IRect::new(0, 0, -5, -4).center(), Vec2::new(-2, -2));
}

#[test]
fn irect_contains_is_half_open() {
    let rect = IRect::new(10, 20, 100, 50);
    assert!(rect.contains(Vec2::new(10, 20)));
    assert!(rect.contains(Vec2::new(109, 69)));
    assert!(!rect.contains(Vec2::new(110, 20)));
    assert!(!rect.contains(Vec2::new(10, 70)));
    assert!(!rect.contains(Vec2::new(9, 20)));
}

#[test]
fn irect_inset() {
    let rect = IRect::new(10, 10, 100, 100);
    assert_eq!(rect.inset(EdgeRect::new(1, 2, 3, 4)), IRect::new(14, 11, 94, 96));
    assert_eq!(rect.inset(EdgeRect::splat(0)), rect);
    assert_eq!(rect.inset(EdgeRect::splat(60)), IRect::new(70, 70, -20, -20));
}

#[test]
fn irect_add_components() {
    assert_eq!(
        IRect::new(1, 2, 3, 4).add_components(IRect::new(10, 20, 30, 40)),
        IRect::new(11, 22, 33, 44)
    );
}

#[test]
fn irect_as_rect_is_in_units() {
    assert_eq!(IRect::new(1, -2, 3, 4).as_rect(), Rect::new(64, -128, 192, 256));
    assert_eq!(IRect::new(1, -2, 3, 4).as_rect().as_irect(), IRect::new(1, -2, 3, 4));
}

#[test]
fn rect_aspect() {
    assert_eq!(Rect::new(0, 0, 200, 100).aspect(), Some(128));
    assert_eq!(Rect::new(0, 0, 100, 100).aspect(), Some(64));
    assert_eq!(Rect::new(0, 0, 100, 300).aspect(), Some(21));
    assert_eq!(Rect::new(0, 0, -100, 300).aspect(), Some(-21));
    assert_eq!(Rect::new(0, 0, -100, -300).aspect(), Some(21));
    assert_eq!(Rect::new(0, 0, 0, 5).aspect(), Some(0));
    assert_eq!(Rect::new(0, 0, 5, 0).aspect(), None);
    assert_eq!(Rect::new(0, 0, i32::MAX, 1).aspect(), Some(i32::MAX));
    assert_eq!(Rect::new(0, 0, i32::MIN, 1).aspect(), Some(i32::MIN));
}
