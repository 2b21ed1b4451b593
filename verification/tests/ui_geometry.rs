use the_diff::ui::{centered_rect, Area};

#[test]
fn centered_rect_clamps_to_the_available_area() {
    let area = Area { x: 0, y: 0, width: 10, height: 4 };
    let r = centered_rect(40, 20, area);
    assert_eq!((r.width, r.height), (10, 4));
    assert!(r.x + r.width <= area.x + area.width);
    assert!(r.y + r.height <= area.y + area.height);
}
