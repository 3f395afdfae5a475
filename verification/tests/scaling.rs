use spinspector::geometry::{scale_of, to_tree, Rect, Scale};
use spinspector::highlight::HighlightState;
use spinspector::overview::{Overview, Phase};
use spinspector::tree::Node;

#[test]
fn scale_never_upscales() {
    // viewport 200x100 around a 100x100 root: min(2, 1, 1) = 1
    let s = scale_of(200, 100, 100, 100);
    assert_eq!(s, Scale { num: 1, den: 1 });
    assert_eq!(to_tree(150, s), 150);
    assert_eq!(to_tree(50, s), 50);
}

#[test]
fn scale_picks_smaller_axis_ratio() {
    // min(50/100, 80/100, 1) = 1/2
    let s = scale_of(50, 80, 100, 100);
    assert_eq!(s, Scale { num: 50, den: 100 });
    assert_eq!(to_tree(25, s), 50);
    assert_eq!(to_tree(33, s), 66);
    assert_eq!(to_tree(-10, s), -20);
    assert_eq!(to_tree(0, s), 0);
}

#[test]
fn division_truncates_toward_zero() {
    let s = Scale { num: 3, den: 4 };
    assert_eq!(to_tree(10, s), 13);
    assert_eq!(to_tree(-10, s), -13);
}

#[test]
fn degenerate_root_extents_scale_to_one() {
    assert_eq!(scale_of(200, 100, 0, 100), Scale { num: 1, den: 1 });
    assert_eq!(scale_of(200, 100, 100, -3), Scale { num: 1, den: 1 });
}

#[test]
fn empty_viewport_axis_saturates() {
    let s = scale_of(0, 100, 100, 100);
    assert_eq!(s, Scale { num: 0, den: 100 });
    assert_eq!(to_tree(5, s), i32::MAX);
    assert_eq!(to_tree(-5, s), i32::MIN);
    assert_eq!(to_tree(0, s), 0);
}

#[test]
fn pointer_outside_scaled_root_misses() {
    // viewport 200x100, root 100x100: scale stays 1, so viewport
    // (150, 50) maps to tree (150, 50), outside the root
    let root = Node::new(
        "root".to_string(),
        "frame".to_string(),
        Rect::new(0, 0, 100, 100),
    );
    let ov = Overview {
        tree: Some(root),
        highlight: HighlightState::new(),
        stack: Vec::new(),
        phase: Phase::Idle,
        generation: 0,
    };
    assert!(ov.pick_at(150, 50, 200, 100).is_none());
    assert_eq!(ov.pick_at(50, 50, 200, 100).unwrap().name, "root");
}

#[test]
fn pointer_is_unscaled_before_picking() {
    // viewport 50x50 around a 100x100 root: scale 1/2; viewport (30, 30)
    // is tree (60, 60)
    let mut root = Node::new(
        "root".to_string(),
        "frame".to_string(),
        Rect::new(0, 0, 100, 100),
    );
    root.children.push(Node::new(
        "right".to_string(),
        "panel".to_string(),
        Rect::new(50, 50, 50, 50),
    ));
    let ov = Overview {
        tree: Some(root),
        highlight: HighlightState::new(),
        stack: Vec::new(),
        phase: Phase::Idle,
        generation: 0,
    };
    assert_eq!(ov.view_scale(50, 50), Scale { num: 50, den: 100 });
    assert_eq!(ov.pick_at(30, 30, 50, 50).unwrap().name, "right");
    assert_eq!(ov.pick_at(20, 20, 50, 50).unwrap().name, "root");
}
