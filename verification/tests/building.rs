use spinspector::geometry::Rect;
use spinspector::overview::{Action, Attributes, Identity, Overview, Phase};

fn ident(path: &str) -> Identity {
    Identity {
        destination: ":1.42".to_string(),
        path: path.to_string(),
    }
}

fn attrs(name: &str, extents: Option<(i32, i32, i32, i32)>) -> Attributes {
    Attributes {
        name: name.to_string(),
        role: "panel".to_string(),
        extents: extents.map(|(x, y, w, h)| Rect::new(x, y, w, h)),
    }
}

#[test]
fn root_is_published_before_any_child() {
    let mut ov = Overview::new();
    let a = ov.set_accessible(ident("/root"));
    assert_eq!(a, Action::FetchAttributes(ident("/root")));
    let gen = ov.generation;
    let a = ov.on_attributes(gen, ident("/root"), attrs("root", Some((0, 0, 100, 100))));
    assert_eq!(a, Action::FetchChildren(ident("/root")));
    // the single-node tree is already pickable and renderable
    let root = ov.tree.as_ref().unwrap();
    assert_eq!(root.name, "root");
    assert_eq!(root.extents, Rect::new(0, 0, 100, 100));
    assert!(root.children.is_empty());
}

#[test]
fn walk_is_depth_first_left_to_right() {
    let mut ov = Overview::new();
    ov.set_accessible(ident("/root"));
    let gen = ov.generation;
    ov.on_attributes(gen, ident("/root"), attrs("root", Some((0, 0, 100, 100))));
    let a = ov.on_children(gen, vec![ident("/a"), ident("/b")]);
    assert_eq!(a, Action::FetchAttributes(ident("/a")));
    let a = ov.on_attributes(gen, ident("/a"), attrs("a", Some((0, 0, 50, 50))));
    assert_eq!(a, Action::FetchChildren(ident("/a")));
    // "a" has one child of its own; it is visited before sibling "b"
    let a = ov.on_children(gen, vec![ident("/a/1")]);
    assert_eq!(a, Action::FetchAttributes(ident("/a/1")));
    let a = ov.on_attributes(gen, ident("/a/1"), attrs("a1", None));
    assert_eq!(a, Action::FetchChildren(ident("/a/1")));
    let a = ov.on_children(gen, vec![]);
    assert_eq!(a, Action::FetchAttributes(ident("/b")));
    let a = ov.on_attributes(gen, ident("/b"), attrs("b", Some((50, 0, 50, 50))));
    assert_eq!(a, Action::FetchChildren(ident("/b")));
    let a = ov.on_children(gen, vec![]);
    assert_eq!(a, Action::Finished);
    assert_eq!(ov.phase, Phase::Done);

    let root = ov.tree.as_ref().unwrap();
    assert_eq!(root.children.len(), 2);
    assert_eq!(root.children[0].name, "a");
    assert_eq!(root.children[1].name, "b");
    assert_eq!(root.children[0].children.len(), 1);
    assert_eq!(root.children[0].children[0].name, "a1");
    // an object without geometry got the sentinel rectangle
    assert_eq!(root.children[0].children[0].extents, Rect::new(0, 0, 0, 0));
    assert!(root.children[1].children.is_empty());
}

#[test]
fn cancel_freezes_the_partial_tree() {
    let mut ov = Overview::new();
    ov.set_accessible(ident("/root"));
    let gen = ov.generation;
    ov.on_attributes(gen, ident("/root"), attrs("root", Some((0, 0, 100, 100))));
    ov.on_children(gen, vec![ident("/a"), ident("/b"), ident("/c")]);
    // two of three children appended, each a leaf
    ov.on_attributes(gen, ident("/a"), attrs("a", None));
    ov.on_children(gen, vec![]);
    ov.on_attributes(gen, ident("/b"), attrs("b", None));
    let a = ov.on_children(gen, vec![]);
    assert_eq!(a, Action::FetchAttributes(ident("/c")));

    ov.cancel();
    assert_eq!(ov.tree.as_ref().unwrap().children.len(), 2);

    // everything the cancelled build still sends falls dead
    let a = ov.on_attributes(gen, ident("/c"), attrs("c", None));
    assert_eq!(a, Action::Ignored);
    let a = ov.on_children(gen, vec![ident("/c/1")]);
    assert_eq!(a, Action::Ignored);
    let a = ov.on_failure(gen);
    assert_eq!(a, Action::Ignored);
    let root = ov.tree.as_ref().unwrap();
    assert_eq!(root.children.len(), 2);
    assert_eq!(root.children[0].name, "a");
    assert_eq!(root.children[1].name, "b");
}

#[test]
fn stale_generation_cannot_touch_a_new_build() {
    let mut ov = Overview::new();
    ov.set_accessible(ident("/old"));
    let old_gen = ov.generation;
    ov.on_attributes(old_gen, ident("/old"), attrs("old", None));
    // a new selection cancels and replaces the old build
    ov.set_accessible(ident("/new"));
    let new_gen = ov.generation;
    assert_ne!(old_gen, new_gen);
    assert!(ov.tree.is_none());
    // a late answer of the old build is ignored, not mistaken for the root
    let a = ov.on_attributes(old_gen, ident("/old"), attrs("old", None));
    assert_eq!(a, Action::Ignored);
    assert!(ov.tree.is_none());
    // the new build proceeds under its own generation
    let a = ov.on_attributes(new_gen, ident("/new"), attrs("new", None));
    assert_eq!(a, Action::FetchChildren(ident("/new")));
    assert_eq!(ov.tree.as_ref().unwrap().name, "new");
}

#[test]
fn failure_keeps_partial_tree_and_reports_once() {
    let mut ov = Overview::new();
    ov.set_accessible(ident("/root"));
    let gen = ov.generation;
    ov.on_attributes(gen, ident("/root"), attrs("root", Some((0, 0, 100, 100))));
    ov.on_children(gen, vec![ident("/a"), ident("/b")]);
    ov.on_attributes(gen, ident("/a"), attrs("a", None));
    // the fetch of a's children fails: the build stops with root and one
    // child in place
    let a = ov.on_failure(gen);
    assert_eq!(a, Action::Notify);
    assert_eq!(ov.phase, Phase::Failed);
    let root = ov.tree.as_ref().unwrap();
    assert_eq!(root.children.len(), 1);
    assert_eq!(root.children[0].name, "a");
    // only one notification: repeats are ignored
    let a = ov.on_failure(gen);
    assert_eq!(a, Action::Ignored);
    // and the partial tree stays usable
    assert_eq!(ov.pick_at(10, 10, 100, 100).unwrap().name, "root");
}

#[test]
fn clearing_resets_tree_and_both_highlights() {
    let mut ov = Overview::new();
    ov.set_accessible(ident("/root"));
    let gen = ov.generation;
    ov.on_attributes(gen, ident("/root"), attrs("root", Some((0, 0, 100, 100))));
    ov.highlight.press(Some(Rect::new(0, 0, 10, 10)));
    ov.highlight.motion(Some(Rect::new(5, 5, 10, 10)));
    ov.clear();
    assert!(ov.tree.is_none());
    assert!(ov.highlight.picked.is_none());
    assert!(ov.highlight.hovered.is_none());
    assert_eq!(ov.phase, Phase::Idle);
    // whatever the prior state, clearing again leaves both absent
    ov.clear();
    assert!(ov.highlight.picked.is_none());
    assert!(ov.highlight.hovered.is_none());
}
