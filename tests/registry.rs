use gfx_kiss::registry::{Handle, Kind, Registry, Topology, UnknownHandle};

#[derive(Debug, Clone, PartialEq)]
struct Item {
    color: [f32; 4],
}

fn white() -> Item {
    Item { color: [1.0; 4] }
}

#[test]
fn new_registry_is_empty() {
    let r: Registry<Item> = Registry::new();
    assert_eq!(r.len(), 0);
    assert!(r.can_add());
}

#[test]
fn add_issues_distinct_handles_and_lookup_finds_them() {
    let mut r = Registry::new();
    let a = r.add(Kind::Point, white());
    let b = r.add(Kind::Line, white());
    let c = r.add(Kind::Mesh, white());
    assert_ne!(a, b);
    assert_ne!(b, c);
    assert_ne!(a, c);
    assert_eq!(r.len(), 3);
    let (k, item) = r.get(&b).unwrap();
    assert_eq!(k, Kind::Line);
    assert_eq!(*item, white());
}

#[test]
fn handles_are_not_reused_after_removal() {
    let mut r = Registry::new();
    let a = r.add(Kind::Point, white());
    r.remove(a);
    let b = r.add(Kind::Point, white());
    assert_ne!(a, b);
    assert_eq!(r.get(&a), Err(UnknownHandle));
    assert!(r.get(&b).is_ok());
}

#[test]
fn mutation_through_position_is_seen_by_lookup() {
    let mut r = Registry::new();
    let a = r.add(Kind::Point, white());
    let b = r.add(Kind::Mesh, white());
    let i = r.position(&a).unwrap();
    r.item_at_mut(i).color = [1.0, 0.0, 0.0, 1.0];
    assert_eq!(r.get(&a).unwrap().1.color, [1.0, 0.0, 0.0, 1.0]);
    assert_eq!(*r.get(&b).unwrap().1, white());
    assert_eq!(r.get(&a).unwrap().0, Kind::Point);
}

#[test]
fn remove_twice_is_harmless_and_spares_others() {
    let mut r = Registry::new();
    let a = r.add(Kind::Point, white());
    let b = r.add(Kind::Line, Item { color: [0.0, 1.0, 0.0, 1.0] });
    r.remove(a);
    r.remove(a);
    assert_eq!(r.len(), 1);
    let (k, item) = r.get(&b).unwrap();
    assert_eq!(k, Kind::Line);
    assert_eq!(item.color, [0.0, 1.0, 0.0, 1.0]);
}

#[test]
fn remove_of_never_issued_handle_changes_nothing() {
    let mut donor = Registry::new();
    let mut stray: Option<Handle> = None;
    for _ in 0..5 {
        stray = Some(donor.add(Kind::Mesh, white()));
    }
    let mut r = Registry::new();
    let a = r.add(Kind::Point, white());
    r.remove(stray.unwrap());
    assert_eq!(r.len(), 1);
    assert!(r.get(&a).is_ok());
}

#[test]
fn lookup_of_removed_handle_is_unknown() {
    let mut r = Registry::new();
    let a = r.add(Kind::Point, white());
    r.remove(a);
    assert_eq!(r.position(&a), Err(UnknownHandle));
    assert_eq!(r.get(&a), Err(UnknownHandle));
    assert_eq!(r.len(), 0);
}

#[test]
fn draw_order_follows_registration() {
    let mut r = Registry::new();
    r.add(Kind::Mesh, white());
    r.add(Kind::Point, white());
    assert_eq!(r.kind_at(0), Kind::Mesh);
    assert_eq!(r.kind_at(1), Kind::Point);
}

#[test]
fn swapped_registration_submits_the_same_draws() {
    let red = Item { color: [1.0, 0.0, 0.0, 1.0] };
    let green = Item { color: [0.0, 1.0, 0.0, 1.0] };
    let mut r1 = Registry::new();
    r1.add(Kind::Point, red.clone());
    r1.add(Kind::Mesh, green.clone());
    let mut r2 = Registry::new();
    r2.add(Kind::Mesh, green.clone());
    r2.add(Kind::Point, red.clone());
    let mut d1: Vec<(Kind, Item)> = (0..r1.len()).map(|i| (r1.kind_at(i), r1.item_at(i).clone())).collect();
    let mut d2: Vec<(Kind, Item)> = (0..r2.len()).map(|i| (r2.kind_at(i), r2.item_at(i).clone())).collect();
    let key = |d: &(Kind, Item)| d.0.culls_back();
    d1.sort_by_key(key);
    d2.sort_by_key(key);
    assert_eq!(d1, d2);
}

#[test]
fn kinds_select_their_pipelines() {
    assert_eq!(Kind::Point.topology(), Topology::PointList);
    assert_eq!(Kind::Line.topology(), Topology::LineList);
    assert_eq!(Kind::Mesh.topology(), Topology::TriangleList);
    assert!(Kind::Mesh.culls_back());
    assert!(!Kind::Point.culls_back());
    assert!(!Kind::Line.culls_back());
}

#[test]
fn point_scenario_with_color_change() {
    struct Drawable {
        verts: Vec<gfx_kiss::geometry::TexVertex<[f32; 3]>>,
        color: [f32; 4],
    }
    let mut r = Registry::new();
    let positions: Vec<[f32; 3]> = vec![[0.0, 0.0, 0.0]];
    let verts = gfx_kiss::geometry::points(&positions);
    let h = r.add(Kind::Point, Drawable { verts, color: [1.0; 4] });
    let red = [1.0, 0.0, 0.0, 1.0];
    assert_eq!(r.with(&h, |d: &mut Drawable| d.color = red), Ok(()));
    assert_eq!(r.len(), 1);
    assert_eq!(r.kind_at(0).topology(), Topology::PointList);
    assert_eq!(r.item_at(0).color, red);
    assert_eq!(r.item_at(0).verts.len(), 1);
    assert!(gfx_kiss::driver::keeps_running(&vec![gfx_kiss::driver::Signal::Other]));
}

#[test]
fn with_returns_what_the_mutator_returns() {
    let mut r = Registry::new();
    let a = r.add(Kind::Point, white());
    let got = r.with(&a, |item: &mut Item| {
        let before = item.color;
        item.color = [1.0, 0.0, 0.0, 1.0];
        before
    });
    assert_eq!(got, Ok([1.0; 4]));
    assert_eq!(r.get(&a).unwrap().1.color, [1.0, 0.0, 0.0, 1.0]);
}

#[test]
fn with_sees_the_default_payload_right_after_add() {
    let mut r = Registry::new();
    let a = r.add(Kind::Mesh, white());
    assert_eq!(r.with(&a, |item: &mut Item| item.clone()), Ok(white()));
}

#[test]
fn with_on_removed_handle_is_unknown_and_changes_nothing() {
    let mut r = Registry::new();
    let a = r.add(Kind::Point, white());
    let b = r.add(Kind::Line, white());
    r.remove(a);
    let mut called = false;
    let got = r.with(&a, |item: &mut Item| {
        called = true;
        item.color = [0.0; 4];
    });
    assert_eq!(got, Err(UnknownHandle));
    assert!(!called);
    assert_eq!(r.len(), 1);
    assert_eq!(*r.get(&b).unwrap().1, white());
}

#[test]
fn last_applied_mutation_wins() {
    let mut r = Registry::new();
    let a = r.add(Kind::Point, white());
    for k in 0..3 {
        r.with(&a, |item: &mut Item| item.color = [k as f32, 0.0, 0.0, 1.0]).unwrap();
    }
    assert_eq!(r.get(&a).unwrap().1.color, [2.0, 0.0, 0.0, 1.0]);
}
