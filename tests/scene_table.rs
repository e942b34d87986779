use ray_tracer::scene::{Scene, SceneError};

#[test]
fn empty_scene() {
    let s: Scene<&str, u32> = Scene::new();
    assert_eq!(s.len(), 0);
    assert!(s.is_empty());
}

#[test]
fn geometry_shares_materials() {
    let mut s: Scene<&str, &str> = Scene::new();
    let ground = s.add_material("ground");
    let glass = s.add_material("glass");
    assert_eq!((ground, glass), (0, 1));
    assert_eq!(s.add("big", ground), Ok(0));
    assert_eq!(s.add("small", glass), Ok(1));
    assert_eq!(s.add("other", glass), Ok(2));
    assert_eq!(s.len(), 3);
    assert!(!s.is_empty());
    assert_eq!(*s.geometry(1), "small");
    assert_eq!(*s.material_of(0), "ground");
    assert_eq!(*s.material_of(1), "glass");
    assert_eq!(*s.material_of(2), "glass");
}

#[test]
fn unknown_material_is_refused() {
    let mut s: Scene<&str, &str> = Scene::new();
    assert_eq!(s.add("ball", 0), Err(SceneError::UnknownMaterial));
    let m = s.add_material("metal");
    assert_eq!(s.add("ball", m + 1), Err(SceneError::UnknownMaterial));
    assert_eq!(s.len(), 0);
    assert_eq!(s.add("ball", m), Ok(0));
}

/// Points on a line stand for geometry; a hit is at the point's distance,
/// accepted when it lies in (0, best).
fn line_hit(d: &i32, best: Option<&i32>) -> Option<i32> {
    let bound = best.copied().unwrap_or(i32::MAX);
    if *d > 0 && *d < bound {
        Some(*d)
    } else {
        None
    }
}

#[test]
fn nearest_hit_keeps_the_closest() {
    let mut s: Scene<i32, ()> = Scene::new();
    let m = s.add_material(());
    for d in [7, -2, 3, 9, 4] {
        s.add(d, m).unwrap();
    }
    assert_eq!(s.nearest_hit(&line_hit), Some((2, 3)));
}

#[test]
fn nearest_hit_ties_go_to_the_first() {
    let mut s: Scene<i32, ()> = Scene::new();
    let m = s.add_material(());
    for d in [5, 2, 2, 8] {
        s.add(d, m).unwrap();
    }
    assert_eq!(s.nearest_hit(&line_hit), Some((1, 2)));
}

#[test]
fn nearest_hit_on_empty_scene_misses() {
    let s: Scene<i32, ()> = Scene::new();
    assert_eq!(s.nearest_hit(&line_hit), None);
}

#[test]
fn nearest_hit_when_all_miss() {
    let mut s: Scene<i32, ()> = Scene::new();
    let m = s.add_material(());
    s.add(-1, m).unwrap();
    s.add(0, m).unwrap();
    assert_eq!(s.nearest_hit(&line_hit), None);
}
