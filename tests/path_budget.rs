use ray_tracer::path::{Interaction, Path, PathEnd};
use ray_tracer::scene::Scene;

#[test]
fn zero_depth_is_black_at_once() {
    let p = Path::new(0);
    assert_eq!(p.end(), Some(PathEnd::Exhausted));
}

#[test]
fn negative_depth_is_black_at_once() {
    let p = Path::new(-3);
    assert_eq!(p.end(), Some(PathEnd::Exhausted));
}

#[test]
fn miss_escapes_to_sky() {
    let mut p = Path::new(50);
    assert_eq!(p.end(), None);
    p.record(Interaction::Miss);
    assert_eq!(p.end(), Some(PathEnd::Escaped));
}

#[test]
fn absorption_ends_path() {
    let mut p = Path::new(50);
    p.record(Interaction::Scattered);
    assert_eq!(p.end(), None);
    p.record(Interaction::Absorbed);
    assert_eq!(p.end(), Some(PathEnd::Absorbed));
}

#[test]
fn budget_bounds_the_bounces() {
    let mut p = Path::new(3);
    let mut queries = 0;
    while p.end().is_none() {
        p.record(Interaction::Scattered);
        queries += 1;
    }
    assert_eq!(queries, 3);
    assert_eq!(p.end(), Some(PathEnd::Exhausted));
}

#[test]
fn last_bounce_may_still_escape() {
    let mut p = Path::new(2);
    p.record(Interaction::Scattered);
    p.record(Interaction::Miss);
    assert_eq!(p.end(), Some(PathEnd::Escaped));
}

#[test]
fn empty_scene_sees_the_sky() {
    let world: Scene<i32, ()> = Scene::new();
    let mut p = Path::new(50);
    let test = |_: &i32, _: Option<&i32>| Some(1);
    match world.nearest_hit(&test) {
        None => p.record(Interaction::Miss),
        Some(_) => p.record(Interaction::Scattered),
    }
    assert_eq!(p.end(), Some(PathEnd::Escaped));
}

#[test]
fn one_bounce_budget() {
    let mut p = Path::new(1);
    assert_eq!(p.end(), None);
    p.record(Interaction::Scattered);
    assert_eq!(p.end(), Some(PathEnd::Exhausted));
}
