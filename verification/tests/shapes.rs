use rtxon::shapes::{nearest_hit, select_root};

/// Picks the root on scalars as the caller has them.
fn pick(d: f32, t1: f32, t2: f32, t_min: f32, t_max: f32) -> Option<f32> {
    select_root(d.to_bits(), t1.to_bits(), t2.to_bits(), t_min.to_bits(), t_max.to_bits())
        .map(f32::from_bits)
}

/// The discriminant and both roots of the quadratic for a ray from
/// `origin` along the unit vector `dir` and a sphere at `center`.
fn quadratic(origin: [f32; 3], dir: [f32; 3], center: [f32; 3], radius: f32) -> (f32, f32, f32) {
    let oc = [origin[0] - center[0], origin[1] - center[1], origin[2] - center[2]];
    let dot = |a: [f32; 3], b: [f32; 3]| a[0] * b[0] + a[1] * b[1] + a[2] * b[2];
    let a = dot(dir, dir);
    let b = 2.0 * dot(oc, dir);
    let c = dot(oc, oc) - radius * radius;
    let d = b * b - 4.0 * a * c;
    ((d), (-b - d.sqrt()) / (2.0 * a), (-b + d.sqrt()) / (2.0 * a))
}

#[test]
fn sphere_ahead_is_hit_at_the_smaller_root() {
    let (d, t1, t2) = quadratic([0.0, 0.0, 0.0], [0.0, 0.0, -1.0], [0.0, 0.0, -5.0], 1.0);
    assert_eq!(t1, 4.0);
    assert_eq!(t2, 6.0);
    assert_eq!(pick(d, t1, t2, 0.001, f32::MAX), Some(4.0));
}

#[test]
fn roots_may_come_in_either_order() {
    assert_eq!(pick(4.0, 6.0, 4.0, 0.001, f32::MAX), Some(4.0));
    assert_eq!(pick(4.0, 4.0, 6.0, 0.001, f32::MAX), Some(4.0));
}

#[test]
fn negative_discriminant_is_a_miss() {
    let (d, t1, t2) = quadratic([0.0, 3.0, 0.0], [0.0, 0.0, -1.0], [0.0, 0.0, -5.0], 1.0);
    assert!(d < 0.0);
    assert!(t1.is_nan() && t2.is_nan());
    assert_eq!(pick(d, t1, t2, 0.001, f32::MAX), None);
    assert_eq!(pick(d, 4.0, 6.0, 0.001, f32::MAX), None);
}

#[test]
fn zero_discriminant_is_a_miss() {
    let (d, t1, t2) = quadratic([0.0, 1.0, 0.0], [0.0, 0.0, -1.0], [0.0, 0.0, -5.0], 1.0);
    assert_eq!(d, 0.0);
    assert_eq!(pick(d, t1, t2, 0.001, f32::MAX), None);
    assert_eq!(pick(-0.0, 5.0, 5.0, 0.001, f32::MAX), None);
}

#[test]
fn origin_inside_takes_the_larger_root() {
    let (d, t1, t2) = quadratic([0.0, 0.0, 0.0], [0.0, 0.0, -1.0], [0.0, 0.0, 0.0], 2.0);
    assert_eq!(t1, -2.0);
    assert_eq!(t2, 2.0);
    assert_eq!(pick(d, t1, t2, 0.001, f32::MAX), Some(2.0));
}

#[test]
fn negative_radius_has_the_same_roots() {
    let plus = quadratic([0.0, 0.0, 0.0], [0.0, 0.0, -1.0], [0.0, 0.0, 0.0], 2.0);
    let minus = quadratic([0.0, 0.0, 0.0], [0.0, 0.0, -1.0], [0.0, 0.0, 0.0], -2.0);
    assert_eq!(plus, minus);
    assert_eq!(pick(minus.0, minus.1, minus.2, 0.001, f32::MAX), Some(2.0));
}

#[test]
fn sphere_behind_is_a_miss() {
    let (d, t1, t2) = quadratic([0.0, 0.0, 0.0], [0.0, 0.0, -1.0], [0.0, 0.0, 5.0], 1.0);
    assert!(d > 0.0);
    assert_eq!(pick(d, t1, t2, 0.001, f32::MAX), None);
}

#[test]
fn bounds_are_exclusive() {
    assert_eq!(pick(1.0, 10.0, 20.0, 10.0, 20.0), None);
    assert_eq!(pick(1.0, 10.0, 20.0, 9.0, 20.0), Some(10.0));
    assert_eq!(pick(1.0, 10.0, 20.0, 10.0, 21.0), Some(20.0));
    assert_eq!(pick(1.0, 10.0, 20.0, 10.0, 11.0), None);
    assert_eq!(pick(1.0, 10.0, 20.0, 0.0, 5.0), None);
}

#[test]
fn a_root_that_is_not_a_number_is_in_no_range() {
    assert_eq!(pick(1.0, f32::NAN, 20.0, 0.001, f32::MAX), Some(20.0));
    assert_eq!(pick(1.0, 10.0, f32::NAN, 0.001, f32::MAX), Some(10.0));
    assert_eq!(pick(1.0, f32::NAN, f32::NAN, 0.001, f32::MAX), None);
    assert_eq!(pick(f32::NAN, 10.0, 20.0, 0.001, f32::MAX), None);
    assert_eq!(pick(1.0, 10.0, 20.0, f32::NAN, f32::MAX), None);
    assert_eq!(pick(1.0, 10.0, 20.0, 0.001, f32::NAN), None);
}

#[test]
fn the_root_comes_back_bit_for_bit() {
    let t = select_root(1.0f32.to_bits(), 0x4080_0001, 0x40c0_0000, 0, 0x7f7f_ffff);
    assert_eq!(t, Some(0x4080_0001));
    assert_eq!(pick(1.0, 6.0, 4.0, f32::NEG_INFINITY, f32::INFINITY), Some(4.0));
    assert_eq!(pick(1.0, -6.0, -4.0, f32::NEG_INFINITY, f32::INFINITY), Some(-6.0));
}

/// Probes a list of outcomes that are already known.
fn scan(hits: Vec<Option<f32>>) -> Option<(usize, f32)> {
    nearest_hit(&hits, &|h: &Option<f32>| h.map(|t| (t.to_bits(), t)))
}

#[test]
fn nearest_of_nothing_is_nothing() {
    assert_eq!(scan(vec![]), None);
    assert_eq!(scan(vec![None, None, None]), None);
}

#[test]
fn nearest_is_the_smallest_parameter() {
    assert_eq!(scan(vec![Some(7.5), None, Some(0.25), Some(3.0)]), Some((2, 0.25)));
    assert_eq!(scan(vec![None, Some(4.0)]), Some((1, 4.0)));
    assert_eq!(
        scan(vec![Some(-3.0), Some(-4.0), Some(f32::NEG_INFINITY), Some(f32::MAX)]),
        Some((2, f32::NEG_INFINITY))
    );
}

#[test]
fn nearest_among_equals_is_the_first() {
    let hits = vec![Some(5.0f32), None, Some(3.0), Some(3.0), Some(9.0)];
    let names = ["a", "b", "c", "d", "e"];
    let order: Vec<usize> = (0..5).collect();
    let best = nearest_hit(&order, &|i: &usize| hits[*i].map(|t| (t.to_bits(), names[*i])));
    assert_eq!(best, Some((2, "c")));
    assert_eq!(scan(vec![Some(0.0), Some(-0.0)]), Some((0, 0.0)));
}

#[test]
fn a_hit_that_is_not_a_number_counts_as_a_miss() {
    assert_eq!(scan(vec![Some(f32::NAN)]), None);
    assert_eq!(scan(vec![Some(f32::NAN), Some(3.0), Some(f32::NAN)]), Some((1, 3.0)));
    assert_eq!(scan(vec![Some(5.0), Some(f32::NAN), Some(3.0)]), Some((2, 3.0)));
}

#[test]
fn every_shape_is_probed_once_in_order() {
    let seen = std::cell::RefCell::new(Vec::new());
    let shapes = vec![10.0f32, 20.0, 30.0];
    let best = nearest_hit(&shapes, &|s: &f32| {
        seen.borrow_mut().push(*s);
        Some(((-*s).to_bits(), *s))
    });
    assert_eq!(best, Some((2, 30.0)));
    assert_eq!(*seen.borrow(), vec![10.0, 20.0, 30.0]);
}

/// A sphere on the axis of the ray, by the place of its center and its radius.
fn sphere_on_axis(center: f32, radius: f32) -> impl Fn() -> Option<(u32, f32)> {
    move || {
        let (d, t1, t2) = quadratic([0.0, 0.0, 0.0], [0.0, 0.0, -1.0], [0.0, 0.0, -center], radius);
        let t = pick(d, t1, t2, 0.001, f32::MAX)?;
        Some((t.to_bits(), t))
    }
}

#[test]
fn scene_of_spheres_reports_the_front_one() {
    let spheres = vec![sphere_on_axis(9.0, 1.0), sphere_on_axis(5.0, 1.0), sphere_on_axis(7.0, 2.5)];
    let best = nearest_hit(&vec![0usize, 1, 2], &|i: &usize| spheres[*i]());
    assert_eq!(best, Some((1, 4.0)));
}
