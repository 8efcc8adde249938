use rtxon::tracer::{bounce, follow, judge, Bounce, End, Verdict};

#[test]
fn a_miss_is_sky_at_any_depth() {
    assert_eq!(judge(false, 0, 0), Verdict::Sky);
    assert_eq!(judge(false, 0, 50), Verdict::Sky);
    assert_eq!(judge(false, 50, 50), Verdict::Sky);
    assert_eq!(judge(false, 51, 50), Verdict::Sky);
}

#[test]
fn zero_budget_never_scatters() {
    assert_eq!(judge(true, 0, 0), Verdict::Black);
    assert_eq!(judge(true, 3, 0), Verdict::Black);
}

#[test]
fn a_hit_at_the_budget_is_black() {
    assert_eq!(judge(true, 50, 50), Verdict::Black);
    assert_eq!(judge(true, 51, 50), Verdict::Black);
    assert_eq!(judge(true, u32::MAX, u32::MAX), Verdict::Black);
}

#[test]
fn a_hit_within_the_budget_scatters() {
    assert_eq!(judge(true, 0, 1), Verdict::Scatter);
    assert_eq!(judge(true, 49, 50), Verdict::Scatter);
}

#[test]
fn a_scattered_ray_goes_one_deeper() {
    assert_eq!(bounce(true, 0, 1), Bounce::Follow { depth: 1 });
    assert_eq!(bounce(true, 49, 50), Bounce::Follow { depth: 50 });
    assert_eq!(bounce(true, u32::MAX - 1, u32::MAX), Bounce::Follow { depth: u32::MAX });
}

#[test]
fn an_absorbed_ray_ends_the_path() {
    assert_eq!(bounce(false, 0, 1), Bounce::Absorbed);
    assert_eq!(bounce(false, 49, 50), Bounce::Absorbed);
}

/// Walks a path through a hall of mirrors and counts the scatterings.
fn walk(max_depth: u32) -> u32 {
    let mut depth = 0;
    let mut asked = 0;
    while judge(true, depth, max_depth) == Verdict::Scatter {
        asked += 1;
        match bounce(true, depth, max_depth) {
            Bounce::Follow { depth: d } => depth = d,
            Bounce::Absorbed => unreachable!(),
        }
    }
    asked
}

#[test]
fn a_path_scatters_no_more_than_its_budget() {
    assert_eq!(walk(0), 0);
    assert_eq!(walk(1), 1);
    assert_eq!(walk(50), 50);
}

#[test]
fn a_ray_into_the_void_ends_in_the_sky() {
    let path = follow(7u8, 0, 50, &|_: &u8| None::<()>, &|_: &u8, _: &()| Some((1u8, 0u8)));
    assert!(path.tints.is_empty());
    assert_eq!(path.end, End::Sky(7));
}

#[test]
fn zero_budget_ends_in_black_without_asking_the_material() {
    let asked = std::cell::Cell::new(0);
    let path = follow(7u8, 0, 0, &|_: &u8| Some(()), &|_: &u8, _: &()| {
        asked.set(asked.get() + 1);
        Some((1u8, 0u8))
    });
    assert!(path.tints.is_empty());
    assert_eq!(path.end, End::Black);
    assert_eq!(asked.get(), 0);
}

#[test]
fn an_absorbing_material_ends_in_black() {
    let path = follow(7u8, 0, 50, &|_: &u8| Some(()), &|_: &u8, _: &()| None::<(u8, u8)>);
    assert!(path.tints.is_empty());
    assert_eq!(path.end, End::Black);
}

#[test]
fn a_hall_of_mirrors_ends_at_the_budget() {
    let path = follow(0u32, 0, 5, &|_: &u32| Some(()), &|r: &u32, _: &()| Some((10 + *r, *r + 1)));
    assert_eq!(path.tints, vec![14, 13, 12, 11, 10]);
    assert_eq!(path.end, End::Black);
}

#[test]
fn tints_come_last_bounce_first() {
    // Rays 0, 1 and 2 hit something, ray 3 escapes.
    let path = follow(
        0u32,
        0,
        50,
        &|r: &u32| if *r < 3 { Some(*r) } else { None },
        &|r: &u32, h: &u32| Some((100 * *h, *r + 1)),
    );
    assert_eq!(path.tints, vec![200, 100, 0]);
    assert_eq!(path.end, End::Sky(3));
}

#[test]
fn a_path_started_deeper_has_less_budget() {
    let path = follow(0u32, 3, 5, &|_: &u32| Some(()), &|r: &u32, _: &()| Some((*r, *r + 1)));
    assert_eq!(path.tints, vec![1, 0]);
    assert_eq!(path.end, End::Black);
    let path = follow(0u32, 9, 5, &|_: &u32| Some(()), &|r: &u32, _: &()| Some((*r, *r + 1)));
    assert!(path.tints.is_empty());
    assert_eq!(path.end, End::Black);
}

#[test]
fn colour_is_the_end_times_each_tint() {
    // Half of the light survives each bounce off a grey wall; the sky is 1.
    let path = follow(
        0u32,
        0,
        50,
        &|r: &u32| if *r < 2 { Some(()) } else { None },
        &|r: &u32, _: &()| Some((0.5f32, *r + 1)),
    );
    let mut colour = match path.end {
        End::Sky(_) => 1.0f32,
        End::Black => 0.0,
    };
    for tint in path.tints {
        colour = tint * colour;
    }
    assert_eq!(colour, 0.25);
}
