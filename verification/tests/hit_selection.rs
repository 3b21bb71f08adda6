use raytracer::intersection::{
    nearest_candidate, Intersection, SCALE_INFINITY_KEY, SCALE_ZERO_KEY,
};

/// The renderer's scale encoding: an order-preserving map from IEEE
/// doubles to 64-bit keys. Nonnegative doubles get their sign bit
/// flipped, negative doubles all their bits, so key order matches
/// double order.
fn scale_key(scale: f64) -> u64 {
    let bits = scale.to_bits();
    if bits & 0x8000_0000_0000_0000 == 0 {
        bits | 0x8000_0000_0000_0000
    } else {
        !bits
    }
}

fn hit(scale: f64, surface: usize) -> Intersection {
    Intersection::new(scale_key(scale), surface)
}

#[test]
fn scale_key_orders_like_doubles() {
    let ordered = [
        f64::NEG_INFINITY,
        -1000.5,
        -1.0,
        -1e-300,
        0.0,
        1e-300,
        0.5,
        1.0,
        3.0,
        1e200,
        f64::INFINITY,
    ];
    for pair in ordered.windows(2) {
        assert!(scale_key(pair[0]) < scale_key(pair[1]));
    }
    assert_eq!(scale_key(0.0), SCALE_ZERO_KEY);
    assert_eq!(scale_key(f64::INFINITY), SCALE_INFINITY_KEY);
}

#[test]
fn closest_bounded_global_minimum() {
    let hits = vec![hit(1.0, 0), hit(3.0, 1), hit(5.0, 2)];
    let chosen = Intersection::closest_bounded(&hits, scale_key(0.0), scale_key(4.0));
    assert_eq!(chosen, Some(0));
    assert_eq!(hits[chosen.unwrap()].scale, scale_key(1.0));
}

#[test]
fn closest_bounded_minimum_is_global_not_first_found() {
    let hits = vec![hit(3.5, 0), hit(0.5, 1), hit(2.0, 2)];
    let chosen = Intersection::closest_bounded(&hits, scale_key(0.0), scale_key(4.0));
    assert_eq!(chosen, Some(1));
}

#[test]
fn closest_bounded_empty_list() {
    let hits: Vec<Intersection> = Vec::new();
    assert_eq!(
        Intersection::closest_bounded(&hits, scale_key(0.0), scale_key(4.0)),
        None
    );
}

#[test]
fn closest_bounded_bounds_are_strict() {
    let hits = vec![hit(0.0, 0), hit(4.0, 1)];
    assert_eq!(
        Intersection::closest_bounded(&hits, scale_key(0.0), scale_key(4.0)),
        None
    );
}

#[test]
fn closest_bounded_tie_prefers_first() {
    let hits = vec![hit(2.0, 0), hit(2.0, 1), hit(3.0, 2)];
    let chosen = Intersection::closest_bounded(&hits, scale_key(0.0), scale_key(10.0));
    assert_eq!(chosen, Some(0));
}

#[test]
fn closest_skips_negative_and_infinite_scales() {
    let hits = vec![hit(-2.0, 0), hit(f64::INFINITY, 1), hit(2.5, 2), hit(-0.0, 3)];
    let chosen = Intersection::closest(&hits);
    assert_eq!(chosen, Some(2));
}

#[test]
fn closest_none_when_all_behind_origin() {
    let hits = vec![hit(-1.0, 0), hit(-5.0, 1), hit(0.0, 2)];
    assert_eq!(Intersection::closest(&hits), None);
}

#[test]
fn nearest_candidate_picks_smallest_scale() {
    let candidates = vec![Some(hit(4.0, 0)), None, Some(hit(1.5, 2)), Some(hit(9.0, 3))];
    assert_eq!(nearest_candidate(&candidates), Some(2));
}

#[test]
fn nearest_candidate_tie_prefers_later_surface() {
    let candidates = vec![Some(hit(2.0, 0)), Some(hit(2.0, 1)), Some(hit(3.0, 2))];
    assert_eq!(nearest_candidate(&candidates), Some(1));
}

#[test]
fn nearest_candidate_none_when_all_miss() {
    let candidates: Vec<Option<Intersection>> = vec![None, None];
    assert_eq!(nearest_candidate(&candidates), None);
}
