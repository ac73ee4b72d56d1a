use orbital::timewarp::{
    atmosphere_band, most_restrictive_limit, warp_limit, TimeWarp, WarpConstraint, ATMOSPHERE_WARP_LIMITS, BURN_WARP_LIMIT,
    TIME_WARPS, TIME_WARP_COUNT, TIME_WARP_MAX,
};

fn warp(index: usize, max_allowed_index: usize) -> TimeWarp {
    TimeWarp {
        value: TIME_WARPS[index],
        index,
        max_allowed_index,
        max_allowed_reason: String::from("limited"),
    }
}

#[test]
fn default_time_warp_is_one_x_with_no_headroom() {
    let tw = TimeWarp::default();
    assert_eq!(tw.value, 1);
    assert_eq!(tw.index, 0);
    assert_eq!(tw.max_allowed_index, 0);
    assert_eq!(tw.max_allowed_reason, "");
}

#[test]
fn table_is_increasing_and_ends_at_max() {
    assert_eq!(TIME_WARPS.len(), TIME_WARP_COUNT);
    for i in 1..TIME_WARP_COUNT {
        assert!(TIME_WARPS[i - 1] < TIME_WARPS[i]);
    }
    assert_eq!(TIME_WARPS[TIME_WARP_COUNT - 1], TIME_WARP_MAX);
    assert_eq!(TIME_WARPS[4], BURN_WARP_LIMIT);
}

#[test]
fn increase_within_ceiling() {
    let mut tw = warp(2, 5);
    assert_eq!(tw.increase_warp().unwrap(), 3);
    assert_eq!(tw.index, 3);
    assert_eq!(tw.value, 10);
}

#[test]
fn increase_above_ceiling_is_refused_with_reason() {
    let mut tw = warp(5, 5);
    let err = tw.increase_warp().unwrap_err();
    assert_eq!(err.0, "limited");
    assert_eq!(tw.index, 5);
    assert_eq!(tw.value, 100);
}

#[test]
fn decrease_at_minimum_is_refused() {
    let mut tw = warp(0, 5);
    let err = tw.decrease_warp().unwrap_err();
    assert_eq!(err.0, "Cannot decrease Time Warp below 1x");
    assert_eq!(tw.index, 0);
    assert_eq!(tw.value, 1);
}

#[test]
fn increase_then_decrease_round_trip() {
    let mut tw = warp(4, 12);
    tw.increase_warp().unwrap();
    assert_eq!(tw.value, 100);
    assert_eq!(tw.decrease_warp().unwrap(), 4);
    assert_eq!(tw.value, 50);
    assert_eq!(tw.index, 4);
}

#[test]
fn set_warp_index_selects_factor() {
    let mut tw = warp(0, 12);
    assert_eq!(tw.set_warp_index(9).unwrap(), 9);
    assert_eq!(tw.value, 1_000_000);
    let err = warp(0, 3).set_warp_index(4).unwrap_err();
    assert_eq!(err.0, "limited");
}

#[test]
fn ceiling_at_listed_factor_allows_exactly_it() {
    for i in 1..TIME_WARP_COUNT {
        let mut tw = warp(12, 12);
        tw.set_max_allowed_warp(TIME_WARPS[i], String::from("why"));
        assert_eq!(tw.max_allowed_index, i);
        assert_eq!(tw.index, i);
        assert_eq!(tw.value, TIME_WARPS[i]);
        assert_eq!(tw.max_allowed_reason, "why");
    }
}

#[test]
fn ceiling_between_factors_rounds_up() {
    let mut tw = warp(12, 12);
    tw.set_max_allowed_warp(75, String::new());
    assert_eq!(tw.max_allowed_index, 5);
    assert_eq!(tw.value, 100);
}

#[test]
fn ceiling_of_one_allows_whole_table() {
    let mut tw = warp(3, 3);
    tw.set_max_allowed_warp(1, String::new());
    assert_eq!(tw.max_allowed_index, TIME_WARP_COUNT);
    assert_eq!(tw.index, 3);
}

#[test]
fn ceiling_keeps_lower_selection() {
    let mut tw = warp(2, 12);
    tw.set_max_allowed_warp(BURN_WARP_LIMIT, String::from("burn"));
    assert_eq!(tw.index, 2);
    assert_eq!(tw.value, 4);
    assert_eq!(tw.max_allowed_index, 4);
}

#[test]
fn most_restrictive_limit_picks_minimum_later_on_tie() {
    let candidates = vec![
        (1_000u32, String::from("a")),
        (50, String::from("b")),
        (10_000, String::from("c")),
        (50, String::from("d")),
    ];
    assert_eq!(most_restrictive_limit(&candidates), (50, String::from("d")));
}

#[test]
fn most_restrictive_limit_of_nothing_is_max() {
    assert_eq!(most_restrictive_limit(&Vec::new()), (TIME_WARP_MAX, String::new()));
    let candidates = vec![(TIME_WARP_MAX, String::from("free"))];
    assert_eq!(most_restrictive_limit(&candidates), (TIME_WARP_MAX, String::from("free")));
}

#[test]
fn atmosphere_band_is_last_of_leading_run() {
    assert_eq!(atmosphere_band(&vec![true, false, false, false, false]), Some(0));
    assert_eq!(atmosphere_band(&vec![true, true, true, false, false]), Some(2));
    assert_eq!(atmosphere_band(&vec![true, true, false, true, true]), Some(1));
    assert_eq!(atmosphere_band(&vec![true, true, true, true, true]), Some(4));
    assert_eq!(atmosphere_band(&vec![false, true, true, true, true]), None);
    assert_eq!(ATMOSPHERE_WARP_LIMITS[2], 1_000);
}

#[test]
fn warp_limits_per_constraint() {
    assert_eq!(warp_limit(WarpConstraint::EngineBurn), 50);
    assert_eq!(warp_limit(WarpConstraint::Unconstrained), TIME_WARP_MAX);
    assert_eq!(warp_limit(WarpConstraint::AtmosphereBand(0)), TIME_WARP_MAX);
    assert_eq!(warp_limit(WarpConstraint::AtmosphereBand(1)), 10_000);
    assert_eq!(warp_limit(WarpConstraint::AtmosphereBand(4)), 50);
}

#[test]
fn warp_never_exceeds_listed_ceiling() {
    let mut tw = TimeWarp::default();
    tw.set_max_allowed_warp(1_000, String::from("atmosphere"));
    while tw.increase_warp().is_ok() {}
    assert_eq!(tw.value, 1_000);
    assert_eq!(tw.index, 6);
}
