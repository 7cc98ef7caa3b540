//! The location-history index: range checks, nearest-neighbour queries and
//! interpolation, exercised on concrete histories.

use yore::golo::{interpolate_accuracy, GoogleLocationHistory, Location};

/// Half the great-circle distance between two fixes, in meters, from their
/// coordinates in degrees scaled by 1e7: the haversine formula on a sphere
/// of the Earth's mean radius.
fn half_distance_m(b_lat: i64, b_lon: i64, a_lat: i64, a_lon: i64) -> i64 {
    fn haversine(angle_in_radians: f64) -> f64 {
        (1.0 - angle_in_radians.cos()) / 2.0
    }
    let lat1 = (b_lat as f64 / 1e7).to_radians();
    let lon1 = (b_lon as f64 / 1e7).to_radians();
    let lat2 = (a_lat as f64 / 1e7).to_radians();
    let lon2 = (a_lon as f64 / 1e7).to_radians();
    let delta_lat = (lat1 - lat2).abs();
    let delta_lon = (lon1 - lon2).abs();
    let h = haversine(delta_lat) + lat1.cos() * lat2.cos() * haversine(delta_lon);
    let distance_in_km = 2.0 * 6371.0 * h.sqrt().asin();
    distance_in_km as i64 * 1000 / 2
}

fn fix(timestamp_ms: i64, accuracy: u16) -> Location {
    Location::new(timestamp_ms, 520796733, 11965831, accuracy)
}

#[test]
fn contains_should_be_false_if_history_is_empty() {
    let history = GoogleLocationHistory::default();

    assert!(!history.contains(1));
}

#[test]
fn contains_should_be_false_if_timestamp_is_before_first_timestamp_in_history() {
    let history = GoogleLocationHistory::from_locations(vec![fix(2000, 18)]);

    assert!(!history.contains(1));
}

#[test]
fn contains_should_be_false_if_timestamp_is_after_last_timestamp_in_history() {
    let history = GoogleLocationHistory::from_locations(vec![fix(1000, 18)]);

    assert!(!history.contains(2));
}

#[test]
fn contains_should_be_true_if_timestamp_is_equal_to_first_timestamp_in_history() {
    let history = GoogleLocationHistory::from_locations(vec![fix(1000, 18), fix(2000, 18)]);

    assert!(history.contains(1));
}

#[test]
fn contains_should_be_true_if_timestamp_is_equal_to_last_timestamp_in_history() {
    let history = GoogleLocationHistory::from_locations(vec![fix(1000, 18), fix(2000, 18)]);

    assert!(history.contains(2));
}

#[test]
fn contains_should_be_true_if_timestamp_is_between_first_and_last_timestamps_in_history() {
    let history = GoogleLocationHistory::from_locations(vec![fix(1000, 18), fix(3000, 18)]);

    assert!(history.contains(2));
}

#[test]
fn golo_get_most_likely_location_should_return_none_if_no_locations_exist() {
    let ghl = GoogleLocationHistory::default();

    let location = ghl.get_most_likely_location(0);

    assert_eq!(None, location);
}

#[test]
fn get_most_likely_location_should_return_none_if_the_timestamp_lies_outside_the_data() {
    let ghl = GoogleLocationHistory::from_locations(vec![fix(1000, 18)]);

    let location = ghl.get_most_likely_location(0);
    assert_eq!(None, location);

    let location = ghl.get_most_likely_location(2000);
    assert_eq!(None, location);
}

#[test]
fn golo_get_most_likely_location_should_return_the_location_with_a_matching_timestamp() {
    let ghl = GoogleLocationHistory::from_locations(vec![fix(1000, 18)]);

    let location = ghl.get_most_likely_location(1).unwrap();

    assert_eq!(1000, location.timestamp_ms());
}

#[test]
fn golo_get_most_likely_location_should_return_the_location_at_the_closest_timestamp() {
    let ghl = GoogleLocationHistory::from_locations(vec![
        Location::new(3000, 520796733, 11965831, 18),
        Location::new(6000, 520567467, 11485831, 18),
    ]);

    let location = ghl.get_most_likely_location(4).unwrap();

    assert_eq!(3000, location.timestamp_ms());
}

#[test]
fn golo_get_most_likely_location_should_return_the_older_location_if_exactly_between_two() {
    let ghl = GoogleLocationHistory::from_locations(vec![fix(1000, 18), fix(3000, 18)]);

    let location = ghl.get_most_likely_location(2).unwrap();

    assert_eq!(1000, location.timestamp_ms());
}

#[test]
fn get_most_likely_location_should_let_the_last_read_record_win_an_equal_timestamp() {
    let ghl = GoogleLocationHistory::from_locations(vec![fix(1000, 18), fix(1000, 25)]);

    let location = ghl.get_most_likely_location(1).unwrap();

    assert_eq!(25, location.accuracy());
}

#[test]
fn interpolate_location_should_return_none_if_no_locations_exist() {
    let ghl = GoogleLocationHistory::default();

    let location = ghl.interpolate_location(0, half_distance_m);

    assert_eq!(None, location);
}

#[test]
fn interpolate_location_should_return_none_if_the_timestamp_lies_outside_the_data() {
    let ghl = GoogleLocationHistory::from_locations(vec![fix(1000, 18)]);

    let location = ghl.interpolate_location(0, half_distance_m);
    assert_eq!(None, location);

    let location = ghl.interpolate_location(2000, half_distance_m);
    assert_eq!(None, location);
}

#[test]
fn interpolate_location_should_return_the_location_with_a_matching_timestamp() {
    let ghl = GoogleLocationHistory::from_locations(vec![fix(1000, 18)]);

    let location = ghl.interpolate_location(1, half_distance_m).unwrap();

    assert_eq!(1000, location.timestamp_ms());
}

#[test]
fn interpolate_location_should_linearly_interpolate_between_positions() {
    let ghl = GoogleLocationHistory::from_locations(vec![
        Location::new(3000, 520796733, 11965831, 18),
        Location::new(6000, 520567467, 11485831, 20),
    ]);

    let location = ghl.interpolate_location(4, half_distance_m).unwrap();

    assert_eq!(4000, location.timestamp_ms());
    assert_eq!(520720311, location.latitude_e7());
    assert_eq!(11805831, location.longitude_e7());
    assert_eq!(1339, location.accuracy());
}

#[test]
fn interpolate_accuracy_should_use_only_location_accuracies_with_small_half_distance() {
    let before = Location::new(3000, 520796733, 11965831, 10);
    let after = Location::new(7000, 520796734, 11965831, 20);
    let hd = half_distance_m(520796733, 11965831, 520796734, 11965831);
    let accuracy = interpolate_accuracy(4000, &before, &after, hd);

    assert_eq!(12, accuracy);

    let before = Location::new(3000, 520796733, 11965831, 20);
    let after = Location::new(7000, 520796734, 11965831, 10);
    let accuracy = interpolate_accuracy(4000, &before, &after, hd);

    assert_eq!(18, accuracy);
}

#[test]
fn interpolate_accuracy_should_scale_to_half_distance_at_mid_point() {
    let before = Location::new(3000, 520796733, 11965831, 10);
    let after = Location::new(7000, 520567467, 11485831, 30);
    let hd = half_distance_m(520796733, 11965831, 520567467, 11485831);

    let accuracy = interpolate_accuracy(3500, &before, &after, hd);
    assert_eq!(507, accuracy);

    let accuracy = interpolate_accuracy(5000, &before, &after, hd);
    assert_eq!(2000, accuracy);

    let before = Location::new(3000, 520796733, 11965831, 4000);

    let accuracy = interpolate_accuracy(3500, &before, &after, hd);
    assert_eq!(3500, accuracy);
}

#[test]
fn interpolate_accuracy_should_scale_from_half_distance_at_mid_point() {
    let before = Location::new(3000, 520796733, 11965831, 10);
    let after = Location::new(7000, 520567467, 11485831, 300);
    let hd = half_distance_m(520796733, 11965831, 520567467, 11485831);

    let accuracy = interpolate_accuracy(5500, &before, &after, hd);
    assert_eq!(1575, accuracy);

    let after = Location::new(7000, 520567467, 11485831, 3000);

    let accuracy = interpolate_accuracy(5500, &before, &after, hd);
    assert_eq!(2250, accuracy);
}

#[test]
fn interpolate_accuracy_should_return_the_half_distance_at_the_exact_midpoint() {
    let before = Location::new(1000, 520796733, 11965831, 7);
    let after = Location::new(9000, 520567467, 11485831, 13);
    let hd = half_distance_m(520796733, 11965831, 520567467, 11485831);
    assert!(hd >= 13);

    let accuracy = interpolate_accuracy(5000, &before, &after, hd);

    assert_eq!(hd as u16, accuracy);
}

#[test]
fn latitude_ref_should_be_north_for_0_and_greater_and_south_otherwise() {
    assert_eq!('N', Location::new(0, 0, 0, 0).latitude_ref());
    assert_eq!('N', Location::new(0, 600000000, 0, 0).latitude_ref());
    assert_eq!('S', Location::new(0, -1000000, 0, 0).latitude_ref());
}

#[test]
fn longitude_ref_should_be_east_for_0_and_greater_and_west_otherwise() {
    assert_eq!('E', Location::new(0, 0, 0, 0).longitude_ref());
    assert_eq!('E', Location::new(0, 0, 600000000, 0).longitude_ref());
    assert_eq!('W', Location::new(0, 0, -1000000, 0).longitude_ref());
}

#[test]
fn timestamp_should_truncate_milliseconds_toward_zero() {
    assert_eq!(1, Location::new(1999, 0, 0, 0).timestamp());
    assert_eq!(0, Location::new(999, 0, 0, 0).timestamp());
    assert_eq!(-1, Location::new(-1999, 0, 0, 0).timestamp());
}
