//! The legacy history model: its nearest-neighbour query answers even
//! outside the recorded range.

use yore::json::{
    Activity, ActivityType, Extra, ExtraName, ExtraType, GoogleLocationHistory, Location,
    TimestampedActivity,
};

fn fix(timestamp_ms: i64) -> Location {
    Location::new(timestamp_ms, 520796733, 11965831, 18, None)
}

#[test]
fn json_get_most_likely_location_should_return_none_if_no_locations_exist() {
    let ghl = GoogleLocationHistory::from_locations(vec![]);

    let location = ghl.get_most_likely_location(0);

    assert_eq!(None, location);
}

#[test]
fn json_get_most_likely_location_should_return_the_location_with_a_matching_timestamp() {
    let ghl = GoogleLocationHistory::from_locations(vec![fix(1000)]);

    let location = ghl.get_most_likely_location(1).unwrap();

    assert_eq!(1000, location.timestamp_ms());
}

#[test]
fn json_get_most_likely_location_should_return_the_location_at_the_closest_timestamp() {
    let ghl = GoogleLocationHistory::from_locations(vec![
        Location::new(3000, 520796733, 11965831, 18, None),
        Location::new(6000, 520567467, 11485831, 18, None),
    ]);

    let location = ghl.get_most_likely_location(4).unwrap();

    assert_eq!(3000, location.timestamp_ms());
}

#[test]
fn json_get_most_likely_location_should_return_the_older_location_if_exactly_between_two() {
    let ghl = GoogleLocationHistory::from_locations(vec![fix(1000), fix(3000)]);

    let location = ghl.get_most_likely_location(2).unwrap();

    assert_eq!(1000, location.timestamp_ms());
}

#[test]
fn json_location_should_carry_its_activity_annotations() {
    let activitys = vec![TimestampedActivity {
        timestamp_ms: 1498358433377,
        activities: vec![Activity {
            activity_type: ActivityType::Still,
            confidence: 100,
        }],
        extras: Some(vec![Extra {
            extra_type: ExtraType::Value,
            name: ExtraName::VehiclePersonalConfidence,
            int_val: 100,
        }]),
    }];
    let location = Location::new(1498358433377, 520796733, 11965831, 18, Some(activitys));

    let ghl = GoogleLocationHistory::from_locations(vec![location]);

    let found = ghl.get_most_likely_location(1498358433).unwrap();
    assert_eq!(1498358433377, found.timestamp_ms());
}

#[test]
fn json_get_most_likely_location_should_return_the_nearest_location_outside_the_range() {
    let ghl = GoogleLocationHistory::from_locations(vec![fix(1000), fix(3000)]);

    let location = ghl.get_most_likely_location(0).unwrap();
    assert_eq!(1000, location.timestamp_ms());

    let location = ghl.get_most_likely_location(4).unwrap();
    assert_eq!(3000, location.timestamp_ms());
}
