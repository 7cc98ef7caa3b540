//! Orientation decoding, suggestion-accuracy text, request-path and
//! query-parameter handling, and JPEG path checks.

use yore::civil::{epoch_seconds, is_valid_civil};
use yore::kml::{Document, Placemark, Track, KML};
use yore::has_jpeg_extension;
use yore::orientation::Orientation;
use yore::service::resolve_path;
use yore::suggestion_accuracy::SuggestionAccuracy;
use yore::uri::{integer_query_parameter, parse_u32, query_parameter, ServiceError};

fn pairs(entries: &[(&str, &str)]) -> Vec<(String, String)> {
    entries.iter().map(|(k, v)| (k.to_string(), v.to_string())).collect()
}

#[test]
fn from_exif_value_should_construct_from_u16_values_correctly() {
    assert_eq!(Orientation::Untransformed, Orientation::from_exif_value(0));
    assert_eq!(Orientation::Untransformed, Orientation::from_exif_value(1));
    assert_eq!(
        Orientation::FlippedHorizontally,
        Orientation::from_exif_value(2)
    );
    assert_eq!(Orientation::HalfRotated, Orientation::from_exif_value(3));
    assert_eq!(
        Orientation::FlippedVertically,
        Orientation::from_exif_value(4)
    );
    assert_eq!(
        Orientation::QuarterRotatedAndFlippedHorizontally,
        Orientation::from_exif_value(5)
    );
    assert_eq!(
        Orientation::ThreeQuarterRotated,
        Orientation::from_exif_value(6)
    );
    assert_eq!(
        Orientation::QuarterRotatedAndFlippedVertically,
        Orientation::from_exif_value(7)
    );
    assert_eq!(Orientation::QuarterRotated, Orientation::from_exif_value(8));
    assert_eq!(Orientation::Untransformed, Orientation::from_exif_value(9));
}

#[test]
fn suggestion_accuracy_display_should_format_value_correctly() {
    let accuracy = SuggestionAccuracy::new(18, 0);
    assert_eq!("18 metres, 0 seconds", accuracy.display_string());

    let accuracy = SuggestionAccuracy::new(18, 3600);
    assert_eq!("18 metres, 1 hour", accuracy.display_string());

    let accuracy = SuggestionAccuracy::new(18, 90);
    assert_eq!("18 metres, 1 minute, 30 seconds", accuracy.display_string());

    let accuracy = SuggestionAccuracy::new(18, 20499642);
    assert_eq!(
        "18 metres, 33 weeks, 6 days, 6 hours, 20 minutes, 42 seconds",
        accuracy.display_string()
    );
}

#[test]
fn suggestion_accuracy_display_should_keep_the_sign_of_a_negative_gap() {
    let accuracy = SuggestionAccuracy::new(18, -470321);
    assert_eq!(
        "18 metres, -5 days, -10 hours, -38 minutes, -41 seconds",
        accuracy.display_string()
    );
}

#[test]
fn suggestion_accuracy_should_store_given_values() {
    let accuracy = SuggestionAccuracy::new(18, -470321);
    assert_eq!(18, accuracy.meters());
    assert_eq!(-470321, accuracy.seconds());
}

#[test]
fn service_resolve_path_should_return_index_html_if_passed_a_single_forwardslash() {
    assert_eq!("index.html", resolve_path("/"));
}

#[test]
fn service_resolve_path_should_trim_the_first_character_from_the_passed_path() {
    assert_eq!("test", resolve_path("/test"));
}

#[test]
fn integer_query_parameter_should_extract_the_value_for_the_given_query_parameters() {
    let query = pairs(&[("test", "1")]);
    let result = integer_query_parameter(&query, "test");

    assert_eq!(1, result.unwrap());
}

#[test]
fn integer_query_parameter_should_error_if_the_parameter_does_not_exist() {
    let query = pairs(&[]);
    let result = integer_query_parameter(&query, "test");

    assert!(match result {
        Err(ServiceError::MissingQueryParameter("test")) => true,
        _ => false,
    });
}

#[test]
fn integer_query_parameter_should_error_if_the_value_is_not_an_unsigned_integer() {
    let query = pairs(&[("test", "-1")]);
    let result = integer_query_parameter(&query, "test");

    assert!(match result {
        Err(ServiceError::QueryParameterParseError) => true,
        _ => false,
    });
}

#[test]
fn query_parameter_should_return_the_value_of_the_first_matching_pair() {
    let query = pairs(&[("a", "1"), ("test", "2"), ("test", "3")]);
    let result = query_parameter(&query, "test");

    assert_eq!("2", result.unwrap());
}

#[test]
fn parse_u32_should_accept_the_largest_value_and_reject_the_next() {
    assert_eq!(4294967295, parse_u32("4294967295").unwrap());
    assert!(parse_u32("4294967296").is_err());
    assert_eq!(7, parse_u32("007").unwrap());
    assert!(parse_u32("").is_err());
    assert!(parse_u32("12a").is_err());
}

#[test]
fn is_jpeg_file_should_return_false_for_a_file_that_does_not_exist() {
    assert!(!has_jpeg_extension("nonexistent"));
}

#[test]
fn is_jpeg_file_should_return_false_for_a_file_that_does_not_have_a_jpg_or_jpeg_extension() {
    assert!(!has_jpeg_extension("Cargo.toml"));
}

#[test]
fn is_jpeg_file_should_return_false_for_a_directory() {
    assert!(!has_jpeg_extension("Cargo.toml"));
}

#[test]
fn kml_should_hold_a_track_with_matching_times_and_coordinates() {
    let kml = KML {
        document: Document {
            placemark: Placemark {
                open_state: "1".to_string(),
                track: Track {
                    altitude_mode: "clampToGround".to_string(),
                    when: vec![
                        "2017-01-01T17:54:27Z".to_string(),
                        "2017-01-01T17:51:27Z".to_string(),
                    ],
                    coord: vec![
                        "1.4542331 59.0545834 0".to_string(),
                        "1.4542331 59.0545834 0".to_string(),
                    ],
                },
            },
        },
    };

    assert_eq!("clampToGround", kml.document.placemark.track.altitude_mode);
    assert_eq!(
        kml.document.placemark.track.when.len(),
        kml.document.placemark.track.coord.len()
    );
}

#[test]
fn epoch_seconds_should_match_known_timestamps() {
    assert_eq!(0, epoch_seconds(1970, 1, 1, 0, 0, 0));
    assert_eq!(1473158321, epoch_seconds(2016, 9, 6, 10, 38, 41));
    assert_eq!(951782400, epoch_seconds(2000, 2, 29, 0, 0, 0));
}

#[test]
fn is_valid_civil_should_know_the_calendar() {
    assert!(is_valid_civil(2000, 2, 29, 0, 0, 0));
    assert!(!is_valid_civil(1900, 2, 29, 0, 0, 0));
    assert!(!is_valid_civil(2001, 2, 29, 0, 0, 0));
    assert!(!is_valid_civil(2001, 4, 31, 0, 0, 0));
    assert!(!is_valid_civil(1969, 12, 31, 0, 0, 0));
    assert!(!is_valid_civil(2001, 1, 1, 24, 0, 0));
}

#[test]
fn has_jpeg_extension_should_accept_the_four_jpeg_extensions_only() {
    assert!(has_jpeg_extension("photo.jpg"));
    assert!(has_jpeg_extension("photo.jpeg"));
    assert!(has_jpeg_extension("photo.JPG"));
    assert!(has_jpeg_extension("photo.JPEG"));
    assert!(has_jpeg_extension("a/b/photo.jpg"));
    assert!(!has_jpeg_extension("photo.png"));
    assert!(!has_jpeg_extension("photo.Jpg"));
    assert!(!has_jpeg_extension(".jpg"));
    assert!(!has_jpeg_extension("a/.jpg"));
}
