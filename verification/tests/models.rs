use caglla::models::{parse_itinerary_category, CategoryError, ItineraryCategory};

#[test]
fn test_parse_invalid_itinerary_category() {
    assert!(parse_itinerary_category("invalid").is_err());
    assert!(parse_itinerary_category("lodging").is_err());
}

#[test]
fn every_category_reads_back_from_its_name() {
    let all = ItineraryCategory::all();
    assert_eq!(all.len(), 8);
    for c in all {
        assert_eq!(parse_itinerary_category(c.as_str()).unwrap(), c);
    }
}

#[test]
fn category_names_and_refusal_message() {
    assert_eq!(ItineraryCategory::Hotel.as_str(), "hotel");
    assert_eq!(ItineraryCategory::Restaurant.as_str(), "restaurant");
    assert_eq!(parse_itinerary_category("flight").unwrap(), ItineraryCategory::Flight);
    let err = parse_itinerary_category("lodging").unwrap_err();
    assert!(matches!(err, CategoryError::Unknown(ref s) if s == "lodging"));
    assert!(err.message().contains("lodging"));
}
