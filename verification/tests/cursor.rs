use cursor_kit::cursor::{CursorDuration, CursorHotspot, ParseCursorHotspotError};
use cursor_kit::text::parse_u32_str;
use std::str::FromStr;

#[test]
fn test_from_str() {
    assert_eq!(CursorHotspot::from_str("4,4").unwrap(), CursorHotspot::new(4, 4));
}

#[test]
fn test_from_str_err() {
    assert_eq!(CursorHotspot::from_str("test"), Err(ParseCursorHotspotError));
}

#[test]
fn hotspot_edge_cases() {
    assert_eq!(CursorHotspot::from_str("+1,0"), Ok(CursorHotspot::new(1, 0)));
    assert_eq!(CursorHotspot::from_str("1,2,3"), Err(ParseCursorHotspotError));
    assert_eq!(CursorHotspot::from_str(",2"), Err(ParseCursorHotspotError));
    assert_eq!(CursorHotspot::from_str("4294967295,0"), Ok(CursorHotspot::new(4294967295, 0)));
    assert_eq!(CursorHotspot::from_str("4294967296,0"), Err(ParseCursorHotspotError));
    assert_eq!(CursorHotspot::from_str(" 1,2"), Err(ParseCursorHotspotError));
    assert_eq!(ParseCursorHotspotError.to_string(), "expected a hotspot string");
}

#[test]
fn parse_u32_matches_std() {
    for s in ["0", "+7", "-1", "", "+", "12a", "4294967295", "4294967296", "007", "é1", "99999999999"] {
        assert_eq!(parse_u32_str(s), s.parse::<u32>().ok(), "{}", s);
    }
}

#[test]
fn duration_milliseconds() {
    assert_eq!(CursorDuration::from_milliseconds(200).milliseconds(), 200);
    assert_eq!(CursorDuration::from_milliseconds(7), CursorDuration::from_milliseconds(7));
}
