use backend_runtime::number::{decimal_text, parse_u64, signed_decimal_text, ParseIntegerError};
use backend_runtime::string_map::StringMap;
use backend_runtime::text::{
    contains, find, lines, same_text, split_once, split_whitespace, strip_prefix, strip_suffix,
    trim, trim_end_matches, trim_start_matches,
};
use backend_runtime::time::{Duration, Moment};

#[test]
fn texts_are_cut_as_the_standard_library_cuts_them() {
    for text in ["", " ", "a", " a  b\t\nc ", "ä\u{2003}ö", "a\r\nb\rc\n\n", "\n", "a\u{85}b"] {
        assert_eq!(split_whitespace(text), text.split_whitespace().collect::<Vec<_>>(), "{text:?}");
        assert_eq!(lines(text), text.lines().collect::<Vec<_>>(), "{text:?}");
        assert_eq!(trim(text), text.trim(), "{text:?}");
        assert_eq!(trim_start_matches(text, 'a'), text.trim_start_matches('a'));
        assert_eq!(trim_end_matches(text, 'c'), text.trim_end_matches('c'));
        assert_eq!(strip_prefix(text, " a"), text.strip_prefix(" a"));
        assert_eq!(strip_suffix(text, "c "), text.strip_suffix("c "));
        assert_eq!(split_once(text, " "), text.split_once(" "));
        assert_eq!(contains(text, "b"), text.contains("b"));
    }
    assert_eq!(find("äbc", "c"), Some(2));
    assert!(same_text("ä", "ä"));
    assert!(!same_text("ä", "a"));
}

#[test]
fn numbers_are_written_and_read_as_the_standard_library_does() {
    for n in [0, 7, 10, 4_294_967_295, u64::MAX] {
        assert_eq!(decimal_text(n), n.to_string());
        assert_eq!(parse_u64(&decimal_text(n)), Ok(n));
    }
    for n in [0, -1, i64::MIN, i64::MAX] {
        assert_eq!(signed_decimal_text(n), n.to_string());
    }
    assert_eq!(parse_u64("+7"), Ok(7));
    assert_eq!(parse_u64(""), Err(ParseIntegerError::Empty));
    assert_eq!(parse_u64("+"), Err(ParseIntegerError::InvalidDigit));
    assert_eq!(parse_u64("-1"), Err(ParseIntegerError::InvalidDigit));
    assert_eq!(parse_u64("18446744073709551616"), Err(ParseIntegerError::Overflow));
    for text in ["", "+", "x", "18446744073709551616"] {
        assert_eq!(
            parse_u64(text).unwrap_err().message(),
            text.parse::<u64>().unwrap_err().to_string()
        );
    }
}

#[test]
fn maps_keep_the_last_value_of_a_key() {
    let mut map = StringMap::new();
    assert!(map.is_empty());
    assert_eq!(map.insert("a".to_string(), 1), None);
    assert_eq!(map.insert("a".to_string(), 2), Some(1));
    let mut other = StringMap::new();
    other.insert("a".to_string(), 3);
    other.insert("b".to_string(), 4);
    map.extend(other);
    assert_eq!(map.get("a"), Some(&3));
    assert!(map.contains_key("b"));
    let copy = map.copied();
    assert_eq!(map.remove("a"), Some(3));
    assert_eq!(map.get("a"), None);
    assert_eq!(copy.get("a"), Some(&3));
}

#[test]
fn time_is_kept_in_nanoseconds() {
    let second = Duration::from_secs(1);
    assert_eq!(second.as_nanos(), 1_000_000_000);
    assert_eq!(second.as_millis(), 1_000);
    assert_eq!(second.divided_by(3).as_nanos(), 333_333_333);
    assert_eq!(second.checked_mul(2), Some(Duration::from_secs(2)));
    assert_eq!(Duration::max().checked_mul(2), None);
    assert_eq!(second.saturating_sub(Duration::from_secs(2)), Duration::zero());
    let later = Moment::after_origin(second).plus(second);
    assert_eq!(later.saturating_duration_since(Moment::after_origin(second)), second);
    assert_eq!(
        Moment::after_origin(second).saturating_duration_since(later),
        Duration::zero()
    );
    assert_eq!(Moment::after_origin(Duration::max()).checked_add(Duration::from_nanos(1)), None);
}
