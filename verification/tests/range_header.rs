use audioserve::range::{parse_range_header, parse_u64_digits, ByteRange, RangePlan};
use audioserve::services::ErrorResponse;

#[test]
fn single_bytes_range_is_parsed_verbatim() {
    assert_eq!(
        parse_range_header(b"bytes=0-99"),
        RangePlan::Single(ByteRange { start: 0, end: Some(99) })
    );
    assert_eq!(
        parse_range_header(b"bytes=100-"),
        RangePlan::Single(ByteRange { start: 100, end: None })
    );
    assert_eq!(
        parse_range_header(b"bytes=18446744073709551615-"),
        RangePlan::Single(ByteRange { start: u64::MAX, end: None })
    );
}

#[test]
fn empty_range_list_is_bad_request() {
    assert_eq!(parse_range_header(b"bytes="), RangePlan::EmptyRanges);
    assert_eq!(parse_range_header(b"bytes=,,"), RangePlan::EmptyRanges);
    assert_eq!(ErrorResponse::RangeRequired.status_code(), 400);
    assert_eq!(ErrorResponse::RangeRequired.message(), "One range is required");
}

#[test]
fn multiple_ranges_are_not_implemented() {
    assert_eq!(parse_range_header(b"bytes=0-50,60-100"), RangePlan::MultipleRanges);
    assert_eq!(ErrorResponse::MultipleRanges.status_code(), 501);
    assert_eq!(
        ErrorResponse::MultipleRanges.message(),
        "Do not support multiple ranges"
    );
}

#[test]
fn non_bytes_unit_is_not_implemented() {
    assert_eq!(parse_range_header(b"items=0-50"), RangePlan::NotBytesUnit);
    assert_eq!(ErrorResponse::NotBytesRange.status_code(), 501);
    assert_eq!(
        ErrorResponse::NotBytesRange.message(),
        "Other than bytes ranges are not supported"
    );
}

#[test]
fn malformed_ranges_are_invalid() {
    assert_eq!(parse_range_header(b"bytes"), RangePlan::Invalid);
    assert_eq!(parse_range_header(b"bytes=abc"), RangePlan::Invalid);
    assert_eq!(parse_range_header(b"bytes=-100"), RangePlan::Invalid);
    assert_eq!(parse_range_header(b"bytes=5"), RangePlan::Invalid);
    // a bound too large for 64 bits cannot be represented
    assert_eq!(parse_range_header(b"bytes=18446744073709551616-"), RangePlan::Invalid);
    assert_eq!(ErrorResponse::InvalidRange.status_code(), 400);
}

#[test]
fn digit_strings_parse_with_overflow_detection() {
    assert_eq!(parse_u64_digits(b"0"), Some(0));
    assert_eq!(parse_u64_digits(b"30500"), Some(30500));
    assert_eq!(parse_u64_digits(b"18446744073709551615"), Some(u64::MAX));
    assert_eq!(parse_u64_digits(b"18446744073709551616"), None);
    assert_eq!(parse_u64_digits(b""), None);
    assert_eq!(parse_u64_digits(b"12a"), None);
}
