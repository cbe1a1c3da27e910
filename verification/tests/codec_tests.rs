use plot_server::data_model::{
    decode_plot, decode_time_series, encode_plot, encode_time_series, NumberVal, Plot, TimeSeries,
    TimeSeriesEntry,
};
use plot_server::json_value::JsonValue;
use plot_server::time_point::{time_point_from_str, time_point_to_string, TimePoint};

fn tp(s: &str) -> TimePoint {
    time_point_from_str(s).unwrap()
}

fn sample_series() -> TimeSeries {
    TimeSeries {
        id: 4,
        name: "a".to_string(),
        unit: "K".to_string(),
        time_points: vec![
            tp("2023-01-01T00:00:00+00:00"),
            tp("2023-01-02T12:30:00+00:00"),
        ],
        values: vec![NumberVal::Lit("3.1".to_string()), NumberVal::Int(7)],
    }
}

#[test]
fn time_point_parsing_normalizes_offsets() {
    // one hour east of UTC is the same instant, rendered in UTC
    let t = tp("2023-01-02T04:04:05+01:00");
    assert_eq!(time_point_to_string(&t), "2023-01-02T03:04:05+00:00");
}

#[test]
fn time_point_parse_rejects_garbage() {
    let err = time_point_from_str("yesterday at noon").unwrap_err();
    assert_eq!(err.code, 430);
    assert_eq!(err.message, "Could not parse date.");
}

#[test]
fn entry_from_bad_string_fails_with_its_own_code() {
    let err = TimeSeriesEntry::new_from_string("not-a-date", NumberVal::Int(1)).unwrap_err();
    assert_eq!(err.code, 410);
    assert_eq!(err.message, "Date could not be parsed.");
}

#[test]
fn time_series_round_trip() {
    let series = sample_series();
    let doc = encode_time_series(&series);
    assert_eq!(decode_time_series(&doc), Ok(series));
}

#[test]
fn plot_round_trip() {
    let plot = Plot {
        id: 9,
        name: "cool".to_string(),
        description: "cool data".to_string(),
        time_series: vec![sample_series()],
    };
    let doc = encode_plot(&plot);
    assert_eq!(decode_plot(&doc), Ok(plot));
}

#[test]
fn empty_plot_round_trip() {
    let plot = Plot {
        id: 1,
        name: "n".to_string(),
        description: String::new(),
        time_series: vec![],
    };
    let doc = encode_plot(&plot);
    assert_eq!(decode_plot(&doc), Ok(plot));
}

#[test]
fn decode_plot_accepts_null_series_as_empty() {
    let doc = JsonValue::Obj(vec![
        ("Id".to_string(), JsonValue::Int(3)),
        ("Name".to_string(), JsonValue::Str("n".to_string())),
        ("Description".to_string(), JsonValue::Str("d".to_string())),
        ("TimeSeries".to_string(), JsonValue::Null),
    ]);
    let plot = decode_plot(&doc).unwrap();
    assert_eq!(plot.id, 3);
    assert!(plot.time_series.is_empty());
}

#[test]
fn decode_plot_accepts_absent_series_as_empty() {
    let doc = JsonValue::Obj(vec![
        ("Id".to_string(), JsonValue::Int(3)),
        ("Name".to_string(), JsonValue::Str("n".to_string())),
        ("Description".to_string(), JsonValue::Str("d".to_string())),
    ]);
    let plot = decode_plot(&doc).unwrap();
    assert!(plot.time_series.is_empty());
}

#[test]
fn decode_plot_rejects_missing_name() {
    let doc = JsonValue::Obj(vec![
        ("Id".to_string(), JsonValue::Int(3)),
        ("Description".to_string(), JsonValue::Str("d".to_string())),
    ]);
    assert!(decode_plot(&doc).is_err());
}

#[test]
fn decode_time_series_rejects_bad_time_point() {
    let doc = JsonValue::Obj(vec![
        ("Id".to_string(), JsonValue::Int(3)),
        ("Name".to_string(), JsonValue::Str("n".to_string())),
        ("Unit".to_string(), JsonValue::Str("K".to_string())),
        (
            "TimePoints".to_string(),
            JsonValue::Arr(vec![JsonValue::Str("n/a".to_string())]),
        ),
        ("Values".to_string(), JsonValue::Arr(vec![JsonValue::Int(1)])),
    ]);
    assert!(decode_time_series(&doc).is_err());
}

#[test]
fn decode_time_series_rejects_non_number_value() {
    let doc = JsonValue::Obj(vec![
        ("Id".to_string(), JsonValue::Int(3)),
        ("Name".to_string(), JsonValue::Str("n".to_string())),
        ("Unit".to_string(), JsonValue::Str("K".to_string())),
        ("TimePoints".to_string(), JsonValue::Arr(vec![])),
        (
            "Values".to_string(),
            JsonValue::Arr(vec![JsonValue::Str("3.1".to_string())]),
        ),
    ]);
    assert!(decode_time_series(&doc).is_err());
}

#[test]
fn decode_time_series_rejects_fractional_id() {
    let doc = JsonValue::Obj(vec![
        ("Id".to_string(), JsonValue::Num("3.5".to_string())),
        ("Name".to_string(), JsonValue::Str("n".to_string())),
        ("Unit".to_string(), JsonValue::Str("K".to_string())),
        ("TimePoints".to_string(), JsonValue::Arr(vec![])),
        ("Values".to_string(), JsonValue::Arr(vec![])),
    ]);
    assert!(decode_time_series(&doc).is_err());
}

#[test]
fn decode_rejects_non_object() {
    assert!(decode_plot(&JsonValue::Int(5)).is_err());
    assert!(decode_time_series(&JsonValue::Null).is_err());
}

#[test]
fn dates_pushed_outside_the_four_digit_years_are_rejected() {
    // both denote instants whose UTC year has no four-digit rendering
    let early = time_point_from_str("0000-01-01T00:00:00+01:00").unwrap_err();
    assert_eq!(early.code, 430);
    let late = time_point_from_str("9999-12-31T23:59:59-01:00").unwrap_err();
    assert_eq!(late.code, 430);
}

#[test]
fn boundary_years_round_trip() {
    let first = tp("0000-01-01T00:00:00+00:00");
    assert_eq!(time_point_to_string(&first), "0000-01-01T00:00:00+00:00");
    let last = tp("9999-12-31T23:59:59+00:00");
    assert_eq!(time_point_to_string(&last), "9999-12-31T23:59:59+00:00");
}

#[test]
fn lit_from_text_checks_the_literal() {
    assert_eq!(
        NumberVal::lit_from_text("3.25".to_string()),
        Some(NumberVal::Lit("3.25".to_string()))
    );
    assert_eq!(
        NumberVal::lit_from_text("-1e9".to_string()),
        Some(NumberVal::Lit("-1e9".to_string()))
    );
    assert_eq!(NumberVal::lit_from_text("abc".to_string()), None);
    assert_eq!(NumberVal::lit_from_text("01".to_string()), None);
}

#[test]
fn decode_time_series_rejects_invalid_numeric_literal() {
    let doc = JsonValue::Obj(vec![
        ("Id".to_string(), JsonValue::Int(3)),
        ("Name".to_string(), JsonValue::Str("n".to_string())),
        ("Unit".to_string(), JsonValue::Str("K".to_string())),
        ("TimePoints".to_string(), JsonValue::Arr(vec![])),
        (
            "Values".to_string(),
            JsonValue::Arr(vec![JsonValue::Num("abc".to_string())]),
        ),
    ]);
    assert!(decode_time_series(&doc).is_err());
}
