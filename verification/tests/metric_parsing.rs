use hr_cli::models::{parse_decimal_u8, Metric};

#[test]
fn metric_from_str_valid() {
    let m: Metric = "speed:42".parse().expect("parse Metric");
    assert_eq!(m.name, "speed");
    assert_eq!(m.value, 42);
}

#[test]
fn metric_from_str_invalid_format() {
    let err = "speed-42".parse::<Metric>().unwrap_err();
    assert!(err.contains("Invalid format"));
}

#[test]
fn metric_from_str_invalid_value() {
    let err = "speed:NaN".parse::<Metric>().unwrap_err();
    assert!(err.contains("valid number"));
}

#[test]
fn metric_error_messages_are_exact() {
    assert_eq!(
        "speed".parse::<Metric>().unwrap_err(),
        "Invalid format. Expected 'name:value'."
    );
    assert_eq!(
        "speed:".parse::<Metric>().unwrap_err(),
        "Value must be a valid number."
    );
}

#[test]
fn metric_with_two_colons_is_invalid_format() {
    assert_eq!(
        "a:1:2".parse::<Metric>().unwrap_err(),
        "Invalid format. Expected 'name:value'."
    );
    assert_eq!(
        "a::1".parse::<Metric>().unwrap_err(),
        "Invalid format. Expected 'name:value'."
    );
    // the format is judged before the value
    assert_eq!(
        "a:x:y".parse::<Metric>().unwrap_err(),
        "Invalid format. Expected 'name:value'."
    );
}

#[test]
fn metric_without_text_is_invalid_format() {
    assert_eq!(
        "".parse::<Metric>().unwrap_err(),
        "Invalid format. Expected 'name:value'."
    );
}

#[test]
fn metric_name_may_be_empty() {
    let m: Metric = ":7".parse().unwrap();
    assert_eq!(m.name, "");
    assert_eq!(m.value, 7);
}

#[test]
fn metric_name_keeps_every_character() {
    let m: Metric = "top speed \u{e9}\u{4e16}:200".parse().unwrap();
    assert_eq!(m.name, "top speed \u{e9}\u{4e16}");
    assert_eq!(m.value, 200);
}

#[test]
fn metric_value_range() {
    assert_eq!("m:0".parse::<Metric>().unwrap().value, 0);
    assert_eq!("m:255".parse::<Metric>().unwrap().value, 255);
    assert_eq!(
        "m:256".parse::<Metric>().unwrap_err(),
        "Value must be a valid number."
    );
    assert_eq!(
        "m:-1".parse::<Metric>().unwrap_err(),
        "Value must be a valid number."
    );
    assert_eq!(
        "m: 1".parse::<Metric>().unwrap_err(),
        "Value must be a valid number."
    );
    assert_eq!(
        "m:1 ".parse::<Metric>().unwrap_err(),
        "Value must be a valid number."
    );
}

#[test]
fn decimal_accepts_what_the_standard_parser_accepts() {
    let samples = [
        "", "+", "-", "0", "7", "42", "255", "256", "999", "0255", "000", "00256", "+0", "+255",
        "+256", "++1", "+-1", "-0", "-1", "1+", "1 ", " 1", "1_0", "0x10", "1e2", "12a", "a12",
        "\u{661}", "4294967296", "99999999999999999999999999", "25\u{a0}", ":",
    ];
    for text in samples {
        assert_eq!(parse_decimal_u8(text), text.parse::<u8>().ok(), "text {:?}", text);
    }
}

#[test]
fn decimal_agrees_with_the_standard_parser_on_all_short_numbers() {
    for n in 0u32..2000 {
        let plain = format!("{}", n);
        assert_eq!(parse_decimal_u8(&plain), plain.parse::<u8>().ok());
        let signed = format!("+{}", n);
        assert_eq!(parse_decimal_u8(&signed), signed.parse::<u8>().ok());
        let padded = format!("00{}", n);
        assert_eq!(parse_decimal_u8(&padded), padded.parse::<u8>().ok());
    }
}

#[test]
fn decimal_exact_values() {
    assert_eq!(parse_decimal_u8("42"), Some(42));
    assert_eq!(parse_decimal_u8("+5"), Some(5));
    assert_eq!(parse_decimal_u8("007"), Some(7));
    assert_eq!(parse_decimal_u8("255"), Some(255));
    assert_eq!(parse_decimal_u8("256"), None);
    assert_eq!(parse_decimal_u8(""), None);
    assert_eq!(parse_decimal_u8("+"), None);
}
