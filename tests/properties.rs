use human_time_cli::render::{join_components, render_component};
use human_time_cli::text::{decimal_string, fill_template, placeholder_count, render_label};
use human_time_cli::{
    convert_time, format_duration, unit_family, validate_config, Args, Config, Elapsed, Formatting,
    TimeUnit, Units,
};

fn spelled_config() -> Config {
    Config {
        default_time_value_units: "seconds".to_string(),
        formatting: Formatting {
            format: "{} {}".to_string(),
            delimiter_text: ", ".to_string(),
        },
        units: Units {
            d: "day(s)".to_string(),
            h: "hour(s)".to_string(),
            m: "minute(s)".to_string(),
            s: "second(s)".to_string(),
            ms: "millisecond(s)".to_string(),
            us: "microsecond(s)".to_string(),
        },
    }
}

#[test]
fn every_listed_spelling_is_accepted() {
    for w in ["ms", "milli", "millis", "millisec", "millisecs", "millisecond", "milliseconds"] {
        assert_eq!(unit_family(w), Some(TimeUnit::Milliseconds), "{}", w);
    }
    for w in ["micro", "micros", "microsec", "microsecs", "microsecond", "microseconds"] {
        assert_eq!(unit_family(w), Some(TimeUnit::Microseconds), "{}", w);
    }
    for w in ["s", "sec", "secs", "second", "seconds"] {
        assert_eq!(unit_family(w), Some(TimeUnit::Seconds), "{}", w);
    }
}

#[test]
fn spellings_ignore_case() {
    assert_eq!(unit_family("MS"), Some(TimeUnit::Milliseconds));
    assert_eq!(unit_family("MilliSecs"), Some(TimeUnit::Milliseconds));
    assert_eq!(unit_family("MICROSECONDS"), Some(TimeUnit::Microseconds));
    assert_eq!(unit_family("Sec"), Some(TimeUnit::Seconds));
    assert_eq!(unit_family("S"), Some(TimeUnit::Seconds));
}

#[test]
fn other_spellings_are_rejected() {
    for w in [
        "", "invalid", "m", "msec", "msecs", "mic", "mil", "millisecondss", " sec", "sec ",
        "secss", "milli-sec", "us", "\u{b5}s", "minute", "seco",
    ] {
        assert_eq!(unit_family(w), None, "{:?}", w);
    }
}

#[test]
fn unknown_unit_message_is_lower_cased() {
    let err = convert_time(5, Some("INVALID")).unwrap_err();
    assert_eq!(
        err,
        "Invalid unit 'invalid'. Please specify one of: milli, micro, or leave empty for seconds."
    );
    let err = format_duration(5, "Hours", &Config::default()).unwrap_err();
    assert_eq!(
        err,
        "Invalid unit 'hours'. Please specify one of: milli, micro, or leave empty for seconds."
    );
}

#[test]
fn missing_unit_means_seconds() {
    assert_eq!(convert_time(7, None).unwrap(), Elapsed::from_secs(7));
    assert_eq!(convert_time(7, None).unwrap().as_micros(), 7_000_000);
}

#[test]
fn elapsed_splits_into_seconds_and_nanos() {
    let e = Elapsed::from_millis(3600);
    assert_eq!(e.as_micros(), 3_600_000);
    assert_eq!(e.as_secs(), 3);
    assert_eq!(e.subsec_nanos(), 600_000_000);
    let big = Elapsed::from_secs(u64::MAX);
    assert_eq!(big.as_secs(), u64::MAX);
    assert_eq!(big.subsec_nanos(), 0);
}

#[test]
fn singular_and_plural_labels() {
    assert_eq!(render_label("hour(s)", 1), "hour");
    assert_eq!(render_label("hour(s)", 2), "hours");
    assert_eq!(render_label("hour(s)", 0), "hours");
    assert_eq!(render_label("hour", 5), "hour");
    assert_eq!(render_label("(s)x(s)", 1), "x");
    assert_eq!(render_label("(s)x(s)", 3), "sxs");
    assert_eq!(render_label("(s(s))", 2), "(ss)");
}

#[test]
fn template_filled_by_position() {
    assert_eq!(fill_template("{} {}", "2", "hours"), "2 hours");
    assert_eq!(fill_template("<{}|{}>", "{}", "x"), "<{}|x>");
    assert_eq!(fill_template("{}", "1", "h"), "1");
    assert_eq!(fill_template("none", "1", "h"), "none");
}

#[test]
fn placeholders_counted_without_overlap() {
    assert_eq!(placeholder_count(""), 0);
    assert_eq!(placeholder_count("{}"), 1);
    assert_eq!(placeholder_count("{}{}"), 2);
    assert_eq!(placeholder_count("{{}}"), 1);
    assert_eq!(placeholder_count("{}}{}{"), 2);
}

#[test]
fn decimal_digits() {
    assert_eq!(decimal_string(0), "0");
    assert_eq!(decimal_string(600), "600");
    assert_eq!(decimal_string(u128::MAX), "340282366920938463463374607431768211455");
}

#[test]
fn component_and_join() {
    let config = spelled_config();
    assert_eq!(render_component(1, "d", &config), "1 day");
    assert_eq!(render_component(3, "\u{3bc}s", &config), "3 microseconds");
    assert_eq!(join_components("a".to_string(), "b".to_string(), ", "), "a, b");
}

#[test]
fn default_config_is_valid_and_terse() {
    let config = Config::default();
    assert!(validate_config(&config).is_ok());
    assert_eq!(config.units.us, "\u{b5}s");
    assert_eq!(format_duration(3600, "sec", &config).unwrap(), "1h");
    assert_eq!(format_duration(7200, "sec", &config).unwrap(), "2h");
    assert_eq!(format_duration(3600, "milli", &config).unwrap(), "3s,600ms");
    assert_eq!(format_duration(3600, "micro", &config).unwrap(), "3ms,600\u{b5}s");
}

#[test]
fn zero_is_written_in_microseconds() {
    assert_eq!(format_duration(0, "sec", &Config::default()).unwrap(), "0\u{b5}s");
    assert_eq!(format_duration(0, "ms", &spelled_config()).unwrap(), "0 microseconds");
}

#[test]
fn every_magnitude_in_order() {
    let config = spelled_config();
    let micros: u64 = 90_061_001_001;
    assert_eq!(
        format_duration(micros, "us_is_not_a_unit", &config).is_err(),
        true
    );
    assert_eq!(
        format_duration(micros, "micros", &config).unwrap(),
        "1 day, 1 hour, 1 minute, 1 second, 1 millisecond, 1 microsecond"
    );
    assert_eq!(
        format_duration(2 * 86_400 + 59, "seconds", &config).unwrap(),
        "2 days, 59 seconds"
    );
}

#[test]
fn largest_value_decomposes_exactly() {
    let config = spelled_config();
    assert_eq!(
        format_duration(u64::MAX, "sec", &config).unwrap(),
        "213503982334601 days, 7 hours, 15 seconds"
    );
}

#[test]
fn bad_default_unit_is_named() {
    let mut config = spelled_config();
    config.default_time_value_units = "Hours".to_string();
    assert_eq!(
        validate_config(&config).unwrap_err(),
        "Invalid default_time_value_units: Hours. Valid options are: milliseconds, microseconds, or seconds."
    );
    config.default_time_value_units = "MILLIS".to_string();
    assert!(validate_config(&config).is_ok());
}

#[test]
fn format_needs_exactly_two_placeholders() {
    let mut config = spelled_config();
    for bad in ["", "no placeholder", "{}", "{}{}{}"] {
        config.formatting.format = bad.to_string();
        assert_eq!(
            validate_config(&config).unwrap_err(),
            format!("Invalid formatting.format: {}. It must contain exactly two sets of {{}}.", bad)
        );
    }
    config.formatting.format = "[{}:{}]".to_string();
    assert!(validate_config(&config).is_ok());
}

#[test]
fn command_line_unit_wins_over_default() {
    let config = spelled_config();
    let given = Args { time_value: Some(1), unit: Some("ms".to_string()), config: false };
    assert_eq!(given.unit_or_default(&config), "ms");
    let absent = Args { time_value: Some(1), unit: None, config: false };
    assert_eq!(absent.unit_or_default(&config), "seconds");
}
