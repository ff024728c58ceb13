use human_time_cli::{convert_time, format_duration, validate_config, Config, Elapsed, Formatting, Units};

fn worded_config(default_unit: &str, format: &str) -> Config {
    Config {
        default_time_value_units: default_unit.to_string(),
        formatting: Formatting {
            format: format.to_string(),
            delimiter_text: ", ".to_string(),
        },
        units: Units {
            d: "day(s)".to_string(),
            h: "hour(s)".to_string(),
            m: "minute(s)".to_string(),
            s: "second(s)".to_string(),
            ms: "millisecond(s)".to_string(),
            us: "microsecond(s)".to_string(),
        },
    }
}

fn text_of(value: &toml::Value, key: &str) -> String {
    value[key].as_str().unwrap().to_string()
}

fn config_from_toml(text: &str) -> Config {
    let table: toml::Value = toml::from_str(text).unwrap();
    let formatting = &table["formatting"];
    let units = &table["units"];
    Config {
        default_time_value_units: text_of(&table, "default_time_value_units"),
        formatting: Formatting {
            format: text_of(formatting, "format"),
            delimiter_text: text_of(formatting, "delimiter_text"),
        },
        units: Units {
            d: text_of(units, "d"),
            h: text_of(units, "h"),
            m: text_of(units, "m"),
            s: text_of(units, "s"),
            ms: text_of(units, "ms"),
            us: text_of(units, "us"),
        },
    }
}

#[test]
fn test_convert_time_seconds() {
    let result = convert_time(3600, Some("sec")).unwrap();
    assert_eq!(result, Elapsed::from_secs(3600));
}

#[test]
fn test_convert_time_milliseconds() {
    let result = convert_time(3600, Some("milli")).unwrap();
    assert_eq!(result, Elapsed::from_millis(3600));
}

#[test]
fn test_convert_time_microseconds() {
    let result = convert_time(3600, Some("micro")).unwrap();
    assert_eq!(result, Elapsed::from_micros(3600));
}

#[test]
fn test_convert_time_invalid_unit() {
    let result = convert_time(3600, Some("invalid"));
    assert!(result.is_err());
}

#[test]
fn test_validate_config_valid() {
    let config = worded_config("seconds", "{} {}");
    let result = validate_config(&config);
    assert!(result.is_ok());
}

#[test]
fn test_validate_config_invalid() {
    let config = worded_config("invalid", "{} {}");
    let result = validate_config(&config);
    assert!(result.is_err());
    assert_eq!(
        result.unwrap_err(),
        "Invalid default_time_value_units: invalid. Valid options are: milliseconds, microseconds, or seconds."
    );
}

#[test]
fn test_validate_config_format_invalid() {
    // missing second {} in the format string
    let config = worded_config("seconds", "{}");
    let result = validate_config(&config);
    assert!(result.is_err());
    assert_eq!(
        result.unwrap_err(),
        "Invalid formatting.format: {}. It must contain exactly two sets of {}."
    );
}

#[test]
fn test_read_config_valid() {
    let config_content = r#"
        default_time_value_units = "seconds"
        [formatting]
        format = "{} {}"
        delimiter_text = ", "
        [units]
        d = "day(s)"
        h = "hour(s)"
        m = "minute(s)"
        s = "second(s)"
        ms = "millisecond(s)"
        us = "microsecond(s)"
    "#;
    let config = config_from_toml(config_content);
    let result = validate_config(&config);
    assert!(result.is_ok());
}

#[test]
fn test_read_config_invalid() {
    let config_content = r#"
        default_time_value_units = "invalid"
        [formatting]
        format = "{} {}"
        delimiter_text = ", "
        [units]
        d = "day(s)"
        h = "hour(s)"
        m = "minute(s)"
        s = "second(s)"
        ms = "millisecond(s)"
        us = "microsecond(s)"
    "#;
    let config = config_from_toml(config_content);
    let result = validate_config(&config);
    assert!(result.is_err());
    assert_eq!(
        result.unwrap_err(),
        "Invalid default_time_value_units: invalid. Valid options are: milliseconds, microseconds, or seconds."
    );
}

#[test]
fn test_format_duration_seconds() {
    let config = worded_config("seconds", "{} {}");
    let result = format_duration(3600, "sec", &config).unwrap();
    assert_eq!(result, "1 hour");
}

#[test]
fn test_format_duration_seconds2() {
    let config = worded_config("seconds", "{} {}");
    let result = format_duration(7200, "sec", &config).unwrap();
    assert_eq!(result, "2 hours");
}

#[test]
fn test_format_duration_seconds3() {
    let mut config = worded_config("seconds", "{} {}");
    config.units.h = "hour".to_string();
    let result = format_duration(7200, "sec", &config).unwrap();
    assert_eq!(result, "2 hour");
}

#[test]
fn test_format_duration_milliseconds() {
    let config = worded_config("seconds", "{} {}");
    let result = format_duration(3600, "milli", &config).unwrap();
    assert_eq!(result, "3 seconds, 600 milliseconds");
}

#[test]
fn test_format_duration_microseconds() {
    let config = worded_config("seconds", "{} {}");
    let result = format_duration(3600, "micro", &config).unwrap();
    assert_eq!(result, "3 milliseconds, 600 microseconds");
}

#[test]
fn test_format_duration_invalid_unit() {
    let config = Config::default();
    let result = format_duration(3600, "invalid", &config);
    assert!(result.is_err());
}
