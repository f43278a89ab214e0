use preflight_rs::config::{
    gs_concurrency, parse_bool, parse_callback_hosts, parse_u32, parse_u64, parse_unsigned, parse_usize,
    validate_api_token, ColorMode, ConfigError,
};

#[test]
fn config_rejects_placeholder_api_token() {
    let error = validate_api_token(Some("change-me")).expect_err("placeholder token is rejected");

    assert!(matches!(error, ConfigError::Invalid("API_BEARER_TOKEN")));
}

#[test]
fn api_token_must_be_present_and_not_blank() {
    assert_eq!(validate_api_token(None), Err(ConfigError::MissingToken));
    assert_eq!(
        validate_api_token(Some(" \t ")),
        Err(ConfigError::Invalid("API_BEARER_TOKEN"))
    );
    assert_eq!(validate_api_token(Some("secret")), Ok(()));
    assert_eq!(validate_api_token(Some(" change-me")), Ok(()));
}

#[test]
fn colour_mode_ignores_case_and_surrounding_space() {
    assert_eq!(ColorMode::parse("color"), Ok(ColorMode::Color));
    assert_eq!(ColorMode::parse("  MONO\n"), Ok(ColorMode::Mono));
    assert_eq!(ColorMode::parse("Mono"), Ok(ColorMode::Mono));
    assert_eq!(ColorMode::parse("colour"), Err(()));
    assert_eq!(ColorMode::parse(""), Err(()));
    assert_eq!("mono".parse::<ColorMode>(), Ok(ColorMode::Mono));
}

#[test]
fn callback_hosts_are_trimmed_and_blank_entries_dropped() {
    assert_eq!(
        parse_callback_hosts(" a.example , ,b.example,"),
        vec!["a.example".to_owned(), "b.example".to_owned()]
    );
    assert!(parse_callback_hosts("").is_empty());
    assert_eq!(parse_callback_hosts("127.0.0.1"), vec!["127.0.0.1".to_owned()]);
}

const NUMBER_TEXTS: [&str; 16] = [
    "0", "500", "+7", "007", "", "+", "-1", " 5", "5 ", "1_000", "12a", "4294967295", "4294967296",
    "18446744073709551615", "18446744073709551616", "+18446744073709551615",
];

#[test]
fn unsigned_settings_parse_as_std_does() {
    for text in NUMBER_TEXTS {
        assert_eq!(parse_u32(text), text.parse::<u32>().ok(), "u32 {text:?}");
        assert_eq!(parse_u64(text), text.parse::<u64>().ok(), "u64 {text:?}");
        assert_eq!(parse_usize(text), text.parse::<usize>().ok(), "usize {text:?}");
    }
}

#[test]
fn unsigned_settings_have_exact_values_and_limits() {
    assert_eq!(parse_u32("500"), Some(500));
    assert_eq!(parse_u32("+42"), Some(42));
    assert_eq!(parse_u32("4294967296"), None);
    assert_eq!(parse_u64("209715200"), Some(209_715_200));
    assert_eq!(parse_unsigned("99", 98), None);
    assert_eq!(parse_unsigned("98", 98), Some(98));
}

#[test]
fn bool_fields_parse_as_std_does() {
    for text in ["true", "false", "True", "TRUE", "1", "0", "", " true", "yes"] {
        assert_eq!(parse_bool(text), text.parse::<bool>().ok(), "{text:?}");
    }
}

#[test]
fn gs_concurrency_defaults_to_the_cpu_count_but_at_least_one() {
    assert_eq!(gs_concurrency(None, 8), Ok(8));
    assert_eq!(gs_concurrency(None, 0), Ok(1));
    assert_eq!(gs_concurrency(Some("  "), 4), Ok(4));
    assert_eq!(gs_concurrency(Some(""), 0), Ok(1));
}

#[test]
fn gs_concurrency_setting_is_read_as_a_count() {
    assert_eq!(gs_concurrency(Some("3"), 8), Ok(3));
    assert_eq!(gs_concurrency(Some("0"), 8), Ok(0));
    assert_eq!(gs_concurrency(Some(" 3"), 8), Err(ConfigError::Invalid("GS_CONCURRENCY")));
    assert_eq!(gs_concurrency(Some("two"), 8), Err(ConfigError::Invalid("GS_CONCURRENCY")));
}
