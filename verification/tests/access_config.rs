use asterbot::access::{
    admits_message, check_should_proceed, holds_id, init_access_mode, is_true, parse_id_list,
    validate_access, AccessMode,
};
use asterbot::config::{
    configured_cap, configured_count, first_piece_of, resolve_host_dir, resolve_model,
    store_directory_message, turn_config, ConfigError,
};
use asterbot::number::{parse_i64, parse_usize};
use asterbot::orchestrator::TurnConfig;

#[test]
fn unsigned_numbers_are_read() {
    assert_eq!(parse_usize("0"), Some(0));
    assert_eq!(parse_usize("10"), Some(10));
    assert_eq!(parse_usize("+7"), Some(7));
    assert_eq!(parse_usize("007"), Some(7));
    assert_eq!(parse_usize(&usize::MAX.to_string()), Some(usize::MAX));
}

#[test]
fn what_is_no_unsigned_number_is_refused() {
    for text in ["", "+", "-1", "-0", " 1", "1 ", "1.5", "1e3", "0x10", "١٢", "++1", "1_000"] {
        assert_eq!(parse_usize(text), None, "{text:?}");
        assert_eq!(parse_usize(text), text.parse::<usize>().ok(), "{text:?}");
    }
    let too_large = format!("{}0", usize::MAX);
    assert_eq!(parse_usize(&too_large), None);
    assert_eq!(parse_usize("18446744073709551616"), None);
    assert_eq!(parse_usize("99999999999999999999999999999999"), None);
}

#[test]
fn signed_numbers_are_read() {
    assert_eq!(parse_i64("0"), Some(0));
    assert_eq!(parse_i64("-0"), Some(0));
    assert_eq!(parse_i64("+15"), Some(15));
    assert_eq!(parse_i64("-15"), Some(-15));
    assert_eq!(parse_i64("9223372036854775807"), Some(i64::MAX));
    assert_eq!(parse_i64("-9223372036854775808"), Some(i64::MIN));
    assert_eq!(parse_i64("9223372036854775808"), None);
    assert_eq!(parse_i64("-9223372036854775809"), None);
    for text in ["", "-", "+", "--1", "+-1", "1-", " 1", "1a", "-a"] {
        assert_eq!(parse_i64(text), None, "{text:?}");
    }
}

#[test]
fn number_reading_agrees_with_the_standard_library() {
    for text in ["12", "+12", "-12", "", "-", "00", "-00012", "9223372036854775807", "9223372036854775808", "x", "1 2"] {
        assert_eq!(parse_i64(text), text.parse::<i64>().ok(), "{text:?}");
        assert_eq!(parse_usize(text), text.parse::<usize>().ok(), "{text:?}");
    }
}

#[test]
fn true_is_recognised_in_any_case() {
    for text in ["true", "TRUE", "True", "tRuE"] {
        assert!(is_true(text));
    }
    for text in ["", "1", "yes", "true ", " true", "truee", "tru", "false"] {
        assert!(!is_true(text));
    }
}

#[test]
fn id_lists_keep_what_reads_as_a_number() {
    assert_eq!(parse_id_list("1,2,3"), vec![1, 2, 3]);
    assert_eq!(parse_id_list(" 10 , -4,x, ,+7,1.5,"), vec![10, -4, 7]);
    assert_eq!(parse_id_list(""), Vec::<i64>::new());
    assert_eq!(parse_id_list("abc"), Vec::<i64>::new());
    assert_eq!(parse_id_list("5,5"), vec![5, 5]);
}

#[test]
fn access_mode_follows_the_configuration() {
    assert_eq!(init_access_mode("1, 2", None), AccessMode::AllowList(vec![1, 2]));
    assert_eq!(init_access_mode("1", Some("true")), AccessMode::AllowList(vec![1]));
    assert_eq!(init_access_mode("", Some("TRUE")), AccessMode::Public);
    assert_eq!(init_access_mode("nobody", Some("true")), AccessMode::Public);
    assert_eq!(init_access_mode("", Some("yes")), AccessMode::Disabled);
    assert_eq!(init_access_mode("", Some("")), AccessMode::Disabled);
    assert_eq!(init_access_mode("", None), AccessMode::Disabled);
}

#[test]
fn allow_list_lets_only_its_members_through() {
    let mode = AccessMode::AllowList(vec![11, 22]);
    assert!(validate_access(&mode, 11));
    assert!(validate_access(&mode, 22));
    assert!(!validate_access(&mode, 33));
    assert!(!validate_access(&mode, -11));
    assert!(!validate_access(&AccessMode::AllowList(vec![]), 11));
    assert!(holds_id(&vec![1, 2], 2));
    assert!(!holds_id(&vec![1, 2], 3));
}

#[test]
fn public_lets_everyone_through_and_disabled_no_one() {
    assert!(validate_access(&AccessMode::Public, 1));
    assert!(validate_access(&AccessMode::Public, i64::MIN));
    assert!(!validate_access(&AccessMode::Disabled, 1));
}

#[test]
fn gateway_never_answers_itself() {
    assert!(!admits_message(&AccessMode::Public, 9, 9));
    assert!(!admits_message(&AccessMode::AllowList(vec![9]), 9, 9));
    assert!(admits_message(&AccessMode::Public, 9, 1));
    assert!(admits_message(&AccessMode::AllowList(vec![1]), 9, 1));
    assert!(!admits_message(&AccessMode::AllowList(vec![1]), 9, 2));
    assert!(!admits_message(&AccessMode::Disabled, 9, 1));
}

#[test]
fn mention_is_needed_to_proceed() {
    assert!(check_should_proceed("42", "7", "hello <@7> there"));
    assert!(check_should_proceed("42", "7", "<@7>"));
    assert!(!check_should_proceed("42", "7", "hello there"));
    assert!(!check_should_proceed("42", "7", "hello <@77> there"));
    assert!(!check_should_proceed("42", "7", "hello <@ 7> there"));
    assert!(!check_should_proceed("7", "7", "I say <@7>"));
    assert!(!check_should_proceed("42", "7", ""));
}

#[test]
fn model_is_required() {
    assert_eq!(resolve_model(Some("model-a")), Ok("model-a".to_string()));
    assert_eq!(resolve_model(Some("")), Err(ConfigError::MissingModel));
    assert_eq!(resolve_model(None), Err(ConfigError::MissingModel));
    assert_eq!(
        ConfigError::MissingModel.message(),
        "error: ASTERBOT_MODEL env var is required"
    );
}

#[test]
fn state_directory_is_resolved() {
    assert_eq!(resolve_host_dir(Some("/data"), Some("/a:/b")), Ok("/data".to_string()));
    assert_eq!(resolve_host_dir(Some(""), Some("/a:/b")), Ok("/a".to_string()));
    assert_eq!(resolve_host_dir(None, Some("/only")), Ok("/only".to_string()));
    assert_eq!(resolve_host_dir(None, Some(":/b")), Err(ConfigError::NoStateDirectory));
    assert_eq!(resolve_host_dir(None, Some("")), Err(ConfigError::NoStateDirectory));
    assert_eq!(resolve_host_dir(Some(""), None), Err(ConfigError::NoStateDirectory));
    assert_eq!(resolve_host_dir(None, None), Err(ConfigError::NoStateDirectory));
    assert_eq!(
        ConfigError::NoStateDirectory.message(),
        "error: no state directory available — pass --allow-dir to grant filesystem access"
    );
    assert_eq!(
        store_directory_message(),
        "error: no host directory available — pass --allow-dir"
    );
}

#[test]
fn first_piece_stops_at_the_separator() {
    assert_eq!(first_piece_of("a:b:c", ':'), "a");
    assert_eq!(first_piece_of("abc", ':'), "abc");
    assert_eq!(first_piece_of(":abc", ':'), "");
    assert_eq!(first_piece_of("", ':'), "");
}

#[test]
fn counts_fall_back_to_their_default() {
    assert_eq!(configured_count(Some("25"), 10), 25);
    assert_eq!(configured_count(Some("0"), 10), 0);
    assert_eq!(configured_count(Some("many"), 10), 10);
    assert_eq!(configured_count(Some(" 25"), 10), 10);
    assert_eq!(configured_count(Some(""), 10), 10);
    assert_eq!(configured_count(None, 10), 10);
    assert_eq!(configured_cap(Some("100")), Some(100));
    assert_eq!(configured_cap(Some("x")), None);
    assert_eq!(configured_cap(None), None);
}

#[test]
fn turn_config_has_the_defaults() {
    assert_eq!(
        turn_config(None, None, None, None),
        TurnConfig {
            max_tool_rounds: 10,
            max_prompt_chars: 500_000,
            tool_result_chars: 2000,
            max_messages: None,
        }
    );
    assert_eq!(
        turn_config(Some("3"), Some("24000"), Some("500"), Some("100")),
        TurnConfig {
            max_tool_rounds: 3,
            max_prompt_chars: 24_000,
            tool_result_chars: 500,
            max_messages: Some(100),
        }
    );
    assert_eq!(turn_config(Some("-3"), Some("x"), Some(""), Some("1.5")), turn_config(None, None, None, None));
}
