use micro_template::config::{dotenv_map, first_secret, value_or_default, get_config, parse_dotenv, DotenvCache, EnvValue};
use micro_template::text::trim_str;

#[test]
fn parses_key_value_lines() {
    let m = parse_dotenv(Some("DB_PATH=test.redb\nBIND_ADDR=localhost:8080\n"));
    assert_eq!(m.get("DB_PATH"), Some("test.redb".to_string()));
    assert_eq!(m.get("BIND_ADDR"), Some("localhost:8080".to_string()));
    assert_eq!(m.get("PORT"), None);
}

#[test]
fn trims_keys_and_values() {
    let m = parse_dotenv(Some("   KEY  =   some value  \t\n"));
    assert_eq!(m.get("KEY"), Some("some value".to_string()));
}

#[test]
fn skips_comments_blank_and_malformed_lines() {
    let text = "# comment = not a key\n\n   \nMALFORMED\n=no_key\n  # KEY=x\nGOOD=1";
    let m = parse_dotenv(Some(text));
    assert_eq!(m.get("GOOD"), Some("1".to_string()));
    assert_eq!(m.get("MALFORMED"), None);
    assert_eq!(m.get(""), None);
    assert_eq!(m.get("# comment"), None);
    assert_eq!(m.get("# KEY"), None);
}

#[test]
fn splits_on_first_equals_sign() {
    let m = parse_dotenv(Some("URL=postgres://h/db?a=b"));
    assert_eq!(m.get("URL"), Some("postgres://h/db?a=b".to_string()));
}

#[test]
fn later_line_replaces_earlier_value() {
    let m = parse_dotenv(Some("A=1\nB=2\nA=3\n"));
    assert_eq!(m.get("A"), Some("3".to_string()));
    assert_eq!(m.get("B"), Some("2".to_string()));
}

#[test]
fn handles_crlf_line_endings() {
    let m = parse_dotenv(Some("A=1\r\nB=2\r\n"));
    assert_eq!(m.get("A"), Some("1".to_string()));
    assert_eq!(m.get("B"), Some("2".to_string()));
}

#[test]
fn empty_value_is_kept() {
    let m = parse_dotenv(Some("EMPTY=\n"));
    assert_eq!(m.get("EMPTY"), Some(String::new()));
}

#[test]
fn missing_file_gives_empty_map() {
    let m = parse_dotenv(None);
    assert_eq!(m.get("A"), None);
}

#[test]
fn unicode_whitespace_is_trimmed() {
    let m = parse_dotenv(Some("\u{00A0}K\u{2003}=\u{3000}v\u{0085}"));
    assert_eq!(m.get("K"), Some("v".to_string()));
}

#[test]
fn secret_value_is_trimmed() {
    assert_eq!(trim_str("  s3cr3t \n"), "s3cr3t");
    assert_eq!(trim_str(" \t\n"), "");
}

#[test]
fn secret_file_wins_over_environment_and_dotenv() {
    let m = parse_dotenv(Some("KEY=from_dotenv"));
    let r = get_config("KEY", Some("from_secret".to_string()), EnvValue::Present("from_env".to_string()), &m);
    assert_eq!(r, Some("from_secret".to_string()));
}

#[test]
fn environment_wins_over_dotenv() {
    let m = parse_dotenv(Some("KEY=from_dotenv"));
    let r = get_config("KEY", None, EnvValue::Present("from_env".to_string()), &m);
    assert_eq!(r, Some("from_env".to_string()));
}

#[test]
fn dotenv_used_when_env_unset_or_not_unicode() {
    let m = parse_dotenv(Some("KEY=from_dotenv"));
    assert_eq!(get_config("KEY", None, EnvValue::Unset, &m), Some("from_dotenv".to_string()));
    assert_eq!(get_config("KEY", None, EnvValue::NotUnicode, &m), Some("from_dotenv".to_string()));
}

#[test]
fn missing_everywhere_is_none() {
    let m = parse_dotenv(Some("OTHER=1"));
    assert_eq!(get_config("KEY", None, EnvValue::Unset, &m), None);
}

#[test]
fn dotenv_is_parsed_once() {
    let mut cache = DotenvCache::new();
    assert!(!cache.is_loaded());
    {
        let m = dotenv_map(&mut cache, Some("A=1"));
        assert_eq!(m.get("A"), Some("1".to_string()));
    }
    assert!(cache.is_loaded());
    let m = dotenv_map(&mut cache, Some("A=2\nB=3"));
    assert_eq!(m.get("A"), Some("1".to_string()));
    assert_eq!(m.get("B"), None);
}

#[test]
fn first_readable_secret_location_wins() {
    let reads = vec![Some("  run \n".to_string()), Some("local".to_string())];
    assert_eq!(first_secret(&reads), Some("run".to_string()));
    let reads = vec![None, Some(" local\n".to_string())];
    assert_eq!(first_secret(&reads), Some("local".to_string()));
    let reads: Vec<Option<String>> = vec![None, None];
    assert_eq!(first_secret(&reads), None);
    assert_eq!(first_secret(&Vec::new()), None);
}

#[test]
fn typed_value_or_default() {
    assert_eq!(value_or_default(Some(9090u16), 8080), 9090);
    assert_eq!(value_or_default(None, 8080u16), 8080);
    assert_eq!(value_or_default(None, "localhost".to_string()), "localhost");
}
