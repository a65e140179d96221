use trade_bot::config::{parse_env_content, Config};

fn s(t: &str) -> Option<String> {
    Some(t.to_string())
}

#[test]
fn env_entries_are_trimmed_and_upper_cased() {
    let content = "api_key = abc\nAPI_SECRET=x=y\r\n# comment\n\n  backpack_rest_url= https://a \n";
    let entries = parse_env_content(content);
    let expected: Vec<(String, String)> = vec![
        ("API_KEY".to_string(), "abc".to_string()),
        ("API_SECRET".to_string(), "x=y".to_string()),
        ("BACKPACK_REST_URL".to_string(), "https://a".to_string()),
    ];
    assert_eq!(entries, expected);
}

#[test]
fn env_entries_of_concatenated_files() {
    let a = "a=1\nb=2\n";
    // a text that ends with a line feed, then another
    let b = "c=3\nno entry\nd = 4";
    let mut both = parse_env_content(a);
    both.extend(parse_env_content(b));
    assert_eq!(parse_env_content(&format!("{}{}", a, b)), both);
}

#[test]
fn env_edge_cases() {
    assert!(parse_env_content("").is_empty());
    assert!(parse_env_content("\n\n").is_empty());
    assert_eq!(
        parse_env_content("=v"),
        vec![("".to_string(), "v".to_string())]
    );
    assert_eq!(
        parse_env_content("straße=x"),
        vec![("STRASSE".to_string(), "x".to_string())]
    );
}

#[test]
fn config_from_all_values() {
    let c = Config::from_lookups(s("k"), s("sec"), s("https://r"), s("wss://w")).unwrap();
    assert_eq!(c.api_key, "k");
    assert_eq!(c.api_secret, "sec");
    assert_eq!(c.backpack_rest_url, "https://r");
    assert_eq!(c.backpack_ws_url, "wss://w");
}

#[test]
fn config_reports_the_first_missing_variable() {
    assert_eq!(
        Config::from_lookups(None, None, None, None).err().unwrap(),
        "API_KEY environment variable not set"
    );
    assert_eq!(
        Config::from_lookups(s("k"), None, None, s("w")).err().unwrap(),
        "API_SECRET environment variable not set"
    );
    assert_eq!(
        Config::from_lookups(s("k"), s("s"), None, None).err().unwrap(),
        "BACKPACK_REST_URL environment variable not set"
    );
    assert_eq!(
        Config::from_lookups(s("k"), s("s"), s("r"), None).err().unwrap(),
        "BACKPACK_WS_URL environment variable not set"
    );
}
