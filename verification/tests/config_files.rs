use anchorkit::config::{
    config_format, count_config_files, json_report, line_of_byte_offset, order_config_files,
    toml_report, validate_json, validate_toml, ConfigCheck, ConfigFormat, JsonSyntaxError,
    TomlSyntaxError,
};

fn names(list: &[&str]) -> Vec<Vec<u8>> {
    list.iter().map(|s| s.as_bytes().to_vec()).collect()
}

#[test]
fn recognises_config_extensions() {
    assert_eq!(config_format(b"settings.json"), Some(ConfigFormat::Json));
    assert_eq!(config_format(b"anchor.toml"), Some(ConfigFormat::Toml));
    assert_eq!(config_format(b"a.b.toml"), Some(ConfigFormat::Toml));
    assert_eq!(config_format(b".json"), None);
    assert_eq!(config_format(b"json"), None);
    assert_eq!(config_format(b"a.JSON"), None);
    assert_eq!(config_format(b"a.json.bak"), None);
    assert_eq!(config_format(b"a."), None);
    assert_eq!(config_format(b".."), None);
    assert_eq!(config_format(b""), None);
    assert_eq!(config_format(b"..json"), Some(ConfigFormat::Json));
}

#[test]
fn extension_matches_std_path() {
    for n in ["x.json", ".json", "..", "a.", "a.b.toml", "..json", "noext", ".hidden.toml"] {
        let std_ext = std::path::Path::new(n).extension().and_then(|s| s.to_str());
        let ours = config_format(n.as_bytes());
        let expected = match std_ext {
            Some("json") => Some(ConfigFormat::Json),
            Some("toml") => Some(ConfigFormat::Toml),
            _ => None,
        };
        assert_eq!(ours, expected, "{}", n);
    }
}

#[test]
fn orders_config_files_by_name() {
    let list = names(&["b.toml", "readme.md", "a.json", "c.json", "B.json", ".json"]);
    let order = order_config_files(&list);
    let ordered: Vec<&str> = order.iter().map(|&i| std::str::from_utf8(&list[i]).unwrap()).collect();
    assert_eq!(ordered, vec!["B.json", "a.json", "b.toml", "c.json"]);
    assert_eq!(count_config_files(&list), 4);
}

#[test]
fn no_config_files() {
    let list = names(&["readme.md", "x"]);
    assert!(order_config_files(&list).is_empty());
    assert_eq!(count_config_files(&list), 0);
    assert_eq!(count_config_files(&Vec::new()), 0);
}

#[test]
fn order_matches_path_sorting() {
    let list = names(&["zeta.toml", "alpha.json", "alpha.json.toml", "alpha.toml", "ä.json"]);
    let order = order_config_files(&list);
    let mut paths: Vec<std::path::PathBuf> = list
        .iter()
        .map(|n| std::path::Path::new("configs").join(std::str::from_utf8(n).unwrap()))
        .collect();
    paths.sort();
    let ours: Vec<std::path::PathBuf> = order
        .iter()
        .map(|&i| std::path::Path::new("configs").join(std::str::from_utf8(&list[i]).unwrap()))
        .collect();
    assert_eq!(ours, paths);
}

#[test]
fn valid_json_passes() {
    assert_eq!(validate_json("{\"a\": [1, 2, 3]}"), ConfigCheck::Valid);
}

#[test]
fn invalid_json_reports_position() {
    match validate_json("{\n  \"a\": 1,\n  \"b\" 2\n}") {
        ConfigCheck::InvalidJson { line, column, message } => {
            assert_eq!(line, 3);
            assert_eq!(column, 7);
            assert!(message.contains("line 3 column 7"), "{}", message);
        }
        other => panic!("unexpected {:?}", other),
    }
}

#[test]
fn json_report_maps_errors() {
    assert_eq!(json_report(Ok(())), ConfigCheck::Valid);
    let e = JsonSyntaxError { line: 2, column: 5, message: "bad".to_string() };
    assert_eq!(
        json_report(Err(e)),
        ConfigCheck::InvalidJson { line: 2, column: 5, message: "bad".to_string() }
    );
}

#[test]
fn valid_toml_passes() {
    assert_eq!(validate_toml("title = 'x'\n[owner]\nname = 'y'\n"), Some(ConfigCheck::Valid));
}

#[test]
fn invalid_toml_reports_line() {
    let content = "a = 1\nb = 2\nc = \n";
    match validate_toml(content) {
        Some(ConfigCheck::InvalidToml { line, message }) => {
            assert_eq!(line, Some(3));
            assert!(!message.is_empty());
        }
        other => panic!("unexpected {:?}", other),
    }
}

#[test]
fn toml_report_counts_newlines_before_span() {
    let content = "x\ny\nzé\nw";
    let e = TomlSyntaxError { span: Some((7, 8)), message: "m".to_string(), display: "d".to_string() };
    assert_eq!(
        toml_report(content, Err(e)),
        ConfigCheck::InvalidToml { line: Some(3), message: "m".to_string() }
    );
    let e = TomlSyntaxError { span: None, message: "m".to_string(), display: "d".to_string() };
    assert_eq!(
        toml_report(content, Err(e)),
        ConfigCheck::InvalidToml { line: None, message: "d".to_string() }
    );
    assert_eq!(toml_report(content, Ok(())), ConfigCheck::Valid);
}

#[test]
fn line_of_offset_matches_slicing() {
    let content = "ab\ncé\n\nd";
    let cs: Vec<char> = content.chars().collect();
    for off in 0..=content.len() {
        let expected = if content.is_char_boundary(off) {
            Some(content[..off].chars().filter(|&c| c == '\n').count() + 1)
        } else {
            None
        };
        assert_eq!(line_of_byte_offset(&cs, off), expected, "offset {}", off);
    }
    assert_eq!(line_of_byte_offset(&cs, content.len() + 1), None);
}
