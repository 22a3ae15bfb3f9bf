use translation_docs::locale::parse_locale;

#[test]
fn language_and_territory() {
    let locale = parse_locale("en-US");
    assert_eq!(locale.language, "en");
    assert_eq!(locale.territory, Some("US".to_string()));
}

#[test]
fn language_alone_has_no_territory() {
    let locale = parse_locale("fr");
    assert_eq!(locale.language, "fr");
    assert_eq!(locale.territory, None);
}

#[test]
fn empty_identifier() {
    let locale = parse_locale("");
    assert_eq!(locale.language, "");
    assert_eq!(locale.territory, None);
}

#[test]
fn lone_dash_gives_two_empty_parts() {
    let locale = parse_locale("-");
    assert_eq!(locale.language, "");
    assert_eq!(locale.territory, Some(String::new()));
}

#[test]
fn leading_dash_gives_empty_language() {
    let locale = parse_locale("-US");
    assert_eq!(locale.language, "");
    assert_eq!(locale.territory, Some("US".to_string()));
}

#[test]
fn trailing_dash_gives_empty_territory() {
    let locale = parse_locale("en-");
    assert_eq!(locale.language, "en");
    assert_eq!(locale.territory, Some(String::new()));
}

#[test]
fn segments_after_the_second_are_dropped() {
    let locale = parse_locale("zh-Hans-CN");
    assert_eq!(locale.language, "zh");
    assert_eq!(locale.territory, Some("Hans".to_string()));
}

#[test]
fn doubled_dash_gives_empty_territory() {
    let locale = parse_locale("en--US");
    assert_eq!(locale.language, "en");
    assert_eq!(locale.territory, Some(String::new()));
}

#[test]
fn characters_of_several_bytes() {
    let locale = parse_locale("日本-語é-x");
    assert_eq!(locale.language, "日本");
    assert_eq!(locale.territory, Some("語é".to_string()));
}

#[test]
fn language_is_what_stands_before_the_first_dash() {
    for raw in ["en", "en-US", "-", "", "a-b-c", "--", "pt-BR-x-y", "ß-ü"] {
        let locale = parse_locale(raw);
        let expected = match raw.find('-') {
            Some(at) => &raw[..at],
            None => raw,
        };
        assert_eq!(locale.language, expected);
        assert_eq!(locale.territory.is_none(), !raw.contains('-'));
    }
}
