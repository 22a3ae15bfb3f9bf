use translation_docs::config::{AllAppConfig, AppConfig, AppLocales};
use translation_docs::locale::parse_locale;

fn app(name: &str, languages: &[&str]) -> AppConfig {
    AppConfig {
        name: name.to_string(),
        languages: languages.iter().map(|raw| raw.to_string()).collect(),
    }
}

#[test]
fn empty_configuration_gives_empty_mapping() {
    let loaded = AppLocales::from_config(&AllAppConfig { apps: vec![] });
    assert_eq!(loaded.len(), 0);
    assert!(loaded.entries().is_empty());
    assert!(loaded.get(&"App1".to_string()).is_none());
}

#[test]
fn keys_are_the_application_names() {
    let config = AllAppConfig {
        apps: vec![app("App1", &["en-US", "fr"]), app("App2", &["de"]), app("App3", &[])],
    };
    let loaded = AppLocales::from_config(&config);
    assert_eq!(loaded.len(), 3);
    let names: Vec<&str> = loaded.entries().iter().map(|entry| entry.name.as_str()).collect();
    assert_eq!(names, vec!["App1", "App2", "App3"]);
    assert!(loaded.get(&"App4".to_string()).is_none());
    assert!(loaded.get(&"app1".to_string()).is_none());
}

#[test]
fn values_are_the_parsed_languages_in_order() {
    let config = AllAppConfig { apps: vec![app("App1", &["en-US", "fr", "zh-Hans-CN"])] };
    let loaded = AppLocales::from_config(&config);
    let locales = loaded.get(&"App1".to_string()).unwrap();
    assert_eq!(locales.len(), 3);
    assert_eq!(locales[0].language, "en");
    assert_eq!(locales[0].territory, Some("US".to_string()));
    assert_eq!(locales[1].language, "fr");
    assert_eq!(locales[1].territory, None);
    assert_eq!(locales[2].language, "zh");
    assert_eq!(locales[2].territory, Some("Hans".to_string()));
}

#[test]
fn application_without_languages() {
    let loaded = AppLocales::from_config(&AllAppConfig { apps: vec![app("App1", &[])] });
    assert_eq!(loaded.get(&"App1".to_string()).unwrap().len(), 0);
}

#[test]
fn later_application_of_the_same_name_wins() {
    let config = AllAppConfig {
        apps: vec![app("App1", &["en", "fr"]), app("App2", &["de"]), app("App1", &["es-MX"])],
    };
    let loaded = AppLocales::from_config(&config);
    assert_eq!(loaded.len(), 2);
    let locales = loaded.get(&"App1".to_string()).unwrap();
    assert_eq!(locales.len(), 1);
    assert_eq!(locales[0].language, "es");
    assert_eq!(locales[0].territory, Some("MX".to_string()));
    let names: Vec<&str> = loaded.entries().iter().map(|entry| entry.name.as_str()).collect();
    assert_eq!(names, vec!["App1", "App2"]);
    assert_eq!(loaded.get(&"App2".to_string()).unwrap()[0].language, "de");
}

#[test]
fn insert_adds_and_replaces() {
    let mut loaded = AppLocales::new();
    assert_eq!(loaded.len(), 0);
    loaded.insert("a".to_string(), vec![parse_locale("en")]);
    loaded.insert("b".to_string(), vec![parse_locale("fr"), parse_locale("de")]);
    assert_eq!(loaded.len(), 2);
    loaded.insert("a".to_string(), vec![]);
    assert_eq!(loaded.len(), 2);
    assert_eq!(loaded.get(&"a".to_string()).unwrap().len(), 0);
    assert_eq!(loaded.get(&"b".to_string()).unwrap().len(), 2);
    assert_eq!(loaded.entries()[0].name, "a");
    assert_eq!(loaded.entries()[1].name, "b");
}

#[test]
fn application_with_empty_name() {
    let loaded = AppLocales::from_config(&AllAppConfig { apps: vec![app("", &["en"])] });
    assert_eq!(loaded.len(), 1);
    assert_eq!(loaded.get(&String::new()).unwrap()[0].language, "en");
}
