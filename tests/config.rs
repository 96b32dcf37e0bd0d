use rmcloud::{
    ApiError, CommonError, Config, ConfigError, ConfigValue, TomlError, Ui, UiError,
};

fn s(v: &str) -> ConfigValue {
    ConfigValue::Str(v.to_string())
}

fn table(entries: Vec<(&str, ConfigValue)>) -> ConfigValue {
    ConfigValue::Table(entries.into_iter().map(|(k, v)| (k.to_string(), v)).collect())
}

fn document(ui_url: &str, port: i64, with_smtp: bool) -> ConfigValue {
    let mut api = vec![
        ("URL", s("api.example.org")),
        ("SECRET_KEY", s("k")),
        ("DATADIR", s("/data")),
    ];
    if with_smtp {
        api.push(("SMTP", table(vec![("SERVER", s("smtp")), ("USERNAME", s("u")), ("PASSWORD", s("p"))])));
    }
    table(vec![
        ("COMMON", table(vec![("PORT", ConfigValue::Int(port)), ("LOGLEVEL", s("debug")), ("SOCKET", ConfigValue::Int(8081))])),
        ("API", table(api)),
        ("UI", table(vec![("URL", s(ui_url))])),
    ])
}

#[test]
fn full_config_reads() {
    let c = Config::create(&document("ui.example.org", 8080, true)).unwrap();
    assert_eq!(c.common.port, 8080);
    assert_eq!(c.common.socket, 8081);
    assert_eq!(c.common.loglevel, "debug");
    assert_eq!(c.api.url, "api.example.org");
    assert_eq!(c.api.secret_key, "k");
    assert_eq!(c.api.data_dir, "/data");
    assert_eq!(c.api.smtp.as_ref().unwrap().server, "smtp");
    assert!(c.api.hwr.is_none());
    assert_eq!(c.ui.url, "ui.example.org");
}

#[test]
fn optional_groups_may_be_absent() {
    let c = Config::create(&document("ui", 1, false)).unwrap();
    assert!(c.api.smtp.is_none());
    assert_eq!(c.common.port, 1);
}

#[test]
fn ui_url_with_scheme_is_refused() {
    assert!(matches!(
        Config::create(&document("http://ui", 8080, false)),
        Err(ConfigError::UiError(UiError::UrlContainsProtocol))
    ));
    assert!(matches!(
        Ui::create(&table(vec![("UI", table(vec![("URL", s("a://b"))]))])),
        Err(UiError::UrlContainsProtocol)
    ));
    assert!(Ui::create(&table(vec![("UI", table(vec![("URL", s("a:/b"))]))])).is_ok());
}

#[test]
fn missing_keys_are_named() {
    assert!(matches!(Ui::create(&table(vec![])), Err(UiError::YamlError(TomlError::KeyNotFound("UI")))));
    assert!(matches!(
        Ui::create(&table(vec![("UI", table(vec![]))])),
        Err(UiError::YamlError(TomlError::KeyNotFound("UI.URL")))
    ));
    assert!(matches!(
        Ui::create(&table(vec![("UI", table(vec![("URL", ConfigValue::Int(3))]))])),
        Err(UiError::YamlError(TomlError::WrongType("UI.URL", "String")))
    ));
    let no_api = table(vec![("UI", table(vec![("URL", s("ui"))]))]);
    assert!(matches!(
        Config::create(&no_api),
        Err(ConfigError::ApiError(ApiError::YamlError(TomlError::KeyNotFound("API"))))
    ));
}

#[test]
fn port_range_is_checked() {
    for bad in [0, 65536, -1] {
        assert!(matches!(
            Config::create(&document("ui", bad, false)),
            Err(ConfigError::CommonError(CommonError::TomlError(TomlError::WrongType("COMMON.PORT", "Integer"))))
        ));
    }
    assert_eq!(Config::create(&document("ui", 65535, false)).unwrap().common.port, 65535);
}

#[test]
fn incomplete_smtp_group_is_refused() {
    let doc = table(vec![
        ("UI", table(vec![("URL", s("ui"))])),
        ("API", table(vec![
            ("URL", s("a")),
            ("SECRET_KEY", s("k")),
            ("DATADIR", s("d")),
            ("SMTP", table(vec![("SERVER", s("smtp"))])),
        ])),
    ]);
    assert!(matches!(
        Config::create(&doc),
        Err(ConfigError::ApiError(ApiError::YamlError(TomlError::KeyNotFound("API.SMTP.USERNAME"))))
    ));
}

#[test]
fn lookup_takes_first_entry() {
    let t = table(vec![("K", s("one")), ("K", s("two"))]);
    assert!(matches!(t.get("K"), Some(ConfigValue::Str(v)) if v == "one"));
    assert!(t.get("missing").is_none());
    assert!(s("x").get("K").is_none());
}
