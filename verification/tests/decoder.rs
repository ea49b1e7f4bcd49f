use motd::{
    color_of_name, decode_banner, decode_document, decode_last_login, kind_of_key,
    sections_in_order, BannerColor, DecodeError, Scalar, SectionKind, Value,
};

fn table(entries: Vec<(&str, Scalar)>) -> Value {
    Value::Table(entries.into_iter().map(|(k, v)| (k.to_string(), v)).collect())
}

fn text(s: &str) -> Scalar {
    Scalar::Text(s.to_string())
}

fn banner_value(color: &str, command: &str) -> Value {
    table(vec![("color", text(color)), ("command", text(command))])
}

#[test]
fn empty_document_fails() {
    let doc = Vec::new();
    let r = decode_document(&doc);
    assert_eq!(r, Err(DecodeError::EmptyDocument));
}

#[test]
fn empty_document_fails_repeatedly() {
    let doc = Vec::new();
    assert_eq!(decode_document(&doc), Err(DecodeError::EmptyDocument));
    assert_eq!(decode_document(&doc), Err(DecodeError::EmptyDocument));
}

#[test]
fn four_sections_in_author_order() {
    let doc = vec![
        ("last_run".to_string(), table(vec![])),
        (
            "last_login".to_string(),
            table(vec![("user", Scalar::Int(1)), ("user2", Scalar::Int(2))]),
        ),
        ("banner".to_string(), banner_value("white", "date")),
        ("docker".to_string(), table(vec![("/blah", text("blah"))])),
    ];
    let cfg = decode_document(&doc).unwrap();
    let last_run = cfg.last_run.unwrap();
    let last_login = cfg.last_login.unwrap();
    let banner = cfg.banner.unwrap();
    let docker = cfg.docker.unwrap();
    assert_eq!(last_run.position, 0);
    assert_eq!(last_login.position, 1);
    assert_eq!(banner.position, 2);
    assert_eq!(docker.position, 3);
    assert!(last_run.position < last_login.position);
    assert!(last_login.position < banner.position);
    assert!(banner.position < docker.position);
    assert_eq!(banner.value.color, BannerColor::White);
    assert_eq!(banner.value.command, "date");
    assert_eq!(
        last_login.value,
        vec![("user".to_string(), 1u64), ("user2".to_string(), 2u64)]
    );
    assert_eq!(docker.value, vec![("/blah".to_string(), "blah".to_string())]);
}

#[test]
fn order_recovered_from_positions() {
    let doc = vec![
        ("docker".to_string(), table(vec![])),
        ("banner".to_string(), banner_value("red", "uptime")),
        ("last_run".to_string(), table(vec![])),
    ];
    let cfg = decode_document(&doc).unwrap();
    let mut present = vec![
        (cfg.docker.as_ref().unwrap().position, "docker"),
        (cfg.banner.as_ref().unwrap().position, "banner"),
        (cfg.last_run.as_ref().unwrap().position, "last_run"),
    ];
    present.sort();
    let order: Vec<&str> = present.into_iter().map(|(_, name)| name).collect();
    assert_eq!(order, vec!["docker", "banner", "last_run"]);
    assert!(cfg.last_login.is_none());
}

#[test]
fn decoding_is_idempotent() {
    let doc = vec![
        ("banner".to_string(), banner_value("light_blue", "echo hi")),
        ("docker".to_string(), table(vec![("/data", text("label"))])),
    ];
    let first = decode_document(&doc);
    let second = decode_document(&doc);
    assert_eq!(first, second);
    assert!(first.is_ok());
}

#[test]
fn docker_alone_at_position_zero() {
    let doc = vec![("docker".to_string(), table(vec![("/data", text("label"))]))];
    let cfg = decode_document(&doc).unwrap();
    let docker = cfg.docker.unwrap();
    assert_eq!(docker.position, 0);
    assert_eq!(docker.value, vec![("/data".to_string(), "label".to_string())]);
    assert!(cfg.banner.is_none());
    assert!(cfg.last_login.is_none());
    assert!(cfg.last_run.is_none());
}

#[test]
fn negative_last_login_count_fails() {
    let doc = vec![
        ("banner".to_string(), banner_value("cyan", "date")),
        (
            "last_login".to_string(),
            table(vec![("root", Scalar::Int(-1))]),
        ),
    ];
    let r = decode_document(&doc);
    assert_eq!(
        r,
        Err(DecodeError::TypeMismatch {
            section: SectionKind::LastLogin,
            field: "root".to_string(),
        })
    );
}

#[test]
fn unknown_key_fails_consistently() {
    let doc = vec![
        ("banner".to_string(), banner_value("green", "date")),
        ("foo".to_string(), Value::Scalar(Scalar::Int(1))),
    ];
    let expected = Err(DecodeError::UnknownSection { key: "foo".to_string() });
    assert_eq!(decode_document(&doc), expected);
    assert_eq!(decode_document(&doc), expected);
}

#[test]
fn repeated_section_last_occurrence_wins() {
    let doc = vec![
        ("banner".to_string(), banner_value("red", "first")),
        ("last_run".to_string(), table(vec![])),
        ("banner".to_string(), banner_value("blue", "second")),
    ];
    let cfg = decode_document(&doc).unwrap();
    let banner = cfg.banner.unwrap();
    assert_eq!(banner.position, 2);
    assert_eq!(banner.value.color, BannerColor::Blue);
    assert_eq!(banner.value.command, "second");
    assert_eq!(cfg.last_run.unwrap().position, 1);
}

#[test]
fn section_keys_match_case_insensitively() {
    assert_eq!(kind_of_key("Banner"), Some(SectionKind::Banner));
    assert_eq!(kind_of_key("DOCKER"), Some(SectionKind::Docker));
    assert_eq!(kind_of_key("Last_Login"), Some(SectionKind::LastLogin));
    assert_eq!(kind_of_key("last_run"), Some(SectionKind::LastRun));
    assert_eq!(kind_of_key("lastlogin"), None);
    assert_eq!(kind_of_key("banner "), None);
    assert_eq!(kind_of_key(""), None);
}

#[test]
fn every_named_color_decodes() {
    let cases = vec![
        ("black", BannerColor::Black),
        ("red", BannerColor::Red),
        ("green", BannerColor::Green),
        ("yellow", BannerColor::Yellow),
        ("blue", BannerColor::Blue),
        ("magenta", BannerColor::Magenta),
        ("cyan", BannerColor::Cyan),
        ("white", BannerColor::White),
        ("light_black", BannerColor::LightBlack),
        ("light_red", BannerColor::LightRed),
        ("light_green", BannerColor::LightGreen),
        ("light_yellow", BannerColor::LightYellow),
        ("light_blue", BannerColor::LightBlue),
        ("light_magenta", BannerColor::LightMagenta),
        ("light_cyan", BannerColor::LightCyan),
        ("light_white", BannerColor::LightWhite),
    ];
    for (name, color) in cases {
        assert_eq!(color_of_name(name), Some(color));
        let upper = name.to_uppercase();
        assert_eq!(color_of_name(&upper), Some(color));
        let r = decode_banner(&banner_value(name, "date")).unwrap();
        assert_eq!(r.color, color);
    }
}

#[test]
fn light_color_aliases_decode() {
    assert_eq!(color_of_name("lightblack"), Some(BannerColor::LightBlack));
    assert_eq!(color_of_name("LightRed"), Some(BannerColor::LightRed));
    assert_eq!(color_of_name("lightgreen"), Some(BannerColor::LightGreen));
    assert_eq!(color_of_name("LightYellow"), Some(BannerColor::LightYellow));
    assert_eq!(color_of_name("lightblue"), Some(BannerColor::LightBlue));
    assert_eq!(color_of_name("LightMagenta"), Some(BannerColor::LightMagenta));
    assert_eq!(color_of_name("lightcyan"), Some(BannerColor::LightCyan));
    assert_eq!(color_of_name("LightWhite"), Some(BannerColor::LightWhite));
}

#[test]
fn unknown_color_fails() {
    assert_eq!(color_of_name("mauve"), None);
    assert_eq!(color_of_name("light black"), None);
    assert_eq!(color_of_name(""), None);
    let r = decode_banner(&banner_value("mauve", "date"));
    assert_eq!(r, Err(DecodeError::UnknownColor { name: "mauve".to_string() }));
}

#[test]
fn banner_missing_fields_fail() {
    let no_color = table(vec![("command", text("date"))]);
    assert_eq!(
        decode_banner(&no_color),
        Err(DecodeError::MissingField {
            section: SectionKind::Banner,
            field: "color".to_string(),
        })
    );
    let no_command = table(vec![("color", text("red"))]);
    assert_eq!(
        decode_banner(&no_command),
        Err(DecodeError::MissingField {
            section: SectionKind::Banner,
            field: "command".to_string(),
        })
    );
}

#[test]
fn banner_wrong_field_type_fails() {
    let bad = table(vec![("color", Scalar::Int(3)), ("command", text("date"))]);
    assert_eq!(
        decode_banner(&bad),
        Err(DecodeError::TypeMismatch {
            section: SectionKind::Banner,
            field: "color".to_string(),
        })
    );
}

#[test]
fn empty_docker_table_is_valid() {
    let doc = vec![("docker".to_string(), table(vec![]))];
    let cfg = decode_document(&doc).unwrap();
    let docker = cfg.docker.unwrap();
    assert_eq!(docker.position, 0);
    assert!(docker.value.is_empty());
}

#[test]
fn docker_non_string_value_fails() {
    let doc = vec![(
        "docker".to_string(),
        table(vec![("/data", Scalar::Int(7))]),
    )];
    assert_eq!(
        decode_document(&doc),
        Err(DecodeError::TypeMismatch {
            section: SectionKind::Docker,
            field: "/data".to_string(),
        })
    );
}

#[test]
fn last_login_non_integer_fails() {
    let v = table(vec![("root", text("three"))]);
    assert_eq!(
        decode_last_login(&v),
        Err(DecodeError::TypeMismatch {
            section: SectionKind::LastLogin,
            field: "root".to_string(),
        })
    );
}

#[test]
fn last_run_ignores_unexpected_fields() {
    let doc = vec![(
        "last_run".to_string(),
        table(vec![("surprise", Scalar::Int(9))]),
    )];
    let cfg = decode_document(&doc).unwrap();
    assert_eq!(cfg.last_run.unwrap().position, 0);
}

#[test]
fn non_table_section_value_fails() {
    let doc = vec![("banner".to_string(), Value::Scalar(Scalar::Int(1)))];
    assert_eq!(
        decode_document(&doc),
        Err(DecodeError::TypeMismatch {
            section: SectionKind::Banner,
            field: String::new(),
        })
    );
}

#[test]
fn fail_fast_reports_first_error() {
    let doc = vec![
        (
            "last_login".to_string(),
            table(vec![("root", Scalar::Int(-5))]),
        ),
        ("foo".to_string(), Value::Scalar(Scalar::Int(1))),
    ];
    assert_eq!(
        decode_document(&doc),
        Err(DecodeError::TypeMismatch {
            section: SectionKind::LastLogin,
            field: "root".to_string(),
        })
    );
}

#[test]
fn sections_listed_in_author_order() {
    let doc = vec![
        ("last_run".to_string(), table(vec![])),
        ("last_login".to_string(), table(vec![("user", Scalar::Int(1))])),
        ("banner".to_string(), banner_value("white", "date")),
        ("docker".to_string(), table(vec![("/blah", text("blah"))])),
    ];
    let cfg = decode_document(&doc).unwrap();
    let order = sections_in_order(&cfg);
    assert_eq!(
        order,
        vec![
            (0, SectionKind::LastRun),
            (1, SectionKind::LastLogin),
            (2, SectionKind::Banner),
            (3, SectionKind::Docker),
        ]
    );
}

#[test]
fn sections_in_order_of_empty_config_is_empty() {
    let doc = vec![("docker".to_string(), table(vec![]))];
    let mut cfg = decode_document(&doc).unwrap();
    cfg.docker = None;
    assert!(sections_in_order(&cfg).is_empty());
}

#[test]
fn banner_duplicate_field_last_wins() {
    let v = table(vec![
        ("color", text("red")),
        ("command", text("date")),
        ("color", text("blue")),
    ]);
    let b = decode_banner(&v).unwrap();
    assert_eq!(b.color, BannerColor::Blue);
}
