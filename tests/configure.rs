use github_webhook_notification::configure::{
    is_chat_ids, parse_value, Config, ConfigValue, Repository, RepositoryBuilder, Server, Telegram, TomlConfig,
    TomlRepository, TomlServer, TomlTelegram,
};

fn text(s: &str) -> String {
    s.to_string()
}

fn sample_config() -> TomlConfig {
    TomlConfig {
        server: TomlServer {
            bind: text("127.0.0.1"),
            port: 11451,
            secrets: Some(text("1145141919810")),
            token: None,
        },
        telegram: TomlTelegram {
            bot_token: text("1145141919:810abcdefg"),
            api_server: None,
            send_to: ConfigValue::Array(vec![
                ConfigValue::Integer(114514),
                ConfigValue::String(text("1919810")),
            ]),
        },
        repository: Some(vec![
            TomlRepository {
                full_name: text("MonsterSenpai/SummerNight-HornyFantasy"),
                send_to: Some(ConfigValue::Array(vec![
                    ConfigValue::Integer(1),
                    ConfigValue::Integer(2),
                    ConfigValue::Integer(3),
                    ConfigValue::String(text("4")),
                    ConfigValue::String(text("5")),
                    ConfigValue::Integer(6),
                ])),
                branch_ignore: None,
                secrets: None,
            },
            TomlRepository {
                full_name: text("BillyKing/Wrestling"),
                send_to: Some(ConfigValue::Integer(114514)),
                branch_ignore: Some(vec![text("gh-pages"), text("dev")]),
                secrets: Some(text("1145141919810")),
            },
            TomlRepository {
                full_name: text("sample/test"),
                send_to: None,
                branch_ignore: None,
                secrets: Some(text("2333")),
            },
        ]),
    }
}

#[test]
fn test_configure() {
    let cfg = Config::from_toml(&sample_config()).unwrap();
    assert_eq!(cfg.server().bind(), "127.0.0.1:11451");
    assert_eq!(cfg.server().secrets(), "1145141919810");
    assert!(cfg.server().token().is_empty());
    assert_eq!(cfg.telegram().bot_token(), "1145141919:810abcdefg");
    let result = vec![114514, 1919810i64];
    assert_eq!(cfg.telegram().send_to().len(), result.len());
    assert_eq!(
        cfg.telegram()
            .send_to()
            .into_iter()
            .zip(&result)
            .filter(|&(a, b)| a == b)
            .count(),
        result.len()
    );

    // Test first repository
    let repo = cfg.fetch_repository_configure("MonsterSenpai/SummerNight-HornyFantasy");
    assert!(repo.branch_ignore().is_empty());
    assert!(!repo.send_to().is_empty());
    assert_eq!(repo.send_to().len(), 6);

    // Test second repository
    let repo = cfg.fetch_repository_configure("BillyKing/Wrestling");
    assert_eq!(repo.send_to().len(), 1);
    assert_eq!(repo.branch_ignore().len(), 2);
    assert_eq!(repo.secrets(), cfg.server().secrets());

    // Test third repository
    let repo = cfg.fetch_repository_configure("sample/test");
    assert!(repo.branch_ignore().is_empty());
    assert_eq!(
        repo.send_to()
            .into_iter()
            .zip(&result)
            .filter(|(a, b)| a == b)
            .count(),
        result.len()
    );
    assert_eq!(repo.secrets(), "2333");

    // Test not exist repository
    let r_missing = cfg.fetch_repository_configure("114514/1919810");
    assert_eq!(r_missing.secrets(), cfg.server().secrets());
    assert!(r_missing.branch_ignore().is_empty());
    assert_eq!(r_missing.send_to(), cfg.telegram().send_to());
}

#[test]
fn unknown_repository_gets_global_defaults() {
    let cfg = Config::from_toml(&sample_config()).unwrap();
    let repo = cfg.fetch_repository_configure("nobody/nothing");
    assert_eq!(repo.send_to(), &vec![114514, 1919810]);
    assert_eq!(repo.secrets(), "1145141919810");
    assert!(repo.branch_ignore().is_empty());
}

#[test]
fn empty_destinations_fall_back_but_keep_empty_secret() {
    let mut toml = sample_config();
    toml.repository = Some(vec![TomlRepository {
        full_name: text("open/repo"),
        send_to: Some(ConfigValue::Array(vec![])),
        branch_ignore: Some(vec![text("wip")]),
        secrets: Some(text("")),
    }]);
    let cfg = Config::from_toml(&toml).unwrap();
    let repo = cfg.fetch_repository_configure("open/repo");
    assert_eq!(repo.send_to(), &vec![114514, 1919810]);
    assert_eq!(repo.secrets(), "");
    assert_eq!(repo.branch_ignore(), &vec![text("wip")]);
}

#[test]
fn later_entry_replaces_earlier_one() {
    let mut toml = sample_config();
    toml.repository = Some(vec![
        TomlRepository {
            full_name: text("a/b"),
            send_to: Some(ConfigValue::Integer(1)),
            branch_ignore: None,
            secrets: Some(text("first")),
        },
        TomlRepository {
            full_name: text("a/b"),
            send_to: Some(ConfigValue::Integer(2)),
            branch_ignore: None,
            secrets: Some(text("second")),
        },
    ]);
    let cfg = Config::from_toml(&toml).unwrap();
    assert_eq!(cfg.repo_mapping().len(), 1);
    let repo = cfg.fetch_repository_configure("a/b");
    assert_eq!(repo.send_to(), &vec![2]);
    assert_eq!(repo.secrets(), "second");
}

#[test]
fn bad_destination_fails_the_configuration() {
    let mut toml = sample_config();
    toml.telegram.send_to = ConfigValue::String(text("not a number"));
    assert!(Config::from_toml(&toml).is_none());

    let mut toml = sample_config();
    toml.repository = Some(vec![TomlRepository {
        full_name: text("a/b"),
        send_to: Some(ConfigValue::Other),
        branch_ignore: None,
        secrets: None,
    }]);
    assert!(Config::from_toml(&toml).is_none());
    assert!(toml.convert_hashmap().is_none());
}

#[test]
fn parse_value_reads_numbers_and_numeric_strings() {
    let cases = vec![
        (ConfigValue::Integer(-5), vec![-5]),
        (ConfigValue::String(text("-42")), vec![-42]),
        (ConfigValue::String(text("+7")), vec![7]),
        (ConfigValue::String(text("9223372036854775807")), vec![i64::MAX]),
        (
            ConfigValue::Array(vec![ConfigValue::String(text("10")), ConfigValue::Integer(20)]),
            vec![10, 20],
        ),
        (ConfigValue::Array(vec![]), vec![]),
    ];
    for (value, ids) in cases {
        assert!(is_chat_ids(&value));
        assert_eq!(parse_value(&value), ids);
    }
}

#[test]
fn other_values_are_not_chat_ids() {
    assert!(!is_chat_ids(&ConfigValue::String(text(""))));
    assert!(!is_chat_ids(&ConfigValue::String(text("-"))));
    assert!(!is_chat_ids(&ConfigValue::String(text("12a"))));
    assert!(!is_chat_ids(&ConfigValue::String(text(" 12"))));
    assert!(!is_chat_ids(&ConfigValue::String(text("9223372036854775808"))));
    assert!(!is_chat_ids(&ConfigValue::Other));
    assert!(!is_chat_ids(&ConfigValue::Array(vec![ConfigValue::Array(vec![
        ConfigValue::Integer(1)
    ])])));
    assert!(!is_chat_ids(&ConfigValue::Array(vec![ConfigValue::Integer(1), ConfigValue::Other])));
}

#[test]
fn server_joins_bind_and_port() {
    let server = Server::from_toml(&TomlServer {
        bind: text("0.0.0.0"),
        port: 8080,
        secrets: None,
        token: Some(text("tk")),
    });
    assert_eq!(server.bind(), "0.0.0.0:8080");
    assert_eq!(server.secrets(), "");
    assert_eq!(server.token(), "tk");
    let zero = Server::from_toml(&TomlServer { bind: text("h"), port: 0, secrets: None, token: None });
    assert_eq!(zero.bind(), "h:0");
    let max = Server::from_toml(&TomlServer { bind: text("h"), port: 65535, secrets: None, token: None });
    assert_eq!(max.bind(), "h:65535");
}

#[test]
fn unprotected_server_is_detected() {
    let both_missing = TomlServer { bind: text("h"), port: 1, secrets: None, token: None };
    assert!(both_missing.unprotected());
    let both_empty =
        TomlServer { bind: text("h"), port: 1, secrets: Some(text("")), token: Some(text("")) };
    assert!(both_empty.unprotected());
    let secret_only =
        TomlServer { bind: text("h"), port: 1, secrets: Some(text("s")), token: None };
    assert!(!secret_only.unprotected());
    let empty_secret_no_token =
        TomlServer { bind: text("h"), port: 1, secrets: Some(text("")), token: None };
    assert!(!empty_secret_no_token.unprotected());
}

#[test]
fn telegram_settings_copy_the_table() {
    let t = Telegram::from_toml(&TomlTelegram {
        bot_token: text("123:abc"),
        api_server: Some(text("https://api.example.org")),
        send_to: ConfigValue::String(text("42")),
    })
    .unwrap();
    assert_eq!(t.bot_token(), "123:abc");
    assert_eq!(t.api_server(), &Some(text("https://api.example.org")));
    assert_eq!(t.send_to(), &vec![42]);
}

#[test]
fn repository_from_entry_and_builder() {
    let r = Repository::from_toml(&TomlRepository {
        full_name: text("x/y"),
        send_to: None,
        branch_ignore: None,
        secrets: None,
    })
    .unwrap();
    assert!(r.send_to().is_empty());
    assert!(r.branch_ignore().is_empty());
    assert_eq!(r.secrets(), "");

    let built = RepositoryBuilder::new()
        .set_send_to(vec![7, 8])
        .set_branch_ignore(vec![text("main")])
        .set_secrets(&text("k"))
        .build();
    assert_eq!(built.send_to(), &vec![7, 8]);
    assert_eq!(built.branch_ignore(), &vec![text("main")]);
    assert_eq!(built.secrets(), "k");
}
