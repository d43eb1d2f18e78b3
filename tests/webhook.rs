use github_webhook_notification::configure::{
    Config, ConfigValue, TomlConfig, TomlRepository, TomlServer, TomlTelegram,
};
use github_webhook_notification::datastructures::{
    AuthorizationGuard, CommandBundle, Commit, DisplayableEvent, GitHubEarlyParse,
    GitHubPingEvent, GitHubPushEvent, Repository, Response, SERVER_VERSION,
};
use github_webhook_notification::delivery::{Command, DeliveryWorker, WorkerState};
use github_webhook_notification::ingress::{
    check_0, handle_post, BodyBuffer, WebhookRequest, BODY_LIMIT,
};
use github_webhook_notification::signature::{
    compute_signature, to_lower_hex, verify_signature, SignatureError,
};

fn text(s: &str) -> String {
    s.to_string()
}

const PUSH_BODY: &[u8] = b"{\"ref\":\"refs/heads/main\"}";
const PUSH_SIGNATURE: &str =
    "sha256=8588fd50c04ac2c191575340c4c0fe284157898def8e4d10af822f05dd7c9bb5";

fn scenario_config(branch_ignore: Option<Vec<String>>) -> Config {
    Config::from_toml(&TomlConfig {
        server: TomlServer {
            bind: text("127.0.0.1"),
            port: 8000,
            secrets: Some(text("global")),
            token: None,
        },
        telegram: TomlTelegram {
            bot_token: text("1:bot"),
            api_server: None,
            send_to: ConfigValue::Integer(999),
        },
        repository: Some(vec![
            TomlRepository {
                full_name: text("org/repo"),
                send_to: Some(ConfigValue::Array(vec![
                    ConfigValue::Integer(111),
                    ConfigValue::Integer(222),
                ])),
                branch_ignore,
                secrets: Some(text("s3cr3t")),
            },
            TomlRepository {
                full_name: text("org/open"),
                send_to: None,
                branch_ignore: None,
                secrets: Some(text("")),
            },
        ]),
    })
    .unwrap()
}

fn commit(id: &str, message: &str, url: &str) -> Commit {
    Commit { id: text(id), message: text(message), url: text(url) }
}

fn push_event(repo: &str, remote_ref: &str, commits: Vec<Commit>) -> GitHubPushEvent {
    GitHubPushEvent {
        remote_ref: text(remote_ref),
        after: text("1111111111111111111111111111111111111111"),
        before: text("2222222222222222222222222222222222222222"),
        commits,
        compare: text("https://h/compare"),
        repository: Repository { full_name: text(repo) },
    }
}

fn request(
    repo: Option<&str>,
    body: &[u8],
    signature: Option<&str>,
    event: Option<&str>,
    ping: Result<GitHubPingEvent, String>,
    push: Result<GitHubPushEvent, String>,
) -> WebhookRequest {
    WebhookRequest {
        body: body.to_vec(),
        early: repo.map(|r| GitHubEarlyParse { repository: Repository { full_name: text(r) } }),
        signature: signature.map(|s| s.as_bytes().to_vec()),
        event: event.map(text),
        ping,
        push,
    }
}

fn main_push() -> GitHubPushEvent {
    push_event("org/repo", "refs/heads/main", vec![commit("0123456789abcdef", "Fix bug", "https://h/c/1")])
}

#[test]
fn hmac_matches_known_vector() {
    let hex = compute_signature("Jefe", b"what do ya want for nothing?");
    assert_eq!(
        String::from_utf8(hex).unwrap(),
        "sha256=5bdcc146bf60754e6a042426089575c75a003f089d2739839dec58b964ec3843"
    );
}

#[test]
fn lower_hex_of_bytes() {
    assert_eq!(to_lower_hex(&[0x00, 0x0f, 0xa5, 0xff]), b"000fa5ff".to_vec());
    assert_eq!(to_lower_hex(&[]), Vec::<u8>::new());
}

#[test]
fn own_signature_verifies_and_another_key_does_not() {
    let body = b"payload";
    let good = compute_signature("key", body);
    assert_eq!(verify_signature("key", body, &Some(good)), Ok(()));
    let other = compute_signature("other", body);
    assert_eq!(verify_signature("key", body, &Some(other)), Err(SignatureError::Mismatch));
}

#[test]
fn signature_check_ignores_hex_case_and_needs_header() {
    let upper_hex = format!("sha256={}", PUSH_SIGNATURE["sha256=".len()..].to_uppercase());
    assert_eq!(verify_signature("s3cr3t", PUSH_BODY, &Some(upper_hex.into_bytes())), Ok(()));
    let upper_tag = PUSH_SIGNATURE.to_uppercase();
    assert_eq!(
        verify_signature("s3cr3t", PUSH_BODY, &Some(upper_tag.into_bytes())),
        Err(SignatureError::Mismatch)
    );
    assert_eq!(verify_signature("s3cr3t", PUSH_BODY, &None), Err(SignatureError::HeaderMissing));
    assert_eq!(
        verify_signature("s3cr3t", PUSH_BODY, &Some(b"sha256=00".to_vec())),
        Err(SignatureError::Mismatch)
    );
    assert_eq!(verify_signature("", PUSH_BODY, &None), Ok(()));
}

#[test]
fn push_with_good_signature_is_delivered() {
    let config = scenario_config(None);
    let event = main_push();
    let expected_text = event.to_message();
    let req = request(
        Some("org/repo"),
        PUSH_BODY,
        Some(PUSH_SIGNATURE),
        Some("push"),
        Err(text("not a ping")),
        Ok(event),
    );
    let outcome = handle_post(&config, &req);
    assert_eq!(outcome.response.status, 200);
    assert_eq!(outcome.response.reason, "");
    assert!(!outcome.response.empty);
    let bundle = outcome.delivery.unwrap();
    assert_eq!(bundle.receiver(), &vec![111, 222]);
    assert_eq!(bundle.text(), expected_text);
}

#[test]
fn push_without_signature_header_is_refused() {
    let config = scenario_config(None);
    let req = request(Some("org/repo"), PUSH_BODY, None, Some("push"), Err(text("x")), Ok(main_push()));
    let outcome = handle_post(&config, &req);
    assert_eq!(outcome.response.status, 403);
    assert_eq!(outcome.response.reason, "signature header missing");
    assert!(outcome.delivery.is_none());
}

#[test]
fn push_with_wrong_signature_is_refused() {
    let config = scenario_config(None);
    let req = request(
        Some("org/repo"),
        b"{\"ref\":\"refs/heads/evil\"}",
        Some(PUSH_SIGNATURE),
        Some("push"),
        Err(text("x")),
        Ok(main_push()),
    );
    let outcome = handle_post(&config, &req);
    assert_eq!(outcome.response.status, 403);
    assert_eq!(outcome.response.reason, "signature mismatch");
    assert!(outcome.delivery.is_none());
}

#[test]
fn repository_with_empty_secret_needs_no_signature() {
    let config = scenario_config(None);
    let req = request(
        Some("org/open"),
        b"{}",
        None,
        Some("push"),
        Err(text("x")),
        Ok(push_event("org/open", "refs/heads/main", vec![])),
    );
    let outcome = handle_post(&config, &req);
    assert_eq!(outcome.response.status, 200);
    assert_eq!(outcome.delivery.unwrap().receiver(), &vec![999]);
}

#[test]
fn same_ping_twice_is_answered_twice() {
    let config = scenario_config(None);
    let zen = "Half measures are as bad as nothing at all.";
    let make = || {
        request(
            Some("org/open"),
            b"{\"zen\":\"...\"}",
            None,
            Some("ping"),
            Ok(GitHubPingEvent { zen: text(zen) }),
            Err(text("not a push")),
        )
    };
    let first = handle_post(&config, &make());
    let second = handle_post(&config, &make());
    for outcome in [first, second] {
        assert_eq!(outcome.response.status, 200);
        assert_eq!(outcome.response.reason, zen);
        assert!(outcome.delivery.is_none());
    }
}

#[test]
fn ignored_branch_is_skipped() {
    let config = scenario_config(Some(vec![text("main")]));
    let req = request(
        Some("org/repo"),
        PUSH_BODY,
        Some(PUSH_SIGNATURE),
        Some("push"),
        Err(text("x")),
        Ok(main_push()),
    );
    let outcome = handle_post(&config, &req);
    assert_eq!(outcome.response.status, 204);
    assert_eq!(outcome.response.reason, "Skipped.");
    assert!(!outcome.response.empty);
    assert!(outcome.delivery.is_none());
}

#[test]
fn zero_hash_gives_empty_response() {
    let config = scenario_config(Some(vec![text("main")]));
    for (before, after) in [("0000000", "1234567"), ("1234567", "0000000")] {
        let mut event = main_push();
        event.before = text(before);
        event.after = text(after);
        let req = request(
            Some("org/repo"),
            PUSH_BODY,
            Some(PUSH_SIGNATURE),
            Some("push"),
            Err(text("x")),
            Ok(event),
        );
        let outcome = handle_post(&config, &req);
        assert_eq!(outcome.response.status, 204);
        assert!(outcome.response.empty);
        assert_eq!(outcome.response.reason, "");
        assert!(outcome.delivery.is_none());
    }
}

#[test]
fn unsupported_and_broken_requests() {
    let config = scenario_config(None);
    let unsupported = handle_post(
        &config,
        &request(Some("org/open"), b"{}", None, Some("issues"), Err(text("a")), Err(text("b"))),
    );
    assert_eq!(unsupported.response.status, 400);
    assert_eq!(unsupported.response.reason, "Unsupported event type \"issues\"");

    let quoted = handle_post(
        &config,
        &request(Some("org/open"), b"{}", None, Some("a\"b\\c\td"), Err(text("a")), Err(text("b"))),
    );
    assert_eq!(quoted.response.status, 400);
    assert_eq!(quoted.response.reason, "Unsupported event type \"a\\\"b\\\\c\\td\"");

    let no_kind = handle_post(
        &config,
        &request(Some("org/open"), b"{}", None, None, Err(text("a")), Err(text("b"))),
    );
    assert_eq!(no_kind.response.status, 500);
    assert_eq!(no_kind.response.reason, "");

    let no_repo =
        handle_post(&config, &request(None, b"[]", None, Some("push"), Err(text("a")), Err(text("b"))));
    assert_eq!(no_repo.response.status, 500);

    let bad_ping = handle_post(
        &config,
        &request(Some("org/open"), b"{}", None, Some("ping"), Err(text("missing field `zen`")), Err(text("b"))),
    );
    assert_eq!(bad_ping.response.status, 500);
    assert_eq!(bad_ping.response.reason, "missing field `zen`");

    let bad_push = handle_post(
        &config,
        &request(Some("org/open"), b"{}", None, Some("push"), Err(text("a")), Err(text("missing field `ref`"))),
    );
    assert_eq!(bad_push.response.status, 500);
    assert_eq!(bad_push.response.reason, "missing field `ref`");
    assert!(bad_push.delivery.is_none());
}

#[test]
fn oversized_body_overflows() {
    let mut buffer = BodyBuffer::new();
    let chunk = vec![b'x'; 8192];
    let mut read: usize = 0;
    let mut refused = None;
    while read < 300_000 {
        let n = std::cmp::min(chunk.len(), 300_000 - read);
        match buffer.push_chunk(&chunk[..n]) {
            Ok(()) => read += n,
            Err(response) => {
                refused = Some(response);
                break;
            }
        }
    }
    let response = refused.expect("the body must be refused");
    assert_eq!(response.status, 400);
    assert_eq!(response.reason, "overflow");
    assert!(read < 300_000);
    assert!(buffer.bytes().len() <= BODY_LIMIT);
    assert_eq!(buffer.bytes().len(), read);
}

#[test]
fn body_up_to_the_limit_is_kept() {
    let mut buffer = BodyBuffer::new();
    assert!(buffer.push_chunk(&vec![1u8; BODY_LIMIT - 1]).is_ok());
    assert!(buffer.push_chunk(&[2u8]).is_ok());
    assert!(buffer.push_chunk(&[3u8]).is_err());
    let bytes = buffer.into_bytes();
    assert_eq!(bytes.len(), BODY_LIMIT);
    assert_eq!(bytes[BODY_LIMIT - 1], 2);
}

#[test]
fn zero_hash_check() {
    assert!(check_0("0000000000000000000000000000000000000000"));
    assert!(check_0(""));
    assert!(!check_0("0000000000000000000000000000000000000001"));
}

#[test]
fn branch_name_is_last_segment() {
    let event = push_event("MagomeYae/test-action", "refs/heads/master", vec![]);
    assert_eq!(event.get_full_name(), "MagomeYae/test-action");
    assert_eq!(event.branch_name(), "master");
    assert_eq!(push_event("a/b", "refs/heads/feature/x", vec![]).branch_name(), "x");
    assert_eq!(push_event("a/b", "main", vec![]).branch_name(), "main");
}

#[test]
fn commit_lines() {
    let c = commit("0123456789abcdef", "Title\n\nBody text", "https://h/c/1");
    assert_eq!(c.display(true), "<a href=\"https://h/c/1\">01234567</a>: Title");
    assert_eq!(c.display(false), "<a href=\"https://h/c/1\">01234567</a>: Title\n\nBody text");
    let short = commit("abc", "One line", "u");
    assert_eq!(short.display(true), "<a href=\"u\">abc</a>: One line");
}

#[test]
fn single_commit_message() {
    let event = push_event(
        "org/repo",
        "refs/heads/main",
        vec![commit("0123456789abcdef", "Fix bug\n\nDetails", "https://h/c/1")],
    );
    assert_eq!(
        event.to_message(),
        "🔨 <a href=\"https://h/c/1\">1 new commit</a> <b>to org/repo:main</b>:\n\n\
         <a href=\"https://h/c/1\">01234567</a>: Fix bug\n\nDetails"
    );
}

#[test]
fn several_commits_message() {
    let event = push_event(
        "org/repo",
        "refs/heads/dev",
        vec![
            commit("aaaaaaaaaaaa", "First\nmore", "u1"),
            commit("bbbbbbbbbbbb", "Second", "u2"),
        ],
    );
    assert_eq!(
        event.to_message(),
        "🔨 <a href=\"https://h/compare\">2 new commits</a> <b>to org/repo:dev</b>:\n\n\
         <a href=\"u1\">aaaaaaaa</a>: First\n<a href=\"u2\">bbbbbbbb</a>: Second"
    );
    let twelve: Vec<Commit> = (0..12).map(|i| commit("cccccccccc", &format!("c{}", i), "u")).collect();
    let many = push_event("o/r", "refs/heads/x", twelve);
    assert!(many.to_message().starts_with("🔨 <a href=\"https://h/compare\">12 new commits</a>"));
}

#[test]
fn responses_carry_version() {
    let ok = Response::new_ok();
    assert_eq!(ok.status, 200);
    assert_eq!(ok.version, SERVER_VERSION);
    assert_eq!(ok.version, "1.0.0");
    let r = Response::reason(403, "nope");
    assert_eq!(r.reason, "nope");
    assert!(!r.empty);
    let e = Response::new_empty();
    assert_eq!(e.status, 204);
    assert!(e.empty);
    assert_eq!(Response::new(500).reason, "");
}

#[test]
fn token_authorization() {
    assert!(AuthorizationGuard::check("", None).is_ok());
    assert!(AuthorizationGuard::check("", Some("anything")).is_ok());
    assert_eq!(AuthorizationGuard::check("abc", None).err(), Some(403));
    assert!(AuthorizationGuard::check("abc", Some("token=abc")).is_ok());
    assert!(AuthorizationGuard::check("abc", Some("a=1&token=abc&b=2")).is_ok());
    assert!(AuthorizationGuard::check("ab=c", Some("token=ab=c")).is_ok());
    assert_eq!(AuthorizationGuard::check("abc", Some("token=abcd")).err(), Some(403));
    assert_eq!(AuthorizationGuard::check("abc", Some("token")).err(), Some(403));
    assert_eq!(AuthorizationGuard::check("abc", Some("x=token=abc")).err(), Some(403));
    assert_eq!(AuthorizationGuard::check("abc", Some("tokens=abc&")).err(), Some(403));
}

#[test]
fn worker_fans_out_and_stops() {
    let mut worker = DeliveryWorker::new("1:bot");
    assert!(worker.enabled);
    let sends = worker.handle(Command::Bundle(CommandBundle::new(vec![5, 6, 7], text("hi"))));
    let pairs: Vec<(i64, String)> = sends.into_iter().map(|d| (d.chat_id, d.text)).collect();
    assert_eq!(pairs, vec![(5, text("hi")), (6, text("hi")), (7, text("hi"))]);
    assert!(worker.handle(Command::Terminate).is_empty());
    assert_eq!(worker.state, WorkerState::Terminated);
    assert!(!worker.is_running());
    let after = worker.handle(Command::Bundle(CommandBundle::new(vec![5], text("late"))));
    assert!(after.is_empty());
}

#[test]
fn disabled_worker_sends_nothing_but_stops() {
    let mut worker = DeliveryWorker::new("");
    assert!(!worker.enabled);
    assert!(worker.handle(Command::Bundle(CommandBundle::new(vec![1], text("x")))).is_empty());
    assert!(worker.is_running());
    assert!(worker.handle(Command::Terminate).is_empty());
    assert!(!worker.is_running());
}
