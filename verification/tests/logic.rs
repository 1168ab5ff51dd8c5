//! Decisions and texts.

use codex_account_hub::accounts::AccountInfo;
use codex_account_hub::app_server::{
    answer_in, end_line, query, read_line, redact_email, to_snapshot, verify_query_identity,
    Answer, Query, ServerAction, ServerEvent, UsageSnapshot, LimitWindow,
};
use codex_account_hub::backups::{backup_file_name, outdated_backups};
use codex_account_hub::codex_desktop::{
    is_codex_process, restart, CodexProcess, DesktopAction, DesktopEvent, Restart,
};
use codex_account_hub::commands::{
    combine_operation_and_cleanup, login_home_name, run_interactive_login, tray_texts,
    Interactive, ProcessAction, ProcessEvent,
};
use codex_account_hub::credentials::{
    auth_identity, usable_auth_identity, validate_account_id, validate_auth,
};
use codex_account_hub::digest::fingerprint;
use codex_account_hub::durable::{
    atomic_write, draft_name, AtomicWrite, DiskAction, DiskEvent, FileKind,
};
use codex_account_hub::effects::{Home, HomeFile, Place, Step};
use codex_account_hub::json::{parse, Json, JsonNumber};
use codex_account_hub::login::{
    LoginState, WaitAction, WaitChild, WaitEvent, CANCELLED,
};
use codex_account_hub::paths::{cache_path, index_path, place_path, Base};
use codex_account_hub::recovery::{checked_path, Ancestor};
use codex_account_hub::runtime::{
    codex_home, discover_runtime, newest_first, path_candidates, Bundled, Discover,
    RuntimeAction, RuntimeEvent,
};
use codex_account_hub::text::{
    contains, long_number_text, number_text, replace, signed_number_text, trim,
};
use codex_account_hub::usage_cache::{read_cache, CacheFile, CacheReply, UsageCache};
use codex_account_hub::usage_error::{classify, ErrorKind, UsageQueryError};

#[test]
fn rejects_usage_when_login_changes_or_disappears_during_query() {
    assert!(verify_query_identity("account-a", &Some("account-a".to_string())).is_ok());
    assert!(verify_query_identity("account-a", &Some("account-b".to_string())).is_err());
    assert!(verify_query_identity("account-a", &None).is_err());
}

fn number(value: JsonNumber) -> f64 {
    match value {
        JsonNumber::Unsigned(n) => n as f64,
        JsonNumber::Negative(n) => n as f64,
        JsonNumber::Fraction(bits) => f64::from_bits(bits),
    }
}

#[test]
fn parses_camel_case_usage() {
    let account = parse(
        br#"{"account":{"type":"chatgpt","email":"alice@example.com","planType":"plus"}}"#,
    )
    .unwrap();
    let usage = parse(
        br#"{"rateLimits":{"primary":{"usedPercent":63.0,"windowDurationMins":300,"resetsAt":1000},"secondary":null,"rateLimitReachedType":null},"rateLimitResetCredits":{"availableCount":3}}"#,
    )
    .unwrap();
    let snapshot = to_snapshot(&account, &usage, 42);
    let info = snapshot.account.unwrap();
    assert_eq!(info.email.as_deref(), Some("a***@example.com"));
    assert_eq!(info.account_type.as_deref(), Some("chatgpt"));
    assert_eq!(info.plan_type.as_deref(), Some("plus"));
    let primary = snapshot.primary.unwrap();
    let used = number(primary.used_percent.unwrap());
    assert_eq!((100.0 - used).clamp(0.0, 100.0), 37.0);
    assert_eq!(primary.window_duration_mins, Some(300));
    assert_eq!(primary.resets_at, Some(1000));
    assert!(snapshot.secondary.is_none());
    assert!(snapshot.rate_limit_reached_type.is_none());
    assert_eq!(snapshot.reset_credits_available, Some(3));
    assert_eq!(snapshot.captured_at, 42);
    assert_eq!(snapshot.account_id, "");
}

#[test]
fn parses_snake_case_usage() {
    let account = parse(br#"{"account":{"planType":7,"plan_type":"pro"}}"#).unwrap();
    let usage = parse(
        br#"{"rate_limits":{"primary":{"used_percent":12,"window_duration_mins":5,"resets_at":-1},"rate_limit_reached_type":"primary"},"rate_limit_reset_credits":{"available_count":0}}"#,
    )
    .unwrap();
    let snapshot = to_snapshot(&account, &usage, 1);
    assert_eq!(snapshot.account.unwrap().plan_type.as_deref(), Some("pro"));
    let primary = snapshot.primary.unwrap();
    assert_eq!(primary.used_percent, Some(JsonNumber::Unsigned(12)));
    assert_eq!(primary.resets_at, None);
    assert_eq!(snapshot.rate_limit_reached_type.as_deref(), Some("primary"));
    assert_eq!(snapshot.reset_credits_available, Some(0));
    let nothing = to_snapshot(&Json::Null, &Json::Null, 1);
    assert!(nothing.account.is_none() && nothing.primary.is_none());
}

#[test]
fn redacts_addresses() {
    assert_eq!(redact_email("alice@example.com"), "a***@example.com");
    assert_eq!(redact_email("@example.com"), "****@example.com");
    assert_eq!(redact_email("nobody"), "***");
    assert_eq!(redact_email("中文@a@b"), "中***@a@b");
    assert_eq!(redact_email("albert@example.com"), redact_email("alice@example.com"));
}

#[test]
fn classifies_actionable_usage_errors() {
    let auth = UsageQueryError::from("当前 auth.json 不包含 ChatGPT access token".to_string());
    assert_eq!(auth.code, "authentication_required");
    assert!(auth.reauth_required);

    for message in [
        "无法读取当前认证文件：Access is denied",
        "无法读取隔离认证状态",
        "DPAPI 解密失败",
        "当前 auth.json 不是有效 JSON",
    ] {
        let error = UsageQueryError::from(message.to_string());
        assert_eq!(error.code, "local_io");
        assert!(!error.reauth_required);
    }
    let changed =
        UsageQueryError::from("查询期间账号已变化，已丢弃本次结果，请重新刷新".to_string());
    assert_eq!(changed.code, "account_changed");
    assert!(!changed.reauth_required);
    assert!(
        UsageQueryError::from("App Server 请求失败：refresh_token_reused".to_string())
            .reauth_required
    );

    assert_eq!(
        UsageQueryError::from("App Server 请求超时".to_string()).code,
        "timeout"
    );
    assert_eq!(
        UsageQueryError::from("未找到 codex.exe".to_string()).code,
        "runtime_unavailable"
    );
}

#[test]
fn classifies_the_other_errors() {
    for (message, code) in [
        ("无法确定 Codex Home：缺少 USERPROFILE", "runtime_unavailable"),
        ("DNS lookup failed", "network"),
        ("CONNECTION refused", "network"),
        ("App Server 在响应前退出", "app_server"),
        ("无法清理账号运行目录", "local_io"),
        ("HTTP 401", "authentication_required"),
        ("UNAUTHORIZED", "authentication_required"),
        ("something else", "unknown"),
        ("ΣΑΣ TIMEOUT", "timeout"),
    ] {
        let error = UsageQueryError::from(message.to_string());
        assert_eq!(error.code, code);
        assert_eq!(error.message, message);
        assert_eq!(error.reauth_required, code == "authentication_required");
    }
    assert_eq!(classify("network"), ErrorKind::Network);
    assert_eq!(classify("NETWORK"), ErrorKind::Unknown);
}

#[test]
fn cancellation_is_scoped_and_cannot_interrupt_commit() {
    let mut state = LoginState::default();
    let session = state.begin("first".to_string()).unwrap();
    assert!(!state.cancel("previous").unwrap());
    session.phase(&mut state, "saving").unwrap();
    assert!(!state.cancel("first").unwrap());
    session.end(&mut state);
    let next = state.begin("second".to_string()).unwrap();
    assert!(state.cancel("second").unwrap());
    assert!(next.phase(&mut state, "saving").is_err());
    next.end(&mut state);
    assert!(state.begin("third".to_string()).is_ok());
}

#[test]
fn login_requests_are_checked() {
    let mut state = LoginState::default();
    assert_eq!(state.begin(String::new()).unwrap_err(), "登录请求标识无效");
    assert_eq!(state.begin("字".repeat(27)).unwrap_err(), "登录请求标识无效");
    let session = state.begin("a".repeat(80)).unwrap();
    assert_eq!(state.begin("b".to_string()).unwrap_err(), "已有登录进行中");
    let progress = session.phase(&mut state, "waiting").unwrap();
    assert_eq!(progress.phase, "waiting");
    assert_eq!(progress.request_id, "a".repeat(80));
    assert!(session.check(&state).is_ok());
    session.end(&mut state);
    let late = state.begin("c".to_string()).unwrap();
    state.active = None;
    assert_eq!(late.phase(&mut state, "waiting").unwrap_err(), "登录已经结束");
    assert_eq!(late.check(&state).unwrap_err(), CANCELLED);
    let other = state.begin("d".to_string()).unwrap();
    late.end(&mut state);
    assert!(other.check(&state).is_ok());
}

#[test]
fn cancellation_releases_queued_operation() {
    let mut state = LoginState::default();
    let session = state.begin("queued".to_string()).unwrap();
    assert!(matches!(
        session.wait(&state, false),
        Step::Ask(WaitAction::Poll(50), WaitChild::Polled)
    ));
    assert!(matches!(session.wait(&state, true), Step::Done(Ok(()))));
    state.cancel("queued").unwrap();
    assert!(matches!(session.wait(&state, false), Step::Done(Err(_))));
    assert!(matches!(session.wait(&state, true), Step::Done(Err(_))));
}

#[test]
fn cancellation_and_timeout_reap_only_the_fixture_process() {
    for cancel in [true, false] {
        let mut state = LoginState::default();
        let session = state.begin("fixture".to_string()).unwrap();
        let mut running = true;
        if cancel {
            state.cancel("fixture").unwrap();
        }
        let mut step = session.wait_child(&state, true);
        let result = loop {
            match step {
                Step::Done(result) => break result,
                Step::Ask(action, machine) => {
                    let event = match action {
                        WaitAction::Poll(_) => WaitEvent::Running,
                        WaitAction::Kill => {
                            running = false;
                            WaitEvent::Done
                        }
                        WaitAction::Reap => {
                            assert!(!running);
                            WaitEvent::Done
                        }
                    };
                    step = WaitChild::resume(machine, event, session.check(&state), true);
                }
            }
        };
        let expected = if cancel { CANCELLED } else { "登录等待已超过 10 分钟，请重试" };
        assert_eq!(result.unwrap_err(), expected);
        assert!(!running);
    }
}

#[test]
fn waiting_for_a_login_tells_each_end() {
    let end = |event: WaitEvent| match WaitChild::resume(WaitChild::Polled, event, Ok(()), false) {
        Step::Done(result) => result,
        other => panic!("{other:?}"),
    };
    assert!(end(WaitEvent::Ended { success: true }).is_ok());
    assert_eq!(
        end(WaitEvent::Ended { success: false }).unwrap_err(),
        "Codex 登录未完成或已取消"
    );
    assert_eq!(
        end(WaitEvent::Failed("x".to_string())).unwrap_err(),
        "等待 Codex 登录失败：x"
    );
    let killed = WaitChild::Killed { reason: "r".to_string() };
    match WaitChild::resume(killed, WaitEvent::Failed("x".to_string()), Ok(()), false) {
        Step::Done(Err(error)) => assert_eq!(error, "r；无法结束登录进程：x"),
        other => panic!("{other:?}"),
    }
    let reaped = WaitChild::Reaped { reason: "r".to_string() };
    match WaitChild::resume(reaped, WaitEvent::Failed("x".to_string()), Ok(()), false) {
        Step::Done(Err(error)) => assert_eq!(error, "无法确认登录进程退出：x"),
        other => panic!("{other:?}"),
    }
}

fn snapshot(captured_at: u64) -> UsageSnapshot {
    UsageSnapshot {
        account_id: String::new(),
        account: Some(AccountInfo {
            account_type: Some("chatgpt".to_string()),
            email: Some("a***@example.com".to_string()),
            plan_type: Some("plus".to_string()),
        }),
        primary: Some(LimitWindow {
            used_percent: Some(JsonNumber::Fraction(25.0f64.to_bits())),
            window_duration_mins: Some(300),
            resets_at: Some(1234),
        }),
        secondary: None,
        rate_limit_reached_type: None,
        reset_credits_available: Some(2),
        captured_at,
    }
}

#[test]
fn round_trips_non_sensitive_usage_snapshots() {
    let mut cache = UsageCache::load(CacheReply::Missing);
    assert!(cache.store("aaaaaaaaaaaaaaaaaaaaaaaa".to_string(), snapshot(42)));
    let file = cache.to_file();
    assert_eq!(file.version, 1);
    let loaded = read_cache(CacheReply::File(file)).unwrap().all();
    assert_eq!(loaded.len(), 1);
    assert_eq!(loaded[0].0, "aaaaaaaaaaaaaaaaaaaaaaaa");
    assert_eq!(loaded[0].1.captured_at, 42);
    assert_eq!(
        loaded[0].1.account.as_ref().and_then(|account| account.email.as_deref()),
        Some("a***@example.com")
    );
}

#[test]
fn ignores_corrupt_cache_at_startup() {
    let damaged = || CacheReply::Damaged("expected value at line 1 column 1".to_string());
    assert!(UsageCache::load(damaged()).all().is_empty());
    assert_eq!(
        read_cache(damaged()).unwrap_err(),
        "额度缓存损坏：expected value at line 1 column 1"
    );
    assert_eq!(
        read_cache(CacheReply::Failed("x".to_string())).unwrap_err(),
        "无法读取额度缓存：x"
    );
    let newer = CacheFile { version: 9, snapshots: vec![("a".to_string(), snapshot(1))] };
    assert_eq!(
        read_cache(CacheReply::File(newer)).unwrap_err(),
        "不支持的额度缓存版本：9"
    );
}

#[test]
fn does_not_replace_a_newer_snapshot_with_an_older_one() {
    let mut cache = UsageCache::load(CacheReply::Missing);
    let account_id = "aaaaaaaaaaaaaaaaaaaaaaaa".to_string();
    assert!(cache.store(account_id.clone(), snapshot(100)));
    assert!(!cache.store(account_id.clone(), snapshot(50)));
    assert_eq!(cache.all()[0].1.captured_at, 100);
    assert!(cache.store(account_id.clone(), snapshot(100)));
    assert!(cache.store("other".to_string(), snapshot(7)));
    assert!(cache.store(account_id.clone(), snapshot(101)));
    assert_eq!(cache.all().len(), 2);
    cache.remove(&account_id);
    assert_eq!(cache.all().len(), 1);
    assert_eq!(cache.all()[0].0, "other");
}

#[test]
fn rejects_auth_without_access_token() {
    assert!(validate_auth(br#"{"tokens":{}}"#).is_err());
    assert!(validate_auth(br#"{"tokens":{"access_token":""}}"#).is_err());
    assert!(validate_auth(br#"{"tokens":{"access_token":5}}"#).is_err());
    assert!(validate_auth(br#"{"tokens":{"access_token":"x"}}"#).is_ok());
    assert_eq!(validate_auth(b"not-json").unwrap_err(), "当前 auth.json 不是有效 JSON");
}

#[test]
fn identity_is_stable_for_same_account() {
    let a = br#"{"tokens":{"access_token":"one","account_id":"account-1"}}"#;
    let b = br#"{"tokens":{"access_token":"two","account_id":"account-1"}}"#;
    assert_eq!(auth_identity(a).unwrap(), auth_identity(b).unwrap());
    assert_eq!(auth_identity(a).unwrap(), fingerprint(b"account-1")[..24].to_string());
    let c = br#"{"tokens":{"access_token":"two","id_token":"account-1"}}"#;
    assert_eq!(auth_identity(a).unwrap(), auth_identity(c).unwrap());
    assert_eq!(
        usable_auth_identity(br#"{"tokens":{"account_id":"account-1"}}"#).unwrap_err(),
        "当前 auth.json 不包含 ChatGPT access token"
    );
    assert!(validate_account_id(&auth_identity(a).unwrap()).is_ok());
}

#[test]
fn fingerprints_are_sha_256_in_hexadecimal() {
    assert_eq!(
        fingerprint(b"abc"),
        "ba7816bf8f01cfea414140de5dae2223b00361a396177a9cb410ff61f20015ad"
    );
    assert_eq!(
        fingerprint(b""),
        "e3b0c44298fc1c149afbf4c8996fb92427ae41e4649b934ca495991b7852b855"
    );
}

#[test]
fn rejects_account_ids_that_could_escape_the_vault() {
    assert!(validate_account_id("../auth").is_err());
    assert!(validate_account_id("aaaaaaaaaaaaaaaaaaaaaaaa").is_ok());
    assert!(validate_account_id("ABCDEFabcdef0123456789ab").is_ok());
    assert!(validate_account_id("aaaaaaaaaaaaaaaaaaaaaaag").is_err());
    assert!(validate_account_id("aaaaaaaaaaaaaaaaaaaaaaaaa").is_err());
    assert_eq!(validate_account_id("").unwrap_err(), "账号 ID 格式无效");
}

#[test]
fn json_is_read_with_its_numbers() {
    let json = parse(br#"{"a":[1,-2,2.5,true,null,"x"],"a":[7]}"#).unwrap();
    let last = json.get("a").unwrap();
    match last {
        Json::Array(items) => assert_eq!(items[0].as_u64(), Some(7)),
        other => panic!("{other:?}"),
    }
    let json = parse(br#"[1,-2,2.5,18446744073709551615]"#).unwrap();
    match &json {
        Json::Array(items) => {
            assert_eq!(items[0].as_number(), Some(JsonNumber::Unsigned(1)));
            assert_eq!(items[1].as_i64(), Some(-2));
            assert_eq!(items[1].as_u64(), None);
            assert_eq!(items[2].as_number(), Some(JsonNumber::Fraction(2.5f64.to_bits())));
            assert_eq!(items[3].as_u64(), Some(u64::MAX));
            assert_eq!(items[3].as_i64(), None);
        }
        other => panic!("{other:?}"),
    }
    assert!(json.get("a").is_none());
    assert!(parse(b"{").is_err());
    let member = parse(br#"{"x":{"y":"z"}}"#).unwrap().into_member("x").unwrap();
    assert_eq!(member.get("y").unwrap().as_str(), Some("z"));
}

fn expect_send(step: Step<ServerAction, Query, UsageSnapshot>) -> (String, Query) {
    match step {
        Step::Ask(ServerAction::Send(bytes), machine) => {
            (String::from_utf8(bytes).unwrap(), machine)
        }
        other => panic!("{other:?}"),
    }
}

fn expect_receive(step: Step<ServerAction, Query, UsageSnapshot>, again: bool) -> Query {
    match step {
        Step::Ask(ServerAction::Receive { fresh }, machine) => {
            assert_eq!(fresh, !again);
            machine
        }
        other => panic!("{other:?}"),
    }
}

#[test]
fn conversation_with_the_server_runs_through() {
    let line = |text: &str| ServerEvent::Line(text.to_string());
    let (sent, machine) = expect_send(query("0.7.2"));
    assert_eq!(
        sent,
        "{\"id\":1,\"method\":\"initialize\",\"params\":{\"capabilities\":{},\"clientInfo\":{\"name\":\"codex_account_hub\",\"title\":\"Codex Account Hub\",\"version\":\"0.7.2\"}}}\n"
    );
    let machine = expect_receive(Query::resume(machine, ServerEvent::Sent), false);
    let machine = expect_receive(Query::resume(machine, line("not json")), true);
    let machine = expect_receive(Query::resume(machine, line(r#"{"id":2,"result":1}"#)), true);
    let (sent, machine) = expect_send(Query::resume(machine, line(r#"{"id":1,"result":{}}"#)));
    assert_eq!(sent, "{\"method\":\"initialized\",\"params\":{}}\n");
    let (sent, machine) = expect_send(Query::resume(machine, ServerEvent::Sent));
    assert_eq!(
        sent,
        "{\"id\":2,\"method\":\"account/read\",\"params\":{\"refreshToken\":false}}\n"
    );
    let machine = expect_receive(Query::resume(machine, ServerEvent::Sent), false);
    let answer = line(r#"{"id":2,"result":{"account":{"email":"bob@x.y"}}}"#);
    let (sent, machine) = expect_send(Query::resume(machine, answer));
    assert_eq!(sent, "{\"id\":3,\"method\":\"account/rateLimits/read\",\"params\":{}}\n");
    let machine = expect_receive(Query::resume(machine, ServerEvent::Sent), false);
    let answer = line(r#"{"id":3,"result":{"rateLimits":{"primary":{"resetsAt":9}}}}"#);
    let machine = match Query::resume(machine, answer) {
        Step::Ask(ServerAction::Now, machine) => machine,
        other => panic!("{other:?}"),
    };
    match Query::resume(machine, ServerEvent::Time(77)) {
        Step::Done(Ok(snapshot)) => {
            assert_eq!(snapshot.captured_at, 77);
            assert_eq!(snapshot.account.unwrap().email.as_deref(), Some("b***@x.y"));
            assert_eq!(snapshot.primary.unwrap().resets_at, Some(9));
        }
        other => panic!("{other:?}"),
    }
}

#[test]
fn conversation_with_the_server_tells_each_error() {
    let error_of = |machine: Query, event: ServerEvent| match Query::resume(machine, event) {
        Step::Done(Err(error)) => error,
        other => panic!("{other:?}"),
    };
    assert_eq!(
        error_of(Query::InitializeSent, ServerEvent::WriteFailed("x".to_string())),
        "App Server 写入失败：x"
    );
    assert_eq!(error_of(Query::Account, ServerEvent::TimedOut), "App Server 请求超时");
    assert_eq!(error_of(Query::Initialize, ServerEvent::Closed), "App Server 在响应前退出");
    assert_eq!(error_of(Query::Account, ServerEvent::Failed("y".to_string())), "y");
    let failed = r#"{"id":2,"error":{"code":-32600,"message":"bad"},"result":1}"#;
    assert_eq!(
        error_of(Query::Account, ServerEvent::Line(failed.to_string())),
        "App Server 请求失败（Some(-32600)）：bad"
    );
    match read_line(r#"{"id":2,"error":{}}"#, 2) {
        Answer::Failed(error) => assert_eq!(error, "App Server 请求失败（None）：未知错误"),
        other => panic!("{other:?}"),
    }
    match answer_in(parse(br#"{"id":2}"#).unwrap(), 2) {
        Answer::Failed(error) => assert_eq!(error, "App Server 响应缺少 result"),
        other => panic!("{other:?}"),
    }
    assert!(matches!(read_line(r#"{"id":"2","result":1}"#, 2), Answer::Other));
    assert_eq!(end_line(Err("z".to_string())).unwrap_err(), "z");
}

#[test]
fn atomically_replaces_auth_file() {
    let mut target = Some(b"old-auth".to_vec());
    let mut draft: Option<Vec<u8>> = Some(b"stale".to_vec());
    let mut seen = Vec::new();
    let mut step = atomic_write(FileKind::Login, true, b"new-auth".to_vec());
    let result = loop {
        match step {
            Step::Done(result) => break result,
            Step::Ask(action, machine) => {
                seen.push(target.clone());
                let event = match action {
                    DiskAction::DraftExists => DiskEvent::Present(draft.is_some()),
                    DiskAction::TargetExists => DiskEvent::Present(target.is_some()),
                    DiskAction::RemoveDraft => {
                        draft = None;
                        DiskEvent::Done
                    }
                    DiskAction::CreateDraft => {
                        assert!(draft.is_none());
                        draft = Some(Vec::new());
                        DiskEvent::Done
                    }
                    DiskAction::WriteDraft(bytes) => {
                        draft = Some(bytes);
                        DiskEvent::Done
                    }
                    DiskAction::Commit => {
                        target = draft.take();
                        DiskEvent::Done
                    }
                    _ => DiskEvent::Done,
                };
                step = AtomicWrite::resume(machine, event);
            }
        }
    };
    result.unwrap();
    assert_eq!(target.unwrap(), b"new-auth");
    assert!(draft.is_none());
    assert!(seen.iter().all(|content| content.as_deref() == Some(b"old-auth".as_slice())));
}

fn failing_write(kind: FileKind, windows: bool, at: usize) -> String {
    let mut step = atomic_write(kind, windows, b"new".to_vec());
    let mut turn = 0;
    loop {
        match step {
            Step::Done(result) => return result.unwrap_err(),
            Step::Ask(action, machine) => {
                let event = match action {
                    _ if turn == at => DiskEvent::Failed("x".to_string()),
                    DiskAction::DraftExists | DiskAction::TargetExists => DiskEvent::Present(true),
                    _ => DiskEvent::Done,
                };
                turn += 1;
                step = AtomicWrite::resume(machine, event);
            }
        }
    }
}

#[test]
fn writes_tell_each_error() {
    for (kind, texts) in [
        (
            FileKind::Saved,
            [
                "x",
                "无法清理旧临时文件：x",
                "写入临时文件失败：x",
                "写入临时文件失败：x",
                "同步临时文件失败：x",
                "原子提交账号文件失败：x",
            ],
        ),
        (
            FileKind::Login,
            [
                "无法创建认证目录：x",
                "无法清理旧切换临时文件：x",
                "无法创建切换临时文件：x",
                "无法写入切换临时文件：x",
                "无法同步切换临时文件：x",
                "原子替换认证文件失败：x",
            ],
        ),
        (
            FileKind::Cache,
            [
                "无法创建缓存目录：x",
                "无法清理旧缓存临时文件：x",
                "无法创建缓存临时文件：x",
                "无法写入缓存临时文件：x",
                "无法同步缓存临时文件：x",
                "原子提交额度缓存失败：x",
            ],
        ),
    ] {
        for (number, at) in [0usize, 2, 3, 4, 5, 6].iter().enumerate() {
            assert_eq!(failing_write(kind, true, *at), texts[number]);
        }
    }
    assert_eq!(failing_write(FileKind::Saved, false, 7), "无法更新账号文件：x");
    assert_eq!(failing_write(FileKind::Saved, false, 8), "提交账号文件失败：x");
    assert_eq!(failing_write(FileKind::Cache, false, 7), "无法更新额度缓存：x");
    assert_eq!(failing_write(FileKind::Cache, false, 8), "无法提交额度缓存：x");
    assert_eq!(failing_write(FileKind::Login, false, 0), "账号切换当前只支持 Windows");
    assert_eq!(draft_name(FileKind::Saved, "accounts.json"), ".accounts.json.tmp");
    assert_eq!(draft_name(FileKind::Login, "auth.json"), ".auth.json.codex-account-hub.tmp");
    assert_eq!(draft_name(FileKind::Cache, "usage-cache.json"), ".usage-cache.json.tmp");
}

#[test]
fn checks_paths_for_links() {
    assert!(checked_path(true, &vec![Ancestor::Missing, Ancestor::Plain]).is_ok());
    assert_eq!(
        checked_path(false, &vec![Ancestor::Plain]).unwrap_err(),
        "恢复路径必须是绝对路径"
    );
    assert_eq!(
        checked_path(true, &vec![Ancestor::Plain, Ancestor::Linked]).unwrap_err(),
        "恢复路径包含链接或重解析点，已停止自动处理"
    );
    assert_eq!(
        checked_path(true, &vec![Ancestor::Failed("x".to_string()), Ancestor::Linked])
            .unwrap_err(),
        "无法检查恢复路径：x"
    );
}

#[test]
fn places_have_their_paths() {
    let path = |place: Place| {
        let (base, names) = place_path(&place);
        (base, names.join("/"))
    };
    let id = "aaaaaaaaaaaaaaaaaaaaaaaa";
    assert_eq!(
        path(Place::InHome(Home::Active, HomeFile::Auth)),
        (Base::CodexHome, "auth.json".to_string())
    );
    assert_eq!(
        path(Place::InHome(Home::Runtime(id.to_string()), HomeFile::Child)),
        (Base::DataDir, format!("runtime/{id}/hub-child.json"))
    );
    assert_eq!(
        path(Place::Vault(id.to_string())),
        (Base::DataDir, format!("vault/{id}.dpapi"))
    );
    assert_eq!(
        path(Place::Staged(id.to_string())),
        (Base::DataDir, format!("vault/.{id}.deleting"))
    );
    assert_eq!(
        path(Place::Journal),
        (Base::DataDir, "switch-transaction.dpapi".to_string())
    );
    assert_eq!(index_path().1, vec!["accounts.json".to_string()]);
    assert_eq!(cache_path().1, vec!["usage-cache.json".to_string()]);
}

#[test]
fn newest_backups_are_told_by_their_names() {
    assert_eq!(backup_file_name(12, 345, "abc"), "12-345-abc.dpapi");
    let names: Vec<String> = ["b.dpapi", "a.dpapi", ".dpapi", "c.txt", "c.dpapi"]
        .iter()
        .map(|name| name.to_string())
        .collect();
    assert_eq!(outdated_backups(&names, 2), vec!["a.dpapi".to_string()]);
    assert_eq!(
        outdated_backups(&names, 0),
        vec!["c.dpapi".to_string(), "b.dpapi".to_string(), "a.dpapi".to_string()]
    );
    assert!(outdated_backups(&names, 9).is_empty());
}

fn desktop(answers: Vec<DesktopEvent>) -> (Result<(bool, usize), String>, Vec<String>) {
    let mut log = Vec::new();
    let mut answers = answers.into_iter();
    let mut step = restart(true);
    loop {
        match step {
            Step::Done(result) => {
                return (
                    result.map(|outcome| (outcome.was_running, outcome.processes_closed)),
                    log,
                )
            }
            Step::Ask(action, machine) => {
                let event = match &action {
                    DesktopAction::Sleep(_) | DesktopAction::Close(_) => DesktopEvent::Done,
                    _ => answers.next().unwrap(),
                };
                log.push(format!("{action:?}"));
                step = Restart::resume(machine, event);
            }
        }
    }
}

fn process(pid: u32) -> CodexProcess {
    CodexProcess { pid, app_id: "OpenAI.Codex_xyz!App".to_string() }
}

#[test]
fn desktop_application_is_closed_and_started_again() {
    let (result, log) = desktop(vec![
        DesktopEvent::Processes(vec![process(1), process(2)]),
        DesktopEvent::Processes(vec![process(2)]),
        DesktopEvent::Done,
        DesktopEvent::Done,
    ]);
    assert_eq!(result.unwrap(), (true, 2));
    assert_eq!(
        log,
        vec![
            "Discover",
            "Close([1, 2])",
            "Sleep(1800)",
            "Discover",
            "Terminate(2)",
            "Sleep(900)",
            "Launch(\"shell:AppsFolder\\\\OpenAI.Codex_xyz!App\")"
        ]
    );
    let (result, log) = desktop(vec![
        DesktopEvent::Processes(Vec::new()),
        DesktopEvent::Processes(Vec::new()),
        DesktopEvent::Failed("x".to_string()),
    ]);
    assert_eq!(result.unwrap_err(), "账号已切换，但无法重新启动 Codex：x");
    assert_eq!(
        log[2],
        "Launch(\"shell:AppsFolder\\\\OpenAI.Codex_2p2nqsd0c76g0!App\")"
    );
    let (result, _) = desktop(vec![DesktopEvent::Failed(String::new())]);
    assert_eq!(result.unwrap_err(), "无法枚举 Windows 进程");
    let (result, _) = desktop(vec![
        DesktopEvent::Processes(vec![process(1)]),
        DesktopEvent::Processes(vec![process(1)]),
        DesktopEvent::Failed(String::new()),
    ]);
    assert_eq!(result.unwrap_err(), "无法结束 Codex 进程 1");
    assert!(matches!(
        restart(false),
        Step::Done(Err(error)) if error == "Codex 桌面端自动重启当前只支持 Windows"
    ));
    assert!(is_codex_process("chatgpt.EXE", "OpenAI.Codex_1!App"));
    assert!(!is_codex_process("chatgpt.exe", "OpenAI.ChatGPT_1!App"));
    assert!(!is_codex_process("codex.exe", "OpenAI.Codex_1!App"));
    assert!(!is_codex_process("ChatGPT.exe", "OpenAI.Codex_1!Other"));
}

#[test]
fn codex_is_found_on_the_path_or_in_the_bundle() {
    assert_eq!(
        path_candidates(" C:\\a.exe \r\n\r\n\tD:\\b.exe\n"),
        vec!["C:\\a.exe".to_string(), "D:\\b.exe".to_string()]
    );
    let bundled = |path: &str, modified: Option<u128>| Bundled { path: path.to_string(), modified };
    assert_eq!(
        newest_first(vec![
            bundled("a", Some(1)),
            bundled("b", None),
            bundled("c", Some(3)),
            bundled("d", Some(1)),
            bundled("e", None)
        ]),
        vec!["c", "d", "a", "e", "b"]
    );
    assert_eq!(codex_home(Some("x".to_string()), Some("y".to_string())).unwrap(), "x");
    assert_eq!(codex_home(None, Some("y".to_string())).unwrap(), "y");
    let discover = |where_prints: Option<&str>, files: Vec<&str>, version: bool| {
        let mut step = discover_runtime(codex_home(Some("home".to_string()), None));
        loop {
            match step {
                Step::Done(result) => break result,
                Step::Ask(action, machine) => {
                    let event = match action {
                        RuntimeAction::Where => match where_prints {
                            Some(text) => {
                                RuntimeEvent::Output { success: true, text: text.to_string() }
                            }
                            None => RuntimeEvent::Failed,
                        },
                        RuntimeAction::IsFile(path) => {
                            RuntimeEvent::Present(files.contains(&path.as_str()))
                        }
                        RuntimeAction::ListBundled => RuntimeEvent::Entries(vec![
                            bundled("old", Some(1)),
                            bundled("new", Some(2)),
                        ]),
                        RuntimeAction::Version(_) => RuntimeEvent::Output {
                            success: version,
                            text: " codex 1.2\n".to_string(),
                        },
                    };
                    step = Discover::resume(machine, event);
                }
            }
        }
    };
    let found = discover(Some("p\nq\n"), vec!["q", "new"], true).unwrap();
    assert_eq!(found.codex_path, "q");
    assert_eq!(found.codex_home, "home");
    assert_eq!(found.codex_version.as_deref(), Some("codex 1.2"));
    let found = discover(Some("p\n"), vec!["new", "old"], false).unwrap();
    assert_eq!(found.codex_path, "new");
    assert!(found.codex_version.is_none());
    assert_eq!(discover(None, vec!["old"], true).unwrap().codex_path, "old");
    assert_eq!(
        discover(None, Vec::new(), true).unwrap_err(),
        "未找到 codex.exe，请确认已安装 Codex 桌面端或 CLI"
    );
    assert!(matches!(
        discover_runtime(codex_home(None, None)),
        Step::Done(Err(error)) if error == "无法确定 Codex Home：缺少 USERPROFILE"
    ));
}

#[test]
fn results_and_cleanups_are_joined() {
    let ok: Result<String, String> = Ok("v".to_string());
    assert_eq!(combine_operation_and_cleanup(ok, Ok(())).unwrap(), "v");
    let ok: Result<String, String> = Ok("v".to_string());
    assert_eq!(combine_operation_and_cleanup(ok, Err("c".to_string())).unwrap_err(), "c");
    let failed: Result<String, String> = Err("o".to_string());
    assert_eq!(combine_operation_and_cleanup(failed, Ok(())).unwrap_err(), "o");
    let failed: Result<String, String> = Err("o".to_string());
    assert_eq!(
        combine_operation_and_cleanup(failed, Err("c".to_string())).unwrap_err(),
        "o；c"
    );
}

#[test]
fn tray_shows_the_account_in_use() {
    let (menu, hint) = tray_texts(Some(" A & B ".to_string()));
    assert_eq!(menu, "当前账号：A && B");
    assert_eq!(hint, "Codex Account Hub · A & B");
    let (menu, hint) = tray_texts(Some("  ".to_string()));
    assert_eq!(menu, "当前账号：未识别当前账号");
    assert_eq!(hint, "Codex Account Hub · 未识别当前账号");
    assert_eq!(tray_texts(None).0, "当前账号：未识别当前账号");
    assert_eq!(login_home_name(17, 340282366920938463463374607431768211455), "17-340282366920938463463374607431768211455");
}

#[test]
fn official_login_is_recorded_while_it_runs() {
    let go = |answers: Vec<ProcessEvent>| {
        let mut log = Vec::new();
        let mut answers = answers.into_iter();
        let mut step = run_interactive_login();
        loop {
            match step {
                Step::Done(result) => break (result, log),
                Step::Ask(action, machine) => {
                    log.push(format!("{action:?}"));
                    let event = match action {
                        ProcessAction::Kill => ProcessEvent::Finished(Ok(())),
                        _ => answers.next().unwrap(),
                    };
                    step = Interactive::resume(machine, event);
                }
            }
        }
    };
    let ok = || ProcessEvent::Finished(Ok(()));
    let bad = |text: &str| ProcessEvent::Finished(Err(text.to_string()));
    let (result, log) = go(vec![ok(), ok(), ok(), ok(), ProcessEvent::Exited(true), ok()]);
    assert!(result.is_ok());
    assert_eq!(log, vec!["Spawn", "Attach", "Record", "Wait", "HasExited", "Clear"]);
    let (result, log) = go(vec![ok(), bad("a")]);
    assert_eq!(result.unwrap_err(), "a");
    assert_eq!(log.last().unwrap(), "Kill");
    let (result, _) = go(vec![bad("x")]);
    assert_eq!(result.unwrap_err(), "无法启动 Codex 官方登录：x");
    let (result, log) = go(vec![ok(), ok(), ok(), bad("w"), ProcessEvent::Exited(false)]);
    assert_eq!(result.unwrap_err(), "w");
    assert_eq!(log.last().unwrap(), "HasExited");
}

#[test]
fn texts_are_handled_like_those_of_the_standard_library() {
    for code in 0..0x3100u32 {
        if let Some(c) = char::from_u32(code) {
            let text = format!("{c}x{c}");
            assert_eq!(trim(&text), text.trim());
        }
    }
    assert_eq!(number_text(0), "0");
    assert_eq!(number_text(u64::MAX), "18446744073709551615");
    assert_eq!(long_number_text(u128::MAX), u128::MAX.to_string());
    assert_eq!(signed_number_text(i64::MIN), i64::MIN.to_string());
    assert_eq!(signed_number_text(-1), "-1");
    assert!(contains("连接失败", "接失"));
    assert!(!contains("abc", "abcd"));
    assert!(contains("abc", ""));
    assert_eq!(replace("a&b&&", '&', "&&"), "a&&b&&&&");
}
