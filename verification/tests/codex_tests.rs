use codex_skin_workshop::codex::{
    candidate_paths, check_launch_executable, check_list_status, detect_codex, devtools_list_url,
    find_trusted_target, launch_arguments, path_parts_of, select_preview_target,
    validate_target_ws_url, CodexInstallation, DevtoolsTarget, HostOs,
};
use codex_skin_workshop::commands::{
    check_no_running_instance, combine_restore_results, probe_step, require_managed_port,
    ProbeStep, LAUNCH_PROBE_ATTEMPTS,
};
use codex_skin_workshop::AppError;

fn target(id: &str, kind: &str, url: &str, ws: &str) -> DevtoolsTarget {
    DevtoolsTarget {
        id: id.into(),
        title: String::new(),
        url: url.into(),
        kind: kind.into(),
        web_socket_debugger_url: ws.into(),
    }
}

fn cdp_message<T: std::fmt::Debug>(r: Result<T, AppError>) -> String {
    match r {
        Err(AppError::Cdp(m)) => m,
        other => panic!("expected a CDP error, got {other:?}"),
    }
}

#[test]
fn accepts_only_exact_ws_target() {
    assert!(validate_target_ws_url("ws://127.0.0.1:3456/devtools/page/abc", 3456, "abc").is_ok());
    for bad in [
        "ws://localhost:3456/devtools/page/abc",
        "ws://127.0.0.1:9999/devtools/page/abc",
        "wss://127.0.0.1:3456/devtools/page/abc",
        "ws://127.0.0.1:3456/devtools/page/other",
        "ws://127.0.0.1:3456/devtools/page/abc?q=1",
    ] {
        assert!(validate_target_ws_url(bad, 3456, "abc").is_err(), "{bad}");
    }
}

#[test]
fn ws_url_error_messages() {
    assert_eq!(cdp_message(validate_target_ws_url("ws://127.0.0.1:1/devtools/page/", 1, "")), "调试目标 ID 无效");
    assert_eq!(cdp_message(validate_target_ws_url("ws://127.0.0.1:1/devtools/page/a/b", 1, "a/b")), "调试目标 ID 无效");
    assert_eq!(cdp_message(validate_target_ws_url("not a url", 1, "a")), "relative URL without a base");
    for bad in [
        "ws://127.0.0.1:1/devtools/page/a#f",
        "ws://u@127.0.0.1:1/devtools/page/a",
        "ws://u:p@127.0.0.1:1/devtools/page/a",
        "ws://127.0.0.1/devtools/page/a",
    ] {
        assert_eq!(cdp_message(validate_target_ws_url(bad, 1, "a")), "调试连接地址未通过安全校验", "{bad}");
    }
    let parts = validate_target_ws_url("WS://127.0.0.1:3456/devtools/page/abc", 3456, "abc").unwrap();
    assert_eq!(parts.scheme, "ws");
    assert_eq!(parts.serialization, "ws://127.0.0.1:3456/devtools/page/abc");
}

#[test]
fn selects_page_and_skips_untrusted_targets() {
    let targets = vec![
        target("worker", "service_worker", "", "ws://127.0.0.1:3456/devtools/page/worker"),
        target("page", "page", "app://codex", "ws://127.0.0.1:3456/devtools/page/page"),
    ];
    assert_eq!(select_preview_target(targets, 3456).unwrap().id, "page");
}

#[test]
fn preview_selection_rules() {
    let targets = vec![
        target("a", "page", "devtools://x", "ws://127.0.0.1:1/devtools/page/a"),
        target("", "page", "", "ws://127.0.0.1:1/devtools/page/"),
        target("b", "page", "", "ws://127.0.0.1:2/devtools/page/b"),
        target("c", "", "", "ws://127.0.0.1:1/devtools/page/c"),
        target("d", "webview", "", "ws://127.0.0.1:1/devtools/page/d"),
    ];
    assert_eq!(select_preview_target(targets, 1).unwrap().id, "c");
    assert!(select_preview_target(vec![], 1).is_none());
}

#[test]
fn trusted_target_lookup() {
    let targets = || {
        vec![
            target("a", "page", "", "ws://127.0.0.1:1/devtools/page/a"),
            target("b", "page", "", "ws://evil:1/devtools/page/b"),
        ]
    };
    assert_eq!(find_trusted_target(targets(), 1, "a").unwrap().id, "a");
    assert_eq!(cdp_message(find_trusted_target(targets(), 1, "b")), "调试连接地址未通过安全校验");
    match find_trusted_target(targets(), 1, "z") {
        Err(AppError::Validation(m)) => assert_eq!(m, "target is not currently advertised by managed Codex"),
        other => panic!("{other:?}"),
    }
}

#[test]
fn candidate_paths_per_platform() {
    assert_eq!(
        candidate_paths(HostOs::MacOs, Some("/Users/me"), None, None, None),
        vec![
            "/Applications/Codex.app/Contents/MacOS/Codex",
            "/Applications/ChatGPT.app/Contents/MacOS/ChatGPT",
            "/Users/me/Applications/ChatGPT.app/Contents/MacOS/ChatGPT",
            "/Users/me/Applications/Codex.app/Contents/MacOS/Codex",
        ]
    );
    assert_eq!(candidate_paths(HostOs::MacOs, None, None, None, None).len(), 2);
    assert_eq!(
        candidate_paths(HostOs::Windows, None, Some("C:\\Local"), None, Some("D:\\")),
        vec![
            "C:\\Local\\Codex\\Codex.exe",
            "C:\\Local\\OpenAI\\Codex\\ChatGPT.exe",
            "D:\\Codex\\Codex.exe",
            "D:\\OpenAI\\Codex\\ChatGPT.exe",
            "C:\\Local\\Microsoft\\WindowsApps\\ChatGPT.exe",
            "C:\\Local\\Microsoft\\WindowsApps\\Codex.exe",
        ]
    );
    assert!(candidate_paths(HostOs::Other, Some("/h"), Some("x"), None, None).is_empty());
}

#[test]
fn detection_keeps_existing_files_in_order() {
    let found = detect_codex(vec!["a".into(), "b".into(), "c".into()], &vec![true, false, true]);
    let exes: Vec<&str> = found.iter().map(|c| c.executable.as_str()).collect();
    assert_eq!(exes, vec!["a", "c"]);
    assert!(found.iter().all(|c| c.display_name == "Codex"));
    assert!(check_launch_executable(HostOs::MacOs, &found, "c").is_ok());
    match check_launch_executable(HostOs::MacOs, &found, "b") {
        Err(AppError::Validation(m)) => assert_eq!(m, "所选程序不是已检测到的 Codex"),
        other => panic!("{other:?}"),
    }
}

#[test]
fn launch_arguments_and_endpoint() {
    assert_eq!(
        launch_arguments(9222),
        vec!["--remote-debugging-port=9222", "--remote-debugging-address=127.0.0.1"]
    );
    assert_eq!(devtools_list_url(0), "http://127.0.0.1:0/json/list");
    assert_eq!(devtools_list_url(65535), "http://127.0.0.1:65535/json/list");
    assert!(check_list_status(200).is_ok());
    assert!(check_list_status(299).is_ok());
    assert_eq!(cdp_message(check_list_status(404)), "本机调试接口返回状态 404 Not Found");
    assert_eq!(cdp_message(check_list_status(503)), "本机调试接口返回状态 503 Service Unavailable");
    assert_eq!(cdp_message(check_list_status(599)), "本机调试接口返回状态 599 <unknown status code>");
    assert!(check_list_status(199).is_err());
    assert!(check_list_status(300).is_err());
}

#[test]
fn launch_probe_retries_then_gives_up() {
    let fail = || Err(AppError::Cdp("down".into()));
    assert!(matches!(probe_step(1, fail()), ProbeStep::RetryAfter(100)));
    assert!(matches!(probe_step(LAUNCH_PROBE_ATTEMPTS - 1, fail()), ProbeStep::RetryAfter(100)));
    match probe_step(LAUNCH_PROBE_ATTEMPTS, fail()) {
        ProbeStep::StopAfter(100, AppError::Cdp(m)) => assert_eq!(m, "down"),
        other => panic!("{other:?}"),
    }
    match probe_step(3, Ok(vec![target("p", "page", "", "")])) {
        ProbeStep::Ready(t) => assert_eq!(t[0].id, "p"),
        other => panic!("{other:?}"),
    }
}

#[test]
fn command_guards() {
    assert!(check_no_running_instance(false).is_ok());
    assert!(check_no_running_instance(true).is_err());
    assert_eq!(require_managed_port(Some(7)).unwrap(), 7);
    assert!(require_managed_port(None).is_err());
    let e = |m: &str| Err(AppError::Cdp(m.into()));
    match combine_restore_results(e("restore"), e("stop")) {
        Err(AppError::Cdp(m)) => assert_eq!(m, "restore"),
        other => panic!("{other:?}"),
    }
    match combine_restore_results(Ok(()), e("stop")) {
        Err(AppError::Cdp(m)) => assert_eq!(m, "stop"),
        other => panic!("{other:?}"),
    }
    assert!(combine_restore_results(Ok(()), Ok(())).is_ok());
}

fn std_parts(p: &str) -> Vec<String> {
    std::path::Path::new(p)
        .components()
        .map(|c| c.as_os_str().to_string_lossy().into_owned())
        .collect()
}

#[test]
fn path_parts_match_std_components() {
    for p in [
        "", "/", "//", "a", "/a/b", "/a//b", "/a/b/", "a/./b", "./a", ".", "./", "a/.", "/./a",
        "../a", "a/../b", "/Applications/Codex.app/Contents/MacOS/Codex", "x//./y/.//z/",
    ] {
        assert_eq!(path_parts_of(HostOs::Other, p), std_parts(p), "{p}");
    }
}

#[test]
fn launch_check_compares_path_components() {
    let found = vec![CodexInstallation {
        executable: "/Applications/Codex.app/Contents/MacOS/Codex".into(),
        display_name: "Codex".into(),
    }];
    for same in [
        "/Applications/Codex.app/Contents/MacOS/Codex",
        "/Applications//Codex.app/Contents/MacOS/Codex",
        "/Applications/Codex.app/Contents/MacOS/Codex/",
        "/Applications/./Codex.app/Contents/MacOS/Codex",
    ] {
        assert!(check_launch_executable(HostOs::MacOs, &found, same).is_ok(), "{same}");
    }
    for other in [
        "Applications/Codex.app/Contents/MacOS/Codex",
        "/Applications/Codex.app/Contents/MacOS/../MacOS/Codex",
        "/Applications/Codex.app/Contents/MacOS/codex",
    ] {
        assert!(check_launch_executable(HostOs::MacOs, &found, other).is_err(), "{other}");
    }
}

#[test]
fn launch_check_uses_the_host_separators() {
    let found = vec![CodexInstallation {
        executable: "C:\\Local\\Codex\\Codex.exe".into(),
        display_name: "Codex".into(),
    }];
    for same in ["C:\\Local\\Codex\\Codex.exe", "C:/Local/Codex/Codex.exe", "C:\\Local\\\\Codex\\.\\Codex.exe\\"] {
        assert!(check_launch_executable(HostOs::Windows, &found, same).is_ok(), "{same}");
    }
    assert!(check_launch_executable(HostOs::Windows, &found, "C:\\Local\\Codex.exe").is_err());
    assert!(check_launch_executable(HostOs::MacOs, &found, "C:/Local/Codex/Codex.exe").is_err());
    assert_eq!(path_parts_of(HostOs::Windows, "a\\b/c"), vec!["a", "b", "c"]);
    assert_eq!(path_parts_of(HostOs::MacOs, "a\\b/c"), vec!["a\\b", "c"]);
}
