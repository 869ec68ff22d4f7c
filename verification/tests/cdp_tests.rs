use base64::Engine;
use codex_skin_workshop::cdp::{
    apply, background_image_path, evaluate_step, prepare_evaluate, render_payload, reply_event, restore,
    CdpEvent, CdpStep, BACKDROP_NODE_ID, RESTORE_PAYLOAD, SCRIPT_BASE64, SCRIPT_DATA_URL,
    SCRIPT_HEAD, SCRIPT_IMAGE_TEST, SCRIPT_TAIL, STYLE_NODE_ID,
};
use codex_skin_workshop::codex::HostOs;
use codex_skin_workshop::color_map::ColorMap;
use codex_skin_workshop::theme::Theme;
use codex_skin_workshop::AppError;

const TEMPLATE: &str = r#"(() => {
const STYLE_ID = 'codex-skin-workshop-style';
const BG_ID = 'codex-skin-workshop-backdrop';
document.getElementById(STYLE_ID)?.remove(); document.getElementById(BG_ID)?.remove();
const style=document.createElement('style'); style.id=STYLE_ID; style.textContent=atob('__CSS__'); document.documentElement.appendChild(style);
if ('__IMAGE__') { const bg=document.createElement('div'); bg.id=BG_ID; bg.setAttribute('aria-hidden','true'); bg.style.backgroundImage=`url("data:__MIME__;base64,__IMAGE__")`; document.documentElement.prepend(bg); }
})()"#;

fn theme(
    colors: &[(&str, &str)],
    background_image: Option<&str>,
    opacity: Option<f32>,
    blur: Option<u16>,
    brightness: Option<u16>,
    saturation: Option<u16>,
) -> Theme {
    Theme {
        schema_version: 1,
        id: "x".into(),
        name: "X".into(),
        subtitle: String::new(),
        tagline: String::new(),
        project_prefix: String::new(),
        project_label: String::new(),
        status_text: String::new(),
        quote: String::new(),
        colors: ColorMap::from_pairs(
            colors.iter().map(|(k, v)| (k.to_string(), v.to_string())).collect(),
        ),
        background_image: background_image.map(String::from),
        opacity: opacity.map(f32::to_bits),
        blur_px: blur,
        brightness_pct: brightness,
        saturation_pct: saturation,
        image_position_x_pct: None,
        image_position_y_pct: None,
        image_scale_pct: None,
        panel_opacity: None,
        panel_blur_px: None,
        corner_radius_px: None,
        content_max_width_px: None,
        show_brand: None,
        show_status: None,
        show_quote: None,
        show_orbit: None,
        show_particles: None,
        particle_count: None,
    }
}

fn opacity_text(t: &Theme) -> String {
    format!("{}", t.opacity.map(f32::from_bits).unwrap_or(1.0))
}

fn expected_css(vars: &str, opacity: &str, blur: u16, brightness: u16, saturation: u16) -> String {
    format!(
        "\n:root{{{vars}}}\n#codex-skin-workshop-backdrop{{position:fixed;inset:-32px;z-index:0;background-size:cover;background-position:center;opacity:{opacity};filter:blur({blur}px) brightness({brightness}%) saturate({saturation}%);pointer-events:none}}\nbody{{background:var(--csw-surface,#101319)!important;color:var(--csw-text,#f4f7f1)!important}}\nbody>*:not(#codex-skin-workshop-backdrop){{position:relative;z-index:1}}\nmain.main-surface,main,[role=\"main\"]{{background:color-mix(in srgb,var(--csw-surface,#101319) 78%,transparent)!important;color:var(--csw-text,#f4f7f1)!important}}\naside.app-shell-left-panel,aside{{background:color-mix(in srgb,var(--csw-surface,#101319) 88%,transparent)!important;border-color:color-mix(in srgb,var(--csw-accent,#b7ff5a) 28%,transparent)!important}}\n.composer-surface-chrome,[data-testid*=\"composer\"]{{background:color-mix(in srgb,var(--csw-surface,#101319) 90%,white 10%)!important;border-color:color-mix(in srgb,var(--csw-accent,#b7ff5a) 35%,transparent)!important}}\nbutton[aria-pressed=\"true\"],[data-state=\"active\"]{{color:var(--csw-accent,#b7ff5a)!important}}\n"
    )
}

fn expected_payload(css: &str, mime: &str, image: &[u8]) -> String {
    let engine = base64::engine::general_purpose::STANDARD;
    let image = if image.is_empty() { String::new() } else { engine.encode(image) };
    TEMPLATE
        .replace("__CSS__", &engine.encode(css))
        .replace("__MIME__", mime)
        .replace("__IMAGE__", &image)
}

#[test]
fn payload_contains_only_encoded_user_values() {
    let dir = tempfile::tempdir().unwrap();
    let t = theme(&[("accent", "#abcdef")], None, Some(0.5), Some(2), Some(80), Some(120));
    assert!(background_image_path(&t, HostOs::Other, dir.path().to_str().unwrap()).unwrap().is_none());
    let payload = render_payload(&t, &opacity_text(&t), &[]).unwrap();
    assert!(payload.contains(STYLE_NODE_ID));
    assert!(!payload.contains("#abcdef"));
    assert!(!payload.contains("--csw-accent"));
}

#[test]
fn restore_is_fixed_and_scoped() {
    assert!(RESTORE_PAYLOAD.contains(STYLE_NODE_ID));
    assert!(RESTORE_PAYLOAD.contains(BACKDROP_NODE_ID));
    assert!(!RESTORE_PAYLOAD.contains("querySelectorAll"));
}

#[test]
fn payload_is_the_template_with_the_encoded_style_sheet() {
    let t = theme(&[("accent", "#abcdef"), ("text", "#fff")], None, Some(0.5), Some(2), Some(80), Some(120));
    let payload = render_payload(&t, &opacity_text(&t), &[]).unwrap();
    let css = expected_css("--csw-accent:#abcdef;--csw-text:#fff;", "0.5", 2, 80, 120);
    assert_eq!(payload, expected_payload(&css, "image/png", b""));
}

#[test]
fn payload_defaults_for_unset_values() {
    let t = theme(&[], None, None, None, None, None);
    let payload = render_payload(&t, &opacity_text(&t), &[]).unwrap();
    let css = expected_css("", "1", 0, 100, 100);
    assert_eq!(payload, expected_payload(&css, "image/png", b""));
}

#[test]
fn payload_embeds_background_image_with_its_media_type() {
    let bytes = b"\x89PNG\r\n\x1a\nfake image bytes";
    for (name, mime) in [
        ("images/a.png", "image/png"),
        ("images/a.JPG", "image/jpeg"),
        ("images/a.jpeg", "image/jpeg"),
        ("images/a.webp", "image/webp"),
        ("images/x/b.gif/.", "image/gif"),
    ] {
        let t = theme(&[], Some(name), None, None, None, None);
        let path = background_image_path(&t, HostOs::Other, "/store").unwrap().unwrap();
        assert_eq!(path, format!("/store/{name}"));
        let payload = render_payload(&t, "1", bytes).unwrap();
        let css = expected_css("", "1", 0, 100, 100);
        assert_eq!(payload, expected_payload(&css, mime, bytes), "{name}");
    }
}

#[test]
fn payload_errors() {
    let t = theme(&[], Some("images/a.bmp"), None, None, None, None);
    match render_payload(&t, "1", b"x") {
        Err(AppError::Validation(m)) => assert_eq!(m, "unsupported imported image extension"),
        other => panic!("{other:?}"),
    }
    let t = theme(&[], Some("images/"), None, None, None, None);
    assert!(render_payload(&t, "1", b"x").is_err());
    let t = theme(&[], Some("images/a.png"), None, None, None, None);
    let big = vec![0u8; 25 * 1024 * 1024 + 1];
    match render_payload(&t, "1", &big) {
        Err(AppError::Validation(m)) => assert_eq!(m, "imported image is too large"),
        other => panic!("{other:?}"),
    }
    let exact = vec![0u8; 25 * 1024 * 1024];
    assert!(render_payload(&t, "1", &exact).is_ok());
    let t = theme(&[("accent", "nope")], None, None, None, None, None);
    match render_payload(&t, "1", &[]) {
        Err(AppError::Validation(m)) => assert_eq!(m, "颜色 accent 不是有效的十六进制颜色"),
        other => panic!("{other:?}"),
    }
}

fn expected_request(expression: &str) -> String {
    let mut params = serde_json::Map::new();
    params.insert("expression".into(), serde_json::Value::String(expression.into()));
    params.insert("awaitPromise".into(), serde_json::Value::Bool(true));
    params.insert("returnByValue".into(), serde_json::Value::Bool(true));
    let mut root = serde_json::Map::new();
    root.insert("id".into(), serde_json::Value::from(1));
    root.insert("method".into(), serde_json::Value::String("Runtime.evaluate".into()));
    root.insert("params".into(), serde_json::Value::Object(params));
    serde_json::Value::Object(root).to_string()
}

#[test]
fn evaluate_request_matches_serde_json() {
    let call = prepare_evaluate("ws://127.0.0.1:3456/devtools/page/abc", 3456, "abc", "a \"quoted\"\n\\ 值").unwrap();
    assert_eq!(call.request, expected_request("a \"quoted\"\n\\ 值"));
    assert_eq!(call.address, "127.0.0.1:3456");
    assert_eq!(call.url.serialization, "ws://127.0.0.1:3456/devtools/page/abc");
    let call = restore("ws://127.0.0.1:3456/devtools/page/abc", 3456, "abc").unwrap();
    assert_eq!(call.request, expected_request(RESTORE_PAYLOAD));
}

#[test]
fn apply_renders_before_checking_the_target() {
    let bad_theme = theme(&[("accent", "nope")], None, None, None, None, None);
    match apply("ws://localhost:1/x", 1, "abc", &bad_theme, "1", &[]) {
        Err(AppError::Validation(_)) => {}
        other => panic!("{other:?}"),
    }
    let good = theme(&[], None, None, None, None, None);
    match apply("ws://localhost:1/x", 1, "abc", &good, "1", &[]) {
        Err(AppError::Cdp(m)) => assert_eq!(m, "调试连接地址未通过安全校验"),
        other => panic!("{other:?}"),
    }
    let call = apply("ws://127.0.0.1:9/devtools/page/abc", 9, "abc", &good, "1", &[]).unwrap();
    let payload = render_payload(&good, "1", &[]).unwrap();
    assert_eq!(call.request, expected_request(&payload));
}

#[test]
fn evaluation_steps() {
    let done_ok = |s: CdpStep| matches!(s, CdpStep::Done(Ok(())));
    let cdp_msg = |s: CdpStep| match s {
        CdpStep::Done(Err(AppError::Cdp(m))) => m,
        other => panic!("{other:?}"),
    };
    assert!(done_ok(evaluate_step(CdpEvent::Reply { id: Some(1), error: None, has_exception: false })));
    assert!(matches!(
        evaluate_step(CdpEvent::Reply { id: Some(2), error: Some("x".into()), has_exception: true }),
        CdpStep::KeepReading
    ));
    assert!(matches!(
        evaluate_step(CdpEvent::Reply { id: None, error: None, has_exception: false }),
        CdpStep::KeepReading
    ));
    assert_eq!(
        cdp_msg(evaluate_step(CdpEvent::Reply { id: Some(1), error: Some("{\"code\":1}".into()), has_exception: true })),
        "{\"code\":1}"
    );
    assert_eq!(
        cdp_msg(evaluate_step(CdpEvent::Reply { id: Some(1), error: None, has_exception: true })),
        "renderer evaluation raised an exception"
    );
    assert_eq!(cdp_msg(evaluate_step(CdpEvent::Closed)), "websocket closed before response");
    assert!(matches!(evaluate_step(CdpEvent::Other), CdpStep::KeepReading));
    assert_eq!(cdp_msg(evaluate_step(CdpEvent::TimedOut)), "CDP response timed out");
    assert_eq!(cdp_msg(evaluate_step(CdpEvent::Failed("boom".into()))), "boom");
}

fn is_base64_text(s: &str) -> bool {
    s.chars().all(|c| c.is_ascii_alphanumeric() || c == '+' || c == '/' || c == '=')
}

#[test]
fn payload_values_appear_only_base64_encoded() {
    let t = theme(
        &[("accent", "#abcdef"), ("line", "#123")],
        Some("images/a.webp"),
        Some(0.25),
        Some(7),
        None,
        Some(150),
    );
    let image = b"<script>alert(1)</script>".to_vec();
    let payload = render_payload(&t, &opacity_text(&t), &image).unwrap();
    let rest = payload.strip_prefix(SCRIPT_HEAD).unwrap();
    let (css, rest) = rest.split_once(SCRIPT_IMAGE_TEST).unwrap();
    let (image_a, rest) = rest.split_once(SCRIPT_DATA_URL).unwrap();
    let (mime, rest) = rest.split_once(SCRIPT_BASE64).unwrap();
    let image_b = rest.strip_suffix(SCRIPT_TAIL).unwrap();
    assert!(is_base64_text(css) && !css.is_empty());
    assert!(is_base64_text(image_a) && image_a == image_b);
    assert_eq!(mime, "image/webp");
    assert!(!payload.contains("<script>"));
}

#[test]
fn evaluations_stay_on_the_loopback_page() {
    let good = theme(&[], None, None, None, None, None);
    for call in [
        apply("ws://127.0.0.1:9/devtools/page/abc", 9, "abc", &good, "1", &[]).unwrap(),
        restore("ws://127.0.0.1:9/devtools/page/abc", 9, "abc").unwrap(),
    ] {
        assert_eq!(call.address, "127.0.0.1:9");
        assert_eq!(call.url.scheme, "ws");
        assert_eq!(call.url.host.as_deref(), Some("127.0.0.1"));
        assert_eq!(call.url.port, Some(9));
        assert_eq!(call.url.path, "/devtools/page/abc");
        assert!(call.url.query.is_none() && call.url.fragment.is_none());
        assert!(call.url.username.is_empty() && call.url.password.is_none());
    }
    assert!(restore("ws://127.0.0.1:9/devtools/page/abc#x", 9, "abc").is_err());
    assert!(restore("ws://user@127.0.0.1:9/devtools/page/abc", 9, "abc").is_err());
}

fn reply(text: &str) -> (Option<u64>, Option<String>, bool) {
    match reply_event(text).unwrap() {
        CdpEvent::Reply { id, error, has_exception } => (id, error, has_exception),
        other => panic!("{other:?}"),
    }
}

#[test]
fn replies_are_read_from_their_json_text() {
    assert_eq!(reply(r#"{"id":1,"result":{"result":{"type":"undefined"}}}"#), (Some(1), None, false));
    assert_eq!(
        reply(r#"{"id":1,"error":{"code":-32000,"message":"x"}}"#),
        (Some(1), Some(r#"{"code":-32000,"message":"x"}"#.to_string()), false)
    );
    assert_eq!(reply(r#"{"id":1,"result":{"exceptionDetails":{}}}"#), (Some(1), None, true));
    assert_eq!(reply(r#"{"id":"1"}"#), (None, None, false));
    assert_eq!(reply(r#"{"method":"Runtime.consoleAPICalled"}"#), (None, None, false));
    assert!(matches!(reply_event("not json"), Err(AppError::Json(_))));
    assert!(matches!(
        evaluate_step(reply_event(r#"{"id":1,"result":{}}"#).unwrap()),
        CdpStep::Done(Ok(()))
    ));
}

#[test]
fn background_image_path_joins_as_the_host_does() {
    let t = theme(&[], Some("images/a.png"), None, None, None, None);
    assert_eq!(background_image_path(&t, HostOs::Windows, "C:\\data").unwrap().unwrap(), "C:\\data\\images/a.png");
    assert_eq!(background_image_path(&t, HostOs::MacOs, "/data/").unwrap().unwrap(), "/data/images/a.png");
}
