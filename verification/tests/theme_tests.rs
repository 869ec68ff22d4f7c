use codex_skin_workshop::color_map::ColorMap;
use codex_skin_workshop::theme::{
    bounded_u16, bounded_unit_f32, schema_version, valid_hex_color, validate_text,
    validate_theme_id, Theme,
};
use codex_skin_workshop::AppError;

fn pairs(items: &[(&str, &str)]) -> Vec<(String, String)> {
    items.iter().map(|(k, v)| (k.to_string(), v.to_string())).collect()
}

fn sample_theme() -> Theme {
    Theme {
        schema_version: 1,
        id: "night".into(),
        name: "夜色".into(),
        subtitle: "CODEX SKIN".into(),
        tagline: "把喜欢的画面变成工作台".into(),
        project_prefix: "项目 · ".into(),
        project_label: "选择项目".into(),
        status_text: "主题已启用".into(),
        quote: "创造美好的东西".into(),
        colors: ColorMap::from_pairs(pairs(&[("accent", "#abcdef"), ("background", "#101319")])),
        background_image: Some("images/background.jpg".into()),
        opacity: Some(0.8f32.to_bits()),
        blur_px: Some(4),
        brightness_pct: Some(80),
        saturation_pct: Some(120),
        image_position_x_pct: Some(50),
        image_position_y_pct: Some(50),
        image_scale_pct: Some(100),
        panel_opacity: Some(0.86f32.to_bits()),
        panel_blur_px: Some(12),
        corner_radius_px: Some(18),
        content_max_width_px: Some(950),
        show_brand: Some(true),
        show_status: Some(true),
        show_quote: Some(true),
        show_orbit: Some(true),
        show_particles: Some(true),
        particle_count: Some(8),
    }
}

/// A theme as a file without optional fields reads: every optional field
/// takes its default.
fn minimal_theme(id: &str, name: &str, colors: ColorMap) -> Theme {
    Theme {
        schema_version: schema_version(),
        id: id.into(),
        name: name.into(),
        subtitle: String::new(),
        tagline: String::new(),
        project_prefix: String::new(),
        project_label: String::new(),
        status_text: String::new(),
        quote: String::new(),
        colors,
        background_image: None,
        opacity: None,
        blur_px: None,
        brightness_pct: None,
        saturation_pct: None,
        image_position_x_pct: None,
        image_position_y_pct: None,
        image_scale_pct: None,
        panel_opacity: None,
        panel_blur_px: None,
        corner_radius_px: None,
        content_max_width_px: None,
        show_brand: None,
        show_status: None,
        show_quote: None,
        show_orbit: None,
        show_particles: None,
        particle_count: None,
    }
}

fn message(r: Result<(), AppError>) -> String {
    match r {
        Err(AppError::Validation(m)) => m,
        other => panic!("expected a validation error, got {:?}", other),
    }
}

#[test]
fn rejects_code_fields_and_bad_colors() {
    let mut theme = sample_theme();
    theme.colors.insert("accent".into(), "red; color:white".into());
    assert!(theme.validate().is_err());
}

#[test]
fn old_versionless_theme_defaults_to_version_one() {
    let theme = minimal_theme("x", "x", ColorMap::from_pairs(pairs(&[("accent", "#abcdef")])));
    assert_eq!(theme.schema_version, 1);
    assert!(theme.validate().is_ok());
}

#[test]
fn exported_theme_does_not_leak_local_image_path() {
    let theme = sample_theme();
    assert_eq!(theme.shareable().background_image, None);
}

#[test]
fn sample_theme_is_valid() {
    assert!(sample_theme().validate().is_ok());
}

#[test]
fn shareable_keeps_every_other_setting_and_stays_valid() {
    let theme = sample_theme();
    let shared = theme.shareable();
    assert_eq!(shared.id, theme.id);
    assert_eq!(shared.name, theme.name);
    assert_eq!(shared.quote, theme.quote);
    assert_eq!(shared.colors.entries(), theme.colors.entries());
    assert_eq!(shared.opacity, theme.opacity);
    assert_eq!(shared.particle_count, theme.particle_count);
    assert!(shared.validate().is_ok());
}

#[test]
fn schema_version_other_than_one_is_rejected() {
    let mut theme = sample_theme();
    theme.schema_version = 2;
    assert_eq!(message(theme.validate()), "仅支持版本 1 的主题文件");
}

#[test]
fn theme_id_rules() {
    let mut theme = sample_theme();
    for bad in ["", "a b", "名字", "x/y", &"a".repeat(81)] {
        theme.id = bad.to_string();
        assert_eq!(
            message(theme.validate()),
            "主题 ID 只能包含 1–80 个英文字母、数字、短横线或下划线",
            "{bad}"
        );
        assert_eq!(message(validate_theme_id(bad)), "主题 ID 无效");
    }
    for good in ["a", "Night-2_x", &"a".repeat(80)] {
        theme.id = good.to_string();
        assert!(theme.validate().is_ok());
        assert!(validate_theme_id(good).is_ok());
    }
}

#[test]
fn text_rules() {
    assert_eq!(message(validate_text("主题名称", "   \t", 120, false)), "主题名称长度不符合要求");
    assert!(validate_text("副标题", "", 80, true).is_ok());
    assert!(validate_text("副标题", "\u{3000}", 80, true).is_ok());
    assert_eq!(message(validate_text("副标题", "a\0", 80, true)), "副标题长度不符合要求");
    assert!(validate_text("引言", &"字".repeat(80), 80, true).is_ok());
    assert!(validate_text("引言", &"字".repeat(81), 80, true).is_err());
    let mut theme = sample_theme();
    theme.name = "\u{2003}".into();
    assert_eq!(message(theme.validate()), "主题名称长度不符合要求");
    let mut theme = sample_theme();
    theme.tagline = "x".repeat(161);
    assert_eq!(message(theme.validate()), "主题说明长度不符合要求");
}

#[test]
fn range_rules_and_messages() {
    assert_eq!(message(bounded_u16("背景亮度", Some(9), 10, 200)), "背景亮度必须在 10 到 200 之间");
    assert!(bounded_u16("背景亮度", Some(10), 10, 200).is_ok());
    assert!(bounded_u16("背景亮度", Some(200), 10, 200).is_ok());
    assert!(bounded_u16("背景亮度", None, 10, 200).is_ok());
    assert_eq!(
        message(bounded_u16("内容最大宽度", Some(1601), 640, 1600)),
        "内容最大宽度必须在 640 到 1600 之间"
    );
    let mut theme = sample_theme();
    theme.corner_radius_px = Some(41);
    assert_eq!(message(theme.validate()), "圆角必须在 0 到 40 之间");
}

#[test]
fn opacity_must_be_finite_and_in_unit_interval() {
    for ok in [0.0f32, -0.0, 0.5, 1.0, f32::MIN_POSITIVE, 1e-45] {
        assert!(bounded_unit_f32("背景透明度", Some(ok.to_bits())).is_ok(), "{ok}");
    }
    for bad in [1.0000001f32, -1e-45, -0.5, 2.0, f32::NAN, f32::INFINITY, f32::NEG_INFINITY] {
        assert_eq!(
            message(bounded_unit_f32("背景透明度", Some(bad.to_bits()))),
            "背景透明度必须在 0 到 1 之间",
            "{bad}"
        );
    }
    let mut theme = sample_theme();
    theme.panel_opacity = Some(f32::NAN.to_bits());
    assert_eq!(message(theme.validate()), "面板透明度必须在 0 到 1 之间");
}

#[test]
fn hex_colors() {
    for ok in ["#abc", "#abcd", "#a1B2c3", "#00112233"] {
        assert!(valid_hex_color(ok), "{ok}");
    }
    for bad in ["abc", "#ab", "#abcde", "#abcdefg", "#ggg", "#ab€", "red; color:white"] {
        assert!(!valid_hex_color(bad), "{bad}");
    }
}

#[test]
fn color_errors_name_the_first_bad_entry() {
    let mut theme = sample_theme();
    theme.colors.insert("zeta".into(), "#000".into());
    assert_eq!(message(theme.validate()), "不支持的颜色字段：zeta");
    let mut theme = sample_theme();
    theme.colors.insert("accent".into(), "blue".into());
    assert_eq!(message(theme.validate()), "颜色 accent 不是有效的十六进制颜色");
    let names = [
        "background", "panel", "panel-alt", "accent", "accent-alt", "secondary", "highlight",
        "text", "muted", "line", "surface", "extra",
    ];
    let mut theme = sample_theme();
    for n in names {
        theme.colors.insert(n.into(), "#fff".into());
    }
    assert_eq!(message(theme.validate()), "主题颜色数量过多");
}

#[test]
fn particles_and_background_image() {
    let mut theme = sample_theme();
    theme.particle_count = Some(25);
    assert_eq!(message(theme.validate()), "粒子数量不能超过 24");
    theme.particle_count = Some(24);
    assert!(theme.validate().is_ok());
    for bad in ["/etc/passwd", "images/../x", "images\\x", "images/a\0", "other/x.png", "image/x"] {
        let mut theme = sample_theme();
        theme.background_image = Some(bad.into());
        assert_eq!(
            message(theme.validate()),
            "背景图片必须是已导入的 images/<文件名> 路径",
            "{bad}"
        );
    }
}

#[test]
fn first_broken_rule_is_reported() {
    let mut theme = sample_theme();
    theme.quote = "q".repeat(81);
    theme.blur_px = Some(101);
    assert_eq!(message(theme.validate()), "引言长度不符合要求");
}

#[test]
fn color_map_keeps_keys_sorted_and_replaces_values() {
    let mut m = ColorMap::new();
    assert_eq!(m.insert("text".into(), "#111".into()), None);
    assert_eq!(m.insert("accent".into(), "#222".into()), None);
    assert_eq!(m.insert("muted".into(), "#333".into()), None);
    assert_eq!(m.insert("accent".into(), "#444".into()), Some("#222".to_string()));
    let keys: Vec<&str> = m.entries().iter().map(|(k, _)| k.as_str()).collect();
    assert_eq!(keys, vec!["accent", "muted", "text"]);
    assert_eq!(m.entries()[0].1, "#444");
    assert_eq!(m.len(), 3);
    let later_wins = ColorMap::from_pairs(pairs(&[("b", "1"), ("a", "2"), ("b", "3")]));
    assert_eq!(later_wins.entries(), &pairs(&[("a", "2"), ("b", "3")])[..]);
}

#[test]
fn surface_is_a_theme_color() {
    let theme = minimal_theme("x", "x", ColorMap::from_pairs(pairs(&[("surface", "#112233")])));
    assert!(theme.validate().is_ok());
    let names = [
        "background", "panel", "panel-alt", "accent", "accent-alt", "secondary", "highlight",
        "text", "muted", "line", "surface",
    ];
    let all: Vec<(&str, &str)> = names.iter().map(|n| (*n, "#abc")).collect();
    let theme = minimal_theme("x", "x", ColorMap::from_pairs(pairs(&all)));
    assert!(theme.validate().is_ok());
}
