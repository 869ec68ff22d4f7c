use codex_skin_workshop::codex::HostOs;
use codex_skin_workshop::color_map::ColorMap;
use codex_skin_workshop::store::{
    atomic_temp_file_name, check_theme_file, is_theme_file_name, prepare_export,
    sort_themes_by_name, ThemeStore,
};
use codex_skin_workshop::theme::Theme;
use codex_skin_workshop::AppError;

fn theme(id: &str, name: &str) -> Theme {
    Theme {
        schema_version: 1,
        id: id.into(),
        name: name.into(),
        subtitle: String::new(),
        tagline: String::new(),
        project_prefix: String::new(),
        project_label: String::new(),
        status_text: String::new(),
        quote: String::new(),
        colors: ColorMap::new(),
        background_image: Some("images/a.png".into()),
        opacity: None,
        blur_px: None,
        brightness_pct: None,
        saturation_pct: None,
        image_position_x_pct: None,
        image_position_y_pct: None,
        image_scale_pct: None,
        panel_opacity: None,
        panel_blur_px: None,
        corner_radius_px: None,
        content_max_width_px: None,
        show_brand: None,
        show_status: None,
        show_quote: None,
        show_orbit: None,
        show_particles: None,
        particle_count: None,
    }
}

#[test]
fn store_paths() {
    let store = ThemeStore::new("/root/app".into(), HostOs::MacOs);
    assert_eq!(store.root(), "/root/app");
    let (themes, images) = store.directories();
    assert_eq!(themes, "/root/app/themes");
    assert_eq!(images, "/root/app/images");
    assert_eq!(store.save_path(&theme("night", "夜色")).unwrap(), "/root/app/themes/night.json");
    assert_eq!(store.delete_path("night").unwrap(), "/root/app/themes/night.json");
    match store.delete_path("../x") {
        Err(AppError::Validation(m)) => assert_eq!(m, "主题 ID 无效"),
        other => panic!("{other:?}"),
    }
    assert!(store.save_path(&theme("bad id", "x")).is_err());
}

#[test]
fn theme_file_checks() {
    assert!(check_theme_file(true, 256 * 1024).is_ok());
    for (is_file, len) in [(true, 256 * 1024 + 1), (false, 10)] {
        match check_theme_file(is_file, len) {
            Err(AppError::Validation(m)) => assert_eq!(m, "主题文件必须小于 256 KiB"),
            other => panic!("{other:?}"),
        }
    }
    for yes in ["night.json", "a.b.json", "..json", ".x.json"] {
        assert!(is_theme_file_name(yes), "{yes}");
    }
    for no in ["night.JSON", ".json", "json", "night.json.tmp", "night"] {
        assert!(!is_theme_file_name(no), "{no}");
    }
}

#[test]
fn themes_are_listed_by_name_stably() {
    let sorted = sort_themes_by_name(vec![
        theme("c", "b"),
        theme("a", "a"),
        theme("d", "b"),
        theme("e", "B"),
        theme("f", ""),
    ]);
    let ids: Vec<&str> = sorted.iter().map(|t| t.id.as_str()).collect();
    assert_eq!(ids, vec!["f", "e", "a", "c", "d"]);
    assert!(sort_themes_by_name(vec![]).is_empty());
}

#[test]
fn export_drops_the_image_of_a_valid_theme() {
    let t = theme("night", "夜色");
    let exported = prepare_export(&t).unwrap();
    assert_eq!(exported.background_image, None);
    assert_eq!(exported.id, "night");
    assert_eq!(exported, t.shareable());
    let mut without_image = theme("night", "夜色");
    without_image.background_image = None;
    assert_eq!(exported, without_image);
    assert!(prepare_export(&theme("", "x")).is_err());
}

#[test]
fn temporary_names_are_fresh() {
    let a = atomic_temp_file_name();
    let b = atomic_temp_file_name();
    assert!(a.starts_with(".csw-theme-") && a.ends_with(".tmp"));
    assert_eq!(a.len(), ".csw-theme-".len() + 36 + ".tmp".len());
    let uuid: Vec<char> = a[".csw-theme-".len()..".csw-theme-".len() + 36].chars().collect();
    assert_eq!(uuid[14], '4');
    assert!("89ab".contains(uuid[19]));
    assert_ne!(a, b);
}

#[test]
fn saved_theme_file_is_listed_and_deleted() {
    let store = ThemeStore::new("/data".into(), HostOs::Other);
    let t = theme("night-1_x", "夜色");
    let saved = store.save_path(&t).unwrap();
    assert_eq!(saved, store.delete_path(&t.id).unwrap());
    let file_name = saved.rsplit('/').next().unwrap();
    assert_eq!(file_name, "night-1_x.json");
    assert!(is_theme_file_name(file_name));
    assert!(!is_theme_file_name("night.json.tmp"));
    assert!(!is_theme_file_name(".json"));
}

#[test]
fn store_paths_on_windows() {
    let store = ThemeStore::new("C:\\Users\\me\\AppData".into(), HostOs::Windows);
    let (themes, images) = store.directories();
    assert_eq!(themes, "C:\\Users\\me\\AppData\\themes");
    assert_eq!(images, "C:\\Users\\me\\AppData\\images");
    assert_eq!(
        store.save_path(&theme("night", "夜色")).unwrap(),
        "C:\\Users\\me\\AppData\\themes\\night.json"
    );
    assert_eq!(store.delete_path("night").unwrap(), "C:\\Users\\me\\AppData\\themes\\night.json");
}
