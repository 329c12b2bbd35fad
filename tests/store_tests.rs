use reader_store::error::{Invalid, StoreError};
use reader_store::listing::{background_ext_allowed, list_backgrounds, list_presets, DirFile};
use reader_store::paths::{get_app_dir, join, StoreLayout};
use reader_store::prefs::{
    default_container_opacity, default_music_volume, default_reading_mode,
    default_scrollbar_thumb, get_preferences, set_preferences, validate_preferences,
    UserPreferences,
};
use reader_store::preset::{
    delete_preset, load_preset, preset_file_name, save_custom_preset, validate_preset,
    BackgroundConfig, OverlayConfig, Preset, ReaderConfig,
};

fn preset(version: &str, name: &str) -> Preset {
    Preset {
        version: version.to_string(),
        name: name.to_string(),
        author: None,
        description: None,
        background: BackgroundConfig { bg_type: "image".to_string(), path: None },
        overlay: OverlayConfig { color: "#000000".to_string(), opacity: 0.5f32.to_bits() },
        reader: ReaderConfig {
            opacity: 0.9f32.to_bits(),
            background_color: "#ffffff".to_string(),
            text_color: None,
            font_family: None,
            font_size: None,
            reading_mode: None,
            glassmorphism: None,
            glass_blur: None,
            scrollbar_track: None,
            scrollbar_thumb: None,
        },
    }
}

fn field_of(r: Result<(), Invalid>) -> String {
    match r {
        Err(e) => e.field(),
        Ok(()) => String::new(),
    }
}

#[test]
fn font_size_bounds() {
    let mut p = UserPreferences::default();
    for ok in [12u32, 32] {
        p.font_size = ok;
        assert!(validate_preferences(&p).is_ok());
    }
    for bad in [11u32, 33] {
        p.font_size = bad;
        let r = validate_preferences(&p);
        assert!(matches!(r, Err(Invalid::FontSize(n)) if n == bad));
        assert_eq!(field_of(r), "fontSize");
    }
}

#[test]
fn font_family_and_mode_checked_in_order() {
    let mut p = UserPreferences::default();
    p.font_family = "cursive".to_string();
    p.reading_mode = "flipbook".to_string();
    assert_eq!(field_of(validate_preferences(&p)), "fontFamily");
    p.font_family = "monospace".to_string();
    let r = validate_preferences(&p);
    assert!(matches!(r, Err(Invalid::ReadingMode(ref m)) if m == "flipbook"));
    p.reading_mode = "scrolled".to_string();
    assert!(validate_preferences(&p).is_ok());
    p.font_size = 40;
    p.font_family = "cursive".to_string();
    assert_eq!(field_of(validate_preferences(&p)), "fontSize");
}

#[test]
fn set_preferences_returns_record_or_error() {
    let mut p = UserPreferences::default();
    p.font_family = "sans-serif".to_string();
    assert_eq!(set_preferences(p.clone()).ok(), Some(p.clone()));
    p.font_size = 11;
    assert!(matches!(
        set_preferences(p),
        Err(StoreError::Validation(Invalid::FontSize(11)))
    ));
}

#[test]
fn defaults() {
    let d = get_preferences(None);
    assert_eq!(d.font_family, "serif");
    assert_eq!(d.font_size, 18);
    assert_eq!(d.last_preset, Some("Cozy Reading".to_string()));
    assert_eq!(d.reading_mode, "paginated");
    assert_eq!(d.text_color, "#1a1a1a");
    assert_eq!(d.container_color, "#FFFFFF");
    assert_eq!(d.container_opacity, 95);
    assert!(!d.glassmorphism);
    assert_eq!(d.glass_blur, 12);
    assert!(d.bg_audio_muted && d.bg_music_muted);
    assert_eq!(d.bg_music_volume, 50);
    assert_eq!(d.scrollbar_track, "transparent");
    assert_eq!(d.scrollbar_thumb, "rgba(255, 255, 255, 0.25)");
    assert_eq!(default_reading_mode(), "paginated");
    assert_eq!(default_container_opacity(), 95);
    assert_eq!(default_music_volume(), 50);
    assert_eq!(default_scrollbar_thumb(), "rgba(255, 255, 255, 0.25)");
    let mut stored = UserPreferences::default();
    stored.font_size = 20;
    assert_eq!(get_preferences(Some(stored.clone())), stored);
}

#[test]
fn preset_version_gate() {
    assert!(validate_preset(&preset("1.0", "a")).is_ok());
    assert!(validate_preset(&preset("2.0", "a")).is_ok());
    assert!(matches!(
        validate_preset(&preset("1.5", "a")),
        Err(StoreError::Validation(Invalid::Version(ref v))) if v == "1.5"
    ));
    assert!(matches!(
        load_preset("a", Some(Ok(preset("1.5", "a")))),
        Err(StoreError::Validation(_))
    ));
    assert!(matches!(
        save_custom_preset("a".to_string(), Ok(preset("1.5", "a"))),
        Err(StoreError::Validation(_))
    ));
    assert!(load_preset("a", Some(Ok(preset("1.0", "a")))).is_ok());
    assert!(save_custom_preset("a".to_string(), Ok(preset("2.0", "a"))).is_ok());
}

#[test]
fn save_overrides_embedded_name() {
    let saved = save_custom_preset("Mine".to_string(), Ok(preset("2.0", "Theirs"))).unwrap();
    assert_eq!(saved.name, "Mine");
    assert_eq!(preset_file_name("Mine"), "Mine.json");
}

#[test]
fn load_and_delete_errors() {
    assert!(matches!(load_preset("x", None), Err(StoreError::NotFound(ref n)) if n == "x"));
    assert!(matches!(
        load_preset("x", Some(Err("bad json".to_string()))),
        Err(StoreError::Parse(ref m)) if m == "bad json"
    ));
    assert!(matches!(
        save_custom_preset("x".to_string(), Err("bad".to_string())),
        Err(StoreError::Parse(_))
    ));
    assert!(delete_preset("x", true).is_ok());
    assert!(matches!(delete_preset("x", false), Err(StoreError::NotFound(ref n)) if n == "x"));
}

fn file(path: &str, stem: Option<&str>, ext: Option<&str>) -> DirFile {
    DirFile {
        path: path.to_string(),
        stem: stem.map(|s| s.to_string()),
        extension: ext.map(|s| s.to_string()),
    }
}

#[test]
fn presets_listed_by_json_stem() {
    let files = vec![
        file("/p/cozy.json", Some("cozy"), Some("json")),
        file("/p/readme.txt", Some("readme"), Some("txt")),
        file("/p/.initialized", Some(".initialized"), None),
        file("/p/night.JSON", Some("night"), Some("JSON")),
        file("/p/focus.json", Some("focus"), Some("json")),
    ];
    assert_eq!(list_presets(&files), vec!["cozy".to_string(), "focus".to_string()]);
}

#[test]
fn backgrounds_ignore_extension_case() {
    let files = vec![
        file("/b/a.PNG", Some("a"), Some("PNG")),
        file("/b/b.gif", Some("b"), Some("gif")),
        file("/b/c.svg", Some("c"), Some("svg")),
        file("/b/d", Some("d"), None),
        file("/b/e.Jpeg", Some("e"), Some("Jpeg")),
    ];
    assert_eq!(
        list_backgrounds(&files),
        vec!["/b/a.PNG".to_string(), "/b/c.svg".to_string(), "/b/e.Jpeg".to_string()]
    );
    assert!(background_ext_allowed("webp"));
    assert!(!background_ext_allowed("WEBP"));
}

#[test]
fn layout_paths() {
    assert_eq!(get_app_dir("/home/u"), "/home/u/.epub-reader");
    assert_eq!(join("/home/u/", "x"), "/home/u/x");
    assert_eq!(join("", "x"), "x");
    let l = StoreLayout::new("/home/u");
    assert_eq!(l.library_file(), "/home/u/.epub-reader/library.json");
    assert_eq!(l.preferences_file(), "/home/u/.epub-reader/preferences.json");
    assert_eq!(l.presets_dir(), "/home/u/.epub-reader/presets");
    assert_eq!(l.covers_dir(), "/home/u/.epub-reader/cache/covers");
    assert_eq!(l.backgrounds_dir(), "/home/u/.epub-reader/media/backgrounds");
}
